//! The worker's decisions. A worker handles one fragment job at a time:
//! claim, fetch, decrypt if needed, transcode, record the outcome. Each step
//! maps the current phase and what the last action brought to the next phase
//! and the next action; the caller performs the actions.
use vstd::prelude::*;
use crate::ids::{hyphenated_uuid, id_text};
use crate::model::{Fragment, JobResume};
use crate::status::FragmentJobStatus;
use crate::store::{
    claims_won, cond_update_rows, fragment_job_ids, has_row_in, increasing,
    lemma_unclaimable_claims_lose, ClaimOutcome,
};
use crate::model::TranscodingFragmentJob;
use crate::template::{
    leon_segments, merge_values, pairs_view, render_template, rendered, split_arguments,
    strings_view, words,
};

verus! {

/// Options of the worker process.
#[derive(Debug, Clone, PartialEq, Eq)]
pub struct DaemonCommand {
    /// Root of the transcoded output.
    pub output_dir: String,
    /// Reserve more jobs than can be processed; not acted upon.
    pub reserve: bool,
}

/// What a worker is configured with.
pub struct WorkerConfig {
    pub output_root: String,
    /// Process-wide template values, which job-specific values override.
    pub template_defaults: Vec<(String, String)>,
}

pub enum Phase {
    /// About to look for a queued fragment job.
    Polling,
    /// Waiting for the outcome of the conditional claim of `job`.
    Claiming { job: JobResume },
    /// Waiting for the fragment row and the job's command template.
    Loading { job: JobResume },
    /// Waiting for the payload to be fetched into the working directory.
    Fetching { job: JobResume, fragment: Fragment, command: String },
    /// Waiting for the payload to be decrypted.
    Decrypting { job: JobResume, fragment: Fragment, command: String },
    /// Waiting for the transcoder to exit.
    Transcoding { job: JobResume },
    /// Waiting for the final status to be written and the working
    /// directory to be removed.
    Finishing { job: JobResume },
    /// Waiting out the poll interval.
    Sleeping,
}

pub enum Event {
    /// The oldest queued fragment job, if any.
    Candidate(Option<JobResume>),
    Claim(ClaimOutcome),
    /// The claimed job's fragment row and command template; the parent job
    /// was promoted on the way if it was still queued.
    Loaded { fragment: Fragment, command: String },
    /// The payload is in the working directory at `path`.
    Fetched { path: String },
    /// The plaintext is in the working directory at `path`.
    Decrypted { path: String },
    /// The transcoder exited, with status zero or not.
    Exited { success: bool },
    /// Loading, fetching, decrypting or starting the transcoder failed.
    StepFailed,
    /// The final status is written and the working directory removed.
    Recorded,
    /// The poll interval is over.
    Woke,
}

pub enum Action {
    SelectOldestQueued,
    ClaimIfQueued { fragment_job_id: u128 },
    /// Load the fragment and the job's command; promote the job from
    /// `Queued` to `InProgress` if it is still there.
    Load { fragment_id: u128, transcoding_job_id: u128 },
    /// Create the working directory and fetch `url` into it as `filename`.
    Fetch { url: String, filename: String },
    Decrypt { key_text: String, path: String },
    /// Create `output_dir`, run the transcoder with `args` and wait.
    Run { args: Vec<String>, output: String, output_dir: String },
    /// Move the fragment job from `InProgress` to `status`, then remove the
    /// working directory.
    Finish { fragment_job_id: u128, status: FragmentJobStatus },
    Sleep,
}

/// An event that the phase does not expect.
#[derive(Debug, Clone, Copy, PartialEq, Eq, Structural)]
pub struct UnexpectedEvent;

/// Where a job's output goes: `<root>/<job id>`.
pub open spec fn output_dir_of(root: Seq<char>, job_id: u128) -> Seq<char> {
    root + seq!['/'] + hyphenated_uuid(job_id)
}

/// The output file of a fragment: `<root>/<job id>/<fragment filename>`.
pub open spec fn output_path_of(root: Seq<char>, job_id: u128, filename: Seq<char>) -> Seq<char> {
    output_dir_of(root, job_id) + seq!['/'] + filename
}

/// The values that a job sets: its input and output paths.
pub open spec fn job_values(input: Seq<char>, output: Seq<char>) -> Seq<(Seq<char>, Seq<char>)> {
    seq![("input"@, input), ("output"@, output)]
}

/// The command text rendered from a template, if it parses and every
/// placeholder has a value.
pub open spec fn rendered_command(
    template: Seq<char>,
    values: Seq<(Seq<char>, Seq<char>)>,
) -> Option<Seq<char>> {
    match leon_segments(template) {
        None => None,
        Some(segs) => match rendered(segs, values) {
            Ok(t) => Some(t),
            Err(_) => None,
        },
    }
}

/// How the transcoder is run on a fragment.
pub struct RunPlan {
    pub args: Vec<String>,
    pub output: String,
    pub output_dir: String,
}

/// The transcoder's arguments for a fragment whose plaintext is at `input`:
/// the template rendered with `input`, `output` and the defaults, split at
/// whitespace. `None` when the template cannot be rendered.
pub fn plan_run(
    config: &WorkerConfig,
    job_id: u128,
    filename: &str,
    command: &str,
    input: &str,
) -> (r: Option<RunPlan>)
    ensures
        match rendered_command(
            command@,
            job_values(input@, output_path_of(config.output_root@, job_id, filename@))
                + pairs_view(config.template_defaults@),
        ) {
            None => r is None,
            Some(t) => r is Some && strings_view(r->0.args@) == words(t) && r->0.output@
                == output_path_of(config.output_root@, job_id, filename@) && r->0.output_dir@
                == output_dir_of(config.output_root@, job_id),
        },
{
    let mut output_dir = config.output_root.clone();
    output_dir.append("/");
    let job_text = id_text(job_id);
    output_dir.append(job_text.as_str());
    let mut output = output_dir.clone();
    output.append("/");
    output.append(filename);
    proof {
        reveal_strlit("/");
    }
    assert(output_dir@ =~= output_dir_of(config.output_root@, job_id));
    assert(output@ =~= output_path_of(config.output_root@, job_id, filename@));
    let mut own: Vec<(String, String)> = Vec::new();
    own.push(("input".to_owned(), input.to_owned()));
    own.push(("output".to_owned(), output.clone()));
    assert(pairs_view(own@) =~= job_values(input@, output@));
    let values = merge_values(&own, &config.template_defaults);
    match render_template(command, &values) {
        Ok(text) => {
            let args = split_arguments(text.as_str());
            Some(RunPlan { args, output, output_dir })
        },
        Err(_) => None,
    }
}

/// The outcome that the transcoder's exit gives a fragment job: `Completed`
/// on status zero, `Failed` otherwise.
pub open spec fn exit_status(success: bool) -> FragmentJobStatus {
    if success {
        FragmentJobStatus::Completed
    } else {
        FragmentJobStatus::Failed
    }
}

/// The step once the plaintext is at `input`: run the transcoder, or fail
/// the fragment job when its template cannot be rendered.
pub open spec fn run_step(
    config: WorkerConfig,
    job: JobResume,
    filename: Seq<char>,
    command: Seq<char>,
    input: Seq<char>,
    r: Result<(Phase, Action), UnexpectedEvent>,
) -> bool {
    match rendered_command(
        command,
        job_values(input, output_path_of(config.output_root@, job.transcoding_job_id, filename))
            + pairs_view(config.template_defaults@),
    ) {
        None => r == Ok::<(Phase, Action), UnexpectedEvent>(
            (
                Phase::Finishing { job },
                Action::Finish {
                    fragment_job_id: job.transcoding_fragment_job_id,
                    status: FragmentJobStatus::Failed,
                },
            ),
        ),
        Some(t) => match r {
            Ok((Phase::Transcoding { job: j }, Action::Run { args, output, output_dir })) => {
                &&& j == job
                &&& strings_view(args@) == words(t)
                &&& output@ == output_path_of(config.output_root@, job.transcoding_job_id, filename)
                &&& output_dir@ == output_dir_of(config.output_root@, job.transcoding_job_id)
            },
            _ => false,
        },
    }
}

fn start_run(
    config: &WorkerConfig,
    job: JobResume,
    filename: &str,
    command: &str,
    input: &str,
) -> (r: Result<(Phase, Action), UnexpectedEvent>)
    ensures
        run_step(*config, job, filename@, command@, input@, r),
{
    match plan_run(config, job.transcoding_job_id, filename, command, input) {
        Some(plan) => Ok(
            (
                Phase::Transcoding { job },
                Action::Run { args: plan.args, output: plan.output, output_dir: plan.output_dir },
            ),
        ),
        None => Ok(
            (
                Phase::Finishing { job },
                Action::Finish {
                    fragment_job_id: job.transcoding_fragment_job_id,
                    status: FragmentJobStatus::Failed,
                },
            ),
        ),
    }
}

pub open spec fn fail_job(job: JobResume) -> Result<(Phase, Action), UnexpectedEvent> {
    Ok(
        (
            Phase::Finishing { job },
            Action::Finish {
                fragment_job_id: job.transcoding_fragment_job_id,
                status: FragmentJobStatus::Failed,
            },
        ),
    )
}

pub open spec fn poll() -> Result<(Phase, Action), UnexpectedEvent> {
    Ok((Phase::Polling, Action::SelectOldestQueued))
}

/// One decision of the worker.
pub fn step(config: &WorkerConfig, phase: Phase, event: Event) -> (r: Result<
    (Phase, Action),
    UnexpectedEvent,
>)
    ensures
        match (phase, event) {
            (Phase::Polling, Event::Candidate(None)) => r == Ok::<(Phase, Action), UnexpectedEvent>(
                (Phase::Sleeping, Action::Sleep),
            ),
            (Phase::Polling, Event::Candidate(Some(job))) => r == Ok::<
                (Phase, Action),
                UnexpectedEvent,
            >(
                (
                    Phase::Claiming { job },
                    Action::ClaimIfQueued { fragment_job_id: job.transcoding_fragment_job_id },
                ),
            ),
            (Phase::Claiming { job }, Event::Claim(ClaimOutcome::RaceLost)) => r == poll(),
            (Phase::Claiming { job }, Event::Claim(ClaimOutcome::Claimed)) => r == Ok::<
                (Phase, Action),
                UnexpectedEvent,
            >(
                (
                    Phase::Loading { job },
                    Action::Load {
                        fragment_id: job.fragment_id,
                        transcoding_job_id: job.transcoding_job_id,
                    },
                ),
            ),
            (Phase::Loading { job }, Event::Loaded { fragment, command }) => match fragment.retrieval_url {
                None => r == fail_job(job),
                Some(url) => r == Ok::<(Phase, Action), UnexpectedEvent>(
                    (
                        Phase::Fetching { job, fragment, command },
                        Action::Fetch { url, filename: fragment.filename },
                    ),
                ),
            },
            (Phase::Fetching { job, fragment, command }, Event::Fetched { path }) => match fragment.encryption_key {
                Some(key_text) => r == Ok::<(Phase, Action), UnexpectedEvent>(
                    (
                        Phase::Decrypting { job, fragment, command },
                        Action::Decrypt { key_text, path },
                    ),
                ),
                None => run_step(*config, job, fragment.filename@, command@, path@, r),
            },
            (Phase::Decrypting { job, fragment, command }, Event::Decrypted { path }) => run_step(
                *config,
                job,
                fragment.filename@,
                command@,
                path@,
                r,
            ),
            (Phase::Loading { job }, Event::StepFailed) => r == fail_job(job),
            (Phase::Fetching { job, .. }, Event::StepFailed) => r == fail_job(job),
            (Phase::Decrypting { job, .. }, Event::StepFailed) => r == fail_job(job),
            (Phase::Transcoding { job }, Event::StepFailed) => r == fail_job(job),
            (Phase::Transcoding { job }, Event::Exited { success }) => r == Ok::<
                (Phase, Action),
                UnexpectedEvent,
            >(
                (
                    Phase::Finishing { job },
                    Action::Finish {
                        fragment_job_id: job.transcoding_fragment_job_id,
                        status: exit_status(success),
                    },
                ),
            ),
            (Phase::Finishing { job }, Event::Recorded) => r == poll(),
            (Phase::Sleeping, Event::Woke) => r == poll(),
            _ => r == Err::<(Phase, Action), UnexpectedEvent>(UnexpectedEvent),
        },
{
    match (phase, event) {
        (Phase::Polling, Event::Candidate(None)) => Ok((Phase::Sleeping, Action::Sleep)),
        (Phase::Polling, Event::Candidate(Some(job))) => Ok(
            (
                Phase::Claiming { job },
                Action::ClaimIfQueued { fragment_job_id: job.transcoding_fragment_job_id },
            ),
        ),
        (Phase::Claiming { job }, Event::Claim(ClaimOutcome::RaceLost)) => Ok(
            (Phase::Polling, Action::SelectOldestQueued),
        ),
        (Phase::Claiming { job }, Event::Claim(ClaimOutcome::Claimed)) => Ok(
            (
                Phase::Loading { job },
                Action::Load {
                    fragment_id: job.fragment_id,
                    transcoding_job_id: job.transcoding_job_id,
                },
            ),
        ),
        (Phase::Loading { job }, Event::Loaded { fragment, command }) => {
            match &fragment.retrieval_url {
                None => Ok(
                    (
                        Phase::Finishing { job },
                        Action::Finish {
                            fragment_job_id: job.transcoding_fragment_job_id,
                            status: FragmentJobStatus::Failed,
                        },
                    ),
                ),
                Some(url) => {
                    let url = url.clone();
                    let filename = fragment.filename.clone();
                    Ok((Phase::Fetching { job, fragment, command }, Action::Fetch { url, filename }))
                },
            }
        },
        (Phase::Fetching { job, fragment, command }, Event::Fetched { path }) => {
            match &fragment.encryption_key {
                Some(key_text) => {
                    let key_text = key_text.clone();
                    Ok(
                        (
                            Phase::Decrypting { job, fragment, command },
                            Action::Decrypt { key_text, path },
                        ),
                    )
                },
                None => start_run(
                    config,
                    job,
                    fragment.filename.as_str(),
                    command.as_str(),
                    path.as_str(),
                ),
            }
        },
        (Phase::Decrypting { job, fragment, command }, Event::Decrypted { path }) => start_run(
            config,
            job,
            fragment.filename.as_str(),
            command.as_str(),
            path.as_str(),
        ),
        (Phase::Loading { job }, Event::StepFailed)
        | (Phase::Fetching { job, .. }, Event::StepFailed)
        | (Phase::Decrypting { job, .. }, Event::StepFailed)
        | (Phase::Transcoding { job }, Event::StepFailed) => Ok(
            (
                Phase::Finishing { job },
                Action::Finish {
                    fragment_job_id: job.transcoding_fragment_job_id,
                    status: FragmentJobStatus::Failed,
                },
            ),
        ),
        (Phase::Transcoding { job }, Event::Exited { success }) => {
            let status = if success {
                FragmentJobStatus::Completed
            } else {
                FragmentJobStatus::Failed
            };
            Ok(
                (
                    Phase::Finishing { job },
                    Action::Finish { fragment_job_id: job.transcoding_fragment_job_id, status },
                ),
            )
        },
        (Phase::Finishing { job }, Event::Recorded) => Ok(
            (Phase::Polling, Action::SelectOldestQueued),
        ),
        (Phase::Sleeping, Event::Woke) => Ok((Phase::Polling, Action::SelectOldestQueued)),
        _ => Err(UnexpectedEvent),
    }
}

/// A transcoder that exits with a nonzero status fails its fragment job for
/// good: the `Finish` that the worker then performs leaves the job `Failed`,
/// no transition leads out of `Failed`, and every later claim of the job
/// loses.
pub proof fn lemma_failed_exit_is_final(
    rows: Seq<TranscodingFragmentJob>,
    bound: u128,
    job: JobResume,
    now: i64,
    later: Seq<i64>,
)
    requires
        increasing(fragment_job_ids(rows), bound),
        has_row_in(rows, job.transcoding_fragment_job_id, FragmentJobStatus::InProgress),
    ensures
        exit_status(false) == FragmentJobStatus::Failed,
        has_row_in(
            cond_update_rows(
                rows,
                job.transcoding_fragment_job_id,
                FragmentJobStatus::InProgress,
                exit_status(false),
                now,
            ),
            job.transcoding_fragment_job_id,
            FragmentJobStatus::Failed,
        ),
        forall|e| crate::status::fragment_job_next(FragmentJobStatus::Failed, e) is None,
        claims_won(
            cond_update_rows(
                rows,
                job.transcoding_fragment_job_id,
                FragmentJobStatus::InProgress,
                exit_status(false),
                now,
            ),
            job.transcoding_fragment_job_id,
            later,
        ) == 0,
{
    let id = job.transcoding_fragment_job_id;
    let after = cond_update_rows(rows, id, FragmentJobStatus::InProgress, exit_status(false), now);
    let i = choose|i: int|
        0 <= i < rows.len() && rows[i].transcoding_fragment_job_id == id && rows[i].status
            == FragmentJobStatus::InProgress;
    assert(after[i].status == FragmentJobStatus::Failed);
    assert forall|j: int| 0 <= j < after.len() && after[j].transcoding_fragment_job_id == id implies after[j].status
        != FragmentJobStatus::Queued by {
        if j != i {
            assert(fragment_job_ids(rows)[j] != fragment_job_ids(rows)[i]);
        }
    }
    lemma_unclaimable_claims_lose(after, id, later);
}

/// The lower-case mapping of a text.
pub uninterp spec fn lower_of(s: Seq<char>) -> Seq<char>;

/// Relies on `str::to_lowercase`: the result depends on the characters alone.
#[verifier::external_body]
fn lowercase(s: &str) -> (r: String)
    ensures
        r@ == lower_of(s@),
{
    s.to_lowercase()
}

pub open spec fn starts_with(s: Seq<char>, p: Seq<char>) -> bool {
    p.len() <= s.len() && s.subrange(0, p.len() as int) == p
}

pub fn has_prefix(s: &str, p: &str) -> (r: bool)
    ensures
        r == starts_with(s@, p@),
{
    let ns = s.unicode_len();
    let np = p.unicode_len();
    if np > ns {
        return false;
    }
    let mut i: usize = 0;
    while i < np
        invariant
            np <= ns,
            ns == s@.len(),
            np == p@.len(),
            i <= np,
            forall|j: int| 0 <= j < i ==> s@[j] == p@[j],
        decreases np - i,
    {
        if s.get_char(i) != p.get_char(i) {
            assert(s@.subrange(0, np as int)[i as int] != p@[i as int]);
            return false;
        }
        i = i + 1;
    }
    assert(s@.subrange(0, np as int) =~= p@);
    true
}

/// The prefix, in lower case, of the variables that set template defaults.
pub open spec fn template_prefix() -> Seq<char> {
    "transcodeck_template_"@
}

/// The template defaults that variables set: each variable whose lower-cased
/// name starts with the prefix sets the placeholder named by the rest. Where
/// two variables name the same placeholder (they differ only in case), both
/// pairs are kept in order, and lookup takes the first: the first variable
/// wins.
pub open spec fn defaults_of(vars: Seq<(Seq<char>, Seq<char>)>) -> Seq<(Seq<char>, Seq<char>)>
    decreases vars.len(),
{
    if vars.len() == 0 {
        Seq::empty()
    } else {
        let rest = defaults_of(vars.drop_last());
        let name = lower_of(vars.last().0);
        if starts_with(name, template_prefix()) {
            rest.push((name.subrange(template_prefix().len() as int, name.len() as int), vars.last().1))
        } else {
            rest
        }
    }
}

pub fn template_defaults(vars: &Vec<(String, String)>) -> (r: Vec<(String, String)>)
    ensures
        pairs_view(r@) == defaults_of(pairs_view(vars@)),
{
    let prefix = "transcodeck_template_";
    proof {
        reveal_strlit("transcodeck_template_");
    }
    assert(prefix@.len() == 21);
    let ghost all = pairs_view(vars@);
    let mut out: Vec<(String, String)> = Vec::new();
    let mut i: usize = 0;
    while i < vars.len()
        invariant
            i <= vars@.len(),
            all == pairs_view(vars@),
            prefix@ == template_prefix(),
            template_prefix().len() == 21,
            pairs_view(out@) == defaults_of(all.subrange(0, i as int)),
        decreases vars@.len() - i,
    {
        assert(all.subrange(0, i + 1).drop_last() =~= all.subrange(0, i as int));
        let name = lowercase(vars[i].0.as_str());
        assert(all.subrange(0, i + 1).last() == all[i as int]);
        assert(all[i as int] == (vars@[i as int].0@, vars@[i as int].1@));
        if has_prefix(name.as_str(), prefix) {
            let n = name.as_str().unicode_len();
            let key = name.as_str().substring_char(21, n).to_owned();
            let ghost before = out@;
            out.push((key, vars[i].1.clone()));
            assert(pairs_view(out@) =~= pairs_view(before).push((key@, vars@[i as int].1@)));
        }
        i = i + 1;
    }
    assert(all.subrange(0, vars@.len() as int) =~= all);
    out
}

} // verus!
