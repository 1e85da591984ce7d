//! An in-memory job store with the optimistic claim protocol: a worker picks
//! the oldest queued fragment job, then moves it from `Queued` to
//! `InProgress` by a conditional update that affects no row when another
//! worker was first.
//!
//! Two things are left to operators on purpose. A fragment job left
//! `InProgress` by a worker that died stays so: there is no lease and no
//! heartbeat. And a job's own status does not follow the outcomes of its
//! fragment jobs: it moves to `InProgress` on the first claim and then only
//! by operator action.
use vstd::prelude::*;
use crate::ids::{parse_id, parsed_uuid};
use crate::model::{
    Fragment, JobResume, Media, NewFragment, NewMedia, TranscodeCommand, TranscodingFragmentJob,
    TranscodingJob,
};
use crate::status::{FragmentJobStatus, JobStatus};

verus! {

/// The four tables. Every identifier is below `next_id`, and within a table
/// identifiers increase with the position of the row.
pub struct JobStore {
    pub media: Vec<Media>,
    pub fragments: Vec<Fragment>,
    pub jobs: Vec<TranscodingJob>,
    pub fragment_jobs: Vec<TranscodingFragmentJob>,
    pub next_id: u128,
}

/// The result of a conditional claim.
#[derive(Debug, Clone, Copy, PartialEq, Eq, Structural)]
pub enum ClaimOutcome {
    Claimed,
    /// No row was `Queued` under that identifier any more: select again.
    RaceLost,
}

/// Two fragments of one media may not share a file name.
#[derive(Debug, Clone, Copy, PartialEq, Eq, Structural)]
pub struct DuplicateFilename;

/// Why a job submission was refused; nothing is written then.
#[derive(Debug, Clone, Copy, PartialEq, Eq, Structural)]
pub enum SubmitError {
    InvalidMediaId,
    UnknownMedia,
    EmptyCommand,
}

/// What `s` holds stays in it when `x` is added.
pub proof fn lemma_push_keeps(s: Seq<u128>, x: u128)
    ensures
        forall|y: u128| s.contains(y) ==> #[trigger] s.push(x).contains(y),
        s.push(x).contains(x),
{
    assert forall|y: u128| s.contains(y) implies #[trigger] s.push(x).contains(y) by {
        let i = choose|i: int| 0 <= i < s.len() && s[i] == y;
        assert(s.push(x)[i] == y);
    }
    assert(s.push(x)[s.len() as int] == x);
}

pub open spec fn increasing(ids: Seq<u128>, bound: u128) -> bool {
    &&& forall|i: int, j: int| 0 <= i < j < ids.len() ==> ids[i] < ids[j]
    &&& forall|i: int| 0 <= i < ids.len() ==> ids[i] < bound
}

pub open spec fn media_ids(rows: Seq<Media>) -> Seq<u128> {
    rows.map_values(|r: Media| r.media_id)
}

pub open spec fn fragment_row_ids(rows: Seq<Fragment>) -> Seq<u128> {
    rows.map_values(|r: Fragment| r.fragment_id)
}

pub open spec fn job_ids(rows: Seq<TranscodingJob>) -> Seq<u128> {
    rows.map_values(|r: TranscodingJob| r.transcoding_job_id)
}

pub open spec fn fragment_job_ids(rows: Seq<TranscodingFragmentJob>) -> Seq<u128> {
    rows.map_values(|r: TranscodingFragmentJob| r.transcoding_fragment_job_id)
}

/// The fragment job row `r` after the conditional update of `id` from `from` to `to`.
pub open spec fn cond_update_row(
    r: TranscodingFragmentJob,
    id: u128,
    from: FragmentJobStatus,
    to: FragmentJobStatus,
    now: i64,
) -> TranscodingFragmentJob {
    if r.transcoding_fragment_job_id == id && r.status == from {
        TranscodingFragmentJob { status: to, updated_at: now, ..r }
    } else {
        r
    }
}

pub open spec fn cond_update_rows(
    rows: Seq<TranscodingFragmentJob>,
    id: u128,
    from: FragmentJobStatus,
    to: FragmentJobStatus,
    now: i64,
) -> Seq<TranscodingFragmentJob> {
    rows.map_values(|r: TranscodingFragmentJob| cond_update_row(r, id, from, to, now))
}

/// Whether a row `id` is in status `from`.
pub open spec fn has_row_in(
    rows: Seq<TranscodingFragmentJob>,
    id: u128,
    from: FragmentJobStatus,
) -> bool {
    exists|i: int|
        0 <= i < rows.len() && rows[i].transcoding_fragment_job_id == id && rows[i].status == from
}

/// The job row `r` after the conditional update of `id` from `from` to `to`.
pub open spec fn job_cond_update_row(
    r: TranscodingJob,
    id: u128,
    from: JobStatus,
    to: JobStatus,
    now: i64,
) -> TranscodingJob {
    if r.transcoding_job_id == id && r.status == from {
        TranscodingJob { status: to, updated_at: now, ..r }
    } else {
        r
    }
}

pub open spec fn job_cond_update_rows(
    rows: Seq<TranscodingJob>,
    id: u128,
    from: JobStatus,
    to: JobStatus,
    now: i64,
) -> Seq<TranscodingJob> {
    rows.map_values(|r: TranscodingJob| job_cond_update_row(r, id, from, to, now))
}

pub open spec fn job_has_row_in(rows: Seq<TranscodingJob>, id: u128, from: JobStatus) -> bool {
    exists|i: int| 0 <= i < rows.len() && rows[i].transcoding_job_id == id && rows[i].status == from
}

/// Whether some fragment job is waiting to be claimed.
pub open spec fn any_queued(rows: Seq<TranscodingFragmentJob>) -> bool {
    exists|i: int| 0 <= i < rows.len() && rows[i].status == FragmentJobStatus::Queued
}

/// Row `i` is queued and no queued row was created before it.
pub open spec fn is_oldest_queued(rows: Seq<TranscodingFragmentJob>, i: int) -> bool {
    &&& 0 <= i < rows.len()
    &&& rows[i].status == FragmentJobStatus::Queued
    &&& forall|j: int|
        0 <= j < rows.len() && rows[j].status == FragmentJobStatus::Queued ==> rows[i].created_at
            <= rows[j].created_at
}

impl JobStore {
    pub open spec fn wf(self) -> bool {
        &&& increasing(media_ids(self.media@), self.next_id)
        &&& increasing(fragment_row_ids(self.fragments@), self.next_id)
        &&& increasing(job_ids(self.jobs@), self.next_id)
        &&& increasing(fragment_job_ids(self.fragment_jobs@), self.next_id)
        &&& self.references_hold()
        &&& forall|i: int, j: int|
            0 <= i < j < self.fragments@.len() && #[trigger] self.fragments@[i].media_id
                == #[trigger] self.fragments@[j].media_id ==> self.fragments@[i].filename@
                != self.fragments@[j].filename@
    }

    /// Every fragment and every job belongs to a stored media; every
    /// fragment job to a stored job and a stored fragment.
    pub open spec fn references_hold(self) -> bool {
        &&& forall|i: int|
            0 <= i < self.fragments@.len() ==> media_ids(self.media@).contains(
                (#[trigger] self.fragments@[i]).media_id,
            )
        &&& forall|i: int|
            0 <= i < self.jobs@.len() ==> media_ids(self.media@).contains(
                (#[trigger] self.jobs@[i]).media_id,
            )
        &&& forall|i: int|
            0 <= i < self.fragment_jobs@.len() ==> job_ids(self.jobs@).contains(
                (#[trigger] self.fragment_jobs@[i]).transcoding_job_id,
            ) && fragment_row_ids(self.fragments@).contains(
                self.fragment_jobs@[i].fragment_id,
            )
    }

    /// Room for `n` more identifiers.
    pub open spec fn has_room(self, n: nat) -> bool {
        self.next_id + n <= u128::MAX
    }

    pub fn new() -> (r: JobStore)
        ensures
            r.wf(),
            r.media@.len() == 0,
            r.fragments@.len() == 0,
            r.jobs@.len() == 0,
            r.fragment_jobs@.len() == 0,
            r.next_id == 1,
    {
        JobStore {
            media: Vec::new(),
            fragments: Vec::new(),
            jobs: Vec::new(),
            fragment_jobs: Vec::new(),
            next_id: 1,
        }
    }

    /// The atomic conditional update: fragment job `id` goes from `from` to
    /// `to` if it is in `from`; returns whether a row changed.
    pub fn update_fragment_job_if(
        &mut self,
        id: u128,
        from: FragmentJobStatus,
        to: FragmentJobStatus,
        now: i64,
    ) -> (changed: bool)
        requires
            old(self).wf(),
        ensures
            final(self).wf(),
            final(self).fragment_jobs@ == cond_update_rows(
                old(self).fragment_jobs@,
                id,
                from,
                to,
                now,
            ),
            changed == has_row_in(old(self).fragment_jobs@, id, from),
            final(self).media@ == old(self).media@,
            final(self).fragments@ == old(self).fragments@,
            final(self).jobs@ == old(self).jobs@,
            final(self).next_id == old(self).next_id,
    {
        let n = self.fragment_jobs.len();
        let mut changed = false;
        let mut i: usize = 0;
        while i < n
            invariant
                n == old(self).fragment_jobs@.len(),
                self.fragment_jobs@.len() == n,
                i <= n,
                forall|j: int|
                    0 <= j < i ==> self.fragment_jobs@[j] == cond_update_row(
                        old(self).fragment_jobs@[j],
                        id,
                        from,
                        to,
                        now,
                    ),
                forall|j: int| i <= j < n ==> self.fragment_jobs@[j] == old(self).fragment_jobs@[j],
                changed == exists|j: int|
                    0 <= j < i && old(self).fragment_jobs@[j].transcoding_fragment_job_id == id
                        && old(self).fragment_jobs@[j].status == from,
                self.media@ == old(self).media@,
                self.fragments@ == old(self).fragments@,
                self.jobs@ == old(self).jobs@,
                self.next_id == old(self).next_id,
            decreases n - i,
        {
            let row = self.fragment_jobs[i];
            if row.transcoding_fragment_job_id == id && row.status == from {
                let updated = TranscodingFragmentJob {
                    transcoding_fragment_job_id: row.transcoding_fragment_job_id,
                    transcoding_job_id: row.transcoding_job_id,
                    fragment_id: row.fragment_id,
                    status: to,
                    created_at: row.created_at,
                    updated_at: now,
                    deleted_at: row.deleted_at,
                };
                self.fragment_jobs.set(i, updated);
                changed = true;
            }
            i = i + 1;
        }
        assert(self.fragment_jobs@ =~= cond_update_rows(old(self).fragment_jobs@, id, from, to, now));
        assert(fragment_job_ids(self.fragment_jobs@) =~= fragment_job_ids(old(self).fragment_jobs@));
        changed
    }

    /// The atomic conditional update of a job: `id` goes from `from` to `to`
    /// if it is in `from`; returns whether a row changed.
    pub fn update_job_if(&mut self, id: u128, from: JobStatus, to: JobStatus, now: i64) -> (changed:
        bool)
        requires
            old(self).wf(),
        ensures
            final(self).wf(),
            final(self).jobs@ == job_cond_update_rows(old(self).jobs@, id, from, to, now),
            changed == job_has_row_in(old(self).jobs@, id, from),
            final(self).media@ == old(self).media@,
            final(self).fragments@ == old(self).fragments@,
            final(self).fragment_jobs@ == old(self).fragment_jobs@,
            final(self).next_id == old(self).next_id,
    {
        let n = self.jobs.len();
        let mut changed = false;
        let mut i: usize = 0;
        while i < n
            invariant
                n == old(self).jobs@.len(),
                self.jobs@.len() == n,
                i <= n,
                forall|j: int|
                    0 <= j < i ==> self.jobs@[j] == job_cond_update_row(
                        old(self).jobs@[j],
                        id,
                        from,
                        to,
                        now,
                    ),
                forall|j: int| i <= j < n ==> self.jobs@[j] == old(self).jobs@[j],
                changed == exists|j: int|
                    0 <= j < i && old(self).jobs@[j].transcoding_job_id == id
                        && old(self).jobs@[j].status == from,
                self.media@ == old(self).media@,
                self.fragments@ == old(self).fragments@,
                self.fragment_jobs@ == old(self).fragment_jobs@,
                self.next_id == old(self).next_id,
            decreases n - i,
        {
            if self.jobs[i].transcoding_job_id == id && self.jobs[i].status == from {
                let row = self.jobs.remove(i);
                let updated = TranscodingJob {
                    transcoding_job_id: row.transcoding_job_id,
                    media_id: row.media_id,
                    status: to,
                    ffmpeg_command: row.ffmpeg_command,
                    created_at: row.created_at,
                    updated_at: now,
                    deleted_at: row.deleted_at,
                };
                self.jobs.insert(i, updated);
                changed = true;
            }
            i = i + 1;
        }
        assert(self.jobs@ =~= job_cond_update_rows(old(self).jobs@, id, from, to, now));
        assert(job_ids(self.jobs@) =~= job_ids(old(self).jobs@));
        changed
    }
}

impl JobStore {
    /// The oldest fragment job in status `Queued`, by creation time; the
    /// first such row of the table where several are equally old.
    pub fn select_oldest_queued(&self) -> (r: Option<JobResume>)
        ensures
            r is None <==> !any_queued(self.fragment_jobs@),
            r is Some ==> exists|i: int|
                is_oldest_queued(self.fragment_jobs@, i) && r->0 == self.fragment_jobs@[i].resume(),
    {
        let rows = &self.fragment_jobs;
        let n = rows.len();
        let mut best: Option<usize> = None;
        let mut i: usize = 0;
        while i < n
            invariant
                n == rows@.len(),
                i <= n,
                best is None <==> forall|j: int|
                    0 <= j < i ==> rows@[j].status != FragmentJobStatus::Queued,
                best is Some ==> {
                    let b = best->0 as int;
                    &&& b < i
                    &&& rows@[b].status == FragmentJobStatus::Queued
                    &&& forall|j: int|
                        0 <= j < i && rows@[j].status == FragmentJobStatus::Queued
                            ==> rows@[b].created_at <= rows@[j].created_at
                },
            decreases n - i,
        {
            if rows[i].status == FragmentJobStatus::Queued {
                match best {
                    None => {
                        best = Some(i);
                    },
                    Some(b) => {
                        if rows[i].created_at < rows[b].created_at {
                            best = Some(i);
                        }
                    },
                }
            }
            i = i + 1;
        }
        match best {
            None => None,
            Some(b) => {
                let row = rows[b];
                assert(is_oldest_queued(rows@, b as int));
                Some(
                    JobResume {
                        transcoding_fragment_job_id: row.transcoding_fragment_job_id,
                        transcoding_job_id: row.transcoding_job_id,
                        fragment_id: row.fragment_id,
                    },
                )
            },
        }
    }

    /// Claims fragment job `id`: moves it from `Queued` to `InProgress`, or
    /// reports that the race was lost when it is no longer `Queued`.
    pub fn claim_if_queued(&mut self, id: u128, now: i64) -> (r: ClaimOutcome)
        requires
            old(self).wf(),
        ensures
            final(self).wf(),
            final(self).fragment_jobs@ == claim_rows(old(self).fragment_jobs@, id, now),
            r == claim_outcome(old(self).fragment_jobs@, id),
            final(self).media@ == old(self).media@,
            final(self).fragments@ == old(self).fragments@,
            final(self).jobs@ == old(self).jobs@,
            final(self).next_id == old(self).next_id,
    {
        if self.update_fragment_job_if(
            id,
            FragmentJobStatus::Queued,
            FragmentJobStatus::InProgress,
            now,
        ) {
            ClaimOutcome::Claimed
        } else {
            ClaimOutcome::RaceLost
        }
    }

    /// Moves job `id` from `Queued` to `InProgress`; does nothing when it
    /// is in any other status (another worker may have done it already).
    pub fn promote_job_if_queued(&mut self, id: u128, now: i64) -> (changed: bool)
        requires
            old(self).wf(),
        ensures
            final(self).wf(),
            final(self).jobs@ == promote_rows(old(self).jobs@, id, now),
            changed == job_has_row_in(old(self).jobs@, id, JobStatus::Queued),
            final(self).media@ == old(self).media@,
            final(self).fragments@ == old(self).fragments@,
            final(self).fragment_jobs@ == old(self).fragment_jobs@,
            final(self).next_id == old(self).next_id,
    {
        self.update_job_if(id, JobStatus::Queued, JobStatus::InProgress, now)
    }

    /// Selects the oldest queued fragment job and claims it; on success the
    /// parent job is moved from `Queued` to `InProgress` if it is still there.
    /// `None`, with nothing changed, when no fragment job is queued.
    pub fn claim_next_fragment_job(&mut self, now: i64) -> (r: Option<JobResume>)
        requires
            old(self).wf(),
        ensures
            final(self).wf(),
            r is None <==> !any_queued(old(self).fragment_jobs@),
            r is None ==> final(self).fragment_jobs@ == old(self).fragment_jobs@
                && final(self).jobs@ == old(self).jobs@,
            r is Some ==> exists|i: int|
                is_oldest_queued(old(self).fragment_jobs@, i) && r->0 == old(
                    self,
                ).fragment_jobs@[i].resume(),
            r is Some ==> final(self).fragment_jobs@ == claim_rows(
                old(self).fragment_jobs@,
                r->0.transcoding_fragment_job_id,
                now,
            ) && final(self).jobs@ == promote_rows(old(self).jobs@, r->0.transcoding_job_id, now),
            final(self).media@ == old(self).media@,
            final(self).fragments@ == old(self).fragments@,
            final(self).next_id == old(self).next_id,
    {
        match self.select_oldest_queued() {
            None => None,
            Some(job) => {
                self.claim_if_queued(job.transcoding_fragment_job_id, now);
                assert(has_row_in(
                    old(self).fragment_jobs@,
                    job.transcoding_fragment_job_id,
                    FragmentJobStatus::Queued,
                ));
                self.promote_job_if_queued(job.transcoding_job_id, now);
                Some(job)
            },
        }
    }

    /// Records the end of a claimed fragment job: `InProgress` becomes
    /// `Completed` when `succeeded`, `Failed` otherwise. Returns whether the
    /// row was in progress.
    pub fn finish_fragment_job(&mut self, id: u128, succeeded: bool, now: i64) -> (changed: bool)
        requires
            old(self).wf(),
        ensures
            final(self).wf(),
            final(self).fragment_jobs@ == cond_update_rows(
                old(self).fragment_jobs@,
                id,
                FragmentJobStatus::InProgress,
                finished_status(succeeded),
                now,
            ),
            changed == has_row_in(old(self).fragment_jobs@, id, FragmentJobStatus::InProgress),
            final(self).media@ == old(self).media@,
            final(self).fragments@ == old(self).fragments@,
            final(self).jobs@ == old(self).jobs@,
            final(self).next_id == old(self).next_id,
    {
        let to = if succeeded {
            FragmentJobStatus::Completed
        } else {
            FragmentJobStatus::Failed
        };
        self.update_fragment_job_if(id, FragmentJobStatus::InProgress, to, now)
    }
}

pub open spec fn finished_status(succeeded: bool) -> FragmentJobStatus {
    if succeeded {
        FragmentJobStatus::Completed
    } else {
        FragmentJobStatus::Failed
    }
}

/// The fragment jobs after a claim of `id`.
pub open spec fn claim_rows(rows: Seq<TranscodingFragmentJob>, id: u128, now: i64) -> Seq<
    TranscodingFragmentJob,
> {
    cond_update_rows(rows, id, FragmentJobStatus::Queued, FragmentJobStatus::InProgress, now)
}

/// What a claim of `id` reports on the fragment jobs `rows`.
pub open spec fn claim_outcome(rows: Seq<TranscodingFragmentJob>, id: u128) -> ClaimOutcome {
    if has_row_in(rows, id, FragmentJobStatus::Queued) {
        ClaimOutcome::Claimed
    } else {
        ClaimOutcome::RaceLost
    }
}

/// The jobs after the parent job `id` is promoted.
pub open spec fn promote_rows(rows: Seq<TranscodingJob>, id: u128, now: i64) -> Seq<
    TranscodingJob,
> {
    job_cond_update_rows(rows, id, JobStatus::Queued, JobStatus::InProgress, now)
}

/// How many of the claims of `id`, made one after another at the times
/// `nows`, report `Claimed`. The store applies each claim atomically, so
/// concurrent claims act as some such sequence.
pub open spec fn claims_won(rows: Seq<TranscodingFragmentJob>, id: u128, nows: Seq<i64>) -> nat
    decreases nows.len(),
{
    if nows.len() == 0 {
        0
    } else {
        (if claim_outcome(rows, id) == ClaimOutcome::Claimed {
            1nat
        } else {
            0nat
        }) + claims_won(claim_rows(rows, id, nows[0]), id, nows.drop_first())
    }
}

/// After a claim of `id`, no row `id` is left to claim.
pub proof fn lemma_claimed_not_claimable(rows: Seq<TranscodingFragmentJob>, id: u128, now: i64)
    ensures
        !has_row_in(claim_rows(rows, id, now), id, FragmentJobStatus::Queued),
{
}

/// Claims of a row that is not queued change nothing and all lose.
pub proof fn lemma_unclaimable_claims_lose(
    rows: Seq<TranscodingFragmentJob>,
    id: u128,
    nows: Seq<i64>,
)
    requires
        !has_row_in(rows, id, FragmentJobStatus::Queued),
    ensures
        claims_won(rows, id, nows) == 0,
    decreases nows.len(),
{
    if nows.len() > 0 {
        assert(claim_rows(rows, id, nows[0]) =~= rows);
        lemma_unclaimable_claims_lose(rows, id, nows.drop_first());
    }
}

/// Of any number of claims of one queued fragment job, exactly one succeeds
/// and every other one observes a lost race.
pub proof fn lemma_exactly_one_claim_wins(
    rows: Seq<TranscodingFragmentJob>,
    id: u128,
    nows: Seq<i64>,
)
    requires
        has_row_in(rows, id, FragmentJobStatus::Queued),
        nows.len() >= 1,
    ensures
        claims_won(rows, id, nows) == 1,
{
    lemma_claimed_not_claimable(rows, id, nows[0]);
    lemma_unclaimable_claims_lose(claim_rows(rows, id, nows[0]), id, nows.drop_first());
}

/// A queued fragment job that is claimed and then finished with success
/// ends `Completed`; finished without success, it ends `Failed`.
pub proof fn lemma_claimed_job_finishes(
    rows: Seq<TranscodingFragmentJob>,
    id: u128,
    claimed_at: i64,
    finished_at: i64,
    succeeded: bool,
)
    requires
        has_row_in(rows, id, FragmentJobStatus::Queued),
    ensures
        has_row_in(claim_rows(rows, id, claimed_at), id, FragmentJobStatus::InProgress),
        has_row_in(
            cond_update_rows(
                claim_rows(rows, id, claimed_at),
                id,
                FragmentJobStatus::InProgress,
                finished_status(succeeded),
                finished_at,
            ),
            id,
            finished_status(succeeded),
        ),
{
    let i = choose|i: int|
        0 <= i < rows.len() && rows[i].transcoding_fragment_job_id == id && rows[i].status
            == FragmentJobStatus::Queued;
    let claimed = claim_rows(rows, id, claimed_at);
    assert(claimed[i].status == FragmentJobStatus::InProgress);
    let done = cond_update_rows(
        claimed,
        id,
        FragmentJobStatus::InProgress,
        finished_status(succeeded),
        finished_at,
    );
    assert(done[i].status == finished_status(succeeded));
}

/// A claim never takes a newer queued row while an older one is queued: the
/// claimed row was created no later than any row still queued afterwards.
pub proof fn lemma_claim_takes_oldest(
    rows: Seq<TranscodingFragmentJob>,
    i: int,
    now: i64,
    j: int,
)
    requires
        is_oldest_queued(rows, i),
        0 <= j < rows.len(),
        claim_rows(rows, rows[i].transcoding_fragment_job_id, now)[j].status
            == FragmentJobStatus::Queued,
    ensures
        rows[i].created_at <= rows[j].created_at,
{
}

/// The row that a new fragment becomes under media `media_id`.
pub open spec fn fragment_row(nf: NewFragment, media_id: u128, id: u128, now: i64) -> Fragment {
    Fragment {
        fragment_id: id,
        media_id,
        filename: nf.filename,
        fragment_number: nf.fragment_number,
        encryption_key: nf.encryption_key,
        retrieval_url: nf.retrieval_url,
        created_at: now,
        updated_at: now,
        deleted_at: None,
    }
}

/// The identifiers of the fragments of media `m`, in table order.
pub open spec fn fragment_ids_of(rows: Seq<Fragment>, m: u128) -> Seq<u128>
    decreases rows.len(),
{
    if rows.len() == 0 {
        Seq::empty()
    } else {
        let rest = fragment_ids_of(rows.drop_last(), m);
        if rows.last().media_id == m {
            rest.push(rows.last().fragment_id)
        } else {
            rest
        }
    }
}

pub proof fn lemma_fragment_ids_of_len(rows: Seq<Fragment>, m: u128)
    ensures
        fragment_ids_of(rows, m).len() <= rows.len(),
    decreases rows.len(),
{
    if rows.len() > 0 {
        lemma_fragment_ids_of_len(rows.drop_last(), m);
    }
}

pub open spec fn has_media(rows: Seq<Media>, m: u128) -> bool {
    exists|i: int| 0 <= i < rows.len() && rows[i].media_id == m
}

/// The fragment job created for the `t`-th fragment of a submission.
pub open spec fn submitted_fragment_job(
    job_id: u128,
    fragment_id: u128,
    id: u128,
    start: bool,
    now: i64,
) -> TranscodingFragmentJob {
    TranscodingFragmentJob {
        transcoding_fragment_job_id: id,
        transcoding_job_id: job_id,
        fragment_id,
        status: if start {
            FragmentJobStatus::Queued
        } else {
            FragmentJobStatus::Pending
        },
        created_at: now,
        updated_at: now,
        deleted_at: None,
    }
}

pub open spec fn distinct_filenames(fs: Seq<NewFragment>) -> bool {
    forall|i: int, j: int| 0 <= i < j < fs.len() ==> fs[i].filename@ != fs[j].filename@
}

pub fn has_distinct_filenames(fs: &Vec<NewFragment>) -> (r: bool)
    ensures
        r == distinct_filenames(fs@),
{
    let n = fs.len();
    let mut j: usize = 0;
    while j < n
        invariant
            n == fs@.len(),
            j <= n,
            forall|a: int, b: int| 0 <= a < b < j ==> fs@[a].filename@ != fs@[b].filename@,
        decreases n - j,
    {
        let mut i: usize = 0;
        while i < j
            invariant
                n == fs@.len(),
                i <= j < n,
                forall|a: int, b: int| 0 <= a < b < j ==> fs@[a].filename@ != fs@[b].filename@,
                forall|a: int| 0 <= a < i ==> fs@[a].filename@ != fs@[j as int].filename@,
            decreases j - i,
        {
            if fs[i].filename == fs[j].filename {
                return false;
            }
            i = i + 1;
        }
        j = j + 1;
    }
    true
}

/// Stores a media and its fragments; the fragments are attached to the new
/// media whatever `media_id` they carried. Returns the media's identifier,
/// or refuses, storing nothing, when two fragments share a file name.
pub fn add_media(store: &mut JobStore, media: NewMedia, fragments: Vec<NewFragment>, now: i64) -> (r:
    Result<u128, DuplicateFilename>)
    requires
        old(store).wf(),
        old(store).has_room(1 + fragments@.len()),
    ensures
        final(store).wf(),
        !distinct_filenames(fragments@) ==> r == Err::<u128, DuplicateFilename>(DuplicateFilename)
            && *final(store) == *old(store),
        distinct_filenames(fragments@) ==> r == Ok::<u128, DuplicateFilename>(old(store).next_id),
        r is Ok ==> {
            let id = r->Ok_0;
            &&& final(store).media@ == old(store).media@.push(
                Media {
                    media_id: id,
                    basename: media.basename,
                    created_at: now,
                    updated_at: now,
                    deleted_at: None,
                },
            )
            &&& final(store).fragments@.len() == old(store).fragments@.len() + fragments@.len()
            &&& final(store).fragments@.subrange(0, old(store).fragments@.len() as int)
                == old(store).fragments@
            &&& forall|t: int|
                0 <= t < fragments@.len() ==> #[trigger] final(store).fragments@[old(
                    store,
                ).fragments@.len() + t] == fragment_row(fragments@[t], id, (id + 1 + t) as u128, now)
            &&& final(store).next_id == id + 1 + fragments@.len()
            &&& final(store).jobs@ == old(store).jobs@
            &&& final(store).fragment_jobs@ == old(store).fragment_jobs@
        },
{
    if !has_distinct_filenames(&fragments) {
        return Err(DuplicateFilename);
    }
    Ok(insert_media(store, media, fragments, now))
}

#[verifier::rlimit(40)]
fn insert_media(store: &mut JobStore, media: NewMedia, fragments: Vec<NewFragment>, now: i64) -> (id:
    u128)
    requires
        old(store).wf(),
        old(store).has_room(1 + fragments@.len()),
        distinct_filenames(fragments@),
    ensures
        final(store).wf(),
        id == old(store).next_id,
        final(store).media@ == old(store).media@.push(
            Media {
                media_id: id,
                basename: media.basename,
                created_at: now,
                updated_at: now,
                deleted_at: None,
            },
        ),
        final(store).fragments@.len() == old(store).fragments@.len() + fragments@.len(),
        final(store).fragments@.subrange(0, old(store).fragments@.len() as int)
            == old(store).fragments@,
        forall|t: int|
            0 <= t < fragments@.len() ==> #[trigger] final(store).fragments@[old(
                store,
            ).fragments@.len() + t] == fragment_row(fragments@[t], id, (id + 1 + t) as u128, now),
        final(store).next_id == id + 1 + fragments@.len(),
        final(store).jobs@ == old(store).jobs@,
        final(store).fragment_jobs@ == old(store).fragment_jobs@,
{
    let id = store.next_id;
    store.media.push(
        Media { media_id: id, basename: media.basename, created_at: now, updated_at: now, deleted_at: None },
    );
    store.next_id = id + 1;
    assert(media_ids(store.media@) =~= media_ids(old(store).media@).push(id));
    proof {
        lemma_push_keeps(media_ids(old(store).media@), id);
        assert forall|i: int| 0 <= i < old(store).fragments@.len() implies #[trigger] old(
            store,
        ).fragments@[i].media_id < id by {
            let m = old(store).fragments@[i].media_id;
            let j = choose|j: int|
                0 <= j < media_ids(old(store).media@).len() && media_ids(old(store).media@)[j] == m;
        }
    }
    let ghost base = old(store).fragments@.len();
    let ghost all = fragments@;
    let n = fragments.len();
    let mut rest = fragments;
    let mut k: usize = 0;
    while k < n
        invariant
            store.wf(),
            n == all.len(),
            k <= n,
            rest@ == all.subrange(k as int, n as int),
            store.next_id == id + 1 + k,
            id + 1 + n <= u128::MAX,
            media_ids(store.media@).contains(id),
            distinct_filenames(all),
            forall|i: int| 0 <= i < base ==> #[trigger] store.fragments@[i].media_id < id,
            store.fragments@.len() == base + k,
            store.fragments@.subrange(0, base as int) == old(store).fragments@,
            forall|t: int|
                0 <= t < k ==> #[trigger] store.fragments@[base + t] == fragment_row(
                    all[t],
                    id,
                    (id + 1 + t) as u128,
                    now,
                ),
            store.media@ == old(store).media@.push(
                Media {
                    media_id: id,
                    basename: media.basename,
                    created_at: now,
                    updated_at: now,
                    deleted_at: None,
                },
            ),
            store.jobs@ == old(store).jobs@,
            store.fragment_jobs@ == old(store).fragment_jobs@,
        decreases n - k,
    {
        let nf = rest.remove(0);
        assert(nf == all[k as int]);
        let fid = store.next_id;
        let row = Fragment {
            fragment_id: fid,
            media_id: id,
            filename: nf.filename,
            fragment_number: nf.fragment_number,
            encryption_key: nf.encryption_key,
            retrieval_url: nf.retrieval_url,
            created_at: now,
            updated_at: now,
            deleted_at: None,
        };
        let ghost before = store.fragments@;
        store.fragments.push(row);
        store.next_id = fid + 1;
        assert(fragment_row_ids(store.fragments@) =~= fragment_row_ids(before).push(fid));
        proof {
            lemma_push_keeps(fragment_row_ids(before), fid);
            let last = (base + k) as int;
            assert forall|i: int, j: int|
                0 <= i < j < store.fragments@.len() && #[trigger] store.fragments@[i].media_id
                    == #[trigger] store.fragments@[j].media_id implies store.fragments@[i].filename@
                != store.fragments@[j].filename@ by {
                if j == last {
                    if i >= base {
                        let t = i - base;
                        assert(store.fragments@[i] == before[i]);
                        assert(before[base + t] == fragment_row(all[t], id, (id + 1 + t) as u128, now));
                        assert(all[t].filename@ != all[k as int].filename@);
                    } else {
                        assert(store.fragments@[i] == before[i]);
                        assert(before[i].media_id < id);
                    }
                } else {
                    assert(store.fragments@[i] == before[i]);
                    assert(store.fragments@[j] == before[j]);
                }
            }
        }
        assert(store.fragments@.subrange(0, base as int) =~= before.subrange(0, base as int));
        assert(rest@ =~= all.subrange(k + 1, n as int));
        k = k + 1;
    }
    id
}

/// Checks a submission before anything is read or written: the media
/// identifier must parse and the command template must not be empty.
/// Returns the media's identifier.
pub fn validate_transcode(cmd: &TranscodeCommand) -> (r: Result<u128, SubmitError>)
    ensures
        match parsed_uuid(cmd.media_id@) {
            None => r == Err::<u128, SubmitError>(SubmitError::InvalidMediaId),
            Some(m) => if cmd.ffmpeg_command@.len() == 0 {
                r == Err::<u128, SubmitError>(SubmitError::EmptyCommand)
            } else {
                r == Ok::<u128, SubmitError>(m)
            },
        },
{
    let m = match parse_id(cmd.media_id.as_str()) {
        None => return Err(SubmitError::InvalidMediaId),
        Some(m) => m,
    };
    if cmd.ffmpeg_command.as_str().unicode_len() == 0 {
        return Err(SubmitError::EmptyCommand);
    }
    Ok(m)
}

/// Submits a transcoding job for every fragment of a media: one job, and
/// one fragment job per fragment of the media in table order, all `Queued`
/// when `cmd.start`, all `Pending` otherwise. Nothing is written on error.
#[verifier::rlimit(40)]
pub fn new_transcode(store: &mut JobStore, cmd: &TranscodeCommand, now: i64) -> (r: Result<
    u128,
    SubmitError,
>)
    requires
        old(store).wf(),
        old(store).has_room(1 + old(store).fragments@.len()),
    ensures
        final(store).wf(),
        final(store).media@ == old(store).media@,
        final(store).fragments@ == old(store).fragments@,
        match parsed_uuid(cmd.media_id@) {
            None => r == Err::<u128, SubmitError>(SubmitError::InvalidMediaId),
            Some(m) => if cmd.ffmpeg_command@.len() == 0 {
                r == Err::<u128, SubmitError>(SubmitError::EmptyCommand)
            } else if !has_media(old(store).media@, m) {
                r == Err::<u128, SubmitError>(SubmitError::UnknownMedia)
            } else {
                r == Ok::<u128, SubmitError>(old(store).next_id)
            },
        },
        r is Err ==> final(store).jobs@ == old(store).jobs@ && final(store).fragment_jobs@ == old(
            store,
        ).fragment_jobs@ && final(store).next_id == old(store).next_id,
        r is Ok ==> {
            let job_id = r->Ok_0;
            let m = parsed_uuid(cmd.media_id@)->0;
            let ids = fragment_ids_of(old(store).fragments@, m);
            let base = old(store).fragment_jobs@.len();
            &&& final(store).jobs@.len() == old(store).jobs@.len() + 1
            &&& final(store).jobs@.drop_last() == old(store).jobs@
            &&& final(store).jobs@.last().transcoding_job_id == job_id
            &&& final(store).jobs@.last().media_id == m
            &&& final(store).jobs@.last().status == (if cmd.start {
                JobStatus::Queued
            } else {
                JobStatus::Pending
            })
            &&& final(store).jobs@.last().ffmpeg_command@ == cmd.ffmpeg_command@
            &&& final(store).jobs@.last().created_at == now
            &&& final(store).jobs@.last().updated_at == now
            &&& final(store).jobs@.last().deleted_at == None::<i64>
            &&& final(store).fragment_jobs@.len() == base + ids.len()
            &&& final(store).fragment_jobs@.subrange(0, base as int) == old(store).fragment_jobs@
            &&& forall|t: int|
                0 <= t < ids.len() ==> #[trigger] final(store).fragment_jobs@[base + t]
                    == submitted_fragment_job(job_id, ids[t], (job_id + 1 + t) as u128, cmd.start, now)
            &&& final(store).next_id == job_id + 1 + ids.len()
        },
{
    let m = validate_transcode(cmd)?;
    let mut found = false;
    let mut i: usize = 0;
    while i < store.media.len()
        invariant
            i <= store.media@.len(),
            found == exists|j: int| 0 <= j < i && store.media@[j].media_id == m,
        decreases store.media@.len() - i,
    {
        if store.media[i].media_id == m {
            found = true;
        }
        i = i + 1;
    }
    if !found {
        return Err(SubmitError::UnknownMedia);
    }
    let job_id = store.next_id;
    let job = TranscodingJob {
        transcoding_job_id: job_id,
        media_id: m,
        status: JobStatus::initial(cmd.start),
        ffmpeg_command: cmd.ffmpeg_command.clone(),
        created_at: now,
        updated_at: now,
        deleted_at: None,
    };
    store.jobs.push(job);
    store.next_id = job_id + 1;
    assert(job_ids(store.jobs@) =~= job_ids(old(store).jobs@).push(job_id));
    proof {
        let j = choose|j: int| 0 <= j < i && store.media@[j].media_id == m;
        assert(media_ids(store.media@)[j] == m);
        lemma_push_keeps(job_ids(old(store).jobs@), job_id);
    }
    assert(store.jobs@.drop_last() =~= old(store).jobs@);
    let ghost frags = store.fragments@;
    let ghost base = old(store).fragment_jobs@.len();
    proof {
        lemma_fragment_ids_of_len(frags, m);
    }
    let status = FragmentJobStatus::initial(cmd.start);
    let n = store.fragments.len();
    let mut k: usize = 0;
    while k < n
        invariant
            store.wf(),
            n == frags.len(),
            store.fragments@ == frags,
            frags == old(store).fragments@,
            k <= n,
            status == (if cmd.start {
                FragmentJobStatus::Queued
            } else {
                FragmentJobStatus::Pending
            }),
            store.next_id == job_id + 1 + fragment_ids_of(frags.subrange(0, k as int), m).len(),
            job_id + 1 + n <= u128::MAX,
            job_ids(store.jobs@).contains(job_id),
            fragment_ids_of(frags.subrange(0, k as int), m).len() <= k,
            store.fragment_jobs@.len() == base + fragment_ids_of(frags.subrange(0, k as int), m).len(),
            store.fragment_jobs@.subrange(0, base as int) == old(store).fragment_jobs@,
            forall|t: int|
                0 <= t < fragment_ids_of(frags.subrange(0, k as int), m).len()
                    ==> #[trigger] store.fragment_jobs@[base + t] == submitted_fragment_job(
                    job_id,
                    fragment_ids_of(frags.subrange(0, k as int), m)[t],
                    (job_id + 1 + t) as u128,
                    cmd.start,
                    now,
                ),
            store.media@ == old(store).media@,
            store.jobs@.len() == old(store).jobs@.len() + 1,
            store.jobs@.drop_last() == old(store).jobs@,
            store.jobs@.last() == job,
        decreases n - k,
    {
        let ghost prev = fragment_ids_of(frags.subrange(0, k as int), m);
        assert(frags.subrange(0, k + 1).drop_last() =~= frags.subrange(0, k as int));
        if store.fragments[k].media_id == m {
            let fid = store.next_id;
            let row = TranscodingFragmentJob {
                transcoding_fragment_job_id: fid,
                transcoding_job_id: job_id,
                fragment_id: store.fragments[k].fragment_id,
                status,
                created_at: now,
                updated_at: now,
                deleted_at: None,
            };
            let ghost before = store.fragment_jobs@;
            assert(fragment_row_ids(store.fragments@)[k as int] == row.fragment_id);
            store.fragment_jobs.push(row);
            store.next_id = fid + 1;
            assert(fragment_job_ids(store.fragment_jobs@) =~= fragment_job_ids(before).push(fid));
            assert(store.fragment_jobs@.subrange(0, base as int) =~= before.subrange(
                0,
                base as int,
            ));
            assert(fragment_ids_of(frags.subrange(0, k + 1), m) == prev.push(frags[k as int].fragment_id));
        } else {
            assert(fragment_ids_of(frags.subrange(0, k + 1), m) == prev);
        }
        k = k + 1;
    }
    assert(frags.subrange(0, n as int) =~= frags);
    Ok(job_id)
}

} // verus!
