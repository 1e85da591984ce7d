use transcodeck::ingest::{assign_retrieval_urls, whole_fragment};
use transcodeck::model::{JobResume, NewMedia, TranscodeCommand};
use transcodeck::status::{FragmentJobStatus, JobStatus};
use transcodeck::store::{add_media, new_transcode, ClaimOutcome, JobStore};
use transcodeck::worker::{plan_run, step, Action, Event, Phase, UnexpectedEvent, WorkerConfig};

fn id_text(id: u128) -> String {
    uuid::Uuid::from_u128(id).hyphenated().to_string()
}

fn config() -> WorkerConfig {
    WorkerConfig { output_root: "/out".to_string(), template_defaults: Vec::new() }
}

/// Ingests `m.mkv` served at `http://h/m.mkv` and submits a started job.
fn ingested(command: &str) -> (JobStore, u128) {
    let mut store = JobStore::new();
    let mut frags = vec![whole_fragment("m.mkv".to_string())];
    assign_retrieval_urls(&mut frags, "http://h");
    let media = add_media(&mut store, NewMedia { basename: Some("m".to_string()) }, frags, 1).unwrap();
    let cmd = TranscodeCommand { media_id: id_text(media), ffmpeg_command: command.to_string(), start: true };
    let job = new_transcode(&mut store, &cmd, 2).unwrap();
    (store, job)
}

/// Drives one worker iteration against the store; the transcoder exits with
/// `success`. Returns the actions taken.
fn one_iteration(store: &mut JobStore, success: bool) -> Vec<String> {
    let config = config();
    let mut log = Vec::new();
    let (mut phase, mut action) = step(&config, Phase::Polling, Event::Candidate(store.select_oldest_queued())).unwrap();
    loop {
        let event = match &action {
            Action::ClaimIfQueued { fragment_job_id } => Event::Claim(store.claim_if_queued(*fragment_job_id, 10)),
            Action::Load { fragment_id, transcoding_job_id } => {
                store.promote_job_if_queued(*transcoding_job_id, 11);
                let fragment = store.fragments.iter().find(|f| f.fragment_id == *fragment_id).unwrap().clone();
                let command = store.jobs.iter().find(|j| j.transcoding_job_id == *transcoding_job_id).unwrap().ffmpeg_command.clone();
                Event::Loaded { fragment, command }
            }
            Action::Fetch { url, filename } => {
                log.push(format!("fetch {} {}", url, filename));
                Event::Fetched { path: format!("/work/{}", filename) }
            }
            Action::Decrypt { .. } => Event::StepFailed,
            Action::Run { args, .. } => {
                log.push(format!("run {}", args.join(" ")));
                Event::Exited { success }
            }
            Action::Finish { fragment_job_id, status } => {
                store.finish_fragment_job(*fragment_job_id, *status == FragmentJobStatus::Completed, 12);
                Event::Recorded
            }
            Action::SelectOldestQueued => break,
            Action::Sleep => break,
        };
        let next = step(&config, phase, event).unwrap();
        phase = next.0;
        action = next.1;
    }
    log
}

#[test]
fn end_to_end_ingest_submit_and_transcode() {
    let (mut store, job) = ingested("-i {input} -c copy {output}");
    assert_eq!(store.fragments.len(), 1);
    assert_eq!(store.fragments[0].retrieval_url, Some("http://h/m.mkv".to_string()));
    assert_eq!(store.fragments[0].encryption_key, None);
    assert_eq!(store.jobs[0].status, JobStatus::Queued);
    assert_eq!(store.fragment_jobs.len(), 1);
    assert_eq!(store.fragment_jobs[0].status, FragmentJobStatus::Queued);

    let log = one_iteration(&mut store, true);
    let out = format!("/out/{}/m.mkv", id_text(job));
    assert_eq!(log, vec!["fetch http://h/m.mkv m.mkv".to_string(), format!("run -i /work/m.mkv -c copy {}", out)]);
    assert_eq!(store.fragment_jobs[0].status, FragmentJobStatus::Completed);
    assert_eq!(store.jobs[0].status, JobStatus::InProgress);
}

#[test]
fn failed_transcode_is_not_retried() {
    let (mut store, _) = ingested("-i {input} {output}");
    one_iteration(&mut store, false);
    assert_eq!(store.fragment_jobs[0].status, FragmentJobStatus::Failed);
    assert_eq!(store.select_oldest_queued(), None);
    let second = one_iteration(&mut store, true);
    assert!(second.is_empty());
    assert_eq!(store.fragment_jobs[0].status, FragmentJobStatus::Failed);
}

#[test]
fn nonzero_exit_finishes_failed() {
    let job = JobResume { transcoding_fragment_job_id: 7, transcoding_job_id: 3, fragment_id: 5 };
    let (phase, action) = step(&config(), Phase::Transcoding { job }, Event::Exited { success: false }).unwrap();
    assert!(matches!(phase, Phase::Finishing { .. }));
    assert!(matches!(action, Action::Finish { fragment_job_id: 7, status: FragmentJobStatus::Failed }));
    let (phase, action) = step(&config(), phase, Event::Recorded).unwrap();
    assert!(matches!(phase, Phase::Polling));
    assert!(matches!(action, Action::SelectOldestQueued));
}

#[test]
fn lost_race_selects_again() {
    let job = JobResume { transcoding_fragment_job_id: 7, transcoding_job_id: 3, fragment_id: 5 };
    let (phase, action) = step(&config(), Phase::Claiming { job }, Event::Claim(ClaimOutcome::RaceLost)).unwrap();
    assert!(matches!(phase, Phase::Polling));
    assert!(matches!(action, Action::SelectOldestQueued));
}

#[test]
fn nothing_queued_sleeps_then_polls() {
    let (phase, action) = step(&config(), Phase::Polling, Event::Candidate(None)).unwrap();
    assert!(matches!(action, Action::Sleep));
    let (_, action) = step(&config(), phase, Event::Woke).unwrap();
    assert!(matches!(action, Action::SelectOldestQueued));
}

#[test]
fn missing_url_fails_before_any_fetch() {
    let (mut store, _) = ingested("-i {input} {output}");
    store.fragments[0].retrieval_url = None;
    let log = one_iteration(&mut store, true);
    assert!(log.is_empty());
    assert_eq!(store.fragment_jobs[0].status, FragmentJobStatus::Failed);
}

#[test]
fn unrenderable_template_fails_the_job() {
    let (mut store, _) = ingested("-i {input} {missing}");
    let log = one_iteration(&mut store, true);
    assert_eq!(log.len(), 1);
    assert_eq!(store.fragment_jobs[0].status, FragmentJobStatus::Failed);
}

#[test]
fn encrypted_fragment_is_decrypted_first() {
    let job = JobResume { transcoding_fragment_job_id: 7, transcoding_job_id: 3, fragment_id: 5 };
    let (mut store, _) = ingested("x");
    let mut fragment = store.fragments.remove(0);
    fragment.encryption_key = Some("KEY".to_string());
    let phase = Phase::Fetching { job, fragment, command: "{input}".to_string() };
    let (phase, action) = step(&config(), phase, Event::Fetched { path: "/w/m.age".to_string() }).unwrap();
    assert!(matches!(&action, Action::Decrypt { key_text, path } if key_text == "KEY" && path == "/w/m.age"));
    let (_, action) = step(&config(), phase, Event::Decrypted { path: "/w/m.mkv".to_string() }).unwrap();
    assert!(matches!(&action, Action::Run { args, .. } if args == &vec!["/w/m.mkv".to_string()]));
}

#[test]
fn unexpected_events_are_refused() {
    assert_eq!(step(&config(), Phase::Polling, Event::Recorded).err(), Some(UnexpectedEvent));
    assert_eq!(step(&config(), Phase::Sleeping, Event::Exited { success: true }).err(), Some(UnexpectedEvent));
}

#[test]
fn run_plan_uses_defaults_and_output_layout() {
    let config = WorkerConfig {
        output_root: "/out".to_string(),
        template_defaults: vec![("crf".to_string(), "23".to_string()), ("output".to_string(), "/ignored".to_string())],
    };
    let plan = plan_run(&config, 1, "f.mkv", "-i {input} -crf {crf} {output}", "/w/f.mkv").unwrap();
    assert_eq!(plan.output, "/out/00000000-0000-0000-0000-000000000001/f.mkv");
    assert_eq!(plan.output_dir, "/out/00000000-0000-0000-0000-000000000001");
    assert_eq!(plan.args, vec!["-i", "/w/f.mkv", "-crf", "23", "/out/00000000-0000-0000-0000-000000000001/f.mkv"]);
}
