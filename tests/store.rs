use transcodeck::ingest::whole_fragment;
use transcodeck::model::{NewMedia, TranscodeCommand};
use transcodeck::status::{FragmentJobStatus, JobStatus};
use transcodeck::store::{
    add_media, new_transcode, validate_transcode, ClaimOutcome, DuplicateFilename, JobStore,
    SubmitError,
};

fn id_text(id: u128) -> String {
    uuid::Uuid::from_u128(id).hyphenated().to_string()
}

fn store_with_job(start: bool, fragments: usize) -> (JobStore, u128) {
    let mut store = JobStore::new();
    let frags = (0..fragments).map(|i| whole_fragment(format!("f{}.mkv", i))).collect();
    let media = add_media(&mut store, NewMedia { basename: Some("m".to_string()) }, frags, 10).unwrap();
    let cmd = TranscodeCommand {
        media_id: id_text(media),
        ffmpeg_command: "-i {input} {output}".to_string(),
        start,
    };
    let job = new_transcode(&mut store, &cmd, 20).unwrap();
    (store, job)
}

#[test]
fn exactly_one_of_many_claims_wins() {
    let (mut store, _) = store_with_job(true, 1);
    let id = store.fragment_jobs[0].transcoding_fragment_job_id;
    let outcomes: Vec<ClaimOutcome> = (0..8).map(|t| store.claim_if_queued(id, 100 + t)).collect();
    assert_eq!(outcomes.iter().filter(|o| **o == ClaimOutcome::Claimed).count(), 1);
    assert_eq!(outcomes[0], ClaimOutcome::Claimed);
    assert!(outcomes[1..].iter().all(|o| *o == ClaimOutcome::RaceLost));
    assert_eq!(store.fragment_jobs[0].status, FragmentJobStatus::InProgress);
    assert_eq!(store.fragment_jobs[0].updated_at, 100);
}

#[test]
fn claim_takes_the_oldest_queued_row() {
    let (mut store, _) = store_with_job(true, 3);
    store.fragment_jobs[0].created_at = 50;
    store.fragment_jobs[1].created_at = 5;
    store.fragment_jobs[2].created_at = 30;
    let first = store.claim_next_fragment_job(60).unwrap();
    assert_eq!(first.transcoding_fragment_job_id, store.fragment_jobs[1].transcoding_fragment_job_id);
    let second = store.claim_next_fragment_job(61).unwrap();
    assert_eq!(second.transcoding_fragment_job_id, store.fragment_jobs[2].transcoding_fragment_job_id);
    let third = store.claim_next_fragment_job(62).unwrap();
    assert_eq!(third.transcoding_fragment_job_id, store.fragment_jobs[0].transcoding_fragment_job_id);
    assert_eq!(store.claim_next_fragment_job(63), None);
}

#[test]
fn claim_promotes_the_parent_job_once() {
    let (mut store, job) = store_with_job(true, 2);
    assert_eq!(store.jobs[0].status, JobStatus::Queued);
    let claimed = store.claim_next_fragment_job(30).unwrap();
    assert_eq!(claimed.transcoding_job_id, job);
    assert_eq!(store.jobs[0].status, JobStatus::InProgress);
    assert_eq!(store.jobs[0].updated_at, 30);
    store.claim_next_fragment_job(40).unwrap();
    assert_eq!(store.jobs[0].updated_at, 30);
    assert!(!store.promote_job_if_queued(job, 50));
}

#[test]
fn pending_jobs_are_not_claimed() {
    let (mut store, _) = store_with_job(false, 2);
    assert_eq!(store.jobs[0].status, JobStatus::Pending);
    assert!(store.fragment_jobs.iter().all(|r| r.status == FragmentJobStatus::Pending));
    assert_eq!(store.select_oldest_queued(), None);
    assert_eq!(store.claim_next_fragment_job(30), None);
}

#[test]
fn submission_creates_one_fragment_job_per_fragment() {
    let (store, job) = store_with_job(true, 3);
    assert_eq!(store.fragment_jobs.len(), 3);
    for (row, frag) in store.fragment_jobs.iter().zip(store.fragments.iter()) {
        assert_eq!(row.transcoding_job_id, job);
        assert_eq!(row.fragment_id, frag.fragment_id);
        assert_eq!(row.status, FragmentJobStatus::Queued);
        assert_eq!(row.created_at, 20);
    }
    assert_eq!(store.jobs[0].ffmpeg_command, "-i {input} {output}");
}

#[test]
fn submission_errors_write_nothing() {
    let (mut store, _) = store_with_job(true, 1);
    let media = id_text(store.media[0].media_id);
    let bad = |media_id: &str, command: &str| TranscodeCommand {
        media_id: media_id.to_string(),
        ffmpeg_command: command.to_string(),
        start: true,
    };
    assert_eq!(new_transcode(&mut store, &bad("not-a-uuid", "x"), 1), Err(SubmitError::InvalidMediaId));
    assert_eq!(
        new_transcode(&mut store, &bad("00000000-0000-0000-0000-0000000000ff", "x"), 1),
        Err(SubmitError::UnknownMedia)
    );
    assert_eq!(new_transcode(&mut store, &bad(&media, ""), 1), Err(SubmitError::EmptyCommand));
    assert_eq!(store.jobs.len(), 1);
    assert_eq!(store.fragment_jobs.len(), 1);
}

#[test]
fn finishing_moves_only_in_progress_rows() {
    let (mut store, _) = store_with_job(true, 1);
    let id = store.fragment_jobs[0].transcoding_fragment_job_id;
    assert!(!store.finish_fragment_job(id, true, 5));
    store.claim_if_queued(id, 6);
    assert!(store.finish_fragment_job(id, false, 7));
    assert_eq!(store.fragment_jobs[0].status, FragmentJobStatus::Failed);
    assert!(!store.finish_fragment_job(id, true, 8));
    assert_eq!(store.claim_if_queued(id, 9), ClaimOutcome::RaceLost);
}

#[test]
fn validation_reads_the_media_identifier() {
    let cmd = |media_id: &str, command: &str| TranscodeCommand {
        media_id: media_id.to_string(),
        ffmpeg_command: command.to_string(),
        start: false,
    };
    assert_eq!(
        validate_transcode(&cmd("67e55044-10b1-426f-9247-bb680e5fe0c8", "x")),
        Ok(0x67e55044_10b1_426f_9247_bb680e5fe0c8)
    );
    assert_eq!(validate_transcode(&cmd("67e55044", "x")), Err(SubmitError::InvalidMediaId));
    assert_eq!(validate_transcode(&cmd("", "")), Err(SubmitError::InvalidMediaId));
    assert_eq!(
        validate_transcode(&cmd("67e55044-10b1-426f-9247-bb680e5fe0c8", "")),
        Err(SubmitError::EmptyCommand)
    );
}

#[test]
fn fragment_names_are_unique_within_a_media() {
    let mut store = JobStore::new();
    let frags = vec![whole_fragment("a.mkv".to_string()), whole_fragment("a.mkv".to_string())];
    assert_eq!(add_media(&mut store, NewMedia { basename: None }, frags, 1), Err(DuplicateFilename));
    assert!(store.media.is_empty());
    assert!(store.fragments.is_empty());
    let first = add_media(&mut store, NewMedia { basename: None }, vec![whole_fragment("a.mkv".to_string())], 2);
    let second = add_media(&mut store, NewMedia { basename: None }, vec![whole_fragment("a.mkv".to_string())], 3);
    assert_eq!(first, Ok(1));
    assert_eq!(second, Ok(3));
    assert_eq!(store.fragments[1].media_id, 3);
    assert_eq!(store.fragments[1].fragment_id, 4);
}
