use transcodeck::status::{FragmentJobEvent, FragmentJobStatus, JobEvent, JobStatus, TransitionError};

#[test]
fn fragment_job_lifecycle() {
    let s = FragmentJobStatus::initial(false);
    assert_eq!(s, FragmentJobStatus::Pending);
    let s = s.apply(FragmentJobEvent::Queue).unwrap();
    let s = s.apply(FragmentJobEvent::Claim).unwrap();
    assert_eq!(s, FragmentJobStatus::InProgress);
    assert_eq!(s.apply(FragmentJobEvent::Complete), Ok(FragmentJobStatus::Completed));
    assert_eq!(s.apply(FragmentJobEvent::Fail), Ok(FragmentJobStatus::Failed));
}

#[test]
fn invalid_transitions_are_refused() {
    assert_eq!(
        FragmentJobStatus::Failed.apply(FragmentJobEvent::Queue),
        Err(TransitionError::FragmentJob {
            fragment_job_status: FragmentJobStatus::Failed,
            fragment_job_event: FragmentJobEvent::Queue
        })
    );
    assert!(FragmentJobStatus::Pending.apply(FragmentJobEvent::Claim).is_err());
    assert!(FragmentJobStatus::InProgress.apply(FragmentJobEvent::Cancel).is_err());
    assert!(JobStatus::Completed.apply(JobEvent::Cancel).is_err());
}

#[test]
fn operator_actions_from_waiting_states() {
    assert_eq!(FragmentJobStatus::Queued.apply(FragmentJobEvent::Reserve), Ok(FragmentJobStatus::Reserved));
    assert_eq!(FragmentJobStatus::Pending.apply(FragmentJobEvent::Delete), Ok(FragmentJobStatus::Deleted));
    assert_eq!(JobStatus::InProgress.apply(JobEvent::Cancel), Ok(JobStatus::Cancelled));
    assert_eq!(JobStatus::initial(true).apply(JobEvent::Start), Ok(JobStatus::InProgress));
}
