use stowage::db_utils::{JobStatus, Store};

#[test]
fn test_status_strings() {
    assert_eq!(JobStatus::NotStarted.to_string(), "NotStarted");
    assert_eq!(JobStatus::Running.to_string(), "Running");
    assert_eq!(JobStatus::Completed.to_string(), "Completed");
    assert_eq!(JobStatus::Failed.to_string(), "Failed");
    assert_eq!(JobStatus::from_str("NotStarted"), Ok(JobStatus::NotStarted));
    assert_eq!(JobStatus::from_str("Running"), Ok(JobStatus::Running));
    assert_eq!(JobStatus::from_str("Completed"), Ok(JobStatus::Completed));
    assert_eq!(JobStatus::from_str("Failed"), Ok(JobStatus::Failed));
    assert_eq!(JobStatus::from_str("bogus"), Err(()));
    assert_eq!(JobStatus::from_str("notstarted"), Err(()));
}

#[test]
fn test_insert_and_get_job() {
    let mut store = Store::new_in_memory().unwrap();
    store
        .insert_job("job-1", &JobStatus::NotStarted, None, "https://host/a.json")
        .unwrap();
    let job = store.get_job_by_id("job-1").unwrap().expect("job should exist");
    assert_eq!(job.id, "job-1");
    assert_eq!(job.status, JobStatus::NotStarted);
    assert_eq!(job.file_id, None);
    assert_eq!(job.download_url, "https://host/a.json");
    assert_eq!(job.error, None);
    assert!(store.get_job_by_id("missing").unwrap().is_none());
}

#[test]
fn test_insert_job_duplicate_id_fails() {
    let mut store = Store::new_in_memory().unwrap();
    store
        .insert_job("job-1", &JobStatus::NotStarted, None, "https://host/a")
        .unwrap();
    let second = store.insert_job("job-1", &JobStatus::NotStarted, None, "https://host/b");
    assert!(second.is_err());
    // the first row is untouched
    let job = store.get_job_by_id("job-1").unwrap().unwrap();
    assert_eq!(job.download_url, "https://host/a");
}

#[test]
fn test_claim_none_when_empty() {
    let mut store = Store::new_in_memory().unwrap();
    assert!(store.get_and_start_job().unwrap().is_none());
}

#[test]
fn test_claim_marks_running_exactly_once() {
    let mut store = Store::new_in_memory().unwrap();
    store
        .insert_job("job-1", &JobStatus::NotStarted, None, "https://host/a")
        .unwrap();
    let claimed = store.get_and_start_job().unwrap().expect("one job is queued");
    assert_eq!(claimed.id, "job-1");
    assert_eq!(claimed.status, JobStatus::Running);
    // at most one claimer observes the transition: nothing is left to claim
    assert!(store.get_and_start_job().unwrap().is_none());
    let job = store.get_job_by_id("job-1").unwrap().unwrap();
    assert_eq!(job.status, JobStatus::Running);
}

#[test]
fn test_complete_job_lifecycle() {
    let mut store = Store::new_in_memory().unwrap();
    store
        .insert_job("job-1", &JobStatus::NotStarted, None, "https://host/a")
        .unwrap();
    let claimed = store.get_and_start_job().unwrap().unwrap();
    let fid = store.insert_file("media/x.json", "/files/x", "hash-x").unwrap();
    assert!(store.complete_job(&claimed.id, fid).unwrap());
    let job = store.get_job_by_id("job-1").unwrap().unwrap();
    assert_eq!(job.status, JobStatus::Completed);
    assert_eq!(job.file_id, Some(fid));
    assert_eq!(job.error, None);
    // a terminal job is never transitioned again
    assert!(!store.complete_job(&claimed.id, fid).unwrap());
    assert!(!store.fail_job(&claimed.id, "late").unwrap());
}

#[test]
fn test_fail_job_records_error() {
    let mut store = Store::new_in_memory().unwrap();
    store
        .insert_job("job-1", &JobStatus::NotStarted, None, "https://host/a")
        .unwrap();
    let claimed = store.get_and_start_job().unwrap().unwrap();
    assert!(store.fail_job(&claimed.id, "connection refused").unwrap());
    let job = store.get_job_by_id("job-1").unwrap().unwrap();
    assert_eq!(job.status, JobStatus::Failed);
    assert_eq!(job.error, Some("connection refused".to_string()));
    assert_eq!(job.file_id, None);
    // Failed is terminal
    assert!(!store.fail_job(&claimed.id, "again").unwrap());
    let fid = store.insert_file("media/y.json", "/files/y", "hash-y").unwrap();
    assert!(!store.complete_job(&claimed.id, fid).unwrap());
}

#[test]
fn test_fail_job_not_started() {
    let mut store = Store::new_in_memory().unwrap();
    store
        .insert_job("job-1", &JobStatus::NotStarted, None, "https://host/a")
        .unwrap();
    // a queued job may be failed without being claimed
    assert!(store.fail_job("job-1", "cancelled").unwrap());
    let job = store.get_job_by_id("job-1").unwrap().unwrap();
    assert_eq!(job.status, JobStatus::Failed);
}

#[test]
fn test_insert_file_and_lookups() {
    let mut store = Store::new_in_memory().unwrap();
    assert_eq!(store.count_files().unwrap(), 0);
    let fid = store
        .insert_file("media/a.json", "/files/a", "hash-1")
        .unwrap();
    assert_eq!(store.count_files().unwrap(), 1);
    let rec = store.get_file_by_id(fid).unwrap().expect("row exists");
    assert_eq!(rec.filepath, "media/a.json");
    assert_eq!(rec.url, "/files/a");
    assert_eq!(rec.hash, "hash-1");
    assert_eq!(
        store.get_filepath_by_hash("hash-1").unwrap(),
        Some("media/a.json".to_string())
    );
    assert_eq!(store.get_filepath_by_hash("absent").unwrap(), None);
    assert_eq!(store.get_file_id_by_path("media/a.json").unwrap(), Some(fid));
    assert_eq!(store.get_file_id_by_path("media/b.json").unwrap(), None);
    let by_hash = store.get_file_by_hash("hash-1").unwrap().unwrap();
    assert_eq!(by_hash.id, fid);
    assert!(store.get_file_by_id(fid + 1).unwrap().is_none());
}

#[test]
fn test_insert_file_duplicate_hash_refused() {
    let mut store = Store::new_in_memory().unwrap();
    store
        .insert_file("media/a.json", "/files/a", "hash-1")
        .unwrap();
    let dup = store.insert_file("media/b.json", "/files/b", "hash-1");
    assert!(dup.is_err());
    assert_eq!(store.count_files().unwrap(), 1);
}

#[test]
fn test_open_bad_path_is_storage_error() {
    let r = Store::open("/nonexistent-dir-for-sure/stowage.db");
    assert!(r.is_err());
}
