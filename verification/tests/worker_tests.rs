use stowage::db_utils::{JobStatus, Store};
use stowage::handlers::{download_file, get_job_status, record_upload, upload_file, UploadFinish, UploadOutcome};
use stowage::hashing::content_hash;
use stowage::worker::{
    finish_write, handle_fetch_result, record_new_file, worker_backoff_secs, DownloadStep,
    PollResult,
};
use stowage::config::Config;

fn store_with_claimed_job(url: &str) -> (Store, String) {
    let mut store = Store::new_in_memory().unwrap();
    let resp = download_file(&mut store, url).unwrap();
    let claimed = store.get_and_start_job().unwrap().expect("job queued");
    assert_eq!(claimed.id, resp.job_id);
    (store, resp.job_id)
}

#[test]
fn test_worker_fetch_error_fails_job() {
    let (mut store, job_id) = store_with_claimed_job("https://host/a.json");
    let body: Vec<u8> = Vec::new();
    let step = handle_fetch_result(
        &mut store,
        "media",
        &job_id,
        Err("connection refused".to_string()),
        &body,
    )
    .unwrap();
    match step {
        DownloadStep::Failed { error } => assert_eq!(error, "connection refused"),
        _ => panic!("a fetch error must fail the job"),
    }
    let status = get_job_status(&store, &job_id).unwrap().unwrap();
    assert_eq!(status.status, "Failed");
    assert_eq!(status.error, Some("connection refused".to_string()));
    assert_eq!(status.file_id, None);
}

#[test]
fn test_worker_non_2xx_fails_job() {
    let (mut store, job_id) = store_with_claimed_job("https://host/a.json");
    let body: Vec<u8> = Vec::new();
    let step = handle_fetch_result(
        &mut store,
        "media",
        &job_id,
        Ok((404, "text/plain".to_string())),
        &body,
    )
    .unwrap();
    match step {
        DownloadStep::Failed { error } => {
            assert_eq!(error, "Failed to download file: 404");
        }
        _ => panic!("a 404 must fail the job"),
    }
    let job = store.get_job_by_id(&job_id).unwrap().unwrap();
    assert_eq!(job.status, JobStatus::Failed);
}

#[test]
fn test_worker_fresh_download_completes_job() {
    let (mut store, job_id) = store_with_claimed_job("https://host/data.json");
    let body = b"{\"x\": 1}".to_vec();
    let step = handle_fetch_result(
        &mut store,
        "media",
        &job_id,
        Ok((200, "application/json".to_string())),
        &body,
    )
    .unwrap();
    let (final_path, url, hash) = match step {
        DownloadStep::NeedsWrite {
            final_path,
            url,
            hash,
        } => (final_path, url, hash),
        _ => panic!("fresh content needs a write"),
    };
    assert_eq!(final_path, format!("media/{}.json", job_id));
    assert_eq!(url, format!("/files/{}", job_id));
    assert_eq!(hash, content_hash(&body));
    // the caller wrote the bytes successfully
    let fid = finish_write(&mut store, &job_id, &final_path, &url, &hash, true, "")
        .unwrap()
        .expect("a successful write completes the job");
    let status = get_job_status(&store, &job_id).unwrap().unwrap();
    assert_eq!(status.status, "Completed");
    assert_eq!(status.file_id, Some(fid));
    assert_eq!(status.download_url, Some("https://host/data.json".to_string()));
    assert_eq!(status.error, None);
    let rec = store.get_file_by_id(fid).unwrap().unwrap();
    assert_eq!(rec.filepath, final_path);
    assert_eq!(rec.hash, hash);
}

#[test]
fn test_worker_download_without_content_type_slash() {
    let (mut store, job_id) = store_with_claimed_job("https://host/blob");
    let body = b"{\"x\": 2}".to_vec();
    let step = handle_fetch_result(
        &mut store,
        "media",
        &job_id,
        Ok((200, "weird".to_string())),
        &body,
    )
    .unwrap();
    match step {
        DownloadStep::NeedsWrite { final_path, .. } => {
            // no extension can be derived, so the path is the bare job id
            assert_eq!(final_path, format!("media/{}", job_id));
        }
        _ => panic!("fresh content needs a write"),
    }
}

#[test]
fn test_worker_deduplicates_against_stored_content() {
    let mut store = Store::new_in_memory().unwrap();
    let body = b"{\"shared\": true}".to_vec();
    let uploaded = upload_file(&store, "media", "orig.json", &body).unwrap();
    match uploaded {
        UploadOutcome::Fresh {
            file_id,
            final_path,
            download_url,
            hash,
        } => {
            record_upload(&mut store, &file_id, &final_path, &download_url, &hash).unwrap();
        }
        UploadOutcome::Duplicate { .. } => panic!("first upload must be fresh"),
    }
    let resp = download_file(&mut store, "https://host/same.json").unwrap();
    let claimed = store.get_and_start_job().unwrap().unwrap();
    assert_eq!(claimed.id, resp.job_id);
    let step = handle_fetch_result(
        &mut store,
        "media",
        &resp.job_id,
        Ok((200, "application/json".to_string())),
        &body,
    )
    .unwrap();
    let fid = match step {
        DownloadStep::Completed { file_id } => file_id,
        _ => panic!("stored content completes at once"),
    };
    assert_eq!(store.count_files().unwrap(), 1);
    let status = get_job_status(&store, &resp.job_id).unwrap().unwrap();
    assert_eq!(status.status, "Completed");
    assert_eq!(status.file_id, Some(fid));
    assert_eq!(status.download_url, Some("https://host/same.json".to_string()));
}

#[test]
fn test_worker_write_failure_fails_job() {
    let (mut store, job_id) = store_with_claimed_job("https://host/a.bin");
    let body = b"fresh bytes".to_vec();
    let hash = content_hash(&body);
    let final_path = format!("media/{}", job_id);
    let url = format!("/files/{}", job_id);
    let r = finish_write(&mut store, &job_id, &final_path, &url, &hash, false, "disk full")
        .unwrap();
    assert_eq!(r, None);
    let job = store.get_job_by_id(&job_id).unwrap().unwrap();
    assert_eq!(job.status, JobStatus::Failed);
    assert_eq!(job.error, Some("disk full".to_string()));
    assert_eq!(store.count_files().unwrap(), 0);
}

#[test]
fn test_record_new_file_reuses_racing_row() {
    let mut store = Store::new_in_memory().unwrap();
    let first = store
        .insert_file("media/a.json", "/files/a", "hash-1")
        .unwrap();
    // the insert under the same hash is refused and resolved as a lookup
    let reused = record_new_file(&mut store, "media/b.json", "/files/b", "hash-1").unwrap();
    assert_eq!(reused, first);
    assert_eq!(store.count_files().unwrap(), 1);
}

#[test]
fn test_upload_deduplicates_against_worker_download() {
    // content first brought in by the worker is recognized by the upload
    // path: both ingestion paths honor the shared hash-uniqueness invariant
    let (mut store, job_id) = store_with_claimed_job("https://host/data.json");
    let body = b"{\"via\": \"worker\"}".to_vec();
    let step = handle_fetch_result(
        &mut store,
        "media",
        &job_id,
        Ok((200, "application/json".to_string())),
        &body,
    )
    .unwrap();
    let (final_path, url, hash) = match step {
        DownloadStep::NeedsWrite {
            final_path,
            url,
            hash,
        } => (final_path, url, hash),
        _ => panic!("fresh content needs a write"),
    };
    finish_write(&mut store, &job_id, &final_path, &url, &hash, true, "")
        .unwrap()
        .expect("write completes the job");
    assert_eq!(store.count_files().unwrap(), 1);
    let uploaded = upload_file(&store, "media", "same.json", &body).unwrap();
    match uploaded {
        UploadOutcome::Duplicate { response } => {
            // the stored path's stem is the job id the worker stored under
            assert_eq!(response.file_id, job_id);
        }
        UploadOutcome::Fresh { .. } => panic!("stored content must deduplicate"),
    }
    assert_eq!(store.count_files().unwrap(), 1);
}

#[test]
fn test_record_upload_racing_writer_answers_with_original() {
    // the bytes were persisted, but another writer recorded the same
    // content first: the insert is refused and the original row answers
    let mut store = Store::new_in_memory().unwrap();
    store
        .insert_file("media/aaaa.json", "/files/aaaa", "hash-1")
        .unwrap();
    let finish = record_upload(
        &mut store,
        "bbbb",
        "media/bbbb.json",
        "/files/bbbb",
        "hash-1",
    )
    .unwrap();
    match finish {
        UploadFinish::AlreadyStored { response } => {
            assert_eq!(response.file_id, "aaaa");
            assert_eq!(response.download_url, "/files/aaaa");
            assert_eq!(response.message, "File already exists");
        }
        UploadFinish::Created { .. } => panic!("the racing row must answer"),
    }
    assert_eq!(store.count_files().unwrap(), 1);
}

#[test]
fn test_worker_backoff_secs() {
    assert_eq!(worker_backoff_secs(&PollResult::Dispatched), 0);
    assert_eq!(worker_backoff_secs(&PollResult::QueueEmpty), 1);
    assert_eq!(worker_backoff_secs(&PollResult::PollError), 5);
}

#[test]
fn test_config_default() {
    let cfg = Config::default();
    assert_eq!(cfg.media_path, "media");
    assert_eq!(cfg.max_file_size, 100 * 1024 * 1024);
    assert_eq!(cfg.allowed_mime_types.len(), 8);
    assert_eq!(cfg.allowed_mime_types[0], "audio/*");
    assert_eq!(cfg.allowed_mime_types[7], "application/xml");
}
