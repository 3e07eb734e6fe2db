//! The decision logic of the download worker's per-job task. The caller
//! claims a job through the store, performs the remote fetch and the disk
//! write, and hands every outcome back here; everything that touches the
//! store or decides the job's fate is verified.

use vstd::prelude::*;
use vstd::string::StrSliceExecFns;
use vstd::string::StringExecFns;
use crate::db_utils::{FileModel, JobModel, JobStatus, Store, StoreError};
use crate::hashing::{content_hash, spec_content_hash};
use crate::strutil::{decimal_string, first_index_of, lemma_first_index, spec_decimal, spec_first_index};

verus! {

/// The extension derived from a response's declared content type: the
/// segment between the first '/' and the next '/' or ';', or nothing when
/// the value holds no '/'.
pub open spec fn spec_ext_from_content_type(ct: Seq<char>) -> Seq<char> {
    let sl = spec_first_index(ct, '/');
    if sl == -1 {
        Seq::empty()
    } else {
        let after = ct.subrange(sl + 1, ct.len() as int);
        let sl2 = spec_first_index(after, '/');
        let seg = if sl2 == -1 {
            after
        } else {
            after.subrange(0, sl2)
        };
        let sc = spec_first_index(seg, ';');
        if sc == -1 {
            seg
        } else {
            seg.subrange(0, sc)
        }
    }
}

pub fn extension_from_content_type(content_type: &str) -> (r: String)
    ensures
        r@ == spec_ext_from_content_type(content_type@),
{
    let n = content_type.unicode_len();
    let sl = match first_index_of(content_type, '/') {
        None => {
            return String::new();
        },
        Some(i) => i,
    };
    proof {
        lemma_first_index(content_type@, '/');
    }
    let after = content_type.substring_char(sl + 1, n);
    proof {
        assert(after@ =~= content_type@.subrange(sl + 1, n as int));
    }
    let seg = match first_index_of(after, '/') {
        None => after,
        Some(i) => {
            proof {
                lemma_first_index(after@, '/');
            }
            after.substring_char(0, i)
        },
    };
    let out = match first_index_of(seg, ';') {
        None => seg,
        Some(i) => {
            proof {
                lemma_first_index(seg@, ';');
            }
            seg.substring_char(0, i)
        },
    };
    out.to_owned()
}

/// What one claimed job's fetch outcome led to: the job was failed with the
/// recorded error; the job completed against content already stored; or the
/// body is fresh and the caller must write it at `final_path` before the
/// job can be finished.
pub enum DownloadStep {
    Failed { error: String },
    Completed { file_id: i64 },
    NeedsWrite { final_path: String, url: String, hash: String },
}

/// Settles a claimed job against what came back from the remote fetch.
///
/// A fetch error or a response outside the 2xx range fails the job with the
/// error recorded. A successful response is deduplicated by content digest:
/// stored content completes the job against the existing File row at once,
/// and fresh content is handed back for the caller to persist at the
/// returned path (derived from the job id and the response's declared
/// content type) before finishing the job.
pub fn handle_fetch_result(
    store: &mut Store,
    media_path: &str,
    job_id: &str,
    fetch: Result<(u16, String), String>,
    body: &Vec<u8>,
) -> (r: Result<DownloadStep, StoreError>)
    requires
        old(store).jobs().contains_key(job_id@),
        old(store).jobs()[job_id@].status == JobStatus::Running,
    ensures
        final (store).files() == old(store).files(),
        old(store).inv() ==> final (store).inv(),
        match r {
            Ok(DownloadStep::Failed { error }) => {
                &&& final (store).jobs() == old(store).jobs().insert(
                    job_id@,
                    JobModel {
                        status: JobStatus::Failed,
                        error: Some(error@),
                        ..old(store).jobs()[job_id@]
                    },
                )
                &&& match fetch {
                    Err(m) => error@ == m@,
                    Ok((status, _)) => !(200 <= status < 300) && error@
                        == "Failed to download file: "@ + spec_decimal(status as nat),
                }
            },
            Ok(DownloadStep::Completed { file_id }) => {
                &&& (fetch matches Ok((status, _)) && 200 <= status < 300)
                &&& exists|i: int|
                    0 <= i < old(store).files().len() && #[trigger] old(store).files()[i].hash
                        == spec_content_hash(body@) && old(store).files()[i].id == file_id as int
                &&& final (store).jobs() == old(store).jobs().insert(
                    job_id@,
                    JobModel {
                        status: JobStatus::Completed,
                        file_id: Some(file_id as int),
                        ..old(store).jobs()[job_id@]
                    },
                )
            },
            Ok(DownloadStep::NeedsWrite { final_path, url, hash }) => {
                &&& (fetch matches Ok((status, ct)) && 200 <= status < 300 && {
                    let ext = spec_ext_from_content_type(ct@);
                    final_path@ == if ext.len() == 0 {
                        media_path@ + "/"@ + job_id@
                    } else {
                        media_path@ + "/"@ + job_id@ + "."@ + ext
                    }
                })
                &&& forall|i: int|
                    0 <= i < old(store).files().len() ==> #[trigger] old(store).files()[i].hash
                        != spec_content_hash(body@)
                &&& hash@ == spec_content_hash(body@)
                &&& url@ == "/files/"@ + job_id@
                &&& final (store).jobs() == old(store).jobs()
            },
            Err(_) => final (store).jobs() == old(store).jobs(),
        },
{
    let (status, content_type) = match fetch {
        Err(msg) => {
            match store.fail_job(job_id, msg.as_str()) {
                Err(e) => {
                    return Err(e);
                },
                Ok(_) => {
                    return Ok(DownloadStep::Failed { error: msg });
                },
            }
        },
        Ok(p) => p,
    };
    if !(status >= 200 && status < 300) {
        let error = "Failed to download file: ".to_owned().concat(
            decimal_string(status as u32).as_str(),
        );
        match store.fail_job(job_id, error.as_str()) {
            Err(e) => {
                return Err(e);
            },
            Ok(_) => {
                return Ok(DownloadStep::Failed { error });
            },
        }
    }
    let hash = content_hash(body.as_slice());
    match store.get_file_by_hash(hash.as_str()) {
        Err(e) => Err(e),
        Ok(Some(f)) => {
            proof {
                let i = choose|i: int|
                    0 <= i < store.files().len() && #[trigger] store.files()[i] == f.model();
                assert(store.files()[i].hash == hash@);
                assert(store.files()[i].id == f.id as int);
            }
            match store.complete_job(job_id, f.id) {
                Err(e) => Err(e),
                Ok(_) => Ok(DownloadStep::Completed { file_id: f.id }),
            }
        },
        Ok(None) => {
            let ext = extension_from_content_type(content_type.as_str());
            let stem = media_path.to_owned().concat("/").concat(job_id);
            let final_path = if ext.as_str().is_empty() {
                stem
            } else {
                stem.concat(".").concat(ext.as_str())
            };
            let url = "/files/".to_owned().concat(job_id);
            Ok(DownloadStep::NeedsWrite { final_path, url, hash })
        },
    }
}

/// How recording content under a hash relates the File rows before and
/// after: either one fresh row was appended under a fresh id, or nothing
/// changed and the id names a row already carrying the hash.
pub open spec fn spec_recorded(
    files0: Seq<FileModel>,
    files1: Seq<FileModel>,
    final_path: Seq<char>,
    url: Seq<char>,
    hash: Seq<char>,
    fid: int,
) -> bool {
    ||| {
        &&& forall|i: int|
            0 <= i < files0.len() ==> #[trigger] files0[i].hash != hash && files0[i].id != fid
        &&& files1 == files0.push(FileModel { id: fid, filepath: final_path, url, hash })
    }
    ||| {
        &&& files1 == files0
        &&& exists|i: int|
            0 <= i < files0.len() && #[trigger] files0[i].hash == hash && files0[i].id == fid
    }
}

/// Records freshly downloaded content as a File row. When a concurrent
/// writer stored the same content first, the store's hash-uniqueness
/// constraint refuses the row and the existing one is returned instead.
pub fn record_new_file(store: &mut Store, final_path: &str, url: &str, hash: &str) -> (r: Result<
    i64,
    StoreError,
>)
    ensures
        final (store).jobs() == old(store).jobs(),
        old(store).inv() ==> final (store).inv(),
        match r {
            Ok(fid) => spec_recorded(
                old(store).files(),
                final (store).files(),
                final_path@,
                url@,
                hash@,
                fid as int,
            ),
            Err(_) => final (store).files() == old(store).files(),
        },
{
    match store.insert_file(final_path, url, hash) {
        Ok(fid) => {
            proof {
                assert(store.files() == old(store).files().push(
                    FileModel { id: fid as int, filepath: final_path@, url: url@, hash: hash@ },
                ));
            }
            Ok(fid)
        },
        Err(first_err) => {
            match store.get_file_by_hash(hash) {
                Ok(Some(f)) => {
                    proof {
                        let i = choose|i: int|
                            0 <= i < store.files().len() && #[trigger] store.files()[i]
                                == f.model();
                        assert(store.files()[i].hash == hash@);
                        assert(store.files()[i].id == f.id as int);
                    }
                    Ok(f.id)
                },
                Ok(None) => Err(first_err),
                Err(e) => Err(e),
            }
        },
    }
}

/// Finishes a claimed job once the caller has tried to persist fresh
/// content: a successful write records the File row (deduplicating against
/// a concurrent writer) and completes the job with it; a failed write fails
/// the job with the write error recorded.
pub fn finish_write(
    store: &mut Store,
    job_id: &str,
    final_path: &str,
    url: &str,
    hash: &str,
    write_ok: bool,
    write_error: &str,
) -> (r: Result<Option<i64>, StoreError>)
    requires
        old(store).jobs().contains_key(job_id@),
        old(store).jobs()[job_id@].status == JobStatus::Running,
    ensures
        old(store).inv() ==> final (store).inv(),
        match r {
            Ok(Some(fid)) => {
                &&& write_ok
                &&& final (store).jobs() == old(store).jobs().insert(
                    job_id@,
                    JobModel {
                        status: JobStatus::Completed,
                        file_id: Some(fid as int),
                        ..old(store).jobs()[job_id@]
                    },
                )
                &&& spec_recorded(
                    old(store).files(),
                    final (store).files(),
                    final_path@,
                    url@,
                    hash@,
                    fid as int,
                )
            },
            Ok(None) => {
                &&& !write_ok
                &&& final (store).files() == old(store).files()
                &&& final (store).jobs() == old(store).jobs().insert(
                    job_id@,
                    JobModel {
                        status: JobStatus::Failed,
                        error: Some(write_error@),
                        ..old(store).jobs()[job_id@]
                    },
                )
            },
            Err(_) => {
                &&& final (store).jobs() == old(store).jobs()
                &&& {
                    ||| final (store).files() == old(store).files()
                    ||| exists|fid: int|
                        spec_recorded(
                            old(store).files(),
                            final (store).files(),
                            final_path@,
                            url@,
                            hash@,
                            fid,
                        )
                }
            },
        },
{
    if write_ok {
        let fid = match record_new_file(store, final_path, url, hash) {
            Ok(fid) => fid,
            Err(e) => {
                return Err(e);
            },
        };
        proof {
            // the recorded row is in the store, fresh or reused
            if store.files() == old(store).files().push(
                FileModel { id: fid as int, filepath: final_path@, url: url@, hash: hash@ },
            ) {
                assert(store.files()[store.files().len() - 1].id == fid as int);
            } else {
                let i = choose|i: int|
                    0 <= i < old(store).files().len() && #[trigger] old(store).files()[i].hash
                        == hash@ && old(store).files()[i].id == fid as int;
                assert(store.files()[i].id == fid as int);
            }
        }
        match store.complete_job(job_id, fid) {
            Err(e) => Err(e),
            Ok(_) => Ok(Some(fid)),
        }
    } else {
        match store.fail_job(job_id, write_error) {
            Err(e) => Err(e),
            Ok(_) => Ok(None),
        }
    }
}

/// How one iteration of the coordinating loop ended: a job was claimed and
/// dispatched, the queue held nothing to claim, or the attempt failed.
pub enum PollResult {
    Dispatched,
    QueueEmpty,
    PollError,
}

/// How long the coordinating loop pauses after one claim attempt: not at
/// all after dispatching a job, briefly when the queue was empty, and
/// longer after an error, to avoid hot-looping against a failing
/// dependency.
pub open spec fn spec_worker_backoff_secs(outcome: PollResult) -> u64 {
    match outcome {
        PollResult::Dispatched => 0,
        PollResult::QueueEmpty => 1,
        PollResult::PollError => 5,
    }
}

pub fn worker_backoff_secs(outcome: &PollResult) -> (r: u64)
    ensures
        r == spec_worker_backoff_secs(*outcome),
{
    match outcome {
        PollResult::Dispatched => 0,
        PollResult::QueueEmpty => 1,
        PollResult::PollError => 5,
    }
}

} // verus!
