//! The request-level logic: the upload ingestion pipeline with
//! content-addressed deduplication, enqueueing of download jobs, job status
//! reporting, and the stem lookup behind file serving. HTTP, multipart
//! framing and disk traffic stay with the caller; everything here works on
//! plain values and the store.

use vstd::prelude::*;
use vstd::slice::slice_subrange;
use vstd::string::StringExecFns;
use crate::db_utils::{
    spec_opt_id, spec_opt_str, FileModel, JobModel, JobStatus, Store, StoreError,
};
use crate::file_utils::{classify_content, spec_classify};
use crate::hashing::{content_hash, spec_content_hash};
use crate::strutil::{file_stem_of, spec_file_stem};

verus! {

/// What polling a job returns.
pub struct JobStatusResponse {
    pub job_id: String,
    pub status: String,
    pub file_id: Option<i64>,
    pub download_url: Option<String>,
    pub error: Option<String>,
    pub created_at: Option<String>,
    pub updated_at: Option<String>,
}

/// What an accepted upload returns.
#[derive(Debug)]
pub struct FileUploadResponse {
    pub file_id: String,
    pub download_url: String,
    pub message: String,
}

/// The body of a download request.
pub struct DownloadRequest {
    pub download_url: String,
}

/// What enqueueing a download returns.
pub struct DownloadResponse {
    pub job_id: String,
    pub status: String,
    pub status_url: String,
}

/// An accepted upload, before anything is recorded: fresh content that the
/// caller must persist at `final_path` and then record, or a deduplicated
/// hit on content already stored, which answers the request at once.
#[derive(Debug)]
pub enum UploadOutcome {
    Fresh { file_id: String, final_path: String, download_url: String, hash: String },
    Duplicate { response: FileUploadResponse },
}

/// How recording a persisted upload ended: the fresh row was added, or a
/// concurrent writer stored the same content first and its row answers
/// instead, the caller discarding its own copy.
#[derive(Debug)]
pub enum UploadFinish {
    Created { response: FileUploadResponse },
    AlreadyStored { response: FileUploadResponse },
}

/// Why an upload did not go through: the content was rejected by the
/// classifier (the staged bytes are to be removed), or the store failed.
#[derive(Debug)]
pub enum UploadError {
    Validation { message: String },
    Storage { message: String },
}

/// Relies on uuid::Uuid::new_v4 and its hyphenated Display form: a random
/// identifier rendered as 36 ASCII characters, hexadecimal digits and
/// hyphens, so it holds neither '/' nor '.'. Nothing more is assumed: two
/// calls may return anything of that shape.
#[verifier::external_body]
fn new_uuid() -> (r: String)
    ensures
        r@.len() == 36,
        !r@.contains('/'),
        !r@.contains('.'),
{
    uuid::Uuid::new_v4().to_string()
}

/// The leading window of the content handed to the classifier: 8 KiB
/// suffices for every known signature.
pub open spec fn spec_head_window(c: Seq<u8>) -> Seq<u8> {
    if c.len() <= 8192 {
        c
    } else {
        c.subrange(0, 8192)
    }
}

/// How one upload call relates the store's File rows to its outcome. The
/// call itself records nothing: fresh content is handed back for the
/// caller to persist first and record afterwards, so no row can ever name
/// bytes that were not written.
///
/// A rejected upload reports the classifier's reason; a duplicate returns
/// the identity of the row already carrying the content's hash; fresh
/// content gets a fresh 36-character identifier, its storage path and its
/// digest; a storage failure arises only once the content was accepted.
pub open spec fn spec_upload_rel(
    files: Seq<FileModel>,
    media: Seq<char>,
    name: Seq<char>,
    content: Seq<u8>,
    r: Result<UploadOutcome, UploadError>,
) -> bool {
    let h = spec_content_hash(content);
    let cls = spec_classify(spec_head_window(content), name);
    match r {
        Ok(UploadOutcome::Fresh { file_id, final_path, download_url, hash }) => {
            &&& (cls matches Ok(ext) && final_path@ == media + "/"@ + file_id@ + "."@ + ext
                && !ext.contains('/') && !ext.contains('.'))
            &&& file_id@.len() == 36
            &&& !file_id@.contains('/')
            &&& !file_id@.contains('.')
            &&& download_url@ == "/files/"@ + file_id@
            &&& hash@ == h
            &&& forall|i: int| 0 <= i < files.len() ==> #[trigger] files[i].hash != h
        },
        Ok(UploadOutcome::Duplicate { response }) => {
            &&& cls is Ok
            &&& exists|i: int|
                0 <= i < files.len() && #[trigger] files[i].hash == h && response.file_id@
                    == spec_file_stem(files[i].filepath) && response.download_url@ == "/files/"@
                    + spec_file_stem(files[i].filepath)
            &&& response.message@ == "File already exists"@
        },
        Err(UploadError::Validation { message }) => cls == Err::<Seq<char>, Seq<char>>(message@),
        Err(UploadError::Storage { message }) => cls is Ok,
    }
}

/// What recording one persisted upload adds: no stored row carried the
/// hash, and exactly one row now does, at the persisted path.
pub open spec fn spec_recorded_upload(
    files0: Seq<FileModel>,
    files1: Seq<FileModel>,
    final_path: Seq<char>,
    url: Seq<char>,
    hash: Seq<char>,
) -> bool {
    &&& forall|i: int| 0 <= i < files0.len() ==> #[trigger] files0[i].hash != hash
    &&& exists|fid: int|
        files1 == files0.push(FileModel { id: fid, filepath: final_path, url, hash })
}

/// The first half of the upload ingestion pipeline, after the caller has
/// staged the incoming bytes: classify the content against its declared
/// name, compute the content digest, and deduplicate against the store.
/// Nothing is recorded here: stored content is answered at once, and
/// fresh content is handed back so that the caller persists the bytes at
/// the returned path and only then records them with `record_upload` —
/// the store never names bytes that were not written.
pub fn upload_file(
    store: &Store,
    media_path: &str,
    declared_name: &str,
    content: &Vec<u8>,
) -> (r: Result<UploadOutcome, UploadError>)
    ensures
        spec_upload_rel(store.files(), media_path@, declared_name@, content@, r),
{
    let file_id = new_uuid();
    let head: &[u8] = if content.len() <= 8192 {
        content.as_slice()
    } else {
        slice_subrange(content.as_slice(), 0, 8192)
    };
    let ext = match classify_content(head, declared_name) {
        Ok(e) => e,
        Err(msg) => {
            return Err(UploadError::Validation { message: msg });
        },
    };
    let hash = content_hash(content.as_slice());
    match store.get_file_by_hash(hash.as_str()) {
        Err(e) => Err(UploadError::Storage { message: e.message }),
        Ok(Some(existing)) => {
            proof {
                let i = choose|i: int|
                    0 <= i < store.files().len() && #[trigger] store.files()[i]
                        == existing.model();
                assert(store.files()[i].hash == hash@);
                assert(store.files()[i].filepath == existing.filepath@);
            }
            let original_id = file_stem_of(existing.filepath.as_str());
            let url = "/files/".to_owned().concat(original_id.as_str());
            Ok(
                UploadOutcome::Duplicate {
                    response: FileUploadResponse {
                        file_id: original_id,
                        download_url: url,
                        message: "File already exists".to_owned(),
                    },
                },
            )
        },
        Ok(None) => {
            let final_path = media_path.to_owned().concat("/").concat(file_id.as_str()).concat(
                ".",
            ).concat(ext.as_str());
            let download_url = "/files/".to_owned().concat(file_id.as_str());
            Ok(UploadOutcome::Fresh { file_id, final_path, download_url, hash })
        },
    }
}

/// The second half of the pipeline, called once the bytes stand at
/// `final_path`: record the File row and answer the request. When a
/// concurrent writer stored the same content between the lookup and this
/// insert, the store's hash-uniqueness constraint refuses the row — the
/// documented rare race — and the winner's row answers instead; the
/// caller then discards its copy.
pub fn record_upload(
    store: &mut Store,
    file_id: &str,
    final_path: &str,
    download_url: &str,
    hash: &str,
) -> (r: Result<UploadFinish, StoreError>)
    ensures
        final (store).jobs() == old(store).jobs(),
        old(store).inv() ==> final (store).inv(),
        match r {
            Ok(UploadFinish::Created { response }) => {
                &&& response.file_id@ == file_id@
                &&& response.download_url@ == download_url@
                &&& response.message@ == "File uploaded successfully"@
                &&& spec_recorded_upload(
                    old(store).files(),
                    final (store).files(),
                    final_path@,
                    download_url@,
                    hash@,
                )
            },
            Ok(UploadFinish::AlreadyStored { response }) => {
                &&& final (store).files() == old(store).files()
                &&& exists|i: int|
                    0 <= i < old(store).files().len() && #[trigger] old(store).files()[i].hash
                        == hash@ && response.file_id@ == spec_file_stem(
                        old(store).files()[i].filepath,
                    ) && response.download_url@ == "/files/"@ + spec_file_stem(
                        old(store).files()[i].filepath,
                    )
                &&& response.message@ == "File already exists"@
            },
            Err(_) => final (store).files() == old(store).files(),
        },
{
    match store.insert_file(final_path, download_url, hash) {
        Ok(fid) => {
            proof {
                assert(store.files() == old(store).files().push(
                    FileModel {
                        id: fid as int,
                        filepath: final_path@,
                        url: download_url@,
                        hash: hash@,
                    },
                ));
            }
            Ok(
                UploadFinish::Created {
                    response: FileUploadResponse {
                        file_id: file_id.to_owned(),
                        download_url: download_url.to_owned(),
                        message: "File uploaded successfully".to_owned(),
                    },
                },
            )
        },
        Err(first_err) => {
            match store.get_file_by_hash(hash) {
                Ok(Some(existing)) => {
                    proof {
                        let i = choose|i: int|
                            0 <= i < store.files().len() && #[trigger] store.files()[i]
                                == existing.model();
                        assert(store.files()[i].hash == hash@);
                        assert(store.files()[i].filepath == existing.filepath@);
                    }
                    let original_id = file_stem_of(existing.filepath.as_str());
                    let dup_url = "/files/".to_owned().concat(original_id.as_str());
                    Ok(
                        UploadFinish::AlreadyStored {
                            response: FileUploadResponse {
                                file_id: original_id,
                                download_url: dup_url,
                                message: "File already exists".to_owned(),
                            },
                        },
                    )
                },
                Ok(None) => Err(first_err),
                Err(e) => Err(e),
            }
        },
    }
}

/// The identifier a fresh upload returns names the stored row: once the
/// caller has persisted the bytes and recorded them, the new File row's
/// path carries exactly that identifier as its stem, so a later retrieval
/// by the returned identifier reaches the bytes persisted for this upload
/// — the one row whose recorded hash is the digest of the uploaded
/// content.
pub proof fn lemma_recorded_upload_names_row(
    files0: Seq<FileModel>,
    files1: Seq<FileModel>,
    media: Seq<char>,
    name: Seq<char>,
    content: Seq<u8>,
    file_id: String,
    final_path: String,
    download_url: String,
    hash: String,
)
    requires
        spec_upload_rel(
            files0,
            media,
            name,
            content,
            Ok(UploadOutcome::Fresh { file_id, final_path, download_url, hash }),
        ),
        spec_recorded_upload(files0, files1, final_path@, download_url@, hash@),
    ensures
        files1.len() == files0.len() + 1,
        files1.last().filepath == final_path@,
        files1.last().url == download_url@,
        files1.last().hash == spec_content_hash(content),
        spec_file_stem(files1.last().filepath) == file_id@,
        forall|i: int|
            0 <= i < files1.len() - 1 ==> #[trigger] files1[i].hash != spec_content_hash(content),
{
    let h = spec_content_hash(content);
    let fid = choose|fid: int|
        files1 == files0.push(
            FileModel { id: fid, filepath: final_path@, url: download_url@, hash: hash@ },
        );
    assert(files1.last() == FileModel {
        id: fid,
        filepath: final_path@,
        url: download_url@,
        hash: hash@,
    });
    match spec_classify(spec_head_window(content), name) {
        Ok(ext) => {
            crate::strutil::lemma_stem_of_built_path(media, file_id@, ext);
        },
        Err(_) => {
            assert(false);
        },
    }
    assert forall|i: int| 0 <= i < files1.len() - 1 implies #[trigger] files1[i].hash != h by {
        assert(files1[i] == files0[i]);
    }
}

/// Uploading content that is already stored adds nothing and returns the
/// original's identity: after a fresh upload was persisted and recorded, a
/// second upload of the same bytes — under any declared name the
/// classifier accepts, and barring a storage failure — is answered as a
/// duplicate carrying the first upload's identifier and download URL. The
/// duplicate answer ends the request before anything could be recorded,
/// so the stored File rows do not change.
pub proof fn lemma_duplicate_upload(
    files0: Seq<FileModel>,
    files1: Seq<FileModel>,
    media: Seq<char>,
    name1: Seq<char>,
    name2: Seq<char>,
    content: Seq<u8>,
    file_id1: String,
    final_path1: String,
    download_url1: String,
    hash1: String,
    r2: Result<UploadOutcome, UploadError>,
)
    requires
        spec_upload_rel(
            files0,
            media,
            name1,
            content,
            Ok(
                UploadOutcome::Fresh {
                    file_id: file_id1,
                    final_path: final_path1,
                    download_url: download_url1,
                    hash: hash1,
                },
            ),
        ),
        spec_recorded_upload(files0, files1, final_path1@, download_url1@, hash1@),
        spec_upload_rel(files1, media, name2, content, r2),
        r2 is Ok,
    ensures
        (r2 matches Ok(UploadOutcome::Duplicate { response: resp2 }) && resp2.file_id@
            == file_id1@ && resp2.download_url@ == download_url1@),
{
    let h = spec_content_hash(content);
    let fid = choose|fid: int|
        files1 == files0.push(
            FileModel { id: fid, filepath: final_path1@, url: download_url1@, hash: hash1@ },
        );
    let n = files0.len() as int;
    assert(files1[n].hash == h);
    match r2 {
        Ok(UploadOutcome::Fresh { .. }) => {
            assert(false);
        },
        Ok(UploadOutcome::Duplicate { response }) => {
            let i = choose|i: int|
                0 <= i < files1.len() && #[trigger] files1[i].hash == h && response.file_id@
                    == spec_file_stem(files1[i].filepath) && response.download_url@ == "/files/"@
                    + spec_file_stem(files1[i].filepath);
            if i < n {
                assert(files1[i] == files0[i]);
                assert(files0[i].hash != h);
            }
            assert(i == n);
            assert(files1[i].filepath == final_path1@);
            match spec_classify(spec_head_window(content), name1) {
                Ok(ext) => {
                    crate::strutil::lemma_stem_of_built_path(media, file_id1@, ext);
                },
                Err(_) => {
                    assert(false);
                },
            }
            assert(response.file_id@ == file_id1@);
        },
        Err(_) => {
            assert(false);
        },
    }
}

/// Enqueues one remote-fetch job: a fresh job id is recorded NotStarted
/// with the requested URL, a null file id and no error, and the caller gets
/// the id and the URL to poll. Failures never reach the store's jobs.
pub fn download_file(store: &mut Store, download_url: &str) -> (r: Result<
    DownloadResponse,
    StoreError,
>)
    ensures
        final (store).files() == old(store).files(),
        old(store).inv() ==> final (store).inv(),
        match r {
            Ok(resp) => {
                &&& !old(store).jobs().contains_key(resp.job_id@)
                &&& final (store).jobs() == old(store).jobs().insert(
                    resp.job_id@,
                    JobModel {
                        status: JobStatus::NotStarted,
                        file_id: None,
                        download_url: download_url@,
                        error: None,
                    },
                )
                &&& resp.job_id@.len() == 36
                &&& resp.status@ == "NotStarted"@
                &&& resp.status_url@ == "/jobs/"@ + resp.job_id@
            },
            Err(_) => final (store).jobs() == old(store).jobs(),
        },
{
    let job_id = new_uuid();
    match store.insert_job(job_id.as_str(), &JobStatus::NotStarted, None, download_url) {
        Ok(_) => {
            let status_url = "/jobs/".to_owned().concat(job_id.as_str());
            Ok(
                DownloadResponse {
                    job_id,
                    status: "NotStarted".to_owned(),
                    status_url,
                },
            )
        },
        Err(e) => Err(e),
    }
}

/// Reports one job's state: its status text, the job's requested download
/// URL, the file it completed with, the recorded error, and the store's
/// timestamps.
pub fn get_job_status(store: &Store, job_id: &str) -> (r: Result<
    Option<JobStatusResponse>,
    StoreError,
>)
    ensures
        match r {
            Ok(Some(resp)) => store.jobs().contains_key(job_id@) && {
                let j = store.jobs()[job_id@];
                &&& resp.job_id@ == job_id@
                &&& resp.status@ == j.status.spec_str()
                &&& spec_opt_id(resp.file_id) == j.file_id
                &&& spec_opt_str(resp.error) == j.error
                &&& spec_opt_str(resp.download_url) == Some(j.download_url)
            },
            Ok(None) => !store.jobs().contains_key(job_id@),
            Err(_) => true,
        },
{
    let job = match store.get_job_by_id(job_id) {
        Err(e) => {
            return Err(e);
        },
        Ok(None) => {
            return Ok(None);
        },
        Ok(Some(j)) => j,
    };
    let status_str = job.status.to_string();
    let created_at = store.job_created_at(job_id);
    let updated_at = store.job_updated_at(job_id);
    Ok(
        Some(
            JobStatusResponse {
                job_id: job.id,
                status: status_str,
                file_id: job.file_id,
                download_url: Some(job.download_url),
                error: job.error,
                created_at,
                updated_at,
            },
        ),
    )
}

/// The lookup behind serving a stored file: among the media directory's
/// entries, the first whose stem is the requested identifier.
pub fn find_file_by_stem(entries: &Vec<String>, file_id: &str) -> (r: Option<usize>)
    ensures
        match r {
            Some(i) => {
                &&& i < entries@.len()
                &&& spec_file_stem(entries@[i as int]@) == file_id@
                &&& forall|j: int| 0 <= j < i ==> spec_file_stem(#[trigger] entries@[j]@) != file_id@
            },
            None => forall|j: int|
                0 <= j < entries@.len() ==> spec_file_stem(#[trigger] entries@[j]@) != file_id@,
        },
{
    let n = entries.len();
    let mut i: usize = 0;
    while i < n
        invariant
            n == entries@.len(),
            i <= n,
            forall|j: int| 0 <= j < i ==> spec_file_stem(#[trigger] entries@[j]@) != file_id@,
        decreases n - i,
    {
        let stem = file_stem_of(entries[i].as_str());
        if crate::strutil::str_eq(stem.as_str(), file_id) {
            return Some(i);
        }
        i = i + 1;
    }
    None
}

} // verus!
