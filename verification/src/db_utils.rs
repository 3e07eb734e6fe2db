//! The durable store for File and Job records, held in SQLite behind a
//! small set of trusted single-statement wrappers. The contents of the two
//! tables are modelled by `files` (a sequence of rows) and `jobs` (a map
//! from job id to its record), and every verified operation states its exact
//! effect on that model, along with preservation of the store invariant.

use rusqlite::OptionalExtension;
use vstd::prelude::*;

verus! {

/// The state of an asynchronous download job.
///
/// Transitions are monotone: NotStarted -> Running -> {Completed, Failed},
/// and the two terminal states are never left.
#[derive(Clone, Copy, Debug, PartialEq, Eq, Structural)]
pub enum JobStatus {
    NotStarted,
    Running,
    Completed,
    Failed,
}

impl JobStatus {
    /// The canonical text a status is stored under; the same literal is used
    /// everywhere a status is written or compared.
    pub open spec fn spec_str(self) -> Seq<char> {
        match self {
            JobStatus::NotStarted => "NotStarted"@,
            JobStatus::Running => "Running"@,
            JobStatus::Completed => "Completed"@,
            JobStatus::Failed => "Failed"@,
        }
    }

    pub fn to_string(&self) -> (r: String)
        ensures
            r@ == self.spec_str(),
    {
        match self {
            JobStatus::NotStarted => "NotStarted".to_owned(),
            JobStatus::Running => "Running".to_owned(),
            JobStatus::Completed => "Completed".to_owned(),
            JobStatus::Failed => "Failed".to_owned(),
        }
    }

    pub open spec fn spec_of_str(s: Seq<char>) -> Result<JobStatus, ()> {
        if s == "NotStarted"@ {
            Ok(JobStatus::NotStarted)
        } else if s == "Running"@ {
            Ok(JobStatus::Running)
        } else if s == "Completed"@ {
            Ok(JobStatus::Completed)
        } else if s == "Failed"@ {
            Ok(JobStatus::Failed)
        } else {
            Err(())
        }
    }

    pub fn from_str(s: &str) -> (r: Result<JobStatus, ()>)
        ensures
            r == JobStatus::spec_of_str(s@),
    {
        if crate::strutil::str_eq(s, "NotStarted") {
            Ok(JobStatus::NotStarted)
        } else if crate::strutil::str_eq(s, "Running") {
            Ok(JobStatus::Running)
        } else if crate::strutil::str_eq(s, "Completed") {
            Ok(JobStatus::Completed)
        } else if crate::strutil::str_eq(s, "Failed") {
            Ok(JobStatus::Failed)
        } else {
            Err(())
        }
    }
}

/// Parsing the canonical text of a status gives that status back.
pub proof fn lemma_status_round_trip(s: JobStatus)
    ensures
        JobStatus::spec_of_str(s.spec_str()) == Ok::<JobStatus, ()>(s),
{
    reveal_strlit("NotStarted");
    reveal_strlit("Running");
    reveal_strlit("Completed");
    reveal_strlit("Failed");
    assert("NotStarted"@.len() == 10);
    assert("Running"@.len() == 7);
    assert("Completed"@.len() == 9);
    assert("Failed"@.len() == 6);
}

/// A Job row as verified code sees it.
#[derive(Clone, Debug)]
pub struct JobRecord {
    pub id: String,
    pub status: JobStatus,
    pub file_id: Option<i64>,
    pub download_url: String,
    pub error: Option<String>,
}

/// A File row as verified code sees it.
#[derive(Clone, Debug)]
pub struct FileRecord {
    pub id: i64,
    pub filepath: String,
    pub url: String,
    pub hash: String,
}

/// The mathematical value of a Job row, keyed in the store model by its id.
pub struct JobModel {
    pub status: JobStatus,
    pub file_id: Option<int>,
    pub download_url: Seq<char>,
    pub error: Option<Seq<char>>,
}

/// The mathematical value of a File row.
pub struct FileModel {
    pub id: int,
    pub filepath: Seq<char>,
    pub url: Seq<char>,
    pub hash: Seq<char>,
}

pub open spec fn spec_opt_id(o: Option<i64>) -> Option<int> {
    match o {
        Some(v) => Some(v as int),
        None => None,
    }
}

pub open spec fn spec_opt_str(o: Option<String>) -> Option<Seq<char>> {
    match o {
        Some(s) => Some(s@),
        None => None,
    }
}

impl JobRecord {
    pub open spec fn model(&self) -> JobModel {
        JobModel {
            status: self.status,
            file_id: spec_opt_id(self.file_id),
            download_url: self.download_url@,
            error: spec_opt_str(self.error),
        }
    }
}

impl FileRecord {
    pub open spec fn model(&self) -> FileModel {
        FileModel { id: self.id as int, filepath: self.filepath@, url: self.url@, hash: self.hash@ }
    }
}

/// An opaque storage failure; its text is reported, never interpreted.
#[derive(Debug)]
pub struct StoreError {
    pub message: String,
}

#[verifier::external_type_specification]
#[verifier::external_body]
pub struct ExConnection(rusqlite::Connection);

/// The rows of the File table reachable through a connection, in rowid
/// order; a database without the table holds no rows.
pub uninterp spec fn db_files(c: rusqlite::Connection) -> Seq<FileModel>;

/// The rows of the Job table reachable through a connection, keyed by job
/// id; a database without the table holds no rows.
pub uninterp spec fn db_jobs(c: rusqlite::Connection) -> Map<Seq<char>, JobModel>;

/// A job record that may legally sit in the store: file_id is set exactly on
/// completion and must name an existing File row, and an error is recorded
/// exactly on failure.
pub open spec fn job_well_formed(j: JobModel, files: Seq<FileModel>) -> bool {
    &&& (j.status == JobStatus::Completed <==> j.file_id is Some)
    &&& (j.status == JobStatus::Failed <==> j.error is Some)
    &&& (j.file_id matches Some(fid) ==> exists|i: int| 0 <= i < files.len() && files[i].id == fid)
}

/// The store invariant: content hashes and file ids are unique, and every
/// job is well formed.
pub open spec fn store_inv(files: Seq<FileModel>, jobs: Map<Seq<char>, JobModel>) -> bool {
    &&& forall|i: int, j: int|
        0 <= i < j < files.len() ==> files[i].hash != files[j].hash && files[i].id != files[j].id
    &&& forall|k: Seq<char>| #[trigger] jobs.contains_key(k) ==> job_well_formed(jobs[k], files)
}

/// The durable store: one SQLite connection owning the File and Job tables.
pub struct Store {
    conn: rusqlite::Connection,
}

impl Store {
    pub closed spec fn files(self) -> Seq<FileModel> {
        db_files(self.conn)
    }

    pub closed spec fn jobs(self) -> Map<Seq<char>, JobModel> {
        db_jobs(self.conn)
    }

    pub open spec fn inv(self) -> bool {
        store_inv(self.files(), self.jobs())
    }

    /// Relies on rusqlite::Connection::open_in_memory: a freshly opened
    /// in-memory database holds no tables and hence no rows.
    #[verifier::external_body]
    fn open_in_memory_conn() -> (r: Result<Store, StoreError>)
        ensures
            match r {
                Ok(s) => db_files(s.conn) == Seq::<FileModel>::empty() && db_jobs(s.conn) == Map::<
                    Seq<char>,
                    JobModel,
                >::empty(),
                Err(_) => true,
            },
    {
        match rusqlite::Connection::open_in_memory() {
            Ok(conn) => Ok(Store { conn }),
            Err(e) => Err(StoreError { message: e.to_string() }),
        }
    }

    /// Relies on rusqlite::Connection::open: opens the database file at the
    /// path, creating it when absent. Nothing is assumed of its contents.
    #[verifier::external_body]
    fn open_conn(path: &str) -> (r: Result<Store, StoreError>)
    {
        match rusqlite::Connection::open(path) {
            Ok(conn) => Ok(Store { conn }),
            Err(e) => Err(StoreError { message: e.to_string() }),
        }
    }

    /// Relies on rusqlite::Connection::execute running one CREATE TABLE IF
    /// NOT EXISTS statement: no row of either table changes.
    #[verifier::external_body]
    fn sql_create_file_table(&mut self) -> (r: Result<(), StoreError>)
        ensures
            db_files(final (self).conn) == db_files(old(self).conn),
            db_jobs(final (self).conn) == db_jobs(old(self).conn),
    {
        match self.conn.execute(
            "CREATE TABLE IF NOT EXISTS File (
                id INTEGER PRIMARY KEY AUTOINCREMENT,
                filepath TEXT NOT NULL,
                url TEXT NOT NULL,
                hash TEXT NOT NULL UNIQUE
            )",
            [],
        ) {
            Ok(_) => Ok(()),
            Err(e) => Err(StoreError { message: e.to_string() }),
        }
    }

    /// Relies on rusqlite::Connection::execute running one CREATE TABLE IF
    /// NOT EXISTS statement: no row of either table changes.
    #[verifier::external_body]
    fn sql_create_job_table(&mut self) -> (r: Result<(), StoreError>)
        ensures
            db_files(final (self).conn) == db_files(old(self).conn),
            db_jobs(final (self).conn) == db_jobs(old(self).conn),
    {
        match self.conn.execute(
            "CREATE TABLE IF NOT EXISTS Job (
                id TEXT PRIMARY KEY,
                status TEXT NOT NULL,
                file_id INTEGER,
                download_url TEXT NOT NULL,
                error TEXT,
                created_at TIMESTAMP DEFAULT CURRENT_TIMESTAMP,
                updated_at TIMESTAMP DEFAULT CURRENT_TIMESTAMP,
                FOREIGN KEY(file_id) REFERENCES File(id)
            )",
            [],
        ) {
            Ok(_) => Ok(()),
            Err(e) => Err(StoreError { message: e.to_string() }),
        }
    }

    /// Relies on rusqlite::Connection::execute running one CREATE INDEX IF
    /// NOT EXISTS statement: no row of either table changes.
    #[verifier::external_body]
    fn sql_create_status_index(&mut self) -> (r: Result<(), StoreError>)
        ensures
            db_files(final (self).conn) == db_files(old(self).conn),
            db_jobs(final (self).conn) == db_jobs(old(self).conn),
    {
        match self.conn.execute("CREATE INDEX IF NOT EXISTS idx_job_status ON Job(status)", []) {
            Ok(_) => Ok(()),
            Err(e) => Err(StoreError { message: e.to_string() }),
        }
    }

    /// Lays out the File and Job tables and the status index; existing rows
    /// are kept as they are.
    pub fn init_db(&mut self) -> (r: Result<(), StoreError>)
        ensures
            final (self).files() == old(self).files(),
            final (self).jobs() == old(self).jobs(),
    {
        match self.sql_create_file_table() {
            Ok(_) => {},
            Err(e) => {
                return Err(e);
            },
        }
        match self.sql_create_job_table() {
            Ok(_) => {},
            Err(e) => {
                return Err(e);
            },
        }
        self.sql_create_status_index()
    }

    /// A fresh, empty store in memory, with the schema laid out.
    pub fn new_in_memory() -> (r: Result<Store, StoreError>)
        ensures
            match r {
                Ok(s) => {
                    &&& s.files() == Seq::<FileModel>::empty()
                    &&& s.jobs() == Map::<Seq<char>, JobModel>::empty()
                    &&& s.inv()
                },
                Err(_) => true,
            },
    {
        let mut s = match Store::open_in_memory_conn() {
            Ok(s) => s,
            Err(e) => {
                return Err(e);
            },
        };
        match s.init_db() {
            Ok(_) => {},
            Err(e) => {
                return Err(e);
            },
        }
        Ok(s)
    }

    /// A store over the database file at `path`, created when absent, with
    /// the schema laid out. Nothing is assumed of pre-existing contents,
    /// and the store expects to own both tables exclusively, in the shape
    /// this schema lays out: the wrappers' contracts — the uniqueness of
    /// hashes and the canonical status texts among them — do not cover a
    /// pre-existing database of another shape.
    pub fn open(path: &str) -> (r: Result<Store, StoreError>) {
        let mut s = match Store::open_conn(path) {
            Ok(s) => s,
            Err(e) => {
                return Err(e);
            },
        };
        match s.init_db() {
            Ok(_) => {},
            Err(e) => {
                return Err(e);
            },
        }
        Ok(s)
    }

    /// Relies on rusqlite::Connection::execute running one INSERT into Job:
    /// on success the row is added, and the primary key guarantees the id
    /// was free; on any failure nothing changes.
    #[verifier::external_body]
    fn sql_insert_job(
        &mut self,
        id: &str,
        status: &JobStatus,
        file_id: Option<i64>,
        url: &str,
    ) -> (r: Result<(), StoreError>)
        ensures
            db_files(final (self).conn) == db_files(old(self).conn),
            match r {
                Ok(_) => {
                    &&& !db_jobs(old(self).conn).contains_key(id@)
                    &&& db_jobs(final (self).conn) == db_jobs(old(self).conn).insert(
                        id@,
                        JobModel {
                            status: *status,
                            file_id: spec_opt_id(file_id),
                            download_url: url@,
                            error: None,
                        },
                    )
                },
                Err(_) => db_jobs(final (self).conn) == db_jobs(old(self).conn),
            },
    {
        let st = status.to_string();
        let ps: [&dyn rusqlite::ToSql; 4] = [&id, &st, &file_id, &url];
        match self.conn.execute(
            "INSERT INTO Job (id, status, file_id, download_url, error) VALUES (?1, ?2, ?3, ?4, NULL)",
            &ps[..],
        ) {
            Ok(_) => Ok(()),
            Err(e) => Err(StoreError { message: e.to_string() }),
        }
    }

    /// Inserts a new Job row; the record to insert must be well formed.
    pub fn insert_job(
        &mut self,
        id: &str,
        status: &JobStatus,
        file_id: Option<i64>,
        download_url: &str,
    ) -> (r: Result<(), StoreError>)
        requires
            job_well_formed(
                JobModel {
                    status: *status,
                    file_id: spec_opt_id(file_id),
                    download_url: download_url@,
                    error: None,
                },
                old(self).files(),
            ),
        ensures
            final (self).files() == old(self).files(),
            old(self).inv() ==> final (self).inv(),
            match r {
                Ok(_) => {
                    &&& !old(self).jobs().contains_key(id@)
                    &&& final (self).jobs() == old(self).jobs().insert(
                        id@,
                        JobModel {
                            status: *status,
                            file_id: spec_opt_id(file_id),
                            download_url: download_url@,
                            error: None,
                        },
                    )
                },
                Err(_) => final (self).jobs() == old(self).jobs(),
            },
    {
        let r = self.sql_insert_job(id, status, file_id, download_url);
        proof {
            if old(self).inv() && r is Ok {
                assert forall|k: Seq<char>| #[trigger]
                    final (self).jobs().contains_key(k) implies job_well_formed(
                    final (self).jobs()[k],
                    final (self).files(),
                ) by {
                    if k != id@ {
                        assert(old(self).jobs().contains_key(k));
                    }
                }
            }
        }
        r
    }

    /// Relies on rusqlite::Connection::query_row with OptionalExtension
    /// reading one Job row by primary key: the row with that id is returned
    /// exactly when it exists.
    #[verifier::external_body]
    fn sql_get_job(&self, id: &str) -> (r: Result<Option<JobRecord>, StoreError>)
        ensures
            match r {
                Ok(Some(j)) => {
                    &&& db_jobs(self.conn).contains_key(id@)
                    &&& j.id@ == id@
                    &&& j.model() == db_jobs(self.conn)[id@]
                },
                Ok(None) => !db_jobs(self.conn).contains_key(id@),
                Err(_) => true,
            },
    {
        self.conn.query_row(
            "SELECT id, status, file_id, download_url, error FROM Job WHERE id = ?1",
            [id],
            |row| {
                let status_str: String = row.get(1)?;
                let status = JobStatus::from_str(&status_str).unwrap_or(JobStatus::NotStarted);
                Ok(JobRecord {
                    id: row.get(0)?,
                    status,
                    file_id: row.get(2)?,
                    download_url: row.get(3)?,
                    error: row.get(4)?,
                })
            },
        ).optional().map_err(|e| StoreError { message: e.to_string() })
    }

    /// Reads one Job row by id.
    pub fn get_job_by_id(&self, id: &str) -> (r: Result<Option<JobRecord>, StoreError>)
        ensures
            match r {
                Ok(Some(j)) => {
                    &&& self.jobs().contains_key(id@)
                    &&& j.id@ == id@
                    &&& j.model() == self.jobs()[id@]
                },
                Ok(None) => !self.jobs().contains_key(id@),
                Err(_) => true,
            },
    {
        self.sql_get_job(id)
    }

    /// Relies on rusqlite::Connection::query_row with OptionalExtension
    /// running SELECT ... WHERE status = 'NotStarted' ORDER BY created_at
    /// LIMIT 1: some NotStarted row is returned when one exists (oldest
    /// first on a best-effort basis), and none exactly when none exists.
    #[verifier::external_body]
    fn sql_next_job(&self) -> (r: Result<Option<JobRecord>, StoreError>)
        ensures
            match r {
                Ok(Some(j)) => {
                    &&& db_jobs(self.conn).contains_key(j.id@)
                    &&& j.model() == db_jobs(self.conn)[j.id@]
                    &&& j.status == JobStatus::NotStarted
                },
                Ok(None) => forall|k: Seq<char>| #[trigger]
                    db_jobs(self.conn).contains_key(k) ==> db_jobs(self.conn)[k].status
                        != JobStatus::NotStarted,
                Err(_) => true,
            },
    {
        self.conn.query_row(
            "SELECT id, status, file_id, download_url, error FROM Job
             WHERE status = 'NotStarted' ORDER BY created_at ASC LIMIT 1",
            [],
            |row| {
                let status_str: String = row.get(1)?;
                let status = JobStatus::from_str(&status_str).unwrap_or(JobStatus::NotStarted);
                Ok(JobRecord {
                    id: row.get(0)?,
                    status,
                    file_id: row.get(2)?,
                    download_url: row.get(3)?,
                    error: row.get(4)?,
                })
            },
        ).optional().map_err(|e| StoreError { message: e.to_string() })
    }

    /// Relies on rusqlite::Connection::execute running one conditional
    /// UPDATE (WHERE id = ? AND status = 'NotStarted'): the single
    /// statement is atomic, so the row moves to Running exactly when it was
    /// NotStarted at execution, and the affected-row count says whether it
    /// did; on failure nothing changes.
    #[verifier::external_body]
    fn sql_mark_running(&mut self, id: &str) -> (r: Result<bool, StoreError>)
        ensures
            db_files(final (self).conn) == db_files(old(self).conn),
            match r {
                Ok(true) => {
                    &&& db_jobs(old(self).conn).contains_key(id@)
                    &&& db_jobs(old(self).conn)[id@].status == JobStatus::NotStarted
                    &&& db_jobs(final (self).conn) == db_jobs(old(self).conn).insert(
                        id@,
                        JobModel { status: JobStatus::Running, ..db_jobs(old(self).conn)[id@] },
                    )
                },
                Ok(false) => {
                    &&& db_jobs(final (self).conn) == db_jobs(old(self).conn)
                    &&& !(db_jobs(old(self).conn).contains_key(id@) && db_jobs(old(self).conn)[id@].status
                        == JobStatus::NotStarted)
                },
                Err(_) => db_jobs(final (self).conn) == db_jobs(old(self).conn),
            },
    {
        match self.conn.execute(
            "UPDATE Job SET status = 'Running', updated_at = CURRENT_TIMESTAMP
             WHERE id = ?1 AND status = 'NotStarted'",
            [id],
        ) {
            Ok(n) => Ok(n == 1),
            Err(e) => Err(StoreError { message: e.to_string() }),
        }
    }

    /// A claim applies when the job exists and has not been started.
    pub open spec fn spec_claim_applies(jobs: Map<Seq<char>, JobModel>, id: Seq<char>) -> bool {
        jobs.contains_key(id) && jobs[id].status == JobStatus::NotStarted
    }

    /// Completion applies when the job exists and is Running.
    pub open spec fn spec_complete_applies(jobs: Map<Seq<char>, JobModel>, id: Seq<char>) -> bool {
        jobs.contains_key(id) && jobs[id].status == JobStatus::Running
    }

    /// Failing applies when the job exists and is not yet terminal.
    pub open spec fn spec_fail_applies(jobs: Map<Seq<char>, JobModel>, id: Seq<char>) -> bool {
        jobs.contains_key(id) && (jobs[id].status == JobStatus::NotStarted || jobs[id].status
            == JobStatus::Running)
    }

    /// The store after a successful claim of `id`.
    pub open spec fn spec_claim_result(jobs: Map<Seq<char>, JobModel>, id: Seq<char>) -> Map<
        Seq<char>,
        JobModel,
    > {
        jobs.insert(id, JobModel { status: JobStatus::Running, ..jobs[id] })
    }

    /// Claims one queued job: picks a NotStarted job (oldest first on a
    /// best-effort basis) and transitions it to Running through a
    /// conditional update, so a concurrent claimer cannot take the same job
    /// twice. Returns the claimed record, or nothing when the queue holds
    /// no NotStarted job.
    pub fn get_and_start_job(&mut self) -> (r: Result<Option<JobRecord>, StoreError>)
        ensures
            final (self).files() == old(self).files(),
            old(self).inv() ==> final (self).inv(),
            match r {
                Ok(Some(j)) => {
                    &&& Self::spec_claim_applies(old(self).jobs(), j.id@)
                    &&& final (self).jobs() == Self::spec_claim_result(old(self).jobs(), j.id@)
                    &&& j.model() == final (self).jobs()[j.id@]
                    &&& j.status == JobStatus::Running
                },
                Ok(None) => final (self).jobs() == old(self).jobs() && forall|k: Seq<char>| #[trigger]
                    old(self).jobs().contains_key(k) ==> old(self).jobs()[k].status
                        != JobStatus::NotStarted,
                Err(_) => final (self).jobs() == old(self).jobs(),
            },
    {
        let next = match self.sql_next_job() {
            Ok(n) => n,
            Err(e) => {
                return Err(e);
            },
        };
        match next {
            None => Ok(None),
            Some(job) => {
                let claimed = match self.sql_mark_running(job.id.as_str()) {
                    Ok(c) => c,
                    Err(e) => {
                        return Err(e);
                    },
                };
                if claimed {
                    proof {
                        if old(self).inv() {
                            self.lemma_claim_preserves_inv(old(self).jobs(), job.id@);
                        }
                    }
                    Ok(
                        Some(
                            JobRecord {
                                id: job.id,
                                status: JobStatus::Running,
                                file_id: job.file_id,
                                download_url: job.download_url,
                                error: job.error,
                            },
                        ),
                    )
                } else {
                    // Another claimer won the race for this row.
                    Ok(None)
                }
            },
        }
    }

    proof fn lemma_claim_preserves_inv(self, jobs0: Map<Seq<char>, JobModel>, id: Seq<char>)
        requires
            store_inv(self.files(), jobs0),
            Self::spec_claim_applies(jobs0, id),
            self.jobs() == Self::spec_claim_result(jobs0, id),
        ensures
            self.inv(),
    {
        assert forall|k: Seq<char>| #[trigger] self.jobs().contains_key(k) implies job_well_formed(
            self.jobs()[k],
            self.files(),
        ) by {
            if k != id {
                assert(jobs0.contains_key(k));
            } else {
                assert(jobs0.contains_key(id));
            }
        }
    }

    /// Relies on rusqlite::Connection::execute running one conditional
    /// UPDATE (WHERE id = ? AND status = 'Running'): the row moves to
    /// Completed with the file id recorded exactly when it was Running, and
    /// the affected-row count says whether it did; on failure nothing
    /// changes.
    #[verifier::external_body]
    fn sql_complete_job(&mut self, id: &str, file_id: i64) -> (r: Result<bool, StoreError>)
        ensures
            db_files(final (self).conn) == db_files(old(self).conn),
            match r {
                Ok(true) => {
                    &&& db_jobs(old(self).conn).contains_key(id@)
                    &&& db_jobs(old(self).conn)[id@].status == JobStatus::Running
                    &&& db_jobs(final (self).conn) == db_jobs(old(self).conn).insert(
                        id@,
                        JobModel {
                            status: JobStatus::Completed,
                            file_id: Some(file_id as int),
                            ..db_jobs(old(self).conn)[id@]
                        },
                    )
                },
                Ok(false) => {
                    &&& db_jobs(final (self).conn) == db_jobs(old(self).conn)
                    &&& !(db_jobs(old(self).conn).contains_key(id@) && db_jobs(old(self).conn)[id@].status
                        == JobStatus::Running)
                },
                Err(_) => db_jobs(final (self).conn) == db_jobs(old(self).conn),
            },
    {
        let ps: [&dyn rusqlite::ToSql; 2] = [&id, &file_id];
        match self.conn.execute(
            "UPDATE Job SET status = 'Completed', file_id = ?2, updated_at = CURRENT_TIMESTAMP
             WHERE id = ?1 AND status = 'Running'",
            &ps[..],
        ) {
            Ok(n) => Ok(n == 1),
            Err(e) => Err(StoreError { message: e.to_string() }),
        }
    }

    /// Marks a Running job Completed, recording the File row the download
    /// was stored under. Returns whether the transition applied; a job not
    /// currently Running is left untouched.
    pub fn complete_job(&mut self, job_id: &str, file_id: i64) -> (r: Result<bool, StoreError>)
        requires
            exists|i: int|
                0 <= i < old(self).files().len() && old(self).files()[i].id == file_id as int,
        ensures
            final (self).files() == old(self).files(),
            old(self).inv() ==> final (self).inv(),
            match r {
                Ok(true) => {
                    &&& Self::spec_complete_applies(old(self).jobs(), job_id@)
                    &&& final (self).jobs() == old(self).jobs().insert(
                        job_id@,
                        JobModel {
                            status: JobStatus::Completed,
                            file_id: Some(file_id as int),
                            ..old(self).jobs()[job_id@]
                        },
                    )
                },
                Ok(false) => {
                    &&& final (self).jobs() == old(self).jobs()
                    &&& !Self::spec_complete_applies(old(self).jobs(), job_id@)
                },
                Err(_) => final (self).jobs() == old(self).jobs(),
            },
    {
        let r = self.sql_complete_job(job_id, file_id);
        proof {
            if old(self).inv() && r == Ok::<bool, StoreError>(true) {
                assert forall|k: Seq<char>| #[trigger]
                    final (self).jobs().contains_key(k) implies job_well_formed(
                    final (self).jobs()[k],
                    final (self).files(),
                ) by {
                    if k != job_id@ {
                        assert(old(self).jobs().contains_key(k));
                    } else {
                        assert(old(self).jobs().contains_key(job_id@));
                    }
                }
            }
        }
        r
    }

    /// Relies on rusqlite::Connection::execute running one conditional
    /// UPDATE (WHERE id = ? AND status IN ('NotStarted', 'Running')): a
    /// non-terminal row moves to Failed with the error recorded, and the
    /// affected-row count says whether it did; on failure nothing changes.
    #[verifier::external_body]
    fn sql_fail_job(&mut self, id: &str, error: &str) -> (r: Result<bool, StoreError>)
        ensures
            db_files(final (self).conn) == db_files(old(self).conn),
            match r {
                Ok(true) => {
                    &&& db_jobs(old(self).conn).contains_key(id@)
                    &&& (db_jobs(old(self).conn)[id@].status == JobStatus::NotStarted || old(
                        self,
                    ).jobs()[id@].status == JobStatus::Running)
                    &&& db_jobs(final (self).conn) == db_jobs(old(self).conn).insert(
                        id@,
                        JobModel {
                            status: JobStatus::Failed,
                            error: Some(error@),
                            ..db_jobs(old(self).conn)[id@]
                        },
                    )
                },
                Ok(false) => {
                    &&& db_jobs(final (self).conn) == db_jobs(old(self).conn)
                    &&& !(db_jobs(old(self).conn).contains_key(id@) && (db_jobs(old(self).conn)[id@].status
                        == JobStatus::NotStarted || db_jobs(old(self).conn)[id@].status
                        == JobStatus::Running))
                },
                Err(_) => db_jobs(final (self).conn) == db_jobs(old(self).conn),
            },
    {
        let ps: [&dyn rusqlite::ToSql; 2] = [&id, &error];
        match self.conn.execute(
            "UPDATE Job SET status = 'Failed', error = ?2, updated_at = CURRENT_TIMESTAMP
             WHERE id = ?1 AND status IN ('NotStarted', 'Running')",
            &ps[..],
        ) {
            Ok(n) => Ok(n == 1),
            Err(e) => Err(StoreError { message: e.to_string() }),
        }
    }

    /// Marks a non-terminal job Failed with the error recorded. Returns
    /// whether the transition applied; a terminal job is never left.
    pub fn fail_job(&mut self, job_id: &str, error: &str) -> (r: Result<bool, StoreError>)
        ensures
            final (self).files() == old(self).files(),
            old(self).inv() ==> final (self).inv(),
            match r {
                Ok(true) => {
                    &&& Self::spec_fail_applies(old(self).jobs(), job_id@)
                    &&& final (self).jobs() == old(self).jobs().insert(
                        job_id@,
                        JobModel {
                            status: JobStatus::Failed,
                            error: Some(error@),
                            ..old(self).jobs()[job_id@]
                        },
                    )
                },
                Ok(false) => {
                    &&& final (self).jobs() == old(self).jobs()
                    &&& !Self::spec_fail_applies(old(self).jobs(), job_id@)
                },
                Err(_) => final (self).jobs() == old(self).jobs(),
            },
    {
        let r = self.sql_fail_job(job_id, error);
        proof {
            if old(self).inv() && r == Ok::<bool, StoreError>(true) {
                assert forall|k: Seq<char>| #[trigger]
                    final (self).jobs().contains_key(k) implies job_well_formed(
                    final (self).jobs()[k],
                    final (self).files(),
                ) by {
                    if k != job_id@ {
                        assert(old(self).jobs().contains_key(k));
                    } else {
                        assert(old(self).jobs().contains_key(job_id@));
                    }
                }
            }
        }
        r
    }

    /// Relies on rusqlite::Connection::query_row with OptionalExtension
    /// running SELECT ... FROM File WHERE hash = ? LIMIT 1: some row
    /// carrying the hash is returned when one exists, and none exactly when
    /// none does.
    #[verifier::external_body]
    fn sql_file_by_hash(&self, hash: &str) -> (r: Result<Option<FileRecord>, StoreError>)
        ensures
            match r {
                Ok(Some(f)) => f.hash@ == hash@ && exists|i: int|
                    0 <= i < self.files().len() && #[trigger] self.files()[i] == f.model(),
                Ok(None) => forall|i: int|
                    0 <= i < self.files().len() ==> #[trigger] self.files()[i].hash != hash@,
                Err(_) => true,
            },
    {
        self.conn.query_row(
            "SELECT id, filepath, url, hash FROM File WHERE hash = ?1 LIMIT 1",
            [hash],
            |row| {
                Ok(FileRecord {
                    id: row.get(0)?,
                    filepath: row.get(1)?,
                    url: row.get(2)?,
                    hash: row.get(3)?,
                })
            },
        ).optional().map_err(|e| StoreError { message: e.to_string() })
    }

    /// The stored File row carrying this content hash, if any.
    pub fn get_file_by_hash(&self, hash: &str) -> (r: Result<Option<FileRecord>, StoreError>)
        ensures
            match r {
                Ok(Some(f)) => f.hash@ == hash@ && exists|i: int|
                    0 <= i < self.files().len() && #[trigger] self.files()[i] == f.model(),
                Ok(None) => forall|i: int|
                    0 <= i < self.files().len() ==> #[trigger] self.files()[i].hash != hash@,
                Err(_) => true,
            },
    {
        self.sql_file_by_hash(hash)
    }

    /// The path of the stored file carrying this content hash, if any.
    pub fn get_filepath_by_hash(&self, hash: &str) -> (r: Result<Option<String>, StoreError>)
        ensures
            match r {
                Ok(Some(p)) => exists|i: int|
                    0 <= i < self.files().len() && self.files()[i].hash == hash@
                        && #[trigger] self.files()[i].filepath == p@,
                Ok(None) => forall|i: int|
                    0 <= i < self.files().len() ==> #[trigger] self.files()[i].hash != hash@,
                Err(_) => true,
            },
    {
        match self.get_file_by_hash(hash) {
            Ok(Some(f)) => {
                proof {
                    let i = choose|i: int|
                        0 <= i < self.files().len() && #[trigger] self.files()[i] == f.model();
                    assert(self.files()[i].hash == hash@);
                    assert(self.files()[i].filepath == f.filepath@);
                }
                Ok(Some(f.filepath))
            },
            Ok(None) => Ok(None),
            Err(e) => Err(e),
        }
    }

    /// Relies on rusqlite::Connection::query_row with OptionalExtension
    /// reading one File row by primary key.
    #[verifier::external_body]
    fn sql_file_by_id(&self, id: i64) -> (r: Result<Option<FileRecord>, StoreError>)
        ensures
            match r {
                Ok(Some(f)) => exists|i: int|
                    0 <= i < self.files().len() && #[trigger] self.files()[i] == f.model()
                        && f.id == id,
                Ok(None) => forall|i: int|
                    0 <= i < self.files().len() ==> #[trigger] self.files()[i].id != id as int,
                Err(_) => true,
            },
    {
        self.conn.query_row(
            "SELECT id, filepath, url, hash FROM File WHERE id = ?1",
            [id],
            |row| {
                Ok(FileRecord {
                    id: row.get(0)?,
                    filepath: row.get(1)?,
                    url: row.get(2)?,
                    hash: row.get(3)?,
                })
            },
        ).optional().map_err(|e| StoreError { message: e.to_string() })
    }

    /// The File row with this id, if any.
    pub fn get_file_by_id(&self, id: i64) -> (r: Result<Option<FileRecord>, StoreError>)
        ensures
            match r {
                Ok(Some(f)) => exists|i: int|
                    0 <= i < self.files().len() && #[trigger] self.files()[i] == f.model()
                        && f.id == id,
                Ok(None) => forall|i: int|
                    0 <= i < self.files().len() ==> #[trigger] self.files()[i].id != id as int,
                Err(_) => true,
            },
    {
        self.sql_file_by_id(id)
    }

    /// Relies on rusqlite::Connection::query_row with OptionalExtension
    /// running SELECT id FROM File WHERE filepath = ?: some row stored at
    /// the path is returned when one exists, and none exactly when none is.
    #[verifier::external_body]
    fn sql_file_id_by_path(&self, path: &str) -> (r: Result<Option<i64>, StoreError>)
        ensures
            match r {
                Ok(Some(fid)) => exists|i: int|
                    0 <= i < self.files().len() && self.files()[i].filepath == path@
                        && #[trigger] self.files()[i].id == fid as int,
                Ok(None) => forall|i: int|
                    0 <= i < self.files().len() ==> #[trigger] self.files()[i].filepath != path@,
                Err(_) => true,
            },
    {
        self.conn.query_row("SELECT id FROM File WHERE filepath = ?1", [path], |row| {
            row.get(0)
        }).optional().map_err(|e| StoreError { message: e.to_string() })
    }

    /// The id of the File row stored at this path, if any.
    pub fn get_file_id_by_path(&self, path: &str) -> (r: Result<Option<i64>, StoreError>)
        ensures
            match r {
                Ok(Some(fid)) => exists|i: int|
                    0 <= i < self.files().len() && self.files()[i].filepath == path@
                        && #[trigger] self.files()[i].id == fid as int,
                Ok(None) => forall|i: int|
                    0 <= i < self.files().len() ==> #[trigger] self.files()[i].filepath != path@,
                Err(_) => true,
            },
    {
        self.sql_file_id_by_path(path)
    }

    /// Relies on rusqlite::Connection::execute running one INSERT into File
    /// and Connection::last_insert_rowid: on success the row is appended
    /// under a rowid AUTOINCREMENT has never handed out before, and the
    /// UNIQUE constraint on hash guarantees no stored row carried the same
    /// hash; a duplicate hash makes the constraint fail the statement, and
    /// on any failure nothing changes.
    #[verifier::external_body]
    fn sql_insert_file(&mut self, filepath: &str, url: &str, hash: &str) -> (r: Result<
        i64,
        StoreError,
    >)
        ensures
            db_jobs(final (self).conn) == db_jobs(old(self).conn),
            match r {
                Ok(fid) => {
                    &&& forall|i: int|
                        0 <= i < db_files(old(self).conn).len() ==> #[trigger] db_files(old(self).conn)[i].hash
                            != hash@ && db_files(old(self).conn)[i].id != fid as int
                    &&& db_files(final (self).conn) == db_files(old(self).conn).push(
                        FileModel { id: fid as int, filepath: filepath@, url: url@, hash: hash@ },
                    )
                },
                Err(_) => db_files(final (self).conn) == db_files(old(self).conn),
            },
            (exists|i: int| 0 <= i < db_files(old(self).conn).len() && #[trigger] db_files(old(self).conn)[i].hash == hash@)
                ==> r is Err,
    {
        let ps: [&dyn rusqlite::ToSql; 3] = [&filepath, &url, &hash];
        match self.conn.execute(
            "INSERT INTO File (filepath, url, hash) VALUES (?1, ?2, ?3)",
            &ps[..],
        ) {
            Ok(_) => Ok(self.conn.last_insert_rowid()),
            Err(e) => Err(StoreError { message: e.to_string() }),
        }
    }

    /// Appends a File row and hands back its fresh id. A row whose hash is
    /// already stored is refused by the store's uniqueness constraint.
    pub fn insert_file(&mut self, filepath: &str, url: &str, hash: &str) -> (r: Result<
        i64,
        StoreError,
    >)
        ensures
            final (self).jobs() == old(self).jobs(),
            old(self).inv() ==> final (self).inv(),
            match r {
                Ok(fid) => {
                    &&& forall|i: int|
                        0 <= i < old(self).files().len() ==> #[trigger] old(self).files()[i].hash
                            != hash@ && old(self).files()[i].id != fid as int
                    &&& final (self).files() == old(self).files().push(
                        FileModel { id: fid as int, filepath: filepath@, url: url@, hash: hash@ },
                    )
                },
                Err(_) => final (self).files() == old(self).files(),
            },
            (exists|i: int| 0 <= i < old(self).files().len() && #[trigger] old(self).files()[i].hash == hash@)
                ==> r is Err,
    {
        let r = self.sql_insert_file(filepath, url, hash);
        proof {
            if old(self).inv() && r is Ok {
                let files1 = final (self).files();
                let files0 = old(self).files();
                assert forall|i: int, j: int| 0 <= i < j < files1.len() implies files1[i].hash
                    != files1[j].hash && files1[i].id != files1[j].id by {
                    if j < files0.len() {
                        assert(files1[i] == files0[i] && files1[j] == files0[j]);
                    } else {
                        assert(files1[i] == files0[i]);
                    }
                }
                assert forall|k: Seq<char>| #[trigger]
                    final (self).jobs().contains_key(k) implies job_well_formed(
                    final (self).jobs()[k],
                    files1,
                ) by {
                    assert(old(self).jobs().contains_key(k));
                    assert(job_well_formed(old(self).jobs()[k], files0));
                    if old(self).jobs()[k].file_id is Some {
                        let fid = old(self).jobs()[k].file_id.unwrap();
                        let i = choose|i: int| 0 <= i < files0.len() && files0[i].id == fid;
                        assert(files1[i].id == fid);
                    }
                }
            }
        }
        r
    }

    /// Relies on rusqlite::Connection::query_row running SELECT COUNT(*)
    /// FROM File: the number of stored File rows.
    #[verifier::external_body]
    fn sql_count_files(&self) -> (r: Result<i64, StoreError>)
        ensures
            match r {
                Ok(n) => n as int == db_files(self.conn).len(),
                Err(_) => true,
            },
    {
        self.conn.query_row("SELECT COUNT(*) FROM File", [], |row| {
            row.get(0)
        }).map_err(|e| StoreError { message: e.to_string() })
    }

    /// How many File rows the store holds.
    pub fn count_files(&self) -> (r: Result<i64, StoreError>)
        ensures
            match r {
                Ok(n) => n as int == self.files().len(),
                Err(_) => true,
            },
    {
        self.sql_count_files()
    }

    /// Relies on rusqlite::Connection::query_row reading the created_at
    /// column of one Job row; the value comes from the database clock, so
    /// nothing is assumed of it.
    #[verifier::external_body]
    pub(crate) fn job_created_at(&self, id: &str) -> Option<String> {
        self.conn.query_row("SELECT created_at FROM Job WHERE id = ?1", [id], |row| {
            row.get(0)
        }).ok()
    }

    /// Relies on rusqlite::Connection::query_row reading the updated_at
    /// column of one Job row; the value comes from the database clock, so
    /// nothing is assumed of it.
    #[verifier::external_body]
    pub(crate) fn job_updated_at(&self, id: &str) -> Option<String> {
        self.conn.query_row("SELECT updated_at FROM Job WHERE id = ?1", [id], |row| {
            row.get(0)
        }).ok()
    }
}

/// Once a claim of `id` has succeeded, no further claim of the same id can
/// apply: at most one claimer ever observes the transition to Running.
pub proof fn lemma_claim_exclusive(jobs: Map<Seq<char>, JobModel>, id: Seq<char>)
    requires
        Store::spec_claim_applies(jobs, id),
    ensures
        !Store::spec_claim_applies(Store::spec_claim_result(jobs, id), id),
{
}

/// The two terminal states are never left: to a Completed or Failed job no
/// claim, completion or failure transition applies.
pub proof fn lemma_terminal_states_are_final(jobs: Map<Seq<char>, JobModel>, k: Seq<char>)
    requires
        jobs.contains_key(k),
        jobs[k].status == JobStatus::Completed || jobs[k].status == JobStatus::Failed,
    ensures
        !Store::spec_claim_applies(jobs, k),
        !Store::spec_complete_applies(jobs, k),
        !Store::spec_fail_applies(jobs, k),
{
}

/// What the store invariant says of a terminal job: a Completed job names
/// an existing File row and carries no error; a Failed job carries an error
/// and no file; no job carries both.
pub proof fn lemma_terminal_job_shape(
    files: Seq<FileModel>,
    jobs: Map<Seq<char>, JobModel>,
    k: Seq<char>,
)
    requires
        store_inv(files, jobs),
        jobs.contains_key(k),
    ensures
        jobs[k].status == JobStatus::Completed ==> (jobs[k].file_id matches Some(fid) && (exists|
            i: int,
        |
            0 <= i < files.len() && files[i].id == fid) && jobs[k].error is None),
        jobs[k].status == JobStatus::Failed ==> jobs[k].error is Some && jobs[k].file_id is None,
        !(jobs[k].file_id is Some && jobs[k].error is Some),
{
}

} // verus!
