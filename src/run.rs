use vstd::prelude::*;
use crate::catalog::{catalog, counterpart, get_file_list, Role};
use crate::error::{ErrorKind, SfError};
use crate::pool::JobPool;
use crate::text::{same_text, texts};

verus! {

/// The settings of one run: the key, the input and output directories, and
/// the number of workers.
pub struct OpenSSLAesCommand {
    pub key: String,
    pub input: String,
    pub output: String,
    pub threads: i32,
}

/// Whether `r` is the pool of a run of `role` with `threads` workers, given the
/// entries of the input and output directories: a configuration error when
/// fewer than one worker is asked for, else a fresh pool over the catalog of
/// the files that `role` reads whose counterpart is not in the output
/// directory yet, with the output entries reserved.
pub open spec fn is_plan(
    threads: int,
    role: Role,
    input_names: Seq<String>,
    output_names: Seq<String>,
    r: Result<JobPool, SfError>,
) -> bool {
    &&& (r is Err <==> threads < 1)
    &&& (r is Err ==> r->Err_0.kind == ErrorKind::Configuration)
    &&& (r is Ok ==> {
        let p = r->Ok_0;
        &&& p.wf()
        &&& p.catalog() == catalog(texts(input_names), texts(output_names), role.source(), role.target())
        &&& p.pending_jobs() == p.catalog()
        &&& p.handed_out().len() == 0
        &&& p.reports().len() == 0
        &&& p.recorded_failures().len() == 0
        &&& p.reserved() == texts(output_names)
        &&& p.spec_role() == role
        &&& p.spec_threads() == threads
        &&& !p.has_fatal()
    })
}

/// Two runs of one role over the same directory entries with any numbers of
/// workers of at least one start from pools over the same catalog.
pub proof fn lemma_threads_do_not_change_jobs(
    t1: int,
    t2: int,
    role: Role,
    input_names: Seq<String>,
    output_names: Seq<String>,
    r1: Result<JobPool, SfError>,
    r2: Result<JobPool, SfError>,
)
    requires
        t1 >= 1,
        t2 >= 1,
        is_plan(t1, role, input_names, output_names, r1),
        is_plan(t2, role, input_names, output_names, r2),
    ensures
        r1 is Ok && r2 is Ok,
        r1->Ok_0.catalog() == r2->Ok_0.catalog(),
        r1->Ok_0.pending_jobs() == r2->Ok_0.pending_jobs(),
        r1->Ok_0.reserved() == r2->Ok_0.reserved(),
{
}

/// A batch cipher over a directory of files.
pub trait AES: Sized {
    spec fn spec_key(&self) -> Seq<char>;

    spec fn spec_input(&self) -> Seq<char>;

    spec fn spec_output(&self) -> Seq<char>;

    spec fn spec_threads(&self) -> int;

    fn new(key: String, input: String, output: String, threads: i32) -> (r: Self)
        ensures
            r.spec_key() == key@,
            r.spec_input() == input@,
            r.spec_output() == output@,
            r.spec_threads() == threads,
    ;

    /// The pool of encryption jobs, given the entries of both directories.
    fn encrypt(&self, input_names: &Vec<String>, output_names: &Vec<String>) -> (r: Result<JobPool, SfError>)
        ensures
            is_plan(self.spec_threads(), Role::Encrypt, input_names@, output_names@, r),
    ;

    /// The pool of decryption jobs, given the entries of both directories.
    fn decrypt(&self, input_names: &Vec<String>, output_names: &Vec<String>) -> (r: Result<JobPool, SfError>)
        ensures
            is_plan(self.spec_threads(), Role::Decrypt, input_names@, output_names@, r),
    ;
}

impl OpenSSLAesCommand {
    /// The pool of jobs of `role`, given the entries of the input and output
    /// directories: the catalog of the files that `role` reads whose
    /// counterpart is not in the output directory yet. A configuration error
    /// when fewer than one worker is asked for.
    pub fn plan(&self, role: Role, input_names: &Vec<String>, output_names: &Vec<String>) -> (r: Result<JobPool, SfError>)
        ensures
            is_plan(self.threads as int, role, input_names@, output_names@, r),
    {
        if self.threads < 1 {
            return Err(
                SfError::with_kind(ErrorKind::Configuration, String::from_str("threads must be at least 1")),
            );
        }
        proof {
            reveal_strlit(".mp4");
            reveal_strlit(".enc");
            assert(".mp4"@[1] != ".enc"@[1]);
            assert(counterpart(role.source()) == Some(role.target()));
        }
        let jobs = match get_file_list(input_names, output_names, role.source_ext()) {
            Ok(list) => list,
            Err(e) => return Err(e),
        };
        let taken = output_names.clone();
        proof {
            assert(texts(taken@) =~= texts(output_names@));
        }
        JobPool::new(role, jobs, taken, self.threads)
    }
}

impl AES for OpenSSLAesCommand {
    open spec fn spec_key(&self) -> Seq<char> {
        self.key@
    }

    open spec fn spec_input(&self) -> Seq<char> {
        self.input@
    }

    open spec fn spec_output(&self) -> Seq<char> {
        self.output@
    }

    open spec fn spec_threads(&self) -> int {
        self.threads as int
    }

    fn new(key: String, input: String, output: String, threads: i32) -> OpenSSLAesCommand {
        OpenSSLAesCommand { key, input, output, threads }
    }

    fn encrypt(&self, input_names: &Vec<String>, output_names: &Vec<String>) -> Result<JobPool, SfError> {
        self.plan(Role::Encrypt, input_names, output_names)
    }

    fn decrypt(&self, input_names: &Vec<String>, output_names: &Vec<String>) -> Result<JobPool, SfError> {
        self.plan(Role::Decrypt, input_names, output_names)
    }
}

/// The role named by `action`, once the settings of a run pass their checks,
/// in this order: both directories exist, the key is not empty, the action is
/// "encrypt" or "decrypt". Each failed check is a configuration error.
pub fn check_config(action: &str, key: &str, dirs_exist: bool) -> (r: Result<Role, SfError>)
    ensures
        r is Ok <==> dirs_exist && key@.len() > 0 && (action@ == "encrypt"@ || action@ == "decrypt"@),
        r is Ok ==> r->Ok_0 == (if action@ == "encrypt"@ { Role::Encrypt } else { Role::Decrypt }),
        r is Err ==> r->Err_0.kind == ErrorKind::Configuration,
        dirs_exist && key@.len() > 0 && r is Err ==> r->Err_0.message@ == "Not defined action: "@ + action@,
{
    if !dirs_exist {
        return Err(
            SfError::with_kind(ErrorKind::Configuration, String::from_str("input or output is not directory")),
        );
    }
    if key.unicode_len() == 0 {
        return Err(SfError::with_kind(ErrorKind::Configuration, String::from_str("key is empty")));
    }
    if same_text(action, "encrypt") {
        Ok(Role::Encrypt)
    } else if same_text(action, "decrypt") {
        Ok(Role::Decrypt)
    } else {
        let mut message = String::from_str("Not defined action: ");
        message.append(action);
        Err(SfError::with_kind(ErrorKind::Configuration, message))
    }
}

} // verus!
