use vstd::prelude::*;
use crate::catalog::{cipher_ext, media_ext, Role};
use crate::error::{ErrorKind, SfError};
use crate::text::{dot_from, first_segment, texts};

verus! {

/// The path of the file `stem` + `ext` inside the directory `dir`.
pub open spec fn join_path(dir: Seq<char>, stem: Seq<char>, ext: Seq<char>) -> Seq<char> {
    dir + "/"@ + stem + ext
}

/// The arguments of the external cipher command for one job of `role`.
pub open spec fn cipher_arguments(role: Role, key: Seq<char>, input: Seq<char>, output: Seq<char>) -> Seq<Seq<char>> {
    match role {
        Role::Encrypt => seq![
            "aes-256-cbc"@, "-a"@, "-salt"@, "-pbkdf2"@,
            "-in"@, input, "-out"@, output, "-k"@, key,
        ],
        Role::Decrypt => seq![
            "aes-256-cbc"@, "-d"@, "-a"@, "-pbkdf2"@,
            "-in"@, input, "-out"@, output, "-k"@, key,
        ],
    }
}

/// The path of the file `stem` + `ext` inside the directory `dir`.
pub fn job_path(dir: &str, stem: &str, ext: &str) -> (r: String)
    ensures
        r@ == join_path(dir@, stem@, ext@),
{
    let mut p = String::from_str(dir);
    p.append("/");
    p.append(stem);
    p.append(ext);
    p
}

/// The file a job of `role` reads and the file it writes.
pub fn job_paths(role: Role, input_dir: &str, output_dir: &str, job: &str, output_name: &str) -> (r: (String, String))
    ensures
        r.0@ == join_path(input_dir@, job@, role.source()),
        r.1@ == join_path(output_dir@, output_name@, role.target()),
{
    (job_path(input_dir, job, role.source_ext()), job_path(output_dir, output_name, role.target_ext()))
}

/// The arguments of the external cipher command that turns `input_path` into
/// `output_path` with `key`: salted AES-256-CBC, base64 framing, PBKDF2 key derivation.
pub fn cipher_args(role: Role, key: &str, input_path: &str, output_path: &str) -> (r: Vec<String>)
    ensures
        texts(r@) == cipher_arguments(role, key@, input_path@, output_path@),
{
    let mut v: Vec<String> = Vec::new();
    v.push(String::from_str("aes-256-cbc"));
    match role {
        Role::Encrypt => {
            v.push(String::from_str("-a"));
            v.push(String::from_str("-salt"));
        },
        Role::Decrypt => {
            v.push(String::from_str("-d"));
            v.push(String::from_str("-a"));
        },
    }
    v.push(String::from_str("-pbkdf2"));
    v.push(String::from_str("-in"));
    v.push(String::from_str(input_path));
    v.push(String::from_str("-out"));
    v.push(String::from_str(output_path));
    v.push(String::from_str("-k"));
    v.push(String::from_str(key));
    assert(texts(v@) =~= cipher_arguments(role, key@, input_path@, output_path@));
    v
}

/// The outcome of one cipher call: success, or a job error that names the
/// input file and carries the tool's diagnostic output.
pub fn job_result(success: bool, input_path: &str, stderr: String) -> (r: Result<(), SfError>)
    ensures
        r is Ok <==> success,
        r is Err ==> r->Err_0.kind == ErrorKind::Job && r->Err_0.message@ == "failed to process "@ + input_path@
            && r->Err_0.stderr == Some(stderr),
{
    if success {
        Ok(())
    } else {
        let mut message = String::from_str("failed to process ");
        message.append(input_path);
        Err(SfError { kind: ErrorKind::Job, message, stderr: Some(stderr), stdout: None })
    }
}

/// An identifier taken from the catalog has no '.', so the file that an
/// encryption writes for it is catalogued again under the same identifier by a
/// decryption, which writes its output under that identifier too; likewise
/// the other way round.
pub proof fn lemma_names_round_trip(s: Seq<char>)
    requires
        forall|k: int| 0 <= k < s.len() ==> s[k] != '.',
    ensures
        first_segment(s + cipher_ext()) == s,
        first_segment(s + media_ext()) == s,
{
    reveal_strlit(".enc");
    reveal_strlit(".mp4");
    lemma_segment_before_ext(s, cipher_ext());
    lemma_segment_before_ext(s, media_ext());
}

proof fn lemma_segment_before_ext(s: Seq<char>, ext: Seq<char>)
    requires
        forall|k: int| 0 <= k < s.len() ==> s[k] != '.',
        ext.len() > 0,
        ext[0] == '.',
    ensures
        first_segment(s + ext) == s,
{
    let t = s + ext;
    assert(t[s.len() as int] == '.');
    assert(dot_from(t, s.len() as int) == s.len());
    lemma_dot_back(t, s.len() as int);
    assert(t.take(s.len() as int) =~= s);
}

proof fn lemma_dot_back(t: Seq<char>, j: int)
    requires
        0 <= j <= t.len(),
        forall|k: int| 0 <= k < j ==> t[k] != '.',
    ensures
        dot_from(t, 0) == dot_from(t, j),
    decreases j,
{
    if j > 0 {
        assert(dot_from(t, j - 1) == dot_from(t, j));
        lemma_dot_back(t, j - 1);
    }
}

} // verus!
