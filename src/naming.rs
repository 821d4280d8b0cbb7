use vstd::prelude::*;
use crate::error::{ErrorKind, SfError};
use crate::text::{list_contains, texts};

verus! {

/// How many fresh identifiers are drawn before giving up on a free output name.
pub const NAME_ATTEMPTS: usize = 16;

/// Whether `c` is a hexadecimal digit, in either case.
pub open spec fn is_hex_digit(c: char) -> bool {
    ('0' <= c && c <= '9') || ('a' <= c && c <= 'f') || ('A' <= c && c <= 'F')
}

/// Whether `c` is a hexadecimal digit written in lower case.
pub open spec fn is_lower_hex_digit(c: char) -> bool {
    ('0' <= c && c <= '9') || ('a' <= c && c <= 'f')
}

/// The offsets of the four hyphens inside a canonical identifier.
pub open spec fn is_hyphen_offset(k: int) -> bool {
    k == 8 || k == 13 || k == 18 || k == 23
}

/// Whether the 36 characters of `s` from `i` have the canonical shape:
/// groups of eight, four, four, four and twelve hexadecimal digits, joined by hyphens.
pub open spec fn canonical_at(s: Seq<char>, i: int) -> bool {
    &&& 0 <= i
    &&& i + 36 <= s.len()
    &&& forall|k: int| 0 <= k < 36 ==> if is_hyphen_offset(k) {
        #[trigger] s[i + k] == '-'
    } else {
        is_hex_digit(s[i + k])
    }
}

/// Whether some part of `s` has the canonical identifier shape.
pub open spec fn holds_canonical(s: Seq<char>) -> bool {
    exists|i: int| canonical_at(s, i)
}

/// Whether `s` is exactly a canonical identifier in lower case.
pub open spec fn is_lower_canonical(s: Seq<char>) -> bool {
    &&& s.len() == 36
    &&& forall|k: int| 0 <= k < 36 ==> if is_hyphen_offset(k) {
        #[trigger] s[k] == '-'
    } else {
        is_lower_hex_digit(s[k])
    }
}

/// The regular expression that finds a canonical identifier in a text.
pub open spec fn canonical_pattern() -> Seq<char> {
    "[0-9a-fA-F]{8}\\-[0-9a-fA-F]{4}\\-[0-9a-fA-F]{4}\\-[0-9a-fA-F]{4}\\-[0-9a-fA-F]{12}"@
}

/// Relies on regex::Regex::new and Regex::is_match: the canonical pattern,
/// once compiled, reports whether some part of the text matches it (the search
/// is unanchored, and each class holds ASCII hexadecimal digits only). The two
/// calls stand together because what `is_match` finds depends on the pattern
/// that `new` compiled, which the compiled value does not show. `new` fails
/// only on an invalid pattern or one over the size limit, which this small,
/// valid pattern is not.
#[verifier::external_body]
fn search_canonical(pattern: &str, text: &str) -> (r: Result<bool, String>)
    requires
        pattern@ == canonical_pattern(),
    ensures
        r is Ok && r->Ok_0 == holds_canonical(text@),
{
    match regex::Regex::new(pattern) {
        Ok(re) => Ok(re.is_match(text)),
        Err(e) => Err(e.to_string()),
    }
}

/// Relies on uuid::Uuid::new_v4 and the Display of its hyphenated form: a
/// random identifier written as lower-case hexadecimal digits in groups of
/// 8-4-4-4-12 joined by hyphens.
#[verifier::external_body]
fn random_identifier() -> (r: String)
    ensures
        is_lower_canonical(r@),
{
    uuid::Uuid::new_v4().to_hyphenated().to_string()
}

/// Whether `job` holds a canonical identifier.
pub fn is_canonical_id(job: &str) -> (r: Result<bool, SfError>)
    ensures
        r is Ok && r->Ok_0 == holds_canonical(job@),
{
    match search_canonical(
        "[0-9a-fA-F]{8}\\-[0-9a-fA-F]{4}\\-[0-9a-fA-F]{4}\\-[0-9a-fA-F]{4}\\-[0-9a-fA-F]{12}",
        job,
    ) {
        Ok(b) => Ok(b),
        Err(message) => Err(SfError::with_kind(ErrorKind::Pool, message)),
    }
}

/// Whether the entry `t` could clash with a fresh identifier written with
/// extension `ext`: it is such an identifier, bare or with that extension.
pub open spec fn may_clash(t: Seq<char>, ext: Seq<char>) -> bool {
    is_lower_canonical(t) || (t.len() == 36 + ext.len() && is_lower_canonical(t.take(36)) && t.skip(36) == ext)
}

/// The output name of `job` given whether it is canonical and one candidate
/// identifier: a canonical job keeps its own name; otherwise the candidate is
/// taken unless `taken` already holds it, bare or with the extension `ext`.
pub fn pick_name(job: &str, job_is_canonical: bool, candidate: &str, ext: &str, taken: &Vec<String>) -> (r: Option<String>)
    ensures
        job_is_canonical ==> r is Some && r->Some_0@ == job@,
        !job_is_canonical ==> (r is None <==> (texts(taken@).contains(candidate@) || texts(taken@).contains(
            candidate@ + ext@,
        ))),
        !job_is_canonical && r is Some ==> r->Some_0@ == candidate@,
{
    if job_is_canonical {
        Some(String::from_str(job))
    } else if list_contains(taken, candidate) {
        None
    } else {
        let with_ext = String::from_str(candidate).concat(ext);
        if list_contains(taken, with_ext.as_str()) {
            None
        } else {
            Some(String::from_str(candidate))
        }
    }
}

/// The output name of `job`, whose output file takes the extension `ext`: the
/// job's own identifier when it holds a canonical identifier, else a fresh
/// lower-case canonical identifier that `taken` holds neither bare nor with
/// `ext`. A pool error when no free identifier came up, which cannot happen
/// when no entry of `taken` could clash with a fresh identifier.
pub fn resolve_output_name(job: &str, ext: &str, taken: &Vec<String>) -> (r: Result<String, SfError>)
    ensures
        holds_canonical(job@) ==> r is Ok && r->Ok_0@ == job@,
        r is Ok && !holds_canonical(job@) ==> is_lower_canonical(r->Ok_0@) && !texts(taken@).contains(
            r->Ok_0@,
        ) && !texts(taken@).contains(r->Ok_0@ + ext@),
        (forall|k: int| 0 <= k < taken@.len() ==> !may_clash(#[trigger] taken@[k]@, ext@)) ==> r is Ok,
        r is Err ==> r->Err_0.kind == ErrorKind::Pool,
{
    let canonical = match is_canonical_id(job) {
        Ok(b) => b,
        Err(e) => return Err(e),
    };
    if canonical {
        return Ok(String::from_str(job));
    }
    let mut attempt: usize = 0;
    while attempt < NAME_ATTEMPTS
        invariant
            canonical == holds_canonical(job@),
            !canonical,
            attempt > 0 ==> exists|k: int| 0 <= k < taken@.len() && may_clash(#[trigger] taken@[k]@, ext@),
        decreases NAME_ATTEMPTS - attempt,
    {
        let candidate = random_identifier();
        match pick_name(job, canonical, candidate.as_str(), ext, taken) {
            Some(name) => {
                return Ok(name);
            },
            None => {
                proof {
                    let u = candidate@;
                    if texts(taken@).contains(u) {
                        let k = choose|k: int| 0 <= k < texts(taken@).len() && texts(taken@)[k] == u;
                        assert(taken@[k]@ == texts(taken@)[k]);
                        assert(may_clash(taken@[k]@, ext@));
                    } else {
                        let k = choose|k: int| 0 <= k < texts(taken@).len() && texts(taken@)[k] == u + ext@;
                        assert(taken@[k]@ == texts(taken@)[k]);
                        assert((u + ext@).take(36) =~= u);
                        assert((u + ext@).skip(36) =~= ext@);
                        assert(may_clash(taken@[k]@, ext@));
                    }
                }
            },
        }
        attempt = attempt + 1;
    }
    Err(SfError::with_kind(ErrorKind::Pool, String::from_str("no free output name was found")))
}

/// A freshly drawn identifier is itself canonical, so resolving it again keeps it.
pub proof fn lemma_fresh_names_are_canonical(s: Seq<char>)
    requires
        is_lower_canonical(s),
    ensures
        holds_canonical(s),
{
    assert forall|k: int| 0 <= k < 36 implies if is_hyphen_offset(k) {
        #[trigger] s[0 + k] == '-'
    } else {
        is_hex_digit(s[0 + k])
    } by {
        assert(s[0 + k] == s[k]);
    }
    assert(canonical_at(s, 0));
}

} // verus!
