use vstd::prelude::*;
use crate::error::{ErrorKind, SfError};
use crate::text::{contains_text, same_text, first_segment, first_segment_of, list_contains, occurs_in, texts};

verus! {

/// Extension of the plain media files that `encrypt` reads.
pub open spec fn media_ext() -> Seq<char> {
    ".mp4"@
}

/// Extension of the cipher output that `decrypt` reads.
pub open spec fn cipher_ext() -> Seq<char> {
    ".enc"@
}

/// The extension that the output of a job reading `ext` files carries.
pub open spec fn counterpart(ext: Seq<char>) -> Option<Seq<char>> {
    if ext == media_ext() {
        Some(cipher_ext())
    } else if ext == cipher_ext() {
        Some(media_ext())
    } else {
        None
    }
}

/// Whether the file `name` is a job for `ext` files: it carries the extension,
/// and the output directory has no counterpart for its identifier yet.
pub open spec fn is_pending(name: Seq<char>, outputs: Seq<Seq<char>>, ext: Seq<char>, other: Seq<char>) -> bool {
    occurs_in(name, ext) && !outputs.contains(first_segment(name) + other)
}

/// The job identifiers found among `names` for `ext` files, in listing order.
pub open spec fn catalog(names: Seq<Seq<char>>, outputs: Seq<Seq<char>>, ext: Seq<char>, other: Seq<char>) -> Seq<Seq<char>>
    decreases names.len(),
{
    if names.len() == 0 {
        Seq::empty()
    } else {
        let rest = catalog(names.drop_last(), outputs, ext, other);
        if is_pending(names.last(), outputs, ext, other) {
            rest.push(first_segment(names.last()))
        } else {
            rest
        }
    }
}

/// The error for an extension that is neither of the two known ones.
pub open spec fn is_file_type_error(e: SfError) -> bool {
    &&& e.kind == ErrorKind::Catalog
    &&& e.message@ == "invalid file_type for file list"@
    &&& e.stderr is None
    &&& e.stdout is None
}

/// Whether a run encrypts or decrypts.
#[derive(Clone, Copy, Debug, PartialEq, Eq, Structural)]
pub enum Role {
    Encrypt,
    Decrypt,
}

impl Role {
    /// Extension of the files that the role reads.
    pub open spec fn source(self) -> Seq<char> {
        match self {
            Role::Encrypt => media_ext(),
            Role::Decrypt => cipher_ext(),
        }
    }

    /// Extension of the files that the role writes.
    pub open spec fn target(self) -> Seq<char> {
        match self {
            Role::Encrypt => cipher_ext(),
            Role::Decrypt => media_ext(),
        }
    }

    pub fn source_ext(self) -> (r: &'static str)
        ensures
            r@ == self.source(),
    {
        match self {
            Role::Encrypt => ".mp4",
            Role::Decrypt => ".enc",
        }
    }

    pub fn target_ext(self) -> (r: &'static str)
        ensures
            r@ == self.target(),
    {
        match self {
            Role::Encrypt => ".enc",
            Role::Decrypt => ".mp4",
        }
    }
}

/// The extension of the counterpart of `file_type` files; a catalog error for
/// any extension but the two known ones.
pub fn counterpart_ext(file_type: &str) -> (r: Result<String, SfError>)
    ensures
        match counterpart(file_type@) {
            Some(c) => r is Ok && r->Ok_0@ == c,
            None => r is Err && is_file_type_error(r->Err_0),
        },
{
    if same_text(file_type, ".mp4") {
        Ok(String::from_str(".enc"))
    } else if same_text(file_type, ".enc") {
        Ok(String::from_str(".mp4"))
    } else {
        Err(SfError::with_kind(ErrorKind::Catalog, String::from_str("invalid file_type for file list")))
    }
}

/// The job identifiers among the entries `input_names` of the input directory:
/// each entry whose name holds `file_type` gives the part of its name before
/// the first '.', unless `output_names` already holds that identifier with the
/// counterpart extension.
pub fn get_file_list(input_names: &Vec<String>, output_names: &Vec<String>, file_type: &str) -> (r: Result<Vec<String>, SfError>)
    ensures
        match counterpart(file_type@) {
            Some(c) => r is Ok && texts(r->Ok_0@) == catalog(texts(input_names@), texts(output_names@), file_type@, c),
            None => r is Err && is_file_type_error(r->Err_0),
        },
{
    let other = match counterpart_ext(file_type) {
        Ok(c) => c,
        Err(e) => return Err(e),
    };
    let ghost names = texts(input_names@);
    let ghost outputs = texts(output_names@);
    let mut list: Vec<String> = Vec::new();
    let mut i: usize = 0;
    while i < input_names.len()
        invariant
            i <= input_names.len(),
            names == texts(input_names@),
            outputs == texts(output_names@),
            texts(list@) == catalog(names.take(i as int), outputs, file_type@, other@),
        decreases input_names.len() - i,
    {
        let name = input_names[i].as_str();
        assert(names.take(i + 1).drop_last() =~= names.take(i as int));
        assert(names.take(i + 1).last() == name@);
        if contains_text(name, file_type) {
            let stem = first_segment_of(name);
            let counterpart_name = stem.clone().concat(other.as_str());
            if !list_contains(output_names, counterpart_name.as_str()) {
                list.push(stem);
                assert(texts(list@) =~= catalog(names.take(i as int), outputs, file_type@, other@).push(stem@));
            }
        }
        i = i + 1;
    }
    assert(names.take(input_names.len() as int) =~= names);
    Ok(list)
}

/// Running the catalog again over the same input entries, once the output
/// directory holds every earlier entry and the counterpart of each job of the
/// first run under the job's own identifier, finds no job.
pub proof fn lemma_rerun_finds_nothing(names: Seq<Seq<char>>, outputs: Seq<Seq<char>>, later: Seq<Seq<char>>, ext: Seq<char>)
    requires
        counterpart(ext) is Some,
        forall|o: Seq<char>| outputs.contains(o) ==> later.contains(o),
        forall|j: Seq<char>| #[trigger] catalog(names, outputs, ext, counterpart(ext)->Some_0).contains(j)
            ==> later.contains(j + counterpart(ext)->Some_0),
    ensures
        catalog(names, later, ext, counterpart(ext)->Some_0).len() == 0,
    decreases names.len(),
{
    let other = counterpart(ext)->Some_0;
    if names.len() > 0 {
        let first = catalog(names, outputs, ext, other);
        let first_rest = catalog(names.drop_last(), outputs, ext, other);
        assert forall|j: Seq<char>| #[trigger] first_rest.contains(j) implies later.contains(j + other) by {
            let idx = choose|idx: int| 0 <= idx < first_rest.len() && first_rest[idx] == j;
            if first != first_rest {
                assert(first == first_rest.push(first_segment(names.last())));
                assert(first[idx] == j);
            }
            assert(first.contains(j));
        }
        lemma_rerun_finds_nothing(names.drop_last(), outputs, later, ext);
        let n = names.last();
        if occurs_in(n, ext) {
            if outputs.contains(first_segment(n) + other) {
            } else {
                assert(first == first_rest.push(first_segment(n)));
                assert(first[first_rest.len() as int] == first_segment(n));
                assert(first.contains(first_segment(n)));
            }
        }
    }
}

} // verus!
