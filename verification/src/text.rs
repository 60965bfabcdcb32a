use vstd::prelude::*;
use vstd::string::*;
use vstd::utf8::*;

verus! {

/// The first position at or after `from` where `s` holds the byte `b`.
pub open spec fn spec_find_from(s: Seq<u8>, b: u8, from: int) -> Option<int>
    decreases s.len() - from,
{
    if from < 0 || from >= s.len() {
        None
    } else if s[from] == b {
        Some(from)
    } else {
        spec_find_from(s, b, from + 1)
    }
}

/// What `spec_find_from` finds is the byte it looks for, and nothing between
/// the start and the find holds that byte; where it finds nothing, no
/// position at or after the start holds it.
pub proof fn lemma_find_from(s: Seq<u8>, b: u8, from: int)
    requires
        0 <= from,
    ensures
        spec_find_from(s, b, from) matches Some(i) ==> from <= i < s.len() && s[i] == b
            && forall|j: int| from <= j < i ==> s[j] != b,
        spec_find_from(s, b, from) is None ==> forall|j: int| from <= j < s.len() ==> s[j] != b,
    decreases s.len() - from,
{
    if from < s.len() && s[from] != b {
        lemma_find_from(s, b, from + 1);
    }
}

/// A position that holds `b`, with no `b` between the start and it, is what
/// `spec_find_from` finds.
pub proof fn lemma_find_from_first(s: Seq<u8>, b: u8, from: int, i: int)
    requires
        0 <= from <= i < s.len(),
        s[i] == b,
        forall|j: int| from <= j < i ==> s[j] != b,
    ensures
        spec_find_from(s, b, from) == Some(i),
    decreases i - from,
{
    if from < i {
        lemma_find_from_first(s, b, from + 1, i);
    }
}

/// Looks for the byte `b` in `s`, from position `from` on.
pub fn find_from(s: &[u8], b: u8, from: usize) -> (r: Option<usize>)
    ensures
        r matches Some(i) ==> spec_find_from(s@, b, from as int) == Some(i as int),
        r is None ==> spec_find_from(s@, b, from as int) is None,
{
    let mut i: usize = from;
    while i < s.len()
        invariant
            from <= i,
            spec_find_from(s@, b, from as int) == spec_find_from(s@, b, i as int),
        decreases s@.len() - i,
    {
        if s[i] == b {
            return Some(i);
        }
        i = i + 1;
    }
    None
}

/// `core::str::from_utf8`: the bytes read as a string slice, or nothing where
/// they are not UTF-8. Its documentation promises an error exactly for bytes
/// that are not UTF-8; this contract states that through vstd's definition of
/// UTF-8 (`valid_utf8`) and says that the text holds exactly those bytes.
#[verifier::external_body]
pub(crate) fn str_from_utf8(bytes: &[u8]) -> (r: Option<&str>)
    ensures
        r is Some <==> valid_utf8(bytes@),
        r matches Some(s) ==> s.spec_bytes() == bytes@,
{
    core::str::from_utf8(bytes).ok()
}

/// The text that the bytes spell, where they are UTF-8.
pub fn utf8_text(bytes: &[u8]) -> (r: Option<&str>)
    ensures
        r is Some <==> valid_utf8(bytes@),
        r matches Some(s) ==> s.spec_bytes() == bytes@,
{
    str_from_utf8(bytes)
}

} // verus!
