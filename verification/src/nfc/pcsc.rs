//! Reader names as the PC/SC layer reports them.
use vstd::prelude::*;
use vstd::utf8::{decode_utf8, valid_utf8};

verus! {

/// `std::str::from_utf8`, owned. Claims what its documentation says: it succeeds
/// exactly on valid UTF-8, and then gives the characters the bytes encode.
#[verifier::external_body]
fn str_from_utf8(bytes: &[u8]) -> (r: Option<String>)
    ensures
        r is Some <==> valid_utf8(bytes@),
        r matches Some(s) ==> s@ == decode_utf8(bytes@),
{
    std::str::from_utf8(bytes).ok().map(|s| s.to_owned())
}

/// The name shown for a reader: its name when valid UTF-8, `???` otherwise.
pub open spec fn spec_reader_name(raw: Seq<u8>) -> Seq<char> {
    if valid_utf8(raw) {
        decode_utf8(raw)
    } else {
        "???"@
    }
}

/// The names of the connected readers, given the raw names (without their
/// terminating NUL) that the PC/SC context listed.
pub fn list_readers(raw_names: &[Vec<u8>]) -> (names: Vec<String>)
    ensures
        names@.len() == raw_names@.len(),
        forall|i: int| 0 <= i < names@.len() ==> #[trigger] names@[i]@ == spec_reader_name(raw_names@[i]@),
{
    let mut names: Vec<String> = Vec::new();
    let mut i: usize = 0;
    while i < raw_names.len()
        invariant
            i <= raw_names@.len(),
            names@.len() == i,
            forall|j: int| 0 <= j < i ==> #[trigger] names@[j]@ == spec_reader_name(raw_names@[j]@),
        decreases raw_names@.len() - i,
    {
        let name = match str_from_utf8(raw_names[i].as_slice()) {
            Some(s) => s,
            None => String::from_str("???"),
        };
        names.push(name);
        i = i + 1;
    }
    names
}

} // verus!
