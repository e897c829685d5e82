//! What this library believes of code that it does not verify: three
//! functions of the standard library and one of oxigraph. Every proof that
//! goes through one of them rests on the contract stated here.

use vstd::prelude::*;
use vstd::string::StringSliceAdditionalSpecFns;
use vstd::utf8::valid_utf8;

verus! {

/// `String::push` appends the character to the end of the string, and
/// changes nothing before it.
pub assume_specification[ String::push ](s: &mut String, ch: char)
    ensures
        final(s)@ == old(s)@.push(ch),
;

/// `==` on `str` holds exactly where the two texts are made of the same
/// characters.
pub assume_specification[ <str as PartialEq>::eq ](a: &str, b: &str) -> (same: bool)
    ensures
        same == (a@ == b@),
;

/// The error of `core::str::from_utf8`. Nothing is read from it.
#[verifier::external_type_specification]
#[verifier::external_body]
pub struct ExUtf8Error(core::str::Utf8Error);

/// `core::str::from_utf8` succeeds on the byte sequences that are valid
/// UTF-8 and on no others, and the text it returns is made of those bytes.
pub assume_specification[ core::str::from_utf8 ](bytes: &[u8]) -> (text: Result<
    &str,
    core::str::Utf8Error,
>)
    ensures
        text is Ok <==> valid_utf8(bytes@),
        text matches Ok(s) ==> s.spec_bytes() == bytes@,
;

/// Whether `c` ends the search for a user part in an authority.
pub open spec fn ends_user_search(c: char) -> bool {
    c == '[' || c == '/' || c == '?' || c == '#'
}

/// Whether the first `:` of `text` stands at `colon`, with `//` and then a
/// character outside ASCII behind it.
pub open spec fn scheme_ends_at(text: Seq<char>, colon: int) -> bool {
    &&& 0 <= colon
    &&& colon + 3 < text.len()
    &&& text[colon] == ':'
    &&& forall|k: int| 0 <= k < colon ==> #[trigger] text[k] != ':'
    &&& text[colon + 1] == '/'
    &&& text[colon + 2] == '/'
    &&& text[colon + 3] as u32 >= 0x80
}

/// Whether the user part that begins three characters behind `colon` ends
/// with the `@` at `at`, with a `[` behind it.
pub open spec fn user_part_ends_at(text: Seq<char>, colon: int, at: int) -> bool {
    &&& colon + 3 <= at
    &&& at + 1 < text.len()
    &&& text[at] == '@'
    &&& text[at + 1] == '['
    &&& forall|k: int|
        #![trigger text[k]]
        colon + 3 <= k < at ==> text[k] != '@' && !ends_user_search(text[k])
}

/// Whether `text` has, behind its first `:`, the two slashes of an
/// authority, a user part that begins with a character outside ASCII, and
/// behind the `@` of that user part the `[` of a bracketed host.
pub open spec fn splits_a_character(text: Seq<char>) -> bool {
    exists|colon: int, at: int|
        scheme_ends_at(text, colon) && #[trigger] user_part_ends_at(text, colon, at)
}

/// Whether oxigraph takes `iri` as the IRI of a named node. It says so
/// only of the texts on which `NamedNode::new` is called, which are those
/// that `splits_a_character` leaves.
pub uninterp spec fn valid_iri(iri: Seq<char>) -> bool;

/// `NamedNode::new` of oxigraph holds its argument against the IRI grammar
/// of RFC 3987 and returns a node or a parse error; which of the two depends
/// on the text alone. The wrapper says whether a node came back.
///
/// For a bracketed host the parser cuts the text three bytes behind the
/// scheme's `:`, which is right only where the host comes first in the
/// authority. Behind a user part that begins with a character of several
/// bytes the cut falls inside that character, and the call panics. On the
/// texts of `splits_a_character` the call never returns a node: it returns
/// an error or panics. They are left out here.
#[verifier::external_body]
pub(crate) fn iri_is_valid(iri: &str) -> (valid: bool)
    requires
        !splits_a_character(iri@),
    ensures
        valid == valid_iri(iri@),
{
    oxigraph::model::NamedNode::new(iri).is_ok()
}

} // verus!
