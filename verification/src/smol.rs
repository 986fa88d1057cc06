//! The `smol_str` string type that tokens carry their text in.
use smol_str::SmolStr;
use vstd::prelude::*;

verus! {

#[verifier::external_type_specification]
#[verifier::external_body]
pub struct ExSmolStr(SmolStr);

/// The `SmolStr` that `SmolStr::new` builds from a text with the chars `text`.
/// `SmolStr::new` copies the text (inline, as a static whitespace run, or in
/// an `Arc<str>`); the value depends on the chars of the text alone.
pub uninterp spec fn smol_str_of(text: Seq<char>) -> SmolStr;

/// Calls `SmolStr::new`. Trusted: the result is `smol_str_of` of the chars
/// of `text`; nothing more is said of its inner representation.
#[verifier::external_body]
pub(crate) fn smol_str_new(text: &str) -> (r: SmolStr)
    ensures
        r == smol_str_of(text@),
{
    SmolStr::new(text)
}

} // verus!
