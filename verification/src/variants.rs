//! The styled variants of a character in the Unicode block of mathematical
//! alphanumeric symbols.
//!
//! The tables are those of the `math_text_transform` crate. They are not
//! restated here: each table has a name, and the contracts of this crate
//! speak of the tables by these names.

use vstd::prelude::*;

verus! {

/// The bold variant of a character, where the bold table has one.
pub uninterp spec fn math_bold_of(c: char) -> Option<char>;

/// The italic variant of a character, where the italic table has one.
pub uninterp spec fn math_italic_of(c: char) -> Option<char>;

/// The bold script variant of a character, where the bold script table has
/// one.
pub uninterp spec fn math_bold_script_of(c: char) -> Option<char>;

/// Calls `math_text_transform::math_bold`, a table lookup that depends on the
/// character alone. Trusted: the result is what the bold table gives.
#[verifier::external_body]
pub(crate) fn bold(c: char) -> (variant: Option<char>)
    ensures
        variant == math_bold_of(c),
{
    math_text_transform::math_bold(c)
}

/// Calls `math_text_transform::math_italic`, a table lookup that depends on
/// the character alone. Trusted: the result is what the italic table gives.
#[verifier::external_body]
pub(crate) fn italic(c: char) -> (variant: Option<char>)
    ensures
        variant == math_italic_of(c),
{
    math_text_transform::math_italic(c)
}

/// Calls `math_text_transform::math_bold_script`, a table lookup that depends
/// on the character alone. Trusted: the result is what the bold script table
/// gives.
#[verifier::external_body]
pub(crate) fn bold_script(c: char) -> (variant: Option<char>)
    ensures
        variant == math_bold_script_of(c),
{
    math_text_transform::math_bold_script(c)
}

} // verus!
