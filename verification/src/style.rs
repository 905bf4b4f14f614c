//! Character-by-character styling of a text with a pass-through policy.

use vstd::prelude::*;
use vstd::string::*;
use crate::text::{chars_of, push_all};

verus! {

/// The one way styling fails: a character has no styled variant and is not
/// allowed to pass through unchanged.
#[derive(Clone, Copy, Debug, PartialEq, Eq, Structural)]
pub enum StyleError {
    StyleTransformFailed,
}

/// Characters that end the scan: the text from such a character on is kept
/// as it is.
pub open spec fn is_stop(c: char) -> bool {
    c == '(' || c == '['
}

/// Characters that pass through the scan unchanged.
pub open spec fn is_ignored(c: char) -> bool {
    c == '(' || c == ')' || c == ' ' || c == '[' || c == ']' || c == '"' || c == ',' || c == '\n'
        || c == '\u{a0}' || c == '\'' || c == '-'
}

/// Puts `head` in front of a styled remainder, if there is one.
pub open spec fn after(head: Seq<char>, rest: Option<Seq<char>>) -> Option<Seq<char>> {
    match rest {
        Some(r) => Some(head + r),
        None => None,
    }
}

/// The styled form of `s` from position `i` on, or `None` where styling
/// fails. A character with a variant is replaced by it. Without a variant, a
/// stop character ends the scan and the rest of the text follows verbatim;
/// an ignored character is kept; any other character makes styling fail.
pub open spec fn styled_from(s: Seq<char>, variant: spec_fn(char) -> Option<char>, i: int) -> Option<
    Seq<char>,
>
    decreases s.len() - i,
{
    if i < 0 || i >= s.len() {
        Some(Seq::empty())
    } else {
        match variant(s[i]) {
            Some(v) => after(seq![v], styled_from(s, variant, i + 1)),
            None => if is_stop(s[i]) {
                Some(s.subrange(i, s.len() as int))
            } else if is_ignored(s[i]) {
                after(seq![s[i]], styled_from(s, variant, i + 1))
            } else {
                None
            },
        }
    }
}

/// The styled form of the whole of `s`.
pub open spec fn styled(s: Seq<char>, variant: spec_fn(char) -> Option<char>) -> Option<Seq<char>> {
    styled_from(s, variant, 0)
}

/// Whether `variant` is the mathematical function that `modifier` computes:
/// whatever a call of `modifier` returns is what `variant` gives.
pub open spec fn computes<F: Fn(char) -> Option<char>>(
    modifier: F,
    variant: spec_fn(char) -> Option<char>,
) -> bool {
    forall|c: char, r: Option<char>| call_ensures(modifier, (c,), r) ==> r == variant(c)
}

/// What a call of `change` returned, as an optional text.
pub open spec fn outcome(r: Result<String, StyleError>) -> Option<Seq<char>> {
    match r {
        Ok(out) => Some(out@),
        Err(_) => None,
    }
}

/// A text made of ignored characters only, none of which has a variant,
/// comes out of styling unchanged.
pub proof fn lemma_ignored_text_unchanged(s: Seq<char>, variant: spec_fn(char) -> Option<char>)
    requires
        forall|i: int| 0 <= i < s.len() ==> is_ignored(s[i]) && variant(s[i]) is None,
    ensures
        styled(s, variant) == Some(s),
{
    lemma_ignored_rest_unchanged(s, variant, 0);
    assert(s.subrange(0, s.len() as int) == s);
}

proof fn lemma_ignored_rest_unchanged(
    s: Seq<char>,
    variant: spec_fn(char) -> Option<char>,
    from: int,
)
    requires
        0 <= from <= s.len(),
        forall|i: int| 0 <= i < s.len() ==> is_ignored(s[i]) && variant(s[i]) is None,
    ensures
        styled_from(s, variant, from) == Some(s.subrange(from, s.len() as int)),
    decreases s.len() - from,
{
    if from < s.len() {
        lemma_ignored_rest_unchanged(s, variant, from + 1);
        assert(seq![s[from]] + s.subrange(from + 1, s.len() as int) == s.subrange(
            from,
            s.len() as int,
        ));
    } else {
        assert(s.subrange(from, s.len() as int) == Seq::<char>::empty());
    }
}

/// Styling fails where a character has no variant and is not ignored, unless
/// the scan stopped before it at a stop character without a variant.
pub proof fn lemma_unmappable_fails(s: Seq<char>, variant: spec_fn(char) -> Option<char>, at: int)
    requires
        0 <= at < s.len(),
        variant(s[at]) is None,
        !is_ignored(s[at]),
        forall|j: int| 0 <= j < at ==> !(is_stop(s[j]) && variant(s[j]) is None),
    ensures
        styled(s, variant) is None,
{
    lemma_fails_from(s, variant, at, 0);
}

proof fn lemma_fails_from(
    s: Seq<char>,
    variant: spec_fn(char) -> Option<char>,
    at: int,
    from: int,
)
    requires
        0 <= from <= at < s.len(),
        variant(s[at]) is None,
        !is_ignored(s[at]),
        forall|j: int| from <= j < at ==> !(is_stop(s[j]) && variant(s[j]) is None),
    ensures
        styled_from(s, variant, from) is None,
    decreases at - from,
{
    if from < at {
        lemma_fails_from(s, variant, at, from + 1);
    }
}

fn is_stop_char(c: char) -> (b: bool)
    ensures
        b == is_stop(c),
{
    c == '(' || c == '['
}

fn is_ignored_char(c: char) -> (b: bool)
    ensures
        b == is_ignored(c),
{
    c == '(' || c == ')' || c == ' ' || c == '[' || c == ']' || c == '"' || c == ',' || c == '\n'
        || c == '\u{a0}' || c == '\'' || c == '-'
}

/// Styles `s` with `modifier`, scanning its characters from left to right.
///
/// Text of an opening bracket that has no variant, and all that follows it,
/// is never styled. The call fails on the first character, met before such a
/// bracket, that has no variant and may not pass through.
pub fn change<F: Fn(char) -> Option<char>>(s: &str, modifier: F) -> (r: Result<String, StyleError>)
    requires
        forall|c: char| call_requires(modifier, (c,)),
    ensures
        forall|variant: spec_fn(char) -> Option<char>| #[trigger]
            computes(modifier, variant) ==> outcome(r) == styled(s@, variant),
{
    let chars = chars_of(s);
    let mut out = String::new();
    let mut i: usize = 0;
    assert forall|variant: spec_fn(char) -> Option<char>| #[trigger]
        computes(modifier, variant) implies styled(s@, variant) == after(
        out@,
        styled_from(s@, variant, 0),
    ) by {
        let rest = styled_from(s@, variant, 0);
        if rest is Some {
            assert(out@ + rest->0 == rest->0);
        }
    }
    while i < chars.len()
        invariant
            chars@ == s@,
            forall|c: char| call_requires(modifier, (c,)),
            i <= chars.len(),
            forall|variant: spec_fn(char) -> Option<char>| #[trigger]
                computes(modifier, variant) ==> styled(s@, variant) == after(
                    out@,
                    styled_from(s@, variant, i as int),
                ),
        ensures
            i < chars.len() ==> is_stop(s@[i as int]) && forall|
                variant: spec_fn(char) -> Option<char>,
            | #[trigger] computes(modifier, variant) ==> variant(s@[i as int]) is None,
        decreases chars.len() - i,
    {
        let c = chars[i];
        let mapped = modifier(c);
        let ghost before = out@;
        let kept = match mapped {
            Some(v) => v,
            None => {
                if is_stop_char(c) {
                    break ;
                } else if is_ignored_char(c) {
                    c
                } else {
                    return Err(StyleError::StyleTransformFailed);
                }
            },
        };
        out.push(kept);
        assert forall|variant: spec_fn(char) -> Option<char>| #[trigger]
            computes(modifier, variant) implies styled(s@, variant) == after(
            out@,
            styled_from(s@, variant, i + 1),
        ) by {
            let rest = styled_from(s@, variant, i + 1);
            assert(styled_from(s@, variant, i as int) == after(seq![kept], rest));
            if rest is Some {
                assert(out@ + rest->0 == before + (seq![kept] + rest->0));
            }
        }
        i += 1;
    }
    if i < chars.len() {
        let mut k: usize = i;
        let mut rest: Vec<char> = Vec::new();
        while k < chars.len()
            invariant
                i <= k <= chars.len(),
                rest@ == chars@.subrange(i as int, k as int),
            decreases chars.len() - k,
        {
            rest.push(chars[k]);
            k += 1;
        }
        push_all(&mut out, &rest);
    } else {
        assert(out@ + Seq::<char>::empty() == out@);
    }
    Ok(out)
}

} // verus!
