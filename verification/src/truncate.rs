//! Cutting a text down to a budget of UTF-8 bytes.

use vstd::prelude::*;
use vstd::string::*;
use crate::text::{byte_len, chars_of, lemma_byte_len_concat, lemma_byte_len_prefix, utf8_width};

verus! {

/// The marker that stands for the part that was cut off.
pub open spec fn ellipsis() -> Seq<char> {
    seq!['.', '.', '.']
}

/// Whether `k` is where `s` has to be cut: its first `k` characters fit in
/// `max` bytes and one character more does not.
pub open spec fn is_cut(s: Seq<char>, max: nat, k: int) -> bool {
    &&& 0 <= k < s.len()
    &&& byte_len(s.take(k)) <= max
    &&& max < byte_len(s.take(k + 1))
}

/// The number of leading characters of `s` that are kept when it is too long.
pub open spec fn cut_point(s: Seq<char>, max: nat) -> int {
    choose|k: int| is_cut(s, max, k)
}

/// `s` itself where it fits in `max` bytes; otherwise its longest prefix of
/// whole characters that fits, followed by the ellipsis.
pub open spec fn truncated(s: Seq<char>, max: nat) -> Seq<char> {
    if byte_len(s) <= max {
        s
    } else {
        s.take(cut_point(s, max)) + ellipsis()
    }
}

/// A text has at most one cut.
pub proof fn lemma_cut_unique(s: Seq<char>, max: nat, j: int, k: int)
    requires
        is_cut(s, max, j),
        is_cut(s, max, k),
    ensures
        j == k,
{
    if j < k {
        lemma_byte_len_prefix(s, j + 1, k);
    } else if k < j {
        lemma_byte_len_prefix(s, k + 1, j);
    }
}

/// A text that does not fit has a cut, and the cut decides its truncation.
pub proof fn lemma_cut_exists(s: Seq<char>, max: nat)
    requires
        byte_len(s) > max,
    ensures
        is_cut(s, max, cut_point(s, max)),
    decreases s.len(),
{
    if byte_len(s.drop_last()) > max {
        let t = s.drop_last();
        lemma_cut_exists(t, max);
        let k = cut_point(t, max);
        assert(t.take(k) == s.take(k));
        assert(t.take(k + 1) == s.take(k + 1));
        assert(is_cut(s, max, k));
    } else {
        let k = s.len() - 1;
        assert(s.take(k) == s.drop_last());
        assert(s.take(k + 1) == s);
        assert(is_cut(s, max, k));
    }
}

/// A text that fits is returned as it is. A text that does not fit keeps a
/// prefix of at most `max` bytes, so the result takes at most `max + 3`
/// bytes, the ellipsis included.
pub proof fn lemma_truncated_bounds(s: Seq<char>, max: nat)
    ensures
        byte_len(s) <= max ==> truncated(s, max) == s,
        byte_len(s) > max ==> byte_len(s.take(cut_point(s, max))) <= max,
        byte_len(s) > max ==> byte_len(truncated(s, max)) == byte_len(s.take(cut_point(s, max)))
            + 3,
        byte_len(truncated(s, max)) <= max + 3,
{
    lemma_ellipsis_len();
    if byte_len(s) > max {
        lemma_cut_exists(s, max);
        lemma_byte_len_concat(s.take(cut_point(s, max)), ellipsis());
    }
}

/// A truncated text stays within the budget whenever the kept prefix leaves
/// three bytes for the ellipsis.
pub proof fn lemma_truncated_within_budget(s: Seq<char>, max: nat)
    requires
        byte_len(s) > max,
        byte_len(s.take(cut_point(s, max))) + 3 <= max,
    ensures
        byte_len(truncated(s, max)) <= max,
{
    lemma_truncated_bounds(s, max);
}

/// The ellipsis takes three bytes.
pub proof fn lemma_ellipsis_len()
    ensures
        byte_len(ellipsis()) == 3,
{
    let e = ellipsis();
    assert(e.drop_last() == seq!['.', '.']);
    assert(e.drop_last().drop_last() == seq!['.']);
    assert(e.drop_last().drop_last().drop_last() == Seq::<char>::empty());
    reveal_with_fuel(byte_len, 4);
}

/// Truncates `s` to at most `max_bytes` bytes of UTF-8, never splitting a
/// character, and marks a cut with `...`.
pub fn truncate_utf8_bytes(s: String, max_bytes: usize) -> (out: String)
    ensures
        out@ == truncated(s@, max_bytes as nat),
{
    let chars = chars_of(s.as_str());
    let mut len: usize = 0;
    let mut out = String::new();
    let mut i: usize = 0;
    while i < chars.len()
        invariant
            chars@ == s@,
            i <= chars.len(),
            len == byte_len(s@.take(i as int)),
            len <= max_bytes,
            out@ == s@.take(i as int),
        decreases chars.len() - i,
    {
        let c = chars[i];
        let char_len = c.len_utf8();
        proof {
            assert(s@.take(i + 1).drop_last() == s@.take(i as int));
        }
        if char_len > max_bytes - len {
            out.push('.');
            out.push('.');
            out.push('.');
            proof {
                assert(is_cut(s@, max_bytes as nat, i as int));
                lemma_byte_len_prefix(s@, i + 1, s@.len() as int);
                assert(s@.take(s@.len() as int) == s@);
                lemma_cut_exists(s@, max_bytes as nat);
                lemma_cut_unique(s@, max_bytes as nat, i as int, cut_point(s@, max_bytes as nat));
                assert(out@ == s@.take(i as int) + ellipsis());
            }
            return out;
        }
        len += char_len;
        out.push(c);
        assert(s@.take(i + 1) == s@.take(i as int).push(c));
        i += 1;
    }
    assert(s@.take(i as int) == s@);
    out
}

} // verus!
