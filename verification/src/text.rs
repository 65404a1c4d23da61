//! Character-counting string utilities: the ellipsis truncation rule used
//! when a preview line exceeds its column budget, and a substring predicate
//! used to state what the composed prompt segments do not contain.

use vstd::prelude::*;

verus! {

/// What `truncate` returns: the string itself when it is within budget;
/// otherwise the prefix of `max_chars` characters with its last three
/// characters dropped (saturating at the empty prefix) and a three-character
/// ellipsis appended. Counts Unicode scalar values, never bytes.
pub open spec fn spec_truncate(s: Seq<char>, max_chars: nat) -> Seq<char> {
    if s.len() <= max_chars {
        s
    } else {
        let kept: nat = if max_chars >= 3 { (max_chars - 3) as nat } else { 0 };
        s.subrange(0, kept as int) + "..."@
    }
}

/// Shorten `s` to at most `max_chars` characters, marking any cut with a
/// trailing ellipsis.
pub fn truncate(s: &str, max_chars: usize) -> (r: String)
    ensures
        r@ == spec_truncate(s@, max_chars as nat),
{
    let len = s.unicode_len();
    if len <= max_chars {
        String::from_str(s)
    } else {
        let kept: usize = if max_chars >= 3 { max_chars - 3 } else { 0 };
        let mut r = String::from_str(s.substring_char(0, kept));
        r.append("...");
        r
    }
}

/// A string already within budget is returned unchanged, so truncation is
/// idempotent on such inputs.
pub proof fn lemma_truncate_within_budget(s: Seq<char>, max_chars: nat)
    requires
        s.len() <= max_chars,
    ensures
        spec_truncate(s, max_chars) == s,
{
}

/// The truncated string never exceeds `max_chars` characters, except that a
/// budget below the three-character ellipsis still yields the ellipsis:
/// the result length is at most the larger of `max_chars` and 3.
pub proof fn lemma_truncate_len_bound(s: Seq<char>, max_chars: nat)
    ensures
        spec_truncate(s, max_chars).len() <= if max_chars >= 3 {
            max_chars
        } else {
            3nat
        },
{
    reveal_strlit("...");
    if s.len() > max_chars {
        let kept: nat = if max_chars >= 3 { (max_chars - 3) as nat } else { 0 };
        assert(spec_truncate(s, max_chars).len() == kept + 3);
    }
}

/// `sub` occurs contiguously somewhere in `s`.
pub open spec fn has_substring(s: Seq<char>, sub: Seq<char>) -> bool {
    exists|i: int|
        0 <= i && i + sub.len() <= s.len() && #[trigger] s.subrange(i, i + sub.len()) == sub
}

/// A space-free string that occurs in neither `a` nor `b` does not occur in
/// `a`, a single space, and `b` run together: an occurrence would either lie
/// wholly inside one part or cover the separating space.
pub proof fn lemma_no_substring_across_space(a: Seq<char>, b: Seq<char>, sub: Seq<char>)
    requires
        sub.len() > 0,
        forall|k: int| 0 <= k < sub.len() ==> sub[k] != ' ',
        !has_substring(a, sub),
        !has_substring(b, sub),
    ensures
        !has_substring(a + seq![' '] + b, sub),
{
    let s = a + seq![' '] + b;
    assert forall|i: int| 0 <= i && i + sub.len() <= s.len() implies #[trigger] s.subrange(
        i,
        i + sub.len(),
    ) != sub by {
        if s.subrange(i, i + sub.len()) == sub {
            if i + sub.len() <= a.len() {
                assert(s.subrange(i, i + sub.len()) =~= a.subrange(i, i + sub.len()));
                assert(has_substring(a, sub));
            } else if i > a.len() {
                let j = i - a.len() - 1;
                assert(s.subrange(i, i + sub.len()) =~= b.subrange(j, j + sub.len()));
                assert(has_substring(b, sub));
            } else {
                // the occurrence covers index a.len(), which holds the space
                let k = a.len() - i;
                assert(s[a.len() as int] == ' ');
                assert(sub[k] == s.subrange(i, i + sub.len())[k]);
            }
        }
    }
}

/// A non-empty string is never a substring of a strictly shorter one.
pub proof fn lemma_substring_needs_room(s: Seq<char>, sub: Seq<char>)
    requires
        sub.len() > s.len(),
    ensures
        !has_substring(s, sub),
{
}

} // verus!
