//! Unicode whitespace and trimming, over sequences of characters.

use vstd::prelude::*;

verus! {

/// Whether `c` is whitespace as Unicode defines it (`White_Space`).
pub open spec fn is_whitespace(c: char) -> bool {
    let u = c as u32;
    ||| 0x09 <= u <= 0x0D
    ||| u == 0x20
    ||| u == 0x85
    ||| u == 0xA0
    ||| u == 0x1680
    ||| 0x2000 <= u <= 0x200A
    ||| u == 0x2028
    ||| u == 0x2029
    ||| u == 0x202F
    ||| u == 0x205F
    ||| u == 0x3000
}

/// Whether every character of `s` is whitespace.
pub open spec fn all_whitespace(s: Seq<char>) -> bool {
    forall|i: int| 0 <= i < s.len() ==> is_whitespace(#[trigger] s[i])
}

/// `s` without its leading whitespace.
pub open spec fn trim_start(s: Seq<char>) -> Seq<char>
    decreases s.len(),
{
    if s.len() > 0 && is_whitespace(s.first()) {
        trim_start(s.drop_first())
    } else {
        s
    }
}

/// `s` without its trailing whitespace.
pub open spec fn trim_end(s: Seq<char>) -> Seq<char>
    decreases s.len(),
{
    if s.len() > 0 && is_whitespace(s.last()) {
        trim_end(s.drop_last())
    } else {
        s
    }
}

/// `s` without its leading and trailing whitespace.
pub open spec fn trim(s: Seq<char>) -> Seq<char> {
    trim_end(trim_start(s))
}

/// Whether `c` is whitespace as Unicode defines it (`White_Space`).
pub fn char_is_whitespace(c: char) -> (b: bool)
    ensures
        b == is_whitespace(c),
{
    let u: u32 = c as u32;
    (0x09 <= u && u <= 0x0D) || u == 0x20 || u == 0x85 || u == 0xA0 || u == 0x1680 || (0x2000 <= u
        && u <= 0x200A) || u == 0x2028 || u == 0x2029 || u == 0x202F || u == 0x205F || u == 0x3000
}

/// Trimming the start drops a run of whitespace and stops at the first
/// character that is not whitespace.
pub proof fn lemma_trim_start_is_suffix(s: Seq<char>)
    ensures
        trim_start(s).len() <= s.len(),
        trim_start(s) == s.skip(s.len() - trim_start(s).len()),
        forall|i: int| 0 <= i < s.len() - trim_start(s).len() ==> is_whitespace(#[trigger] s[i]),
        trim_start(s).len() > 0 ==> !is_whitespace(trim_start(s).first()),
    decreases s.len(),
{
    if s.len() > 0 && is_whitespace(s.first()) {
        let t = s.drop_first();
        lemma_trim_start_is_suffix(t);
        let n = t.len() - trim_start(t).len();
        assert(t.skip(n) =~= s.skip(n + 1));
        assert forall|i: int| 0 <= i < n + 1 implies is_whitespace(#[trigger] s[i]) by {
            if i > 0 {
                assert(s[i] == t[i - 1]);
            }
        }
    } else {
        assert(s.skip(0) =~= s);
    }
}

/// Trimming the end drops a run of whitespace and stops at the last
/// character that is not whitespace.
pub proof fn lemma_trim_end_is_prefix(s: Seq<char>)
    ensures
        trim_end(s).len() <= s.len(),
        trim_end(s) == s.take(trim_end(s).len() as int),
        forall|i: int| trim_end(s).len() <= i < s.len() ==> is_whitespace(#[trigger] s[i]),
        trim_end(s).len() > 0 ==> !is_whitespace(trim_end(s).last()),
    decreases s.len(),
{
    if s.len() > 0 && is_whitespace(s.last()) {
        let t = s.drop_last();
        lemma_trim_end_is_prefix(t);
        let n = trim_end(t).len() as int;
        assert(t.take(n) =~= s.take(n));
        assert forall|i: int| n <= i < s.len() implies is_whitespace(#[trigger] s[i]) by {
            if i < t.len() {
                assert(s[i] == t[i]);
            }
        }
    } else {
        assert(s.take(s.len() as int) =~= s);
    }
}

/// A sequence that starts with `a` whitespace characters followed by one
/// that is not whitespace loses exactly those `a` characters.
pub proof fn lemma_trim_start_skips(s: Seq<char>, a: int)
    requires
        0 <= a <= s.len(),
        forall|i: int| 0 <= i < a ==> is_whitespace(#[trigger] s[i]),
        a < s.len() ==> !is_whitespace(s[a]),
    ensures
        trim_start(s) == s.skip(a),
{
    lemma_trim_start_is_suffix(s);
    let n = s.len() - trim_start(s).len();
    if n < a {
        assert(s.skip(n).first() == s[n]);
    } else if a < n {
        assert(is_whitespace(s[a]));
    }
}

/// A sequence whose characters from `b` on are all whitespace, and whose
/// character before `b` is not, keeps exactly its first `b` characters.
pub proof fn lemma_trim_end_takes(s: Seq<char>, b: int)
    requires
        0 <= b <= s.len(),
        forall|i: int| b <= i < s.len() ==> is_whitespace(#[trigger] s[i]),
        0 < b ==> !is_whitespace(s[b - 1]),
    ensures
        trim_end(s) == s.take(b),
{
    lemma_trim_end_is_prefix(s);
    let n = trim_end(s).len() as int;
    if b < n {
        assert(s.take(n).last() == s[n - 1]);
    } else if n < b {
        assert(is_whitespace(s[b - 1]));
    }
}

/// The trimmed text is the stretch from the first to the last character
/// that is not whitespace; it is empty where there is none.
pub proof fn lemma_trim_is_subrange(s: Seq<char>, a: int, b: int)
    requires
        0 <= a <= b <= s.len(),
        forall|i: int| 0 <= i < a ==> is_whitespace(#[trigger] s[i]),
        forall|i: int| b <= i < s.len() ==> is_whitespace(#[trigger] s[i]),
        a < b ==> !is_whitespace(s[a]) && !is_whitespace(s[b - 1]),
        a == b ==> a == s.len(),
    ensures
        trim(s) == s.subrange(a, b),
{
    lemma_trim_start_skips(s, a);
    let t = s.skip(a);
    assert forall|i: int| b - a <= i < t.len() implies is_whitespace(#[trigger] t[i]) by {
        assert(t[i] == s[i + a]);
    }
    lemma_trim_end_takes(t, b - a);
    assert(t.take(b - a) =~= s.subrange(a, b));
}

/// Every sequence has the bounds that `lemma_trim_is_subrange` asks for:
/// `a` counts its leading whitespace and `b` is where its trailing
/// whitespace starts.
pub proof fn lemma_trim_bounds(s: Seq<char>) -> (bounds: (int, int))
    ensures
        ({
            let (a, b) = bounds;
            &&& 0 <= a <= b <= s.len()
            &&& forall|i: int| 0 <= i < a ==> is_whitespace(#[trigger] s[i])
            &&& forall|i: int| b <= i < s.len() ==> is_whitespace(#[trigger] s[i])
            &&& a < b ==> !is_whitespace(s[a]) && !is_whitespace(s[b - 1])
            &&& a == b ==> a == s.len()
            &&& trim(s) == s.subrange(a, b)
        }),
{
    lemma_trim_start_is_suffix(s);
    let a = s.len() - trim_start(s).len();
    let t = s.skip(a);
    lemma_trim_end_is_prefix(t);
    let b = a + trim_end(t).len();
    assert(t.take(b - a) =~= s.subrange(a, b));
    assert forall|i: int| b <= i < s.len() implies is_whitespace(#[trigger] s[i]) by {
        assert(s[i] == t[i - a]);
    }
    if a < b {
        assert(t.first() == s[a]);
        assert(t.take(b - a).last() == s[b - 1]);
    } else if a < s.len() {
        assert(t.first() == s[a]);
        assert(is_whitespace(t[0]));
    }
    (a, b)
}

/// Where `a` is the place of the first character that is not whitespace and
/// `k` the place of another, the trimmed text starts at `a` and reaches
/// past `k`.
pub proof fn lemma_trim_keeps(s: Seq<char>, a: int, k: int)
    requires
        0 <= a <= k < s.len(),
        forall|i: int| 0 <= i < a ==> is_whitespace(#[trigger] s[i]),
        !is_whitespace(s[a]),
        !is_whitespace(s[k]),
    ensures
        k - a < trim(s).len() <= s.len() - a,
        forall|j: int| 0 <= j < trim(s).len() ==> #[trigger] trim(s)[j] == s[a + j],
{
    lemma_trim_start_skips(s, a);
    let t = s.skip(a);
    lemma_trim_end_is_prefix(t);
    assert(t[k - a] == s[k]);
    assert forall|j: int| 0 <= j < trim(s).len() implies #[trigger] trim(s)[j] == s[a + j] by {
        assert(trim(s)[j] == t.take(trim_end(t).len() as int)[j]);
    }
}

/// Whitespace around a text does not change what is left of it after
/// trimming.
pub proof fn lemma_trim_ignores_surrounding_whitespace(
    before: Seq<char>,
    text: Seq<char>,
    after: Seq<char>,
)
    requires
        all_whitespace(before),
        all_whitespace(after),
    ensures
        trim(before + text + after) == trim(text),
{
    let s = before + text + after;
    let (a, b) = lemma_trim_bounds(text);
    let n = before.len() as int;
    if a < b {
        assert(s[n + a] == text[a]);
        assert(s[n + b - 1] == text[b - 1]);
        assert forall|i: int| 0 <= i < n + a implies is_whitespace(#[trigger] s[i]) by {
            if i < n {
                assert(s[i] == before[i]);
            } else {
                assert(s[i] == text[i - n]);
            }
        }
        assert forall|i: int| n + b <= i < s.len() implies is_whitespace(#[trigger] s[i]) by {
            if i < n + text.len() {
                assert(s[i] == text[i - n]);
            } else {
                assert(s[i] == after[i - n - text.len()]);
            }
        }
        lemma_trim_is_subrange(s, n + a, n + b);
        assert(s.subrange(n + a, n + b) =~= text.subrange(a, b));
    } else {
        assert forall|i: int| 0 <= i < s.len() implies is_whitespace(#[trigger] s[i]) by {
            if i < n {
                assert(s[i] == before[i]);
            } else if i < n + text.len() {
                assert(s[i] == text[i - n]);
            } else {
                assert(s[i] == after[i - n - text.len()]);
            }
        }
        lemma_trim_is_subrange(s, s.len() as int, s.len() as int);
        assert(s.subrange(s.len() as int, s.len() as int) =~= text.subrange(a, b));
    }
}

} // verus!
