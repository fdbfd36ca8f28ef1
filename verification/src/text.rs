//! Plain text operations on listing lines: whitespace trimming, splitting a
//! line at its first whitespace boundary, and substring search.

use vstd::prelude::*;
use vstd::string::*;

verus! {

/// `c` is an ASCII whitespace character as it occurs in a process listing.
pub open spec fn is_space(c: char) -> bool {
    c == ' ' || c == '\t' || c == '\r' || c == '\n'
}

/// `s` without its leading whitespace.
pub open spec fn trim_left(s: Seq<char>) -> Seq<char>
    decreases s.len(),
{
    if s.len() > 0 && is_space(s[0]) {
        trim_left(s.drop_first())
    } else {
        s
    }
}

/// `s` without its trailing whitespace.
pub open spec fn trim_right(s: Seq<char>) -> Seq<char>
    decreases s.len(),
{
    if s.len() > 0 && is_space(s.last()) {
        trim_right(s.drop_last())
    } else {
        s
    }
}

/// `s` without leading and trailing whitespace.
pub open spec fn spec_trim(s: Seq<char>) -> Seq<char> {
    trim_right(trim_left(s))
}

/// Index of the first whitespace character of `s`, or `-1` if there is none.
pub open spec fn first_space(s: Seq<char>) -> int
    decreases s.len(),
{
    if s.len() == 0 {
        -1
    } else if is_space(s[0]) {
        0
    } else if first_space(s.drop_first()) < 0 {
        -1
    } else {
        first_space(s.drop_first()) + 1
    }
}

/// What `first_space` returns: a valid index of a whitespace character with
/// none before it, or `-1` when `s` holds no whitespace at all.
pub proof fn lemma_first_space(s: Seq<char>)
    ensures
        first_space(s) == -1 ==> (forall|j: int| 0 <= j < s.len() ==> !is_space(s[j])),
        first_space(s) >= 0 ==> 0 <= first_space(s) < s.len() && is_space(s[first_space(s)])
            && (forall|j: int| 0 <= j < first_space(s) ==> !is_space(s[j])),
    decreases s.len(),
{
    if s.len() > 0 && !is_space(s[0]) {
        lemma_first_space(s.drop_first());
        if first_space(s) >= 0 {
            assert(s.drop_first()[first_space(s) - 1] == s[first_space(s)]);
            assert forall|j: int| 0 <= j < first_space(s) implies !is_space(s[j]) by {
                if j > 0 {
                    assert(s.drop_first()[j - 1] == s[j]);
                }
            }
        } else {
            assert forall|j: int| 0 <= j < s.len() implies !is_space(s[j]) by {
                if j > 0 {
                    assert(s.drop_first()[j - 1] == s[j]);
                }
            }
        }
    }
}

/// A whitespace character at `i` with none before it pins `first_space` down.
proof fn lemma_first_space_at(s: Seq<char>, i: int)
    requires
        0 <= i < s.len(),
        is_space(s[i]),
        forall|j: int| 0 <= j < i ==> !is_space(s[j]),
    ensures
        first_space(s) == i,
    decreases i,
{
    if i > 0 {
        assert(forall|j: int| 0 <= j < s.drop_first().len() ==> s.drop_first()[j] == s[j + 1]);
        lemma_first_space_at(s.drop_first(), i - 1);
    }
}

/// A string with no whitespace has no first whitespace index.
proof fn lemma_no_space(s: Seq<char>)
    requires
        forall|j: int| 0 <= j < s.len() ==> !is_space(s[j]),
    ensures
        first_space(s) == -1,
    decreases s.len(),
{
    if s.len() > 0 {
        assert(forall|j: int| 0 <= j < s.drop_first().len() ==> s.drop_first()[j] == s[j + 1]);
        lemma_no_space(s.drop_first());
    }
}

/// Executable test for [`is_space`].
fn is_space_char(c: char) -> (r: bool)
    ensures
        r == is_space(c),
{
    c == ' ' || c == '\t' || c == '\r' || c == '\n'
}

/// Remove leading and trailing whitespace.
pub fn trim_ws<'a>(s: &'a str) -> (r: &'a str)
    ensures
        r@ == spec_trim(s@),
{
    let len = s.unicode_len();
    let mut a: usize = 0;
    proof {
        assert(s@.skip(0) =~= s@);
    }
    while a < len && is_space_char(s.get_char(a))
        invariant
            0 <= a <= len,
            len == s@.len(),
            trim_left(s@) == trim_left(s@.skip(a as int)),
        decreases len - a,
    {
        proof {
            assert(s@.skip(a as int).drop_first() =~= s@.skip(a as int + 1));
            assert(s@.skip(a as int)[0] == s@[a as int]);
        }
        a = a + 1;
    }
    proof {
        if a == len {
            assert(s@.skip(a as int) =~= Seq::<char>::empty());
        }
        assert(trim_left(s@) == s@.skip(a as int));
    }
    let ghost t = s@.skip(a as int);
    let mut b: usize = len;
    proof {
        assert(t.take(len - a) =~= t);
    }
    while b > a && is_space_char(s.get_char(b - 1))
        invariant
            0 <= a <= b <= len,
            len == s@.len(),
            t == s@.skip(a as int),
            trim_right(t) == trim_right(t.take(b - a)),
        decreases b,
    {
        proof {
            let u = t.take(b - a);
            assert(u.drop_last() =~= t.take(b - 1 - a));
            assert(u.last() == s@[b - 1]);
        }
        b = b - 1;
    }
    proof {
        let u = t.take(b - a);
        if b == a {
            assert(u =~= Seq::<char>::empty());
        } else {
            assert(u.last() == s@[b - 1]);
        }
        assert(trim_right(t) == u);
        assert(t.take(b - a) =~= s@.subrange(a as int, b as int));
    }
    s.substring_char(a, b)
}

/// Split a line into the token before its first whitespace character and the
/// text after it; a line with no whitespace yields two empty fields.
///
/// The line is trimmed first, so the head token never starts with whitespace.
pub fn split_fields<'a>(line: &'a str) -> (r: (&'a str, &'a str))
    ensures
        ({
            let t = spec_trim(line@);
            let i = first_space(t);
            &&& i < 0 ==> r.0@ == Seq::<char>::empty() && r.1@ == Seq::<char>::empty()
            &&& i >= 0 ==> r.0@ == t.take(i) && r.1@ == t.skip(i + 1)
        }),
{
    let t = trim_ws(line);
    let len = t.unicode_len();
    let mut i: usize = 0;
    while i < len && !is_space_char(t.get_char(i))
        invariant
            0 <= i <= len,
            len == t@.len(),
            forall|j: int| 0 <= j < i ==> !is_space(t@[j]),
        decreases len - i,
    {
        i = i + 1;
    }
    if i == len {
        proof {
            lemma_no_space(t@);
            reveal_strlit("");
            assert(""@ =~= Seq::<char>::empty());
        }
        ("", "")
    } else {
        proof {
            lemma_first_space_at(t@, i as int);
            assert(t@.take(i as int) =~= t@.subrange(0, i as int));
            assert(t@.skip(i as int + 1) =~= t@.subrange(i as int + 1, len as int));
        }
        (t.substring_char(0, i), t.substring_char(i + 1, len))
    }
}

/// `p` occurs in `t` starting at index `i`.
pub open spec fn contains_at(t: Seq<char>, p: Seq<char>, i: int) -> bool {
    0 <= i && i + p.len() <= t.len() && t.subrange(i, i + p.len()) == p
}

/// `p` occurs somewhere in `t` as a contiguous substring.
pub open spec fn spec_contains(t: Seq<char>, p: Seq<char>) -> bool {
    exists|i: int| contains_at(t, p, i)
}

/// Does `p` occur in `t` starting exactly at index `i`?
fn match_at(t: &str, p: &str, i: usize) -> (r: bool)
    requires
        i + p@.len() <= t@.len(),
        t@.len() <= usize::MAX,
    ensures
        r == contains_at(t@, p@, i as int),
{
    let plen = p.unicode_len();
    let mut j: usize = 0;
    while j < plen
        invariant
            plen == p@.len(),
            i + plen <= t@.len() <= usize::MAX,
            0 <= j <= plen,
            forall|m: int| 0 <= m < j ==> t@[i + m] == p@[m],
        decreases plen - j,
    {
        if t.get_char(i + j) != p.get_char(j) {
            proof {
                if contains_at(t@, p@, i as int) {
                    assert(t@.subrange(i as int, i as int + plen)[j as int] == p@[j as int]);
                }
            }
            return false;
        }
        j = j + 1;
    }
    proof {
        assert(t@.subrange(i as int, i as int + plen) =~= p@);
    }
    true
}

/// Case-sensitive substring search: does `t` contain `p`?
pub fn contains_str(t: &str, p: &str) -> (r: bool)
    ensures
        r == spec_contains(t@, p@),
{
    let tlen = t.unicode_len();
    let plen = p.unicode_len();
    if plen > tlen {
        proof {
            assert(forall|i: int| !contains_at(t@, p@, i));
        }
        return false;
    }
    if plen == 0 {
        proof {
            assert(t@.subrange(0, 0) =~= p@);
            assert(contains_at(t@, p@, 0));
        }
        return true;
    }
    let mut i: usize = 0;
    while i <= tlen - plen
        invariant
            0 < plen <= tlen,
            tlen == t@.len(),
            plen == p@.len(),
            0 <= i <= tlen - plen + 1,
            forall|k: int| 0 <= k < i ==> !contains_at(t@, p@, k),
        decreases tlen - plen + 1 - i,
    {
        if match_at(t, p, i) {
            return true;
        }
        i = i + 1;
    }
    proof {
        assert(forall|k: int| contains_at(t@, p@, k) ==> 0 <= k <= tlen - plen);
    }
    false
}

} // verus!
