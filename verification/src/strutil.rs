//! Character-sequence utilities: searching, trimming, indentation counting
//! and line splitting, each with a specification function and a verified
//! executable counterpart.

use vstd::prelude::*;

verus! {

// ---------------------------------------------------------------------------
// Finding a single character
// ---------------------------------------------------------------------------

/// Index of the first occurrence of `c` in `s`, or -1 when `c` does not occur.
pub open spec fn find_char(s: Seq<char>, c: char) -> int
    decreases s.len(),
{
    if s.len() == 0 {
        -1
    } else if s[0] == c {
        0
    } else {
        let r = find_char(s.skip(1), c);
        if r < 0 {
            -1
        } else {
            r + 1
        }
    }
}

/// `find_char` either reports -1 and `c` is absent, or points at the first `c`.
pub proof fn lemma_find_char(s: Seq<char>, c: char)
    ensures
        find_char(s, c) == -1 ==> forall|i: int| 0 <= i < s.len() ==> s[i] != c,
        find_char(s, c) != -1 ==> {
            let f = find_char(s, c);
            &&& 0 <= f < s.len()
            &&& s[f] == c
            &&& forall|i: int| 0 <= i < f ==> s[i] != c
        },
    decreases s.len(),
{
    if s.len() == 0 {
    } else if s[0] == c {
    } else {
        lemma_find_char(s.skip(1), c);
        let r = find_char(s.skip(1), c);
        if r == -1 {
            assert forall|i: int| 0 <= i < s.len() implies s[i] != c by {
                if i >= 1 {
                    assert(s.skip(1)[i - 1] == s[i]);
                }
            }
        } else {
            assert(s.skip(1)[r] == s[r + 1]);
            assert forall|i: int| 0 <= i < r + 1 implies s[i] != c by {
                if i >= 1 {
                    assert(s.skip(1)[i - 1] == s[i]);
                }
            }
        }
    }
}

/// If position `k` holds the first `c`, then `find_char` returns `k`.
pub proof fn lemma_find_char_is(s: Seq<char>, c: char, k: int)
    requires
        0 <= k < s.len(),
        s[k] == c,
        forall|i: int| 0 <= i < k ==> s[i] != c,
    ensures
        find_char(s, c) == k,
{
    lemma_find_char(s, c);
    let f = find_char(s, c);
    if f == -1 {
        assert(s[k] != c);
        assert(false);
    } else if f < k {
        assert(s[f] != c);
        assert(false);
    } else if f > k {
        assert(s[k] != c);
        assert(false);
    }
}

/// If `c` occurs nowhere in `s`, `find_char` returns -1.
pub proof fn lemma_find_char_none(s: Seq<char>, c: char)
    requires
        forall|i: int| 0 <= i < s.len() ==> s[i] != c,
    ensures
        find_char(s, c) == -1,
{
    lemma_find_char(s, c);
    let f = find_char(s, c);
    if f != -1 {
        assert(s[f] == c);
        assert(false);
    }
}

/// First occurrence of `c` in `s`, as an executable search.
pub fn find_char_in(s: &str, c: char) -> (r: Option<usize>)
    ensures
        match r {
            Some(i) => find_char(s@, c) == i as int,
            None => find_char(s@, c) == -1,
        },
{
    let n = s.unicode_len();
    let mut i: usize = 0;
    while i < n
        invariant
            n == s@.len(),
            0 <= i <= n,
            forall|j: int| 0 <= j < i ==> s@[j] != c,
        decreases n - i,
    {
        if s.get_char(i) == c {
            proof {
                lemma_find_char_is(s@, c, i as int);
            }
            return Some(i);
        }
        i = i + 1;
    }
    proof {
        lemma_find_char_none(s@, c);
    }
    None
}

// ---------------------------------------------------------------------------
// Finding a substring
// ---------------------------------------------------------------------------

/// Does `sub` occur in `s` starting at position `i`?
pub open spec fn match_at(s: Seq<char>, sub: Seq<char>, i: int) -> bool {
    0 <= i && i + sub.len() <= s.len() && s.subrange(i, i + sub.len() as int) == sub
}

/// Index of the first occurrence of `sub` in `s`, or -1 when it does not occur.
pub open spec fn find_sub(s: Seq<char>, sub: Seq<char>) -> int
    decreases s.len(),
{
    if s.len() < sub.len() {
        -1
    } else if s.subrange(0, sub.len() as int) == sub {
        0
    } else if s.len() == 0 {
        -1
    } else {
        let r = find_sub(s.skip(1), sub);
        if r < 0 {
            -1
        } else {
            r + 1
        }
    }
}

/// `sub` occurs somewhere in `s`.
pub open spec fn contains_sub(s: Seq<char>, sub: Seq<char>) -> bool {
    find_sub(s, sub) >= 0
}

/// A match one position into `s` is a match at the next position of `s`.
proof fn lemma_match_at_skip1(s: Seq<char>, sub: Seq<char>, i: int)
    requires
        s.len() > 0,
        0 <= i,
    ensures
        match_at(s.skip(1), sub, i) == match_at(s, sub, i + 1),
{
    if i + 1 + sub.len() <= s.len() {
        assert(s.skip(1).subrange(i, i + sub.len() as int) =~= s.subrange(
            i + 1,
            i + 1 + sub.len() as int,
        ));
    }
}

/// `find_sub` either reports -1 and `sub` matches nowhere, or points at the
/// first match.
pub proof fn lemma_find_sub(s: Seq<char>, sub: Seq<char>)
    ensures
        find_sub(s, sub) == -1 ==> forall|i: int| !match_at(s, sub, i),
        find_sub(s, sub) != -1 ==> {
            let f = find_sub(s, sub);
            &&& 0 <= f
            &&& f + sub.len() <= s.len()
            &&& match_at(s, sub, f)
            &&& forall|i: int| 0 <= i < f ==> !match_at(s, sub, i)
        },
    decreases s.len(),
{
    if s.len() < sub.len() {
        assert forall|i: int| !match_at(s, sub, i) by {}
    } else if s.subrange(0, sub.len() as int) == sub {
        assert(match_at(s, sub, 0));
    } else if s.len() == 0 {
        assert forall|i: int| !match_at(s, sub, i) by {}
    } else {
        lemma_find_sub(s.skip(1), sub);
        assert(!match_at(s, sub, 0));
        let r = find_sub(s.skip(1), sub);
        if r < 0 {
            assert forall|i: int| !match_at(s, sub, i) by {
                if i > 0 {
                    lemma_match_at_skip1(s, sub, i - 1);
                }
            }
        } else {
            lemma_match_at_skip1(s, sub, r);
            assert(match_at(s, sub, r + 1));
            assert forall|i: int| 0 <= i < r + 1 implies !match_at(s, sub, i) by {
                if i > 0 {
                    lemma_match_at_skip1(s, sub, i - 1);
                }
            }
        }
    }
}

/// If position `k` holds the first match of `sub`, then `find_sub` returns `k`.
pub proof fn lemma_find_sub_is(s: Seq<char>, sub: Seq<char>, k: int)
    requires
        match_at(s, sub, k),
        forall|i: int| 0 <= i < k ==> !match_at(s, sub, i),
    ensures
        find_sub(s, sub) == k,
{
    lemma_find_sub(s, sub);
    let f = find_sub(s, sub);
    if f == -1 {
        assert(!match_at(s, sub, k));
        assert(false);
    } else if f < k {
        assert(!match_at(s, sub, f));
        assert(false);
    } else if f > k {
        assert(!match_at(s, sub, k));
        assert(false);
    }
}

/// If `sub` matches nowhere in `s`, `find_sub` returns -1.
pub proof fn lemma_find_sub_none(s: Seq<char>, sub: Seq<char>)
    requires
        forall|i: int| !match_at(s, sub, i),
    ensures
        find_sub(s, sub) == -1,
{
    lemma_find_sub(s, sub);
    let f = find_sub(s, sub);
    if f != -1 {
        assert(match_at(s, sub, f));
        assert(false);
    }
}

/// Does `sub` occur in `s` starting exactly at `i`? Executable check.
fn matches_at_exec(s: &str, sub: &str, i: usize) -> (r: bool)
    requires
        i + sub@.len() <= s@.len(),
    ensures
        r == match_at(s@, sub@, i as int),
{
    let n = s.unicode_len();
    let m = sub.unicode_len();
    let mut j: usize = 0;
    while j < m
        invariant
            n == s@.len(),
            m == sub@.len(),
            i + m <= s@.len(),
            0 <= j <= m,
            forall|t: int| 0 <= t < j ==> s@[i + t] == sub@[t],
        decreases m - j,
    {
        if s.get_char(i + j) != sub.get_char(j) {
            proof {
                assert(s@.subrange(i as int, i + m as int)[j as int] == s@[i + j]);
            }
            return false;
        }
        j = j + 1;
    }
    proof {
        assert(s@.subrange(i as int, i + m as int) =~= sub@);
    }
    true
}

/// First occurrence of `sub` in `s`, as an executable search.
pub fn find_sub_in(s: &str, sub: &str) -> (r: Option<usize>)
    ensures
        match r {
            Some(i) => find_sub(s@, sub@) == i as int,
            None => find_sub(s@, sub@) == -1,
        },
{
    let n = s.unicode_len();
    let m = sub.unicode_len();
    if m > n {
        proof {
            lemma_find_sub_none(s@, sub@);
        }
        return None;
    }
    if m == 0 {
        proof {
            assert(s@.subrange(0, 0) =~= sub@);
        }
        return Some(0);
    }
    let mut i: usize = 0;
    while i <= n - m
        invariant
            n == s@.len(),
            m == sub@.len(),
            0 < m <= n,
            0 <= i <= n - m + 1,
            forall|j: int| 0 <= j < i ==> !match_at(s@, sub@, j),
        decreases n - i,
    {
        if matches_at_exec(s, sub, i) {
            proof {
                lemma_find_sub_is(s@, sub@, i as int);
            }
            return Some(i);
        }
        i = i + 1;
    }
    proof {
        assert forall|j: int| !match_at(s@, sub@, j) by {
            if 0 <= j < i {
            } else if j >= i {
                assert(j + sub@.len() > s@.len());
            }
        }
        lemma_find_sub_none(s@, sub@);
    }
    None
}

/// Does the text `sub` occur anywhere in `s`? Executable check.
pub fn contains_str(s: &str, sub: &str) -> (r: bool)
    ensures
        r == contains_sub(s@, sub@),
{
    let f = find_sub_in(s, sub);
    match f {
        Some(_) => true,
        None => false,
    }
}

// ---------------------------------------------------------------------------
// Whitespace and trimming
// ---------------------------------------------------------------------------

/// The characters with the Unicode `White_Space` property, which is what
/// `str::trim` removes at either end.
pub open spec fn is_space(c: char) -> bool {
    ||| c as int == 0x09
    ||| c as int == 0x0a
    ||| c as int == 0x0b
    ||| c as int == 0x0c
    ||| c as int == 0x0d
    ||| c as int == 0x20
    ||| c as int == 0x85
    ||| c as int == 0xa0
    ||| c as int == 0x1680
    ||| 0x2000 <= c as int <= 0x200a
    ||| c as int == 0x2028
    ||| c as int == 0x2029
    ||| c as int == 0x202f
    ||| c as int == 0x205f
    ||| c as int == 0x3000
}

/// Executable Unicode white-space test.
pub fn is_space_exec(c: char) -> (r: bool)
    ensures
        r == is_space(c),
{
    let u = c as u32;
    u == 0x09 || u == 0x0a || u == 0x0b || u == 0x0c || u == 0x0d || u == 0x20 || u == 0x85
        || u == 0xa0 || u == 0x1680 || (0x2000 <= u && u <= 0x200a) || u == 0x2028 || u == 0x2029
        || u == 0x202f || u == 0x205f || u == 0x3000
}

/// Number of white-space characters at the start of `s`.
pub open spec fn trim_start_idx(s: Seq<char>) -> int
    decreases s.len(),
{
    if s.len() == 0 || !is_space(s[0]) {
        0
    } else {
        1 + trim_start_idx(s.skip(1))
    }
}

/// Position just past the last non-white-space character of `s`.
pub open spec fn trim_end_idx(s: Seq<char>) -> int
    decreases s.len(),
{
    if s.len() == 0 || !is_space(s[s.len() - 1]) {
        s.len() as int
    } else {
        trim_end_idx(s.take(s.len() - 1))
    }
}

/// `s` with white space removed from both ends, as `str::trim` leaves it.
pub open spec fn spec_trim(s: Seq<char>) -> Seq<char> {
    let a = trim_start_idx(s);
    let b = trim_end_idx(s);
    if a <= b {
        s.subrange(a, b)
    } else {
        Seq::empty()
    }
}

/// If the first `k` characters are white space and the next one (if any) is
/// not, the start-trim position is `k`.
pub proof fn lemma_trim_start_is(s: Seq<char>, k: int)
    requires
        0 <= k <= s.len(),
        forall|i: int| 0 <= i < k ==> is_space(s[i]),
        k < s.len() ==> !is_space(s[k]),
    ensures
        trim_start_idx(s) == k,
    decreases s.len(),
{
    if s.len() == 0 {
    } else if k == 0 {
    } else {
        assert(is_space(s[0]));
        assert(forall|i: int| 0 <= i < s.skip(1).len() ==> s.skip(1)[i] == s[i + 1]);
        lemma_trim_start_is(s.skip(1), k - 1);
    }
}

/// If everything from `b` on is white space and the character before `b`
/// (if any) is not, the end-trim position is `b`.
pub proof fn lemma_trim_end_is(s: Seq<char>, b: int)
    requires
        0 <= b <= s.len(),
        forall|i: int| b <= i < s.len() ==> is_space(s[i]),
        b > 0 ==> !is_space(s[b - 1]),
    ensures
        trim_end_idx(s) == b,
    decreases s.len(),
{
    if s.len() == 0 {
    } else if b == s.len() {
    } else {
        assert(is_space(s[s.len() - 1]));
        assert(forall|i: int| 0 <= i < s.take(s.len() - 1).len() ==> s.take(s.len() - 1)[i]
            == s[i]);
        lemma_trim_end_is(s.take(s.len() - 1), b);
    }
}

/// `str::trim`, verified against `spec_trim`.
pub fn trim_of<'a>(s: &'a str) -> (r: &'a str)
    ensures
        r@ == spec_trim(s@),
{
    let n = s.unicode_len();
    let mut a: usize = 0;
    while a < n && is_space_exec(s.get_char(a))
        invariant
            n == s@.len(),
            0 <= a <= n,
            forall|j: int| 0 <= j < a ==> is_space(s@[j]),
        decreases n - a,
    {
        a = a + 1;
    }
    proof {
        lemma_trim_start_is(s@, a as int);
    }
    if a == n {
        // all white space: the start-trim position passes the end-trim one
        // and the result is empty
        proof {
            if n > 0 {
                lemma_trim_end_is(s@, 0);
            }
            assert(spec_trim(s@) =~= s@.subrange(a as int, a as int));
        }
        let r = s.substring_char(a, a);
        return r;
    }
    let mut b: usize = n;
    while b > a && is_space_exec(s.get_char(b - 1))
        invariant
            n == s@.len(),
            a < n,
            !is_space(s@[a as int]),
            a < b <= n,
            forall|j: int| b <= j < n ==> is_space(s@[j]),
        decreases b,
    {
        b = b - 1;
    }
    proof {
        lemma_trim_end_is(s@, b as int);
    }
    s.substring_char(a, b)
}

// ---------------------------------------------------------------------------
// Indentation
// ---------------------------------------------------------------------------

/// Number of leading tab characters, the format's sole nesting signal.
pub open spec fn spec_indent(s: Seq<char>) -> int
    decreases s.len(),
{
    if s.len() == 0 || s[0] != '\t' {
        0
    } else {
        1 + spec_indent(s.skip(1))
    }
}

/// If the first `k` characters are tabs and the next one (if any) is not,
/// the indentation is `k`.
pub proof fn lemma_indent_is(s: Seq<char>, k: int)
    requires
        0 <= k <= s.len(),
        forall|i: int| 0 <= i < k ==> s[i] == '\t',
        k < s.len() ==> s[k] != '\t',
    ensures
        spec_indent(s) == k,
    decreases s.len(),
{
    if s.len() == 0 {
    } else if k == 0 {
    } else {
        assert(s[0] == '\t');
        assert(forall|i: int| 0 <= i < s.skip(1).len() ==> s.skip(1)[i] == s[i + 1]);
        lemma_indent_is(s.skip(1), k - 1);
    }
}

// ---------------------------------------------------------------------------
// String equality
// ---------------------------------------------------------------------------

/// Character-for-character equality of two string slices.
pub fn str_eq(a: &str, b: &str) -> (r: bool)
    ensures
        r == (a@ == b@),
{
    let na = a.unicode_len();
    let nb = b.unicode_len();
    if na != nb {
        return false;
    }
    let mut i: usize = 0;
    while i < na
        invariant
            na == a@.len(),
            na == b@.len(),
            0 <= i <= na,
            forall|j: int| 0 <= j < i ==> a@[j] == b@[j],
        decreases na - i,
    {
        if a.get_char(i) != b.get_char(i) {
            return false;
        }
        i = i + 1;
    }
    proof {
        assert(a@ =~= b@);
    }
    true
}

// ---------------------------------------------------------------------------
// Splitting a document into lines
// ---------------------------------------------------------------------------

/// Remove one trailing carriage return, as `str::lines` does before each
/// line feed.
pub open spec fn strip_cr(s: Seq<char>) -> Seq<char> {
    if s.len() > 0 && s[s.len() - 1] == '\r' {
        s.take(s.len() - 1)
    } else {
        s
    }
}

/// The lines of `s`, split at line feeds, with a carriage return before each
/// line feed removed and no empty final line after a trailing line feed:
/// the lines `str::lines` yields.
pub open spec fn spec_lines(s: Seq<char>) -> Seq<Seq<char>>
    decreases s.len(),
{
    if s.len() == 0 {
        Seq::empty()
    } else {
        let i = find_char(s, '\n');
        if !(0 <= i < s.len()) {
            seq![s]
        } else {
            seq![strip_cr(s.take(i))] + spec_lines(s.skip(i + 1))
        }
    }
}

/// Split a document into its lines.
pub fn split_lines(content: &str) -> (r: Vec<String>)
    ensures
        r.deep_view() == spec_lines(content@),
{
    let n = content.unicode_len();
    let mut r: Vec<String> = Vec::new();
    proof {
        assert(content@.skip(0) =~= content@);
        assert(r.deep_view() =~= Seq::<Seq<char>>::empty());
        assert(r.deep_view() + spec_lines(content@) =~= spec_lines(content@));
    }
    let mut start: usize = 0;
    let mut i: usize = 0;
    while i < n
        invariant
            n == content@.len(),
            0 <= start <= i <= n,
            forall|j: int| start <= j < i ==> content@[j] != '\n',
            spec_lines(content@) == r.deep_view() + spec_lines(content@.skip(start as int)),
        decreases n - i,
    {
        if content.get_char(i) == '\n' {
            let end: usize = if i > start && content.get_char(i - 1) == '\r' {
                i - 1
            } else {
                i
            };
            let line = content.substring_char(start, end).to_owned();
            proof {
                let tail = content@.skip(start as int);
                assert(forall|j: int| 0 <= j < tail.len() ==> tail[j] == content@[start + j]);
                lemma_find_char_is(tail, '\n', i - start);
                assert(tail.take(i - start) =~= content@.subrange(start as int, i as int));
                assert(tail.skip(i - start + 1) =~= content@.skip(i + 1));
                assert(line@ =~= strip_cr(tail.take(i - start))) by {
                    if i > start && content@[i - 1] == '\r' {
                        assert(content@.subrange(start as int, i as int).len() > 0);
                        assert(content@.subrange(start as int, i as int)[i - start - 1] == '\r');
                        assert(content@.subrange(start as int, i as int).take(i - start - 1)
                            =~= content@.subrange(start as int, (i - 1) as int));
                    } else {
                        if content@.subrange(start as int, i as int).len() > 0 {
                            assert(content@.subrange(start as int, i as int)[i - start - 1]
                                == content@[i - 1]);
                        }
                    }
                }
                assert(spec_lines(tail) == seq![line@] + spec_lines(content@.skip(i + 1)));
            }
            let ghost old_dv = r.deep_view();
            r.push(line);
            proof {
                assert(r.deep_view() =~= old_dv.push(line@));
                assert(old_dv.push(line@) + spec_lines(content@.skip(i + 1)) =~= old_dv + (seq![
                    line@,
                ] + spec_lines(content@.skip(i + 1))));
            }
            start = i + 1;
        }
        i = i + 1;
    }
    if start < n {
        let line = content.substring_char(start, n).to_owned();
        proof {
            let tail = content@.skip(start as int);
            assert(forall|j: int| 0 <= j < tail.len() ==> tail[j] == content@[start + j]);
            lemma_find_char_none(tail, '\n');
            assert(tail.len() > 0);
            assert(line@ =~= tail);
            assert(spec_lines(tail) == seq![tail]);
        }
        let ghost old_dv = r.deep_view();
        r.push(line);
        proof {
            assert(r.deep_view() =~= old_dv.push(content@.skip(start as int)));
            assert(old_dv.push(content@.skip(start as int)) =~= old_dv + seq![
                content@.skip(start as int),
            ]);
        }
    } else {
        proof {
            assert(content@.skip(start as int).len() == 0);
            assert(r.deep_view() + spec_lines(content@.skip(start as int)) =~= r.deep_view());
        }
    }
    r
}

} // verus!
