//! Verified character and string utilities: equality, substring search,
//! prefix/suffix handling, whitespace trimming, line and token splitting.
//!
//! Strings are modelled by their character sequences (`Seq<char>`); every
//! executable function is proved against a spec function over those
//! sequences.

use vstd::prelude::*;

verus! {

broadcast use vstd::seq_lib::group_seq_lib_default, vstd::seq::group_seq_axioms;

/// The Unicode `White_Space` code points, as `char::is_whitespace` reports
/// them.
pub open spec fn spec_is_whitespace(c: char) -> bool {
    c == ' ' || c == '\t' || c == '\n' || c == '\r' || c == '\u{000B}' || c == '\u{000C}'
        || c == '\u{0085}' || c == '\u{00A0}' || c == '\u{1680}' || c == '\u{2000}'
        || c == '\u{2001}' || c == '\u{2002}' || c == '\u{2003}' || c == '\u{2004}'
        || c == '\u{2005}' || c == '\u{2006}' || c == '\u{2007}' || c == '\u{2008}'
        || c == '\u{2009}' || c == '\u{200A}' || c == '\u{2028}' || c == '\u{2029}'
        || c == '\u{202F}' || c == '\u{205F}' || c == '\u{3000}'
}

pub fn is_whitespace_char(c: char) -> (r: bool)
    ensures
        r == spec_is_whitespace(c),
{
    c == ' ' || c == '\t' || c == '\n' || c == '\r' || c == '\u{000B}' || c == '\u{000C}'
        || c == '\u{0085}' || c == '\u{00A0}' || c == '\u{1680}' || c == '\u{2000}'
        || c == '\u{2001}' || c == '\u{2002}' || c == '\u{2003}' || c == '\u{2004}'
        || c == '\u{2005}' || c == '\u{2006}' || c == '\u{2007}' || c == '\u{2008}'
        || c == '\u{2009}' || c == '\u{200A}' || c == '\u{2028}' || c == '\u{2029}'
        || c == '\u{202F}' || c == '\u{205F}' || c == '\u{3000}'
}

/// Character-for-character string equality.
pub fn str_eq(a: &str, b: &str) -> (r: bool)
    ensures
        r == (a@ == b@),
{
    let na = a.unicode_len();
    let nb = b.unicode_len();
    if na != nb {
        assert(a@ != b@) by {
            assert(a@.len() != b@.len());
        }
        return false;
    }
    let mut i: usize = 0;
    while i < na
        invariant
            na == a@.len(),
            na == b@.len(),
            0 <= i <= na,
            forall|k: int| 0 <= k < i ==> a@[k] == b@[k],
        decreases na - i,
    {
        if a.get_char(i) != b.get_char(i) {
            return false;
        }
        i = i + 1;
    }
    assert(a@ =~= b@);
    true
}

/// `needle` occurs in `hay` starting at position `i`.
pub open spec fn is_match_at(hay: Seq<char>, needle: Seq<char>, i: int) -> bool {
    0 <= i && i + needle.len() <= hay.len() && hay.subrange(i, i + needle.len()) == needle
}

/// `needle` occurs somewhere in `hay` (always true for an empty needle).
pub open spec fn contains_seq(hay: Seq<char>, needle: Seq<char>) -> bool {
    exists|i: int| is_match_at(hay, needle, i)
}

/// Substring containment, as `str::contains` with a string pattern.
pub fn contains_str(hay: &str, needle: &str) -> (r: bool)
    ensures
        r == contains_seq(hay@, needle@),
{
    let n = hay.unicode_len();
    let m = needle.unicode_len();
    if m == 0 {
        assert(is_match_at(hay@, needle@, 0)) by {
            assert(hay@.subrange(0, 0) =~= needle@);
        }
        return true;
    }
    if m > n {
        assert(!contains_seq(hay@, needle@)) by {
            assert(forall|i: int| !is_match_at(hay@, needle@, i));
        }
        return false;
    }
    let mut i: usize = 0;
    while i <= n - m
        invariant
            n == hay@.len(),
            m == needle@.len(),
            1 <= m <= n,
            0 <= i <= n - m + 1,
            forall|q: int| 0 <= q < i ==> !is_match_at(hay@, needle@, q),
        decreases n - i,
    {
        let mut j: usize = 0;
        let mut mismatch = false;
        while j < m
            invariant
                n == hay@.len(),
                m == needle@.len(),
                0 <= i <= n - m,
                0 <= j <= m,
                !mismatch ==> forall|k: int| 0 <= k < j ==> hay@[i + k] == needle@[k],
                mismatch ==> !is_match_at(hay@, needle@, i as int),
            decreases m - j,
        {
            if hay.get_char(i + j) != needle.get_char(j) {
                assert(hay@.subrange(i as int, i + m) != needle@) by {
                    assert(hay@.subrange(i as int, i + m)[j as int] == hay@[i + j]);
                }
                mismatch = true;
                j = m;
            } else {
                j = j + 1;
            }
        }
        if !mismatch {
            assert(is_match_at(hay@, needle@, i as int)) by {
                assert(hay@.subrange(i as int, i + m) =~= needle@);
            }
            return true;
        }
        i = i + 1;
    }
    assert(!contains_seq(hay@, needle@)) by {
        assert(forall|q: int| q > n - m ==> !is_match_at(hay@, needle@, q));
    }
    false
}

/// `s` begins with `p`.
pub open spec fn starts_with_seq(s: Seq<char>, p: Seq<char>) -> bool {
    p.len() <= s.len() && s.subrange(0, p.len() as int) == p
}

pub fn starts_with_str(s: &str, p: &str) -> (r: bool)
    ensures
        r == starts_with_seq(s@, p@),
{
    let n = s.unicode_len();
    let m = p.unicode_len();
    if m > n {
        return false;
    }
    let mut j: usize = 0;
    while j < m
        invariant
            n == s@.len(),
            m == p@.len(),
            m <= n,
            0 <= j <= m,
            forall|k: int| 0 <= k < j ==> s@[k] == p@[k],
        decreases m - j,
    {
        if s.get_char(j) != p.get_char(j) {
            assert(s@.subrange(0, m as int)[j as int] == s@[j as int]);
            return false;
        }
        j = j + 1;
    }
    assert(s@.subrange(0, m as int) =~= p@);
    true
}

/// `s` ends with `p`.
pub open spec fn ends_with_seq(s: Seq<char>, p: Seq<char>) -> bool {
    p.len() <= s.len() && s.subrange(s.len() - p.len(), s.len() as int) == p
}

pub fn ends_with_str(s: &str, p: &str) -> (r: bool)
    ensures
        r == ends_with_seq(s@, p@),
{
    let n = s.unicode_len();
    let m = p.unicode_len();
    if m > n {
        return false;
    }
    let mut j: usize = 0;
    while j < m
        invariant
            n == s@.len(),
            m == p@.len(),
            m <= n,
            0 <= j <= m,
            forall|k: int| 0 <= k < j ==> s@[n - m + k] == p@[k],
        decreases m - j,
    {
        if s.get_char(n - m + j) != p.get_char(j) {
            assert(s@.subrange(n - m, n as int)[j as int] == s@[n - m + j]);
            return false;
        }
        j = j + 1;
    }
    assert(s@.subrange(n - m, n as int) =~= p@);
    true
}

/// What remains of `s` after a prefix `p`, when `s` begins with it.
pub fn strip_prefix_str<'a>(s: &'a str, p: &str) -> (r: Option<&'a str>)
    ensures
        match r {
            Some(rest) => starts_with_seq(s@, p@) && rest@ == s@.subrange(
                p@.len() as int,
                s@.len() as int,
            ),
            None => !starts_with_seq(s@, p@),
        },
{
    if starts_with_str(s, p) {
        let n = s.unicode_len();
        let m = p.unicode_len();
        Some(s.substring_char(m, n))
    } else {
        None
    }
}

/// `s` without leading whitespace.
pub open spec fn trim_start_spec(s: Seq<char>) -> Seq<char>
    decreases s.len(),
{
    if s.len() > 0 && spec_is_whitespace(s[0]) {
        trim_start_spec(s.drop_first())
    } else {
        s
    }
}

/// `s` without trailing whitespace.
pub open spec fn trim_end_spec(s: Seq<char>) -> Seq<char>
    decreases s.len(),
{
    if s.len() > 0 && spec_is_whitespace(s.last()) {
        trim_end_spec(s.drop_last())
    } else {
        s
    }
}

/// `s` without leading and trailing whitespace, as `str::trim`.
pub open spec fn trim_spec(s: Seq<char>) -> Seq<char> {
    trim_end_spec(trim_start_spec(s))
}

proof fn lemma_trim_start_at(s: Seq<char>, i: int)
    requires
        0 <= i <= s.len(),
        forall|k: int| 0 <= k < i ==> spec_is_whitespace(s[k]),
        i < s.len() ==> !spec_is_whitespace(s[i]),
    ensures
        trim_start_spec(s) == s.subrange(i, s.len() as int),
    decreases i,
{
    if i == 0 {
        if s.len() > 0 && spec_is_whitespace(s[0]) {
            assert(false);
        }
        assert(s.subrange(0, s.len() as int) =~= s);
    } else {
        let t = s.drop_first();
        lemma_trim_start_at(t, i - 1);
        assert(t.subrange(i - 1, t.len() as int) =~= s.subrange(i, s.len() as int));
    }
}

proof fn lemma_trim_end_at(s: Seq<char>, j: int)
    requires
        0 <= j <= s.len(),
        forall|k: int| j <= k < s.len() ==> spec_is_whitespace(s[k]),
        j > 0 ==> !spec_is_whitespace(s[j - 1]),
    ensures
        trim_end_spec(s) == s.subrange(0, j),
    decreases s.len(),
{
    if j == s.len() {
        if s.len() > 0 && spec_is_whitespace(s.last()) {
            let t = s.drop_last();
            lemma_trim_end_at(t, j - 1);
            assert(t.subrange(0, j - 1) =~= s.subrange(0, j - 1));
            assert(false);
        } else {
            assert(s.subrange(0, s.len() as int) =~= s);
        }
    } else {
        assert(spec_is_whitespace(s.last()));
        let t = s.drop_last();
        lemma_trim_end_at(t, j);
        assert(t.subrange(0, j) =~= s.subrange(0, j));
    }
}

/// Whitespace trimming, as `str::trim`.
pub fn trim_str<'a>(s: &'a str) -> (r: &'a str)
    ensures
        r@ == trim_spec(s@),
{
    let n = s.unicode_len();
    let mut i: usize = 0;
    while i < n && is_whitespace_char(s.get_char(i))
        invariant
            n == s@.len(),
            0 <= i <= n,
            forall|k: int| 0 <= k < i ==> spec_is_whitespace(s@[k]),
        decreases n - i,
    {
        i = i + 1;
    }
    let mut j: usize = n;
    while j > i && is_whitespace_char(s.get_char(j - 1))
        invariant
            n == s@.len(),
            0 <= i <= j <= n,
            forall|k: int| 0 <= k < i ==> spec_is_whitespace(s@[k]),
            i < n ==> !spec_is_whitespace(s@[i as int]),
            forall|k: int| j <= k < n ==> spec_is_whitespace(s@[k]),
        decreases j,
    {
        j = j - 1;
    }
    proof {
        lemma_trim_start_at(s@, i as int);
        let t = s@.subrange(i as int, n as int);
        if j == i {
            lemma_trim_end_at(t, 0);
        } else {
            lemma_trim_end_at(t, j - i);
        }
        assert(t.subrange(0, j - i) =~= s@.subrange(i as int, j as int));
    }
    s.substring_char(i, j)
}

/// Position of the first occurrence of `c` in `s`, or `s.len()` when absent.
pub open spec fn find_char(s: Seq<char>, c: char) -> nat
    decreases s.len(),
{
    if s.len() == 0 {
        0
    } else if s[0] == c {
        0
    } else {
        (find_char(s.drop_first(), c) + 1) as nat
    }
}
proof fn lemma_find_char_is(s: Seq<char>, c: char, j: int)
    requires
        0 <= j <= s.len(),
        forall|k: int| 0 <= k < j ==> s[k] != c,
        j < s.len() ==> s[j] == c,
    ensures
        find_char(s, c) == j,
    decreases j,
{
    if j == 0 {
    } else {
        let t = s.drop_first();
        assert(forall|k: int| 0 <= k < j - 1 ==> t[k] == s[k + 1] && s[k + 1] != c);
        assert(j - 1 < t.len() ==> t[j - 1] == s[j as int]);
        lemma_find_char_is(t, c, j - 1);
    }
}

/// A line with one trailing carriage return removed, as `str::lines` strips
/// it.
pub open spec fn strip_cr(l: Seq<char>) -> Seq<char> {
    if l.len() > 0 && l.last() == '\r' {
        l.drop_last()
    } else {
        l
    }
}

/// The lines of `s`, as `str::lines`: pieces between `'\n'` separators, each
/// with one trailing `'\r'` removed, and no final empty line after a trailing
/// separator.
pub open spec fn lines_spec(s: Seq<char>) -> Seq<Seq<char>>
    decreases s.len(),
{
    if s.len() == 0 {
        seq![]
    } else {
        let k = find_char(s, '\n');
        if k >= s.len() {
            seq![strip_cr(s)]
        } else {
            seq![strip_cr(s.subrange(0, k as int))] + lines_spec(
                s.subrange(k as int + 1, s.len() as int),
            )
        }
    }
}

/// Splitting into lines, as `str::lines` does.
pub fn split_lines(s: &str) -> (r: Vec<String>)
    ensures
        r.deep_view() == lines_spec(s@),
{
    let n = s.unicode_len();
    let mut r: Vec<String> = Vec::new();
    let mut start: usize = 0;
    proof {
        assert(s@.subrange(0, n as int) =~= s@);
    }
    while start < n
        invariant
            n == s@.len(),
            0 <= start <= n,
            lines_spec(s@) == r.deep_view() + lines_spec(s@.subrange(start as int, n as int)),
        decreases n - start,
    {
        let ghost t = s@.subrange(start as int, n as int);
        let mut j = start;
        while j < n && s.get_char(j) != '\n'
            invariant
                n == s@.len(),
                start <= j <= n,
                forall|k: int| start <= k < j ==> s@[k] != '\n',
            decreases n - j,
        {
            j = j + 1;
        }
        proof {
            assert(forall|k: int| 0 <= k < j - start ==> t[k] == s@[k + start] && s@[k + start]
                != '\n');
            assert(j < n ==> t[j - start] == s@[j as int]);
            lemma_find_char_is(t, '\n', j - start);
        }
        let mut endx = j;
        if endx > start && s.get_char(endx - 1) == '\r' {
            endx = endx - 1;
        }
        let piece = s.substring_char(start, endx).to_owned();
        proof {
            if j >= n {
                assert(piece@ =~= strip_cr(t));
            } else {
                assert(piece@ =~= strip_cr(t.subrange(0, j - start)));
            }
        }
        let ghost old_r = r.deep_view();
        r.push(piece);
        proof {
            assert(r.deep_view() =~= old_r.push(piece@));
        }
        let ghost old_start = start as int;
        if j < n {
            start = j + 1;
            proof {
                assert(t.subrange(j - old_start + 1, t.len() as int) =~= s@.subrange(
                    start as int,
                    n as int,
                ));
                assert(lines_spec(t) == seq![piece@] + lines_spec(
                    s@.subrange(start as int, n as int),
                ));
                assert(old_r + lines_spec(t) =~= r.deep_view() + lines_spec(
                    s@.subrange(start as int, n as int),
                ));
            }
        } else {
            start = n;
            proof {
                assert(lines_spec(t) == seq![piece@]);
                assert(s@.subrange(n as int, n as int) =~= Seq::<char>::empty());
                assert(lines_spec(s@.subrange(start as int, n as int)) =~= Seq::<
                    Seq<char>,
                >::empty());
                assert(old_r + lines_spec(t) =~= r.deep_view() + lines_spec(
                    s@.subrange(start as int, n as int),
                ));
            }
        }
    }
    proof {
        assert(s@.subrange(start as int, n as int) =~= Seq::<char>::empty());
        assert(r.deep_view() + lines_spec(s@.subrange(start as int, n as int)) =~= r.deep_view());
    }
    r
}

/// Position of the first whitespace character in `s`, or `s.len()`.
pub open spec fn find_ws(s: Seq<char>) -> nat
    decreases s.len(),
{
    if s.len() == 0 {
        0
    } else if spec_is_whitespace(s[0]) {
        0
    } else {
        (find_ws(s.drop_first()) + 1) as nat
    }
}

proof fn lemma_find_ws_is(s: Seq<char>, j: int)
    requires
        0 <= j <= s.len(),
        forall|k: int| 0 <= k < j ==> !spec_is_whitespace(s[k]),
        j < s.len() ==> spec_is_whitespace(s[j]),
    ensures
        find_ws(s) == j,
    decreases j,
{
    if j == 0 {
    } else {
        let t = s.drop_first();
        assert(forall|k: int| 0 <= k < j - 1 ==> t[k] == s[k + 1] && !spec_is_whitespace(
            s[k + 1],
        ));
        assert(j - 1 < t.len() ==> t[j - 1] == s[j as int]);
        lemma_find_ws_is(t, j - 1);
    }
}

/// The whitespace-separated tokens of `s`, as `str::split_whitespace`: the
/// maximal runs of non-whitespace characters, in order.
pub open spec fn split_ws_spec(s: Seq<char>) -> Seq<Seq<char>>
    decreases s.len(),
{
    if s.len() == 0 {
        seq![]
    } else if spec_is_whitespace(s[0]) {
        split_ws_spec(s.drop_first())
    } else {
        let k = find_ws(s);
        if k >= s.len() {
            seq![s]
        } else {
            seq![s.subrange(0, k as int)] + split_ws_spec(s.subrange(k as int, s.len() as int))
        }
    }
}

/// Splitting into whitespace-separated tokens, as `str::split_whitespace`.
pub fn split_whitespace_str(s: &str) -> (r: Vec<String>)
    ensures
        r.deep_view() == split_ws_spec(s@),
{
    let n = s.unicode_len();
    let mut r: Vec<String> = Vec::new();
    let mut i: usize = 0;
    proof {
        assert(s@.subrange(0, n as int) =~= s@);
    }
    while i < n
        invariant
            n == s@.len(),
            0 <= i <= n,
            split_ws_spec(s@) == r.deep_view() + split_ws_spec(s@.subrange(i as int, n as int)),
        decreases n - i,
    {
        let ghost t = s@.subrange(i as int, n as int);
        if is_whitespace_char(s.get_char(i)) {
            proof {
                assert(t[0] == s@[i as int]);
                assert(t.drop_first() =~= s@.subrange(i as int + 1, n as int));
            }
            i = i + 1;
        } else {
            let mut j = i + 1;
            while j < n && !is_whitespace_char(s.get_char(j))
                invariant
                    n == s@.len(),
                    i < j <= n,
                    forall|k: int| i <= k < j ==> !spec_is_whitespace(s@[k]),
                decreases n - j,
            {
                j = j + 1;
            }
            proof {
                assert(forall|k: int| 0 <= k < j - i ==> t[k] == s@[k + i] && !spec_is_whitespace(
                    s@[k + i],
                ));
                assert(j < n ==> t[j - i] == s@[j as int]);
                lemma_find_ws_is(t, j - i);
            }
            let piece = s.substring_char(i, j).to_owned();
            let ghost old_r = r.deep_view();
            r.push(piece);
            proof {
                assert(r.deep_view() =~= old_r.push(piece@));
                if j >= n {
                    assert(piece@ =~= t);
                    assert(split_ws_spec(t) == seq![t]);
                } else {
                    assert(piece@ =~= t.subrange(0, j - i));
                    assert(t.subrange(j - i, t.len() as int) =~= s@.subrange(j as int, n as int));
                    assert(split_ws_spec(t) == seq![piece@] + split_ws_spec(
                        s@.subrange(j as int, n as int),
                    ));
                }
            }
            i = j;
            proof {
                if i >= n {
                    assert(s@.subrange(n as int, n as int) =~= Seq::<char>::empty());
                }
                assert(old_r + split_ws_spec(t) =~= r.deep_view() + split_ws_spec(
                    s@.subrange(i as int, n as int),
                ));
            }
        }
    }
    proof {
        assert(s@.subrange(i as int, n as int) =~= Seq::<char>::empty());
        assert(r.deep_view() + split_ws_spec(s@.subrange(i as int, n as int)) =~= r.deep_view());
    }
    r
}

/// `x` is one of the strings in `ss`.
pub open spec fn seq_contains_str(ss: Seq<Seq<char>>, x: Seq<char>) -> bool {
    exists|j: int| 0 <= j < ss.len() && ss[j] == x
}

/// Membership of `x` among the strings of `v`, character for character.
pub fn vec_contains_str(v: &Vec<String>, x: &str) -> (r: bool)
    ensures
        r == seq_contains_str(v.deep_view(), x@),
{
    let n = v.len();
    let mut i: usize = 0;
    while i < n
        invariant
            n == v@.len(),
            0 <= i <= n,
            forall|k: int| 0 <= k < i ==> v.deep_view()[k] != x@,
        decreases n - i,
    {
        if str_eq(v[i].as_str(), x) {
            assert(v.deep_view()[i as int] == x@);
            return true;
        }
        assert(v.deep_view()[i as int] == v@[i as int]@);
        i = i + 1;
    }
    false
}

/// The character sequence that `str::to_lowercase` yields for `s`: a pure
/// function of the characters alone.
pub uninterp spec fn lower_of(s: Seq<char>) -> Seq<char>;

/// Relies on `str::to_lowercase`: the result depends on the characters
/// alone; every character lowercases to at least one character, so an
/// empty string stays empty and a non-empty one stays non-empty.
#[verifier::external_body]
pub fn lowercase(s: &str) -> (r: String)
    ensures
        r@ == lower_of(s@),
        s@.len() == 0 ==> r@.len() == 0,
        s@.len() > 0 ==> r@.len() > 0,
{
    s.to_lowercase()
}

/// Relies on `String::push`: appends exactly the given character.
#[verifier::external_body]
pub fn push_char(s: &mut String, c: char)
    ensures
        final(s)@ == old(s)@.push(c),
{
    s.push(c);
}

} // verus!
