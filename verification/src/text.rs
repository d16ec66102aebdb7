//! Character-level text utilities: prefix/suffix tests, substring search,
//! whitespace trimming, token extraction and pattern stripping.

use vstd::prelude::*;

verus! {

/// Relies on `str::chars` of std: yields exactly the characters of the string,
/// in order.
#[verifier::external_body]
pub fn str_chars(s: &str) -> (r: Vec<char>)
    ensures
        r@ == s@,
{
    s.chars().collect()
}

/// Relies on `String: FromIterator<char>` of std: collecting characters forms
/// the string of exactly those characters, in order.
#[verifier::external_body]
pub fn chars_to_string(v: &Vec<char>) -> (r: String)
    ensures
        r@ == v@,
{
    v.iter().collect()
}

pub open spec fn is_space(c: char) -> bool {
    c == ' ' || c == '\t' || c == '\n' || c == '\r'
}

pub fn is_space_exec(c: char) -> (r: bool)
    ensures
        r == is_space(c),
{
    c == ' ' || c == '\t' || c == '\n' || c == '\r'
}

pub open spec fn starts_with(s: Seq<char>, p: Seq<char>) -> bool {
    p.len() <= s.len() && s.subrange(0, p.len() as int) == p
}

pub open spec fn ends_with(s: Seq<char>, p: Seq<char>) -> bool {
    p.len() <= s.len() && s.subrange(s.len() - p.len(), s.len() as int) == p
}

pub fn starts_with_chars(s: &Vec<char>, p: &Vec<char>) -> (r: bool)
    ensures
        r == starts_with(s@, p@),
{
    if p.len() > s.len() {
        return false;
    }
    let mut i: usize = 0;
    while i < p.len()
        invariant
            i <= p@.len() <= s@.len(),
            forall|j: int| 0 <= j < i ==> s@[j] == p@[j],
        decreases p@.len() - i,
    {
        if s[i] != p[i] {
            assert(s@.subrange(0, p@.len() as int)[i as int] != p@[i as int]);
            return false;
        }
        i += 1;
    }
    proof {
        assert(s@.subrange(0, p@.len() as int) =~= p@);
    }
    true
}

pub fn ends_with_chars(s: &Vec<char>, p: &Vec<char>) -> (r: bool)
    ensures
        r == ends_with(s@, p@),
{
    if p.len() > s.len() {
        return false;
    }
    let off: usize = s.len() - p.len();
    let mut i: usize = 0;
    while i < p.len()
        invariant
            off == s@.len() - p@.len(),
            i <= p@.len() <= s@.len() <= usize::MAX,
            forall|j: int| 0 <= j < i ==> s@[off + j] == p@[j],
        decreases p@.len() - i,
    {
        if s[off + i] != p[i] {
            assert(s@.subrange(s@.len() - p@.len(), s@.len() as int)[i as int] != p@[i as int]);
            return false;
        }
        i += 1;
    }
    proof {
        assert(s@.subrange(s@.len() - p@.len(), s@.len() as int) =~= p@);
    }
    true
}

pub open spec fn match_at(s: Seq<char>, p: Seq<char>, i: int) -> bool {
    0 <= i && i + p.len() <= s.len() && s.subrange(i, i + p.len()) == p
}

pub open spec fn contains_sub(s: Seq<char>, p: Seq<char>) -> bool {
    exists|i: int| match_at(s, p, i)
}

pub fn match_at_exec(s: &Vec<char>, p: &Vec<char>, i: usize) -> (r: bool)
    requires
        i + p@.len() <= s@.len(),
    ensures
        r == match_at(s@, p@, i as int),
{
    let n = s.len();
    let mut j: usize = 0;
    while j < p.len()
        invariant
            i + p@.len() <= s@.len(),
            n == s@.len(),
            j <= p@.len(),
            forall|k: int| 0 <= k < j ==> s@[i + k] == p@[k],
        decreases p@.len() - j,
    {
        if s[i + j] != p[j] {
            assert(s@.subrange(i as int, i + p@.len())[j as int] != p@[j as int]);
            return false;
        }
        j += 1;
    }
    proof {
        assert(s@.subrange(i as int, i + p@.len()) =~= p@);
    }
    true
}

pub fn contains_sub_exec(s: &Vec<char>, p: &Vec<char>) -> (r: bool)
    ensures
        r == contains_sub(s@, p@),
{
    if p.len() == 0 {
        proof {
            assert(s@.subrange(0, 0) =~= p@);
            assert(match_at(s@, p@, 0));
        }
        return true;
    }
    if p.len() > s.len() {
        assert(forall|i: int| !match_at(s@, p@, i));
        return false;
    }
    let bound: usize = s.len() - p.len();
    let mut i: usize = 0;
    while i <= bound
        invariant
            1 <= p@.len() <= s@.len() <= usize::MAX,
            bound == s@.len() - p@.len(),
            i <= bound + 1,
            forall|j: int| 0 <= j < i ==> !match_at(s@, p@, j),
        decreases bound + 1 - i,
    {
        if match_at_exec(s, p, i) {
            assert(match_at(s@, p@, i as int));
            return true;
        }
        i += 1;
    }
    assert(forall|j: int| !match_at(s@, p@, j));
    false
}

/// Copies the characters of `s` in positions `a..b` into a fresh vector.
pub fn copy_range(s: &Vec<char>, a: usize, b: usize) -> (r: Vec<char>)
    requires
        a <= b <= s@.len(),
    ensures
        r@ == s@.subrange(a as int, b as int),
{
    let mut out: Vec<char> = Vec::new();
    let mut i: usize = a;
    while i < b
        invariant
            a <= i <= b <= s@.len(),
            out@ == s@.subrange(a as int, i as int),
        decreases b - i,
    {
        out.push(s[i]);
        proof {
            assert(out@ =~= s@.subrange(a as int, i + 1));
        }
        i += 1;
    }
    out
}

pub open spec fn ltrim_idx(s: Seq<char>, i: int) -> int
    decreases s.len() - i,
{
    if i < 0 || i >= s.len() {
        s.len() as int
    } else if is_space(s[i]) {
        ltrim_idx(s, i + 1)
    } else {
        i
    }
}

pub proof fn lemma_rtrim_le(s: Seq<char>, i: int)
    requires
        0 <= i,
    ensures
        0 <= rtrim_idx(s, i) <= i,
    decreases i,
{
    if i <= 0 || i > s.len() {
    } else if is_space(s[i - 1]) {
        lemma_rtrim_le(s, i - 1);
    }
}

pub open spec fn rtrim_idx(s: Seq<char>, i: int) -> int
    decreases i,
{
    if i <= 0 || i > s.len() {
        0
    } else if is_space(s[i - 1]) {
        rtrim_idx(s, i - 1)
    } else {
        i
    }
}

pub open spec fn trim(s: Seq<char>) -> Seq<char> {
    let a = ltrim_idx(s, 0);
    let b = rtrim_idx(s, s.len() as int);
    if a <= b {
        s.subrange(a, b)
    } else {
        Seq::empty()
    }
}

/// Whether `s` with surrounding whitespace removed equals `p`.
pub fn trimmed_equals(s: &Vec<char>, p: &Vec<char>) -> (r: bool)
    ensures
        r == (trim(s@) == p@),
{
    let mut a: usize = 0;
    while a < s.len() && is_space_exec(s[a])
        invariant
            a <= s@.len(),
            ltrim_idx(s@, 0) == ltrim_idx(s@, a as int),
        decreases s@.len() - a,
    {
        a += 1;
    }
    assert(ltrim_idx(s@, 0) == a as int);
    let mut b: usize = s.len();
    while b > a && is_space_exec(s[b - 1])
        invariant
            a <= b <= s@.len(),
            ltrim_idx(s@, 0) == a as int,
            rtrim_idx(s@, s@.len() as int) == rtrim_idx(s@, b as int),
        decreases b,
    {
        b -= 1;
    }
    if b == a {
        // everything outside `a..b` is whitespace, so the trimmed text is empty
        proof {
            lemma_rtrim_le(s@, b as int);
            assert(trim(s@).len() == 0);
        }
        if p.len() == 0 {
            assert(trim(s@) =~= p@);
            return true;
        } else {
            return false;
        }
    }
    assert(!is_space(s@[b - 1]));
    assert(rtrim_idx(s@, b as int) == b as int);
    if b - a != p.len() {
        assert(trim(s@).len() != p@.len());
        return false;
    }
    let mut i: usize = 0;
    while i < p.len()
        invariant
            a + p@.len() == b,
            b <= s@.len(),
            i <= p@.len(),
            trim(s@) == s@.subrange(a as int, b as int),
            forall|k: int| 0 <= k < i ==> s@[a + k] == p@[k],
        decreases p@.len() - i,
    {
        if s[a + i] != p[i] {
            assert(trim(s@)[i as int] != p@[i as int]);
            return false;
        }
        i += 1;
    }
    proof {
        assert(s@.subrange(a as int, b as int) =~= p@);
    }
    true
}

pub open spec fn token_end(s: Seq<char>, i: int) -> int
    decreases s.len() - i,
{
    if i < 0 || i >= s.len() {
        s.len() as int
    } else if s[i] == ' ' {
        i
    } else {
        token_end(s, i + 1)
    }
}

/// The first space-delimited token of `s`.
pub open spec fn first_token(s: Seq<char>) -> Seq<char> {
    s.subrange(0, token_end(s, 0))
}

pub fn first_token_exec(s: &Vec<char>) -> (r: Vec<char>)
    ensures
        r@ == first_token(s@),
{
    let mut i: usize = 0;
    while i < s.len() && s[i] != ' '
        invariant
            i <= s@.len(),
            token_end(s@, 0) == token_end(s@, i as int),
        decreases s@.len() - i,
    {
        i += 1;
    }
    assert(token_end(s@, 0) == i as int);
    copy_range(s, 0, i)
}

/// `s` with every occurrence of `p` removed, scanning left to right.
pub open spec fn strip_all(s: Seq<char>, p: Seq<char>) -> Seq<char>
    decreases s.len(),
{
    if p.len() == 0 || s.len() == 0 {
        s
    } else if starts_with(s, p) {
        strip_all(s.subrange(p.len() as int, s.len() as int), p)
    } else {
        seq![s[0]] + strip_all(s.subrange(1, s.len() as int), p)
    }
}

pub fn strip_all_exec(s: &Vec<char>, p: &Vec<char>) -> (r: Vec<char>)
    requires
        p@.len() >= 1,
    ensures
        r@ == strip_all(s@, p@),
{
    let mut out: Vec<char> = Vec::new();
    let mut i: usize = 0;
    proof {
        assert(s@.subrange(0, s@.len() as int) =~= s@);
        assert(Seq::<char>::empty() + strip_all(s@, p@) =~= strip_all(s@, p@));
    }
    while i < s.len()
        invariant
            p@.len() >= 1,
            i <= s@.len(),
            strip_all(s@, p@) == out@ + strip_all(s@.subrange(i as int, s@.len() as int), p@),
        decreases s@.len() - i,
    {
        let ghost rest = s@.subrange(i as int, s@.len() as int);
        if p.len() <= s.len() - i && match_at_exec(s, p, i) {
            proof {
                assert(rest.subrange(0, p@.len() as int) =~= s@.subrange(
                    i as int,
                    i + p@.len(),
                ));
                assert(starts_with(rest, p@));
                assert(rest.subrange(p@.len() as int, rest.len() as int) =~= s@.subrange(
                    i + p@.len(),
                    s@.len() as int,
                ));
            }
            i += p.len();
        } else {
            proof {
                if p@.len() <= rest.len() {
                    if rest.subrange(0, p@.len() as int) == p@ {
                        assert(s@.subrange(i as int, i + p@.len()) =~= rest.subrange(
                            0,
                            p@.len() as int,
                        ));
                        assert(match_at(s@, p@, i as int));
                    }
                }
                assert(!starts_with(rest, p@));
                assert(rest.subrange(1, rest.len() as int) =~= s@.subrange(
                    i + 1,
                    s@.len() as int,
                ));
                assert(strip_all(rest, p@) == seq![s@[i as int]] + strip_all(
                    s@.subrange(i + 1, s@.len() as int),
                    p@,
                ));
            }
            out.push(s[i]);
            proof {
                assert(strip_all(s@, p@) =~= out@ + strip_all(
                    s@.subrange(i + 1, s@.len() as int),
                    p@,
                ));
            }
            i += 1;
        }
    }
    proof {
        assert(s@.subrange(i as int, s@.len() as int) =~= Seq::<char>::empty());
        assert(strip_all(s@, p@) =~= out@);
    }
    out
}

} // verus!
