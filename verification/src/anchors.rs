//! Header anchor allocation: slug derivation and collision-free identifier
//! selection against the registry of identifiers already used in a document.

use vstd::prelude::*;
use crate::text::{chars_to_string, str_chars};

verus! {

/// The slug of a text: what `slug::slugify` returns for it.
pub uninterp spec fn slug_of(s: Seq<char>) -> Seq<char>;

/// Relies on `slug::slugify`: derives a URL-safe identifier from arbitrary
/// text; the result is a pure function of the input characters.
#[verifier::external_body]
pub fn slugify(s: &str) -> (r: String)
    ensures
        r@ == slug_of(s@),
{
    slug::slugify(s)
}

pub open spec fn dec_digit(n: nat) -> char
    recommends
        n < 10,
{
    if n == 0 {
        '0'
    } else if n == 1 {
        '1'
    } else if n == 2 {
        '2'
    } else if n == 3 {
        '3'
    } else if n == 4 {
        '4'
    } else if n == 5 {
        '5'
    } else if n == 6 {
        '6'
    } else if n == 7 {
        '7'
    } else if n == 8 {
        '8'
    } else {
        '9'
    }
}

/// The decimal digits of `n`, most significant first.
pub open spec fn dec_rep(n: nat) -> Seq<char>
    decreases n,
{
    if n < 10 {
        seq![dec_digit(n)]
    } else {
        dec_rep(n / 10) + seq![dec_digit(n % 10)]
    }
}

pub fn dec_digit_exec(n: u64) -> (r: char)
    requires
        n < 10,
    ensures
        r == dec_digit(n as nat),
{
    if n == 0 {
        '0'
    } else if n == 1 {
        '1'
    } else if n == 2 {
        '2'
    } else if n == 3 {
        '3'
    } else if n == 4 {
        '4'
    } else if n == 5 {
        '5'
    } else if n == 6 {
        '6'
    } else if n == 7 {
        '7'
    } else if n == 8 {
        '8'
    } else {
        '9'
    }
}

/// Appends the decimal digits of `n` to `out`.
pub fn push_dec(n: u64, out: &mut Vec<char>)
    ensures
        final(out)@ == old(out)@ + dec_rep(n as nat),
    decreases n,
{
    if n < 10 {
        out.push(dec_digit_exec(n));
        proof {
            assert(out@ =~= old(out)@ + dec_rep(n as nat));
        }
    } else {
        push_dec(n / 10, out);
        out.push(dec_digit_exec(n % 10));
        proof {
            assert(out@ =~= old(out)@ + dec_rep(n as nat));
        }
    }
}

/// The candidate identifier `base-k`.
pub open spec fn suffixed(base: Seq<char>, k: nat) -> Seq<char> {
    base + seq!['-'] + dec_rep(k)
}

/// Scans candidates `base-k`, `base-(k+1)`, ... for one not in `anchors`,
/// giving up (on `base` itself) when `fuel` runs out.
pub open spec fn first_free(anchors: Seq<Seq<char>>, base: Seq<char>, k: nat, fuel: nat) -> Seq<
    char,
>
    decreases fuel,
{
    if fuel == 0 {
        base
    } else if !anchors.contains(suffixed(base, k)) {
        suffixed(base, k)
    } else {
        first_free(anchors, base, k + 1, (fuel - 1) as nat)
    }
}

/// The identifier allocated for slug `base` given the already-used `anchors`:
/// `base` itself when unused, otherwise the first unused `base-1`, `base-2`, ...
/// There are more candidate suffixes than used identifiers, so the scan's fuel
/// of `anchors.len() + 1` never runs out in a real document.
pub open spec fn anchor_spec(anchors: Seq<Seq<char>>, base: Seq<char>) -> Seq<char> {
    if !anchors.contains(base) {
        base
    } else {
        first_free(anchors, base, 1, anchors.len() + 1)
    }
}

pub fn eq_chars(a: &Vec<char>, b: &Vec<char>) -> (r: bool)
    ensures
        r == (a@ == b@),
{
    if a.len() != b.len() {
        return false;
    }
    let mut i: usize = 0;
    while i < a.len()
        invariant
            a@.len() == b@.len(),
            i <= a@.len(),
            forall|j: int| 0 <= j < i ==> a@[j] == b@[j],
        decreases a@.len() - i,
    {
        if a[i] != b[i] {
            return false;
        }
        i += 1;
    }
    proof {
        assert(a@ =~= b@);
    }
    true
}

fn contains_string(v: &Vec<String>, s: &Vec<char>) -> (r: bool)
    ensures
        r == v.deep_view().contains(s@),
{
    let mut i: usize = 0;
    while i < v.len()
        invariant
            i <= v@.len(),
            forall|j: int| 0 <= j < i ==> v.deep_view()[j] != s@,
        decreases v@.len() - i,
    {
        let c = str_chars(v[i].as_str());
        if eq_chars(&c, s) {
            assert(v.deep_view()[i as int] == s@);
            return true;
        }
        i += 1;
    }
    assert(!v.deep_view().contains(s@));
    false
}

fn find_free(anchors: &Vec<String>, base: &Vec<char>, k: u64, fuel: usize) -> (r: Vec<char>)
    requires
        k as nat + fuel as nat <= u64::MAX as nat,
    ensures
        r@ == first_free(anchors.deep_view(), base@, k as nat, fuel as nat),
    decreases fuel,
{
    if fuel == 0 {
        return copy_all(base);
    }
    let mut cand = copy_all(base);
    cand.push('-');
    push_dec(k, &mut cand);
    proof {
        assert(cand@ =~= suffixed(base@, k as nat));
    }
    if !contains_string(anchors, &cand) {
        cand
    } else {
        find_free(anchors, base, k + 1, fuel - 1)
    }
}

fn copy_all(v: &Vec<char>) -> (r: Vec<char>)
    ensures
        r@ == v@,
{
    let n = v.len();
    let c = crate::text::copy_range(v, 0, n);
    proof {
        assert(v@.subrange(0, v@.len() as int) =~= v@);
    }
    c
}

/// Picks a unique identifier for a header whose slugified title is `name`,
/// deduplicating against the identifiers already in `anchors`.
pub fn find_anchor(anchors: &Vec<String>, name: &String) -> (r: String)
    requires
        anchors@.len() + 2 <= usize::MAX,
    ensures
        r@ == anchor_spec(anchors.deep_view(), name@),
{
    let chars = str_chars(name.as_str());
    if !contains_string(anchors, &chars) {
        return chars_to_string(&chars);
    }
    let fuel = anchors.len() + 1;
    let free = find_free(anchors, &chars, 1, fuel);
    chars_to_string(&free)
}

/// A suffix number `k` is the smallest whose candidate `base-k` is unused.
pub open spec fn smallest_free(anchors: Seq<Seq<char>>, base: Seq<char>, k: nat) -> bool {
    1 <= k && !anchors.contains(suffixed(base, k)) && forall|m: nat|
        1 <= m < k ==> anchors.contains(suffixed(base, m))
}

proof fn lemma_first_free(anchors: Seq<Seq<char>>, base: Seq<char>, i: nat, fuel: nat, k: nat)
    requires
        1 <= i <= k,
        !anchors.contains(suffixed(base, k)),
        forall|m: nat| i <= m < k ==> anchors.contains(suffixed(base, m)),
        k - i < fuel,
    ensures
        first_free(anchors, base, i, fuel) == suffixed(base, k),
    decreases fuel,
{
    if i < k {
        lemma_first_free(anchors, base, i + 1, (fuel - 1) as nat, k);
    }
}

/// Law: when a header's slug collides with an already-used identifier, the
/// allocator assigns `base-1`, then `base-2`, and so on, choosing the smallest
/// unused suffix. (A smallest free suffix is never larger than the number of
/// used identifiers plus one.)
pub proof fn lemma_anchor_smallest_suffix(anchors: Seq<Seq<char>>, base: Seq<char>, k: nat)
    requires
        anchors.contains(base),
        smallest_free(anchors, base, k),
        k <= anchors.len() + 1,
    ensures
        anchor_spec(anchors, base) == suffixed(base, k),
{
    lemma_first_free(anchors, base, 1, anchors.len() + 1, k);
}

} // verus!
