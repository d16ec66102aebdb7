//! The shortcode grammar: `{{ name(key="value", other=word) }}` for the inline
//! form and `{% name(...) %}` for the block form. Parsing yields the shortcode
//! name and its argument pairs; the surrounding markers are the caller's to
//! check.

use vstd::prelude::*;
use crate::text::{chars_to_string, copy_range, ltrim_idx};

verus! {

pub open spec fn is_alnum(c: char) -> bool {
    ('a' <= c && c <= 'z') || ('A' <= c && c <= 'Z') || ('0' <= c && c <= '9') || c == '_'
}

fn is_alnum_exec(c: char) -> (r: bool)
    ensures
        r == is_alnum(c),
{
    ('a' <= c && c <= 'z') || ('A' <= c && c <= 'Z') || ('0' <= c && c <= '9') || c == '_'
}

/// The first position `>= i` holding a character that is not alphanumeric
/// (or `_`), or the length when none is.
pub open spec fn scan_alnum(s: Seq<char>, i: int) -> int
    decreases s.len() - i,
{
    if i < 0 || i >= s.len() {
        s.len() as int
    } else if is_alnum(s[i]) {
        scan_alnum(s, i + 1)
    } else {
        i
    }
}

/// The first position `>= i` holding `"`, or the length when none is.
pub open spec fn scan_quote(s: Seq<char>, i: int) -> int
    decreases s.len() - i,
{
    if i < 0 || i >= s.len() {
        s.len() as int
    } else if s[i] == '"' {
        i
    } else {
        scan_quote(s, i + 1)
    }
}

/// One `key=value` argument starting at `i`: the key, the value with quotes
/// stripped, and the position just after the argument.
pub open spec fn parse_one_arg(s: Seq<char>, i: int) -> Option<(Seq<char>, Seq<char>, int)> {
    let ke = scan_alnum(s, i);
    if ke <= i || ke >= s.len() || s[ke] != '=' {
        None
    } else {
        let vs = ke + 1;
        if vs < s.len() && s[vs] == '"' {
            let vq = scan_quote(s, vs + 1);
            if vq >= s.len() {
                None
            } else {
                Some((s.subrange(i, ke), s.subrange(vs + 1, vq), vq + 1))
            }
        } else {
            let ve = scan_alnum(s, vs);
            if ve <= vs {
                None
            } else {
                Some((s.subrange(i, ke), s.subrange(vs, ve), ve))
            }
        }
    }
}

/// The comma-separated argument list starting at `i`: the pairs and the
/// position just after the last argument. `fuel` bounds the number of
/// arguments; one argument consumes at least one character, so a fuel of the
/// text's length is always enough.
pub open spec fn parse_args(s: Seq<char>, i: int, fuel: nat) -> Option<
    (Seq<(Seq<char>, Seq<char>)>, int),
>
    decreases fuel,
{
    match parse_one_arg(s, i) {
        Option::None => Option::None,
        Option::Some((k, v, ni)) => {
            if ni < s.len() && s[ni] == ',' {
                if fuel == 0 {
                    Option::None
                } else {
                    let mi = ltrim_idx(s, ni + 1);
                    match parse_args(s, mi, (fuel - 1) as nat) {
                        Option::None => Option::None,
                        Option::Some((rest, end)) => Option::Some((seq![(k, v)] + rest, end)),
                    }
                }
            } else {
                Option::Some((seq![(k, v)], ni))
            }
        },
    }
}

/// A full shortcode text, markers included: two marker characters, whitespace,
/// a name, a parenthesized argument list, whitespace, two closing marker
/// characters. Yields the name and the arguments.
pub open spec fn parse_shortcode_spec(s: Seq<char>) -> Option<
    (Seq<char>, Seq<(Seq<char>, Seq<char>)>),
> {
    if s.len() < 4 {
        Option::None
    } else {
        let a = ltrim_idx(s, 2);
        if a <= 2 || a >= s.len() {
            Option::None
        } else {
            let ne = scan_alnum(s, a);
            if ne <= a || ne >= s.len() || s[ne] != '(' {
                Option::None
            } else {
                let as0 = ltrim_idx(s, ne + 1);
                match parse_args(s, as0, s.len()) {
                    Option::None => Option::None,
                    Option::Some((args, pe)) => {
                        if pe >= s.len() || s[pe] != ')' {
                            Option::None
                        } else {
                            let we = ltrim_idx(s, pe + 1);
                            if we <= pe + 1 || we != s.len() - 2 {
                                Option::None
                            } else {
                                Option::Some((s.subrange(a, ne), args))
                            }
                        }
                    },
                }
            }
        }
    }
}

/// Advances past whitespace: the exec form of `ltrim_idx`.
pub fn skip_ws_exec(s: &Vec<char>, i: usize) -> (r: usize)
    requires
        i <= s@.len(),
    ensures
        r == ltrim_idx(s@, i as int),
        i <= r <= s@.len(),
{
    let mut j = i;
    while j < s.len() && crate::text::is_space_exec(s[j])
        invariant
            i <= j <= s@.len(),
            ltrim_idx(s@, i as int) == ltrim_idx(s@, j as int),
        decreases s@.len() - j,
    {
        j += 1;
    }
    j
}

fn scan_alnum_exec(s: &Vec<char>, i: usize) -> (r: usize)
    requires
        i <= s@.len(),
    ensures
        r == scan_alnum(s@, i as int),
        i <= r <= s@.len(),
{
    let mut j = i;
    while j < s.len() && is_alnum_exec(s[j])
        invariant
            i <= j <= s@.len(),
            scan_alnum(s@, i as int) == scan_alnum(s@, j as int),
        decreases s@.len() - j,
    {
        j += 1;
    }
    j
}

fn scan_quote_exec(s: &Vec<char>, i: usize) -> (r: usize)
    requires
        i <= s@.len(),
    ensures
        r == scan_quote(s@, i as int),
        i <= r <= s@.len(),
{
    let mut j = i;
    while j < s.len() && s[j] != '"'
        invariant
            i <= j <= s@.len(),
            scan_quote(s@, i as int) == scan_quote(s@, j as int),
        decreases s@.len() - j,
    {
        j += 1;
    }
    j
}

fn parse_one_arg_exec(s: &Vec<char>, i: usize) -> (r: Option<(Vec<char>, Vec<char>, usize)>)
    requires
        i <= s@.len(),
    ensures
        r is Some <==> parse_one_arg(s@, i as int) is Some,
        r is Some ==> {
            let (k, v, ni) = parse_one_arg(s@, i as int)->0;
            let t = r->0;
            t.0@ == k && t.1@ == v && t.2 == ni && i < ni <= s@.len()
        },
{
    let ke = scan_alnum_exec(s, i);
    if ke <= i || ke >= s.len() || s[ke] != '=' {
        return Option::None;
    }
    let vs = ke + 1;
    if vs < s.len() && s[vs] == '"' {
        let vq = scan_quote_exec(s, vs + 1);
        if vq >= s.len() {
            return Option::None;
        }
        let k = copy_range(s, i, ke);
        let v = copy_range(s, vs + 1, vq);
        Option::Some((k, v, vq + 1))
    } else {
        let ve = scan_alnum_exec(s, vs);
        if ve <= vs {
            return Option::None;
        }
        let k = copy_range(s, i, ke);
        let v = copy_range(s, vs, ve);
        Option::Some((k, v, ve))
    }
}

fn parse_args_exec(s: &Vec<char>, i: usize, fuel: usize) -> (r: Option<
    (Vec<(String, String)>, usize),
>)
    requires
        i <= s@.len(),
    ensures
        r is Some <==> parse_args(s@, i as int, fuel as nat) is Some,
        r is Some ==> {
            let (args, end) = parse_args(s@, i as int, fuel as nat)->0;
            let t = r->0;
            t.0.deep_view() == args && t.1 == end && end <= s@.len()
        },
    decreases fuel,
{
    match parse_one_arg_exec(s, i) {
        Option::None => Option::None,
        Option::Some((k, v, ni)) => {
            if ni < s.len() && s[ni] == ',' {
                if fuel == 0 {
                    Option::None
                } else {
                    let mi = skip_ws_exec(s, ni + 1);
                    match parse_args_exec(s, mi, fuel - 1) {
                        Option::None => Option::None,
                        Option::Some((rest, end)) => {
                            let ks = chars_to_string(&k);
                            let vs = chars_to_string(&v);
                            let mut out: Vec<(String, String)> = Vec::new();
                            out.push((ks, vs));
                            let mut rest_mut = rest;
                            let ghost rest_v = rest_mut.deep_view();
                            out.append(&mut rest_mut);
                            proof {
                                assert(out.deep_view() =~= seq![(k@, v@)] + rest_v);
                            }
                            Option::Some((out, end))
                        },
                    }
                }
            } else {
                let ks = chars_to_string(&k);
                let vs = chars_to_string(&v);
                let mut out: Vec<(String, String)> = Vec::new();
                out.push((ks, vs));
                proof {
                    assert(out.deep_view() =~= seq![(k@, v@)]);
                }
                Option::Some((out, ni))
            }
        },
    }
}

/// Parses a shortcode invocation, markers included, into its name and argument
/// pairs; `None` when the text does not match the grammar.
pub fn parse_shortcode(text: &Vec<char>) -> (r: Option<(String, Vec<(String, String)>)>)
    ensures
        r is Some <==> parse_shortcode_spec(text@) is Some,
        r is Some ==> {
            let (name, args) = parse_shortcode_spec(text@)->0;
            let t = r->0;
            t.0@ == name && t.1.deep_view() == args
        },
{
    if text.len() < 4 {
        return Option::None;
    }
    let a = skip_ws_exec(text, 2);
    if a <= 2 || a >= text.len() {
        return Option::None;
    }
    let ne = scan_alnum_exec(text, a);
    if ne <= a || ne >= text.len() || text[ne] != '(' {
        return Option::None;
    }
    let as0 = skip_ws_exec(text, ne + 1);
    let n = text.len();
    match parse_args_exec(text, as0, n) {
        Option::None => Option::None,
        Option::Some((args, pe)) => {
            if pe >= text.len() || text[pe] != ')' {
                return Option::None;
            }
            let we = skip_ws_exec(text, pe + 1);
            if we <= pe + 1 || we != text.len() - 2 {
                return Option::None;
            }
            let name = copy_range(text, a, ne);
            Option::Some((chars_to_string(&name), args))
        },
    }
}

} // verus!
