//! Function body extraction.
//!
//! A function definition appears in IR text as a header line of the form
//! `define <type-and-attributes> @<symbol>(<params>) <attrs> {`, followed by
//! instruction lines, closed by a line holding only `}`. The extractor looks
//! for the requested name — mangled first if it is a namespaced path — as a
//! substring of a defined symbol, and returns the text between the header's
//! opening brace and the closing `\n}`.
//!
//! The name is deliberately matched as a substring of the symbol, so that
//! compiler-added decorations (hashes, generic-instantiation suffixes) around
//! the core name are tolerated.

use vstd::prelude::*;

use crate::mangle::search_name;
use crate::mangle::search_name_exec;
use crate::text::find_from;
use crate::text::find_in;
use crate::text::is_ws;
use crate::text::lemma_find_from;
use crate::text::match_at;
use crate::text::to_chars;
use crate::text::ws_char;

verus! {

/// No whitespace character occurs in `h` between `a` (inclusive) and `b`
/// (exclusive): `h[a..b)` lies within one symbol token.
pub open spec fn no_ws_between(h: Seq<char>, a: int, b: int) -> bool {
    forall|k: int| a <= k < b ==> !ws_char(h[k])
}

/// A closing line starts at `e`: a newline followed by a `}` that is the
/// whole of its line — followed by nothing, a newline, or a carriage return
/// ending the line.
pub open spec fn close_at(ir: Seq<char>, e: int) -> bool {
    &&& match_at(ir, seq!['\n', '}'], e)
    &&& (e + 2 == ir.len() || ir[e + 2] == '\n' || (ir[e + 2] == '\r' && (e + 3 == ir.len()
        || ir[e + 3] == '\n')))
}

/// The first closing line at or after `from`.
pub open spec fn find_close_from(ir: Seq<char>, from: int) -> Option<int>
    decreases ir.len() + 1 - from
    when 0 <= from
{
    if from + 2 > ir.len() {
        None
    } else if close_at(ir, from) {
        Some(from)
    } else {
        find_close_from(ir, from + 1)
    }
}

proof fn lemma_find_close_from(ir: Seq<char>, from: int)
    requires
        0 <= from,
    ensures
        match find_close_from(ir, from) {
            Some(e) => from <= e && close_at(ir, e),
            None => true,
        },
    decreases ir.len() + 1 - from,
{
    if from + 2 > ir.len() {
    } else if close_at(ir, from) {
    } else {
        lemma_find_close_from(ir, from + 1);
    }
}

/// The body extracted from a definition whose `define` keyword starts at `d`:
/// after the first `@` following the keyword, the name must occur within the
/// symbol token (no intervening whitespace), followed by the parameter list's
/// `(` and `)`, the opening `{`, and the first following line holding only
/// `}`; the body is the text between the brace and that closing line. `None`
/// if any part is missing.
pub open spec fn body_after_define(ir: Seq<char>, name: Seq<char>, d: int) -> Option<Seq<char>>
    recommends
        0 <= d,
{
    match find_from(ir, seq!['@'], d + 6) {
        None => None,
        Some(a) => match find_from(ir, name, a + 1) {
            None => None,
            Some(i) => ({
                if !no_ws_between(ir, a + 1, i) {
                    None
                } else {
                    match find_from(ir, seq!['('], i + name.len()) {
                    None => None,
                        Some(j) => match find_from(ir, seq![')'], j + 1) {
                            None => None,
                            Some(q) => match find_from(ir, seq!['{'], q + 1) {
                                None => None,
                                Some(k) => match find_close_from(ir, k + 1) {
                                    None => None,
                                    Some(e) => Some(ir.subrange(k + 1, e)),
                                },
                            },
                        },
                    }
                }
            }),
        },
    }
}

/// The body of the first definition at or after `from` that matches `name`,
/// scanning `define` keywords from left to right.
pub open spec fn extract_from(ir: Seq<char>, name: Seq<char>, from: int) -> Option<Seq<char>>
    decreases ir.len() + 1 - from
    when 0 <= from
    via extract_from_decreases
{
    match find_from(ir, "define"@, from) {
        None => None,
        Some(d) => match body_after_define(ir, name, d) {
            Some(b) => Some(b),
            None => extract_from(ir, name, d + 1),
        },
    }
}

#[via_fn]
proof fn extract_from_decreases(ir: Seq<char>, name: Seq<char>, from: int) {
    if 0 <= from {
        lemma_find_from(ir, "define"@, from);
    }
}

/// The body of the function called `func` in `ir`: `func` is mangled first
/// when it is a namespaced path, and the leftmost matching definition wins.
pub open spec fn extract_body(ir: Seq<char>, func: Seq<char>) -> Option<Seq<char>> {
    extract_from(ir, search_name(func), 0)
}

/// The first closing line at or after `from`, as `find_close_from`.
fn find_close(iv: &Vec<char>, from: usize) -> (r: Option<usize>)
    requires
        from <= iv@.len(),
    ensures
        match r {
            Some(e) => find_close_from(iv@, from as int) == Some(e as int),
            None => find_close_from(iv@, from as int) is None,
        },
{
    let n = iv.len();
    if n < 2 || from > n - 2 {
        return None;
    }
    let mut e: usize = from;
    while e <= n - 2
        invariant
            from <= e <= n - 1,
            2 <= n,
            n == iv@.len(),
            find_close_from(iv@, from as int) == find_close_from(iv@, e as int),
        decreases n - e,
    {
        if iv[e] == '\n' && iv[e + 1] == '}' {
            let ends = if e + 2 == n {
                true
            } else if iv[e + 2] == '\n' {
                true
            } else if iv[e + 2] == '\r' {
                if e + 3 == n {
                    true
                } else {
                    iv[e + 3] == '\n'
                }
            } else {
                false
            };
            if ends {
                proof {
                    assert(iv@.subrange(e as int, e as int + 2) =~= seq!['\n', '}']);
                    assert(close_at(iv@, e as int));
                }
                return Some(e);
            }
        }
        proof {
            if match_at(iv@, seq!['\n', '}'], e as int) {
                assert(iv@.subrange(e as int, e as int + 2)[0] == iv@[e as int]);
                assert(iv@.subrange(e as int, e as int + 2)[1] == iv@[e as int + 1]);
            }
            assert(!close_at(iv@, e as int));
        }
        e = e + 1;
    }
    None
}

/// Whether any whitespace character occurs in `iv[a..b)`.
fn range_has_ws(iv: &Vec<char>, a: usize, b: usize) -> (r: bool)
    requires
        a <= b <= iv@.len(),
    ensures
        r == !no_ws_between(iv@, a as int, b as int),
{
    let mut k: usize = a;
    while k < b
        invariant
            a <= k <= b <= iv@.len(),
            forall|t: int| a <= t < k ==> !ws_char(iv@[t]),
        decreases b - k,
    {
        if is_ws(iv[k]) {
            proof {
                assert(ws_char(iv@[k as int]));
            }
            return true;
        }
        k = k + 1;
    }
    false
}

/// The half-open body bounds for a definition starting at `d`, when the whole
/// header-and-body chain of `body_after_define` is present.
fn body_bounds_after_define(iv: &Vec<char>, target: &Vec<char>, d: usize) -> (r: Option<
    (usize, usize),
>)
    requires
        d + 6 <= iv@.len(),
        iv@.len() <= usize::MAX,
    ensures
        match r {
            Some(bounds) => bounds.0 <= bounds.1 <= iv@.len() && body_after_define(
                iv@,
                target@,
                d as int,
            ) == Some(iv@.subrange(bounds.0 as int, bounds.1 as int)),
            None => body_after_define(iv@, target@, d as int) is None,
        },
{
    let mut at: Vec<char> = Vec::new();
    at.push('@');
    let mut lp: Vec<char> = Vec::new();
    lp.push('(');
    let mut rp: Vec<char> = Vec::new();
    rp.push(')');
    let mut lb: Vec<char> = Vec::new();
    lb.push('{');
    proof {
        assert(at@ =~= seq!['@']);
        assert(lp@ =~= seq!['(']);
        assert(rp@ =~= seq![')']);
        assert(lb@ =~= seq!['{']);
    }
    let a = match find_in(iv, &at, d + 6) {
        None => {
            return None;
        },
        Some(a) => a,
    };
    proof {
        lemma_find_from(iv@, seq!['@'], d + 6);
    }
    let i = match find_in(iv, target, a + 1) {
        None => {
            return None;
        },
        Some(i) => i,
    };
    proof {
        lemma_find_from(iv@, target@, a as int + 1);
    }
    if range_has_ws(iv, a + 1, i) {
        return None;
    }
    let j = match find_in(iv, &lp, i + target.len()) {
        None => {
            return None;
        },
        Some(j) => j,
    };
    proof {
        lemma_find_from(iv@, seq!['('], i + target@.len());
    }
    let q = match find_in(iv, &rp, j + 1) {
        None => {
            return None;
        },
        Some(q) => q,
    };
    proof {
        lemma_find_from(iv@, seq![')'], j as int + 1);
    }
    let k = match find_in(iv, &lb, q + 1) {
        None => {
            return None;
        },
        Some(k) => k,
    };
    proof {
        lemma_find_from(iv@, seq!['{'], q as int + 1);
    }
    let e = match find_close(iv, k + 1) {
        None => {
            return None;
        },
        Some(e) => e,
    };
    proof {
        lemma_find_close_from(iv@, k as int + 1);
    }
    Some((k + 1, e))
}

/// Locates the body of `func_name` in `ir`, as `extract_body` on the views.
pub fn find_function_body<'a>(ir: &'a str, func_name: &str) -> (r: Option<&'a str>)
    ensures
        match r {
            Some(b) => extract_body(ir@, func_name@) == Some(b@),
            None => extract_body(ir@, func_name@) is None,
        },
{
    let sn = search_name_exec(func_name);
    let target = to_chars(sn.as_str());
    let iv = to_chars(ir);
    let irl = iv.len();
    let ndefine = to_chars("define");
    proof {
        reveal_strlit("define");
    }
    let mut from: usize = 0;
    loop
        invariant
            from <= irl + 1,
            irl == ir@.len(),
            iv@ == ir@,
            ndefine@ == "define"@,
            "define"@.len() == 6,
            target@ == search_name(func_name@),
            extract_from(ir@, target@, 0) == extract_from(ir@, target@, from as int),
        decreases ir@.len() + 1 - from,
    {
        let d = match find_in(&iv, &ndefine, from) {
            None => {
                return None;
            },
            Some(d) => d,
        };
        proof {
            lemma_find_from(iv@, "define"@, from as int);
        }
        match body_bounds_after_define(&iv, &target, d) {
            Some(bounds) => {
                let body = ir.substring_char(bounds.0, bounds.1);
                return Some(body);
            },
            None => {
                from = d + 1;
            },
        }
    }
}

} // verus!
