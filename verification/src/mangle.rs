//! Symbol mangling.
//!
//! A logical function path such as `a::b::c` appears in the compiled symbol
//! table in flattened form: each segment is preceded by its decimal length
//! and the results are concatenated with no separator (`1a1b1c`).

use vstd::prelude::*;

use crate::text::find_from;
use crate::text::find_in;
use crate::text::lemma_find_from;
use crate::text::to_chars;

verus! {

/// The path separator `::`.
pub open spec fn path_sep() -> Seq<char> {
    seq![':', ':']
}

/// The segments of `s`, split at each leftmost occurrence of `::`.
pub open spec fn split_path(s: Seq<char>) -> Seq<Seq<char>>
    decreases s.len()
    via split_path_decreases
{
    match find_from(s, path_sep(), 0) {
        None => seq![s],
        Some(i) => seq![s.subrange(0, i)] + split_path(s.subrange(i + 2, s.len() as int)),
    }
}

#[via_fn]
proof fn split_path_decreases(s: Seq<char>) {
    lemma_find_from(s, path_sep(), 0);
}

/// The decimal digit character for `d` (`d < 10`).
pub open spec fn digit_char(d: nat) -> char
    recommends
        d < 10,
{
    if d == 0 {
        '0'
    } else if d == 1 {
        '1'
    } else if d == 2 {
        '2'
    } else if d == 3 {
        '3'
    } else if d == 4 {
        '4'
    } else if d == 5 {
        '5'
    } else if d == 6 {
        '6'
    } else if d == 7 {
        '7'
    } else if d == 8 {
        '8'
    } else {
        '9'
    }
}

/// The decimal representation of `n`, most significant digit first.
pub open spec fn dec_rep(n: nat) -> Seq<char>
    decreases n
{
    if n < 10 {
        seq![digit_char(n)]
    } else {
        dec_rep(n / 10) + seq![digit_char(n % 10)]
    }
}

/// One mangled segment: its decimal length followed by the segment itself.
///
/// The length is counted in characters. Compiled symbol tables count the
/// segment's bytes; the two agree on ASCII paths, and symbol names emitted
/// by the backend are ASCII.
pub open spec fn mangle_seg(seg: Seq<char>) -> Seq<char> {
    dec_rep(seg.len()) + seg
}

/// The concatenation of the mangled segments, in order.
pub open spec fn mangled(segs: Seq<Seq<char>>) -> Seq<char>
    decreases segs.len()
{
    if segs.len() == 0 {
        Seq::empty()
    } else {
        mangle_seg(segs[0]) + mangled(segs.drop_first())
    }
}

/// The mangled form of a logical path.
pub open spec fn mangle_spec(path: Seq<char>) -> Seq<char> {
    mangled(split_path(path))
}

fn digit_string(d: usize) -> (r: String)
    requires
        d < 10,
    ensures
        r@ == seq![digit_char(d as nat)],
{
    if d == 0 {
        proof {
            reveal_strlit("0");
            assert("0"@ =~= seq![digit_char(d as nat)]);
        }
        return String::from_str("0");
    }
    if d == 1 {
        proof {
            reveal_strlit("1");
            assert("1"@ =~= seq![digit_char(d as nat)]);
        }
        return String::from_str("1");
    }
    if d == 2 {
        proof {
            reveal_strlit("2");
            assert("2"@ =~= seq![digit_char(d as nat)]);
        }
        return String::from_str("2");
    }
    if d == 3 {
        proof {
            reveal_strlit("3");
            assert("3"@ =~= seq![digit_char(d as nat)]);
        }
        return String::from_str("3");
    }
    if d == 4 {
        proof {
            reveal_strlit("4");
            assert("4"@ =~= seq![digit_char(d as nat)]);
        }
        return String::from_str("4");
    }
    if d == 5 {
        proof {
            reveal_strlit("5");
            assert("5"@ =~= seq![digit_char(d as nat)]);
        }
        return String::from_str("5");
    }
    if d == 6 {
        proof {
            reveal_strlit("6");
            assert("6"@ =~= seq![digit_char(d as nat)]);
        }
        return String::from_str("6");
    }
    if d == 7 {
        proof {
            reveal_strlit("7");
            assert("7"@ =~= seq![digit_char(d as nat)]);
        }
        return String::from_str("7");
    }
    if d == 8 {
        proof {
            reveal_strlit("8");
            assert("8"@ =~= seq![digit_char(d as nat)]);
        }
        return String::from_str("8");
    }
    proof {
        reveal_strlit("9");
        assert("9"@ =~= seq![digit_char(d as nat)]);
    }
    String::from_str("9")
}

/// The decimal digits of `n`.
fn dec_string(n: usize) -> (r: String)
    ensures
        r@ == dec_rep(n as nat),
    decreases n,
{
    if n < 10 {
        digit_string(n)
    } else {
        let mut s = dec_string(n / 10);
        let d = digit_string(n % 10);
        s.append(d.as_str());
        s
    }
}

/// Converts a logical path (`a::b::c`) to its mangled symbol form (`1a1b1c`).
pub fn mangle_rust_path(path: &str) -> (r: String)
    ensures
        r@ == mangle_spec(path@),
{
    let mut out = String::new();
    let mut rest: &str = path;
    let mut sep: Vec<char> = Vec::new();
    sep.push(':');
    sep.push(':');
    proof {
        assert(sep@ =~= path_sep());
        assert(out@ + mangled(split_path(rest@)) =~= mangled(split_path(path@)));
    }
    loop
        invariant
            sep@ == path_sep(),
            mangled(split_path(path@)) == out@ + mangled(split_path(rest@)),
        decreases rest@.len(),
    {
        let rl = rest.unicode_len();
        let rc = to_chars(rest);
        let found = find_in(&rc, &sep, 0);
        proof {
            lemma_find_from(rest@, path_sep(), 0);
        }
        match found {
            Some(i) => {
                let ghost prev_rest = rest@;
                let ghost prev_out = out@;
                let seg = rest.substring_char(0, i);
                let digits = dec_string(i);
                out.append(digits.as_str());
                out.append(seg);
                rest = rest.substring_char(i + 2, rl);
                proof {
                    let ghost a = prev_rest.subrange(0, i as int);
                    assert(split_path(prev_rest) == seq![a] + split_path(rest@));
                    assert((seq![a] + split_path(rest@)).drop_first() =~= split_path(rest@));
                    assert(mangled(seq![a] + split_path(rest@)) == mangle_seg(a) + mangled(
                        split_path(rest@),
                    ));
                    assert(out@ =~= prev_out + mangle_seg(a));
                    assert(prev_out + (mangle_seg(a) + mangled(split_path(rest@))) =~= out@
                        + mangled(split_path(rest@)));
                }
            },
            None => {
                let ghost prev_rest = rest@;
                let ghost prev_out = out@;
                let digits = dec_string(rl);
                out.append(digits.as_str());
                out.append(rest);
                proof {
                    assert(split_path(prev_rest) == seq![prev_rest]);
                    assert(seq![prev_rest].drop_first() =~= Seq::<Seq<char>>::empty());
                    assert(seq![prev_rest][0] == prev_rest);
                    assert(mangled(seq![prev_rest]) == mangle_seg(prev_rest) + mangled(
                        Seq::<Seq<char>>::empty(),
                    ));
                    assert(prev_out + mangled(split_path(prev_rest)) =~= out@);
                }
                return out;
            },
        }
    }
}

/// A logical path needs mangling exactly when it contains the `::` separator.
pub open spec fn search_name(name: Seq<char>) -> Seq<char> {
    if crate::text::contains_seq(name, path_sep()) {
        mangle_spec(name)
    } else {
        name
    }
}

/// The name to look for in the IR: the mangled form for a namespaced path,
/// the name itself otherwise.
pub fn search_name_exec(name: &str) -> (r: String)
    ensures
        r@ == search_name(name@),
{
    let nc = to_chars(name);
    let mut sep: Vec<char> = Vec::new();
    sep.push(':');
    sep.push(':');
    proof {
        assert(sep@ =~= path_sep());
    }
    let found = find_in(&nc, &sep, 0);
    proof {
        lemma_find_from(name@, path_sep(), 0);
        if find_from(name@, path_sep(), 0) is None {
            assert forall|i: int| !crate::text::match_at(name@, path_sep(), i) by {
                if 0 <= i {
                    assert(!crate::text::match_at(name@, path_sep(), i));
                }
            }
        }
    }
    if found.is_some() {
        mangle_rust_path(name)
    } else {
        String::from_str(name)
    }
}

} // verus!
