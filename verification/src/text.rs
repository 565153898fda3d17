//! Character-sequence scanning primitives.
//!
//! All pattern matching in this crate is reduced to a handful of spec-level
//! notions over `Seq<char>` — a match of a needle at a position, the leftmost
//! match at or after a position, runs of whitespace or word characters, and
//! splitting text into lines — together with executable functions proved
//! equivalent to them.

use vstd::prelude::*;

verus! {

/// The needle `n` occurs in `h` starting exactly at index `i`.
pub open spec fn match_at(h: Seq<char>, n: Seq<char>, i: int) -> bool {
    &&& 0 <= i
    &&& i + n.len() <= h.len()
    &&& h.subrange(i, i + n.len() as int) == n
}

/// The needle `n` occurs somewhere in `h`.
pub open spec fn contains_seq(h: Seq<char>, n: Seq<char>) -> bool {
    exists|i: int| match_at(h, n, i)
}

/// Index of the leftmost occurrence of `n` in `h` at or after `from`.
pub open spec fn find_from(h: Seq<char>, n: Seq<char>, from: int) -> Option<int>
    decreases h.len() + 1 - from
    when 0 <= from
{
    if from + n.len() > h.len() {
        None
    } else if match_at(h, n, from) {
        Some(from)
    } else {
        find_from(h, n, from + 1)
    }
}

/// `find_from` returns the least match position at or after `from`,
/// and `None` exactly when no such position exists.
pub proof fn lemma_find_from(h: Seq<char>, n: Seq<char>, from: int)
    requires
        0 <= from,
    ensures
        match find_from(h, n, from) {
            Some(i) => from <= i && match_at(h, n, i) && (forall|j: int|
                from <= j < i ==> !match_at(h, n, j)),
            None => forall|j: int| from <= j ==> !match_at(h, n, j),
        },
    decreases h.len() + 1 - from,
{
    if from + n.len() > h.len() {
        assert forall|j: int| from <= j implies !match_at(h, n, j) by {
            assert(j + n.len() > h.len());
        }
    } else if match_at(h, n, from) {
    } else {
        lemma_find_from(h, n, from + 1);
    }
}

/// Whitespace in the sense of the IR grammar: ASCII space, tab, newline,
/// carriage return, vertical tab and form feed.
pub open spec fn ws_char(c: char) -> bool {
    c == ' ' || c == '\t' || c == '\n' || c == '\r' || c == '\u{0b}' || c == '\u{0c}'
}

/// Word characters as they may appear in an IR symbol: letters, digits, `_`.
pub open spec fn word_char(c: char) -> bool {
    ('a' <= c && c <= 'z') || ('A' <= c && c <= 'Z') || ('0' <= c && c <= '9') || c == '_'
}

/// First index at or after `from` holding a non-whitespace character
/// (or the end of `h`).
pub open spec fn ws_run_end(h: Seq<char>, from: int) -> int
    decreases h.len() - from
    when 0 <= from <= h.len()
{
    if from >= h.len() {
        from
    } else if ws_char(h[from]) {
        ws_run_end(h, from + 1)
    } else {
        from
    }
}

/// First index at or after `from` holding a non-word character
/// (or the end of `h`).
pub open spec fn word_run_end(h: Seq<char>, from: int) -> int
    decreases h.len() - from
    when 0 <= from <= h.len()
{
    if from >= h.len() {
        from
    } else if word_char(h[from]) {
        word_run_end(h, from + 1)
    } else {
        from
    }
}

/// Decimal digit characters.
pub open spec fn dec_digit(c: char) -> bool {
    '0' <= c && c <= '9'
}

/// Whether `c` is a decimal digit, as `dec_digit`.
pub fn is_dec_digit(c: char) -> (b: bool)
    ensures
        b == dec_digit(c),
{
    '0' <= c && c <= '9'
}

/// Whether `c` is whitespace, as `ws_char`.
pub fn is_ws(c: char) -> (b: bool)
    ensures
        b == ws_char(c),
{
    c == ' ' || c == '\t' || c == '\n' || c == '\r' || c == '\u{0b}' || c == '\u{0c}'
}

/// Whether `c` is a word character, as `word_char`.
pub fn is_word(c: char) -> (b: bool)
    ensures
        b == word_char(c),
{
    ('a' <= c && c <= 'z') || ('A' <= c && c <= 'Z') || ('0' <= c && c <= '9') || c == '_'
}

/// End of the whitespace run starting at `from`, as `ws_run_end`.
pub fn ws_end(lc: &Vec<char>, from: usize) -> (r: usize)
    requires
        from <= lc@.len(),
    ensures
        r == ws_run_end(lc@, from as int),
        from <= r <= lc@.len(),
{
    let n = lc.len();
    let mut k: usize = from;
    loop
        invariant
            from <= k <= n,
            n == lc@.len(),
            ws_run_end(lc@, from as int) == ws_run_end(lc@, k as int),
        ensures
            from <= k <= n,
            ws_run_end(lc@, from as int) == k as int,
        decreases n - k,
    {
        if k == n {
            break ;
        }
        if !is_ws(lc[k]) {
            break ;
        }
        k = k + 1;
    }
    k
}

/// End of the word-character run starting at `from`, as `word_run_end`.
pub fn word_end(lc: &Vec<char>, from: usize) -> (r: usize)
    requires
        from <= lc@.len(),
    ensures
        r == word_run_end(lc@, from as int),
        from <= r <= lc@.len(),
{
    let n = lc.len();
    let mut k: usize = from;
    loop
        invariant
            from <= k <= n,
            n == lc@.len(),
            word_run_end(lc@, from as int) == word_run_end(lc@, k as int),
        ensures
            from <= k <= n,
            word_run_end(lc@, from as int) == k as int,
        decreases n - k,
    {
        if k == n {
            break ;
        }
        if !is_word(lc[k]) {
            break ;
        }
        k = k + 1;
    }
    k
}

/// A line as produced by splitting on `'\n'`: a trailing `'\r'` belongs to
/// the line terminator and is removed.
pub open spec fn strip_cr(l: Seq<char>) -> Seq<char> {
    if l.len() > 0 && l[l.len() - 1] == '\r' {
        l.drop_last()
    } else {
        l
    }
}

/// The lines of `s`, split at `'\n'` (a preceding `'\r'` is stripped);
/// a final line terminator does not produce an empty last line.
pub open spec fn lines_of(s: Seq<char>) -> Seq<Seq<char>>
    decreases s.len()
    via lines_of_decreases
{
    if s.len() == 0 {
        Seq::empty()
    } else {
        match find_from(s, seq!['\n'], 0) {
            Some(i) => seq![strip_cr(s.subrange(0, i))] + lines_of(
                s.subrange(i + 1, s.len() as int),
            ),
            None => seq![s],
        }
    }
}

#[via_fn]
proof fn lines_of_decreases(s: Seq<char>) {
    if s.len() != 0 {
        lemma_find_from(s, seq!['\n'], 0);
    }
}

/// The characters of `s` as a vector, for random-access scanning.
pub fn to_chars(s: &str) -> (v: Vec<char>)
    ensures
        v@ == s@,
{
    let n = s.unicode_len();
    let mut v: Vec<char> = Vec::new();
    let mut i: usize = 0;
    while i < n
        invariant
            i <= n,
            n == s@.len(),
            v@ == s@.subrange(0, i as int),
        decreases n - i,
    {
        let c = s.get_char(i);
        v.push(c);
        proof {
            assert(v@ =~= s@.subrange(0, i as int + 1));
        }
        i = i + 1;
    }
    proof {
        assert(s@.subrange(0, n as int) =~= s@);
    }
    v
}

/// Whether `n` occurs in `h` starting exactly at `i`.
pub fn match_eq_at(h: &Vec<char>, n: &Vec<char>, i: usize) -> (b: bool)
    ensures
        b == match_at(h@, n@, i as int),
{
    let hl = h.len();
    let nl = n.len();
    if nl > hl || i > hl - nl {
        return false;
    }
    let mut j: usize = 0;
    while j < nl
        invariant
            j <= nl,
            hl == h@.len(),
            nl == n@.len(),
            i + nl <= hl,
            forall|k: int| 0 <= k < j ==> h@[i + k] == n@[k],
        decreases nl - j,
    {
        if h[i + j] != n[j] {
            proof {
                assert(h@.subrange(i as int, i + n@.len() as int)[j as int] == h@[i + j]);
            }
            return false;
        }
        j = j + 1;
    }
    proof {
        assert(h@.subrange(i as int, i + n@.len() as int) =~= n@);
    }
    true
}

/// Leftmost occurrence of `n` in `h` at or after `from`, as `find_from`.
pub fn find_in(h: &Vec<char>, n: &Vec<char>, from: usize) -> (r: Option<usize>)
    ensures
        match r {
            Some(i) => find_from(h@, n@, from as int) == Some(i as int),
            None => find_from(h@, n@, from as int) is None,
        },
{
    let hl = h.len();
    let nl = n.len();
    if nl > hl || from > hl - nl {
        return None;
    }
    if nl == 0 {
        proof {
            assert(h@.subrange(from as int, from as int) =~= n@);
        }
        return Some(from);
    }
    let mut cur: usize = from;
    while cur <= hl - nl
        invariant
            1 <= nl <= hl,
            from <= cur,
            cur <= hl - nl + 1,
            hl == h@.len(),
            nl == n@.len(),
            find_from(h@, n@, from as int) == find_from(h@, n@, cur as int),
        decreases hl - cur,
    {
        if match_eq_at(h, n, cur) {
            return Some(cur);
        }
        cur = cur + 1;
    }
    None
}

/// Whether the needle occurs anywhere in `h`.
pub fn contains_in(h: &Vec<char>, needle: &str) -> (b: bool)
    ensures
        b == contains_seq(h@, needle@),
{
    let n = to_chars(needle);
    let r = find_in(h, &n, 0);
    proof {
        lemma_find_from(h@, n@, 0);
        if find_from(h@, n@, 0) is None {
            assert forall|i: int| !match_at(h@, needle@, i) by {
                if 0 <= i {
                    assert(!match_at(h@, n@, i));
                }
            }
        }
    }
    r.is_some()
}

/// String equality at the character level.
pub fn eq_str(a: &str, b: &str) -> (r: bool)
    ensures
        r == (a@ == b@),
{
    let al = a.unicode_len();
    let bl = b.unicode_len();
    if al != bl {
        return false;
    }
    let mut i: usize = 0;
    while i < al
        invariant
            i <= al,
            al == a@.len(),
            al == b@.len(),
            forall|k: int| 0 <= k < i ==> a@[k] == b@[k],
        decreases al - i,
    {
        if a.get_char(i) != b.get_char(i) {
            return false;
        }
        i = i + 1;
    }
    proof {
        assert(a@ =~= b@);
    }
    true
}

/// The lines of `s`, as `lines_of` on its view.
pub fn split_lines<'a>(s: &'a str) -> (r: Vec<&'a str>)
    ensures
        r.deep_view() == lines_of(s@),
{
    let mut r: Vec<&'a str> = Vec::new();
    let mut rest: &'a str = s;
    let mut nl: Vec<char> = Vec::new();
    nl.push('\n');
    proof {
        assert(nl@ =~= seq!['\n']);
        assert(r.deep_view() + lines_of(rest@) =~= lines_of(s@));
    }
    loop
        invariant
            nl@ == seq!['\n'],
            lines_of(s@) == r.deep_view() + lines_of(rest@),
        ensures
            rest@.len() == 0,
            lines_of(s@) == r.deep_view() + lines_of(rest@),
        decreases rest@.len(),
    {
        let rl = rest.unicode_len();
        if rl == 0 {
            break ;
        }
        let rc = to_chars(rest);
        let found = find_in(&rc, &nl, 0);
        proof {
            lemma_find_from(rest@, seq!['\n'], 0);
        }
        match found {
            Some(i) => {
                let line_end = if i > 0 && rest.get_char(i - 1) == '\r' {
                    i - 1
                } else {
                    i
                };
                let line = rest.substring_char(0, line_end);
                proof {
                    let full = rest@.subrange(0, i as int);
                    if i > 0 && rest@[i - 1] == '\r' {
                        assert(full[full.len() - 1] == '\r');
                        assert(strip_cr(full) =~= rest@.subrange(0, i as int - 1));
                    } else {
                        if full.len() > 0 {
                            assert(full[full.len() - 1] == rest@[i - 1]);
                        }
                        assert(strip_cr(full) == full);
                    }
                }
                let ghost prev = r.deep_view();
                let ghost prev_rest = rest@;
                r.push(line);
                rest = rest.substring_char(i + 1, rl);
                proof {
                    assert(r.deep_view() =~= prev.push(line@));
                    assert(lines_of(prev_rest) == seq![strip_cr(prev_rest.subrange(0, i as int))]
                        + lines_of(rest@));
                    assert(prev + lines_of(prev_rest) =~= r.deep_view() + lines_of(rest@));
                }
            },
            None => {
                let ghost prev = r.deep_view();
                let ghost prev_rest = rest@;
                r.push(rest);
                rest = rest.substring_char(rl, rl);
                proof {
                    assert(lines_of(prev_rest) == seq![prev_rest]);
                    assert(r.deep_view() =~= prev.push(prev_rest));
                    assert(rest@ =~= Seq::<char>::empty());
                    assert(prev + lines_of(prev_rest) =~= r.deep_view() + lines_of(rest@));
                }
            },
        }
    }
    proof {
        assert(lines_of(rest@) =~= Seq::<Seq<char>>::empty());
    }
    r
}

} // verus!
