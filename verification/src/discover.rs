//! Hot-function discovery.
//!
//! The hot-path annotation leaves two traces per function in the IR text: a
//! string constant holding the function's null-terminated name, and an entry
//! in the section literally named `.hot_funcs` holding a pointer reference to
//! that constant. Discovery makes two passes over the lines of the IR: it
//! first collects, from each line carrying the `.hot_funcs` section
//! designator, the referenced constant's identifier (`ptr @alloc_...`), then
//! resolves each identifier to the string payload of its own definition
//! (`@alloc_... = ... c"<name>\00"`), stripping the null terminator.
//! Malformed or missing entries are skipped; discovery never fails, and the
//! resulting names are deduplicated while keeping first-seen order.

use vstd::prelude::*;

use crate::text::eq_str;
use crate::text::find_from;
use crate::text::find_in;
use crate::text::lemma_find_from;
use crate::text::lines_of;
use crate::text::match_at;
use crate::text::match_eq_at;
use crate::text::split_lines;
use crate::text::to_chars;
use crate::text::word_end;
use crate::text::word_run_end;
use crate::text::ws_end;
use crate::text::ws_run_end;

verus! {

/// The keyword introducing a pointer entry.
pub open spec fn kw_ptr() -> Seq<char> {
    seq!['p', 't', 'r']
}

/// The identifier prefix of a string-constant global.
pub open spec fn kw_alloc_prefix() -> Seq<char> {
    seq!['@', 'a', 'l', 'l', 'o', 'c', '_']
}

/// The keyword introducing a section designator.
pub open spec fn kw_section() -> Seq<char> {
    seq!['s', 'e', 'c', 't', 'i', 'o', 'n']
}

/// The quoted name of the hot-function section.
pub open spec fn kw_hot_section() -> Seq<char> {
    seq!['"', '.', 'h', 'o', 't', '_', 'f', 'u', 'n', 'c', 's', '"']
}

/// The opening of a string-constant payload.
pub open spec fn kw_cquote() -> Seq<char> {
    seq!['c', '"']
}

/// The escaped null terminator closing a payload.
pub open spec fn kw_nul() -> Seq<char> {
    seq!['\\', '0', '0', '"']
}

/// The bounds of a referenced identifier `@alloc_<word>+` in a pointer entry
/// starting at `i`: `ptr`, at least one whitespace character, the identifier.
pub open spec fn ref_bounds_at(l: Seq<char>, i: int) -> Option<(int, int)>
    recommends
        0 <= i,
{
    if !match_at(l, kw_ptr(), i) {
        None
    } else {
        let g = ws_run_end(l, i + 3);
        if g == i + 3 {
            None
        } else if !match_at(l, kw_alloc_prefix(), g) {
            None
        } else {
            let w = word_run_end(l, g + 1);
            if w < g + 8 {
                None
            } else {
                Some((g, w))
            }
        }
    }
}

/// A section designator `section ".hot_funcs"` starts exactly at `s`.
pub open spec fn section_mark_at(l: Seq<char>, s: int) -> bool
    recommends
        0 <= s,
{
    match_at(l, kw_section(), s) && {
        let g = ws_run_end(l, s + 7);
        g > s + 7 && match_at(l, kw_hot_section(), g)
    }
}

/// A section designator occurs at or after `from`.
pub open spec fn section_mark_from(l: Seq<char>, from: int) -> bool {
    exists|s: int| from <= s && section_mark_at(l, s)
}

/// The identifier of a hot-function entry starting at `i`: a pointer
/// reference whose line also carries the section designator after it.
pub open spec fn hot_entry_at(l: Seq<char>, i: int) -> Option<Seq<char>>
    recommends
        0 <= i,
{
    match ref_bounds_at(l, i) {
        None => None,
        Some(bounds) => ({
            if section_mark_from(l, bounds.1) {
                Some(l.subrange(bounds.0, bounds.1))
            } else {
                None
            }
        }),
    }
}

/// The identifier of the first hot-function entry at or after `i` on line `l`.
pub open spec fn line_ref_from(l: Seq<char>, i: int) -> Option<Seq<char>>
    decreases l.len() - i
    when 0 <= i <= l.len()
{
    if i >= l.len() {
        None
    } else if hot_entry_at(l, i) is Some {
        hot_entry_at(l, i)
    } else {
        line_ref_from(l, i + 1)
    }
}

/// The identifier referenced by the hot-function entry on line `l`, if any.
pub open spec fn line_ref(l: Seq<char>) -> Option<Seq<char>> {
    line_ref_from(l, 0)
}

/// The string payload of a constant starting at `t`: `c"`, one or more
/// non-quote characters, then the escaped null terminator and closing quote.
/// The payload excludes the terminator.
pub open spec fn payload_at(l: Seq<char>, t: int) -> Option<Seq<char>>
    recommends
        0 <= t,
{
    if !match_at(l, kw_cquote(), t) {
        None
    } else {
        match find_from(l, seq!['"'], t + 2) {
            None => None,
            Some(e) => ({
                if e >= t + 6 && match_at(l, kw_nul(), e - 3) {
                    Some(l.subrange(t + 2, e - 3))
                } else {
                    None
                }
            }),
        }
    }
}

/// The first payload at or after `t` on line `l`.
pub open spec fn first_payload_from(l: Seq<char>, t: int) -> Option<Seq<char>>
    decreases l.len() - t
    when 0 <= t <= l.len()
{
    if t >= l.len() {
        None
    } else if payload_at(l, t) is Some {
        payload_at(l, t)
    } else {
        first_payload_from(l, t + 1)
    }
}

/// The identifier `r` is defined at `m` on line `l`: `r`, optional
/// whitespace, then `=`.
pub open spec fn def_at(l: Seq<char>, r: Seq<char>, m: int) -> bool
    recommends
        0 <= m,
{
    match_at(l, r, m) && {
        let g = ws_run_end(l, m + r.len());
        g < l.len() && l[g] == '='
    }
}

/// The payload of the definition of `r` on line `l`, scanning definition
/// sites from position `m`.
pub open spec fn line_def_from(l: Seq<char>, r: Seq<char>, m: int) -> Option<Seq<char>>
    decreases l.len() - m
    when 0 <= m <= l.len()
{
    if m >= l.len() {
        None
    } else if def_at(l, r, m) {
        first_payload_from(l, ws_run_end(l, m + r.len()) + 1)
    } else {
        line_def_from(l, r, m + 1)
    }
}

/// The payload of the definition of `r` on line `l`, if any.
pub open spec fn line_def(l: Seq<char>, r: Seq<char>) -> Option<Seq<char>> {
    line_def_from(l, r, 0)
}

/// The name that identifier `r` resolves to: the payload of its first
/// defining line at or after line `i`.
pub open spec fn resolve_from(lines: Seq<Seq<char>>, r: Seq<char>, i: int) -> Option<Seq<char>>
    decreases lines.len() + 1 - i
    when 0 <= i
{
    if i >= lines.len() {
        None
    } else {
        match line_def(lines[i], r) {
            Some(n) => Some(n),
            None => resolve_from(lines, r, i + 1),
        }
    }
}

/// The name that identifier `r` resolves to in the whole text, if any.
pub open spec fn resolve_ref(lines: Seq<Seq<char>>, r: Seq<char>) -> Option<Seq<char>> {
    resolve_from(lines, r, 0)
}

/// The identifiers referenced by hot-function entries on the first `i` lines,
/// in line order.
pub open spec fn refs_upto(lines: Seq<Seq<char>>, i: int) -> Seq<Seq<char>>
    decreases i
{
    if i <= 0 {
        Seq::empty()
    } else {
        let init = refs_upto(lines, i - 1);
        match line_ref(lines[i - 1]) {
            Some(r) => init.push(r),
            None => init,
        }
    }
}

/// All identifiers referenced by hot-function entries, in line order.
pub open spec fn refs_of(lines: Seq<Seq<char>>) -> Seq<Seq<char>> {
    refs_upto(lines, lines.len() as int)
}

/// The names resolved from the first `i` identifiers, unresolvable ones
/// skipped.
pub open spec fn resolved_upto(lines: Seq<Seq<char>>, refs: Seq<Seq<char>>, i: int) -> Seq<
    Seq<char>,
>
    decreases i
{
    if i <= 0 {
        Seq::empty()
    } else {
        let init = resolved_upto(lines, refs, i - 1);
        match resolve_ref(lines, refs[i - 1]) {
            Some(n) => init.push(n),
            None => init,
        }
    }
}

/// `s` with duplicates removed, keeping the first occurrence of each element.
pub open spec fn dedup(s: Seq<Seq<char>>) -> Seq<Seq<char>>
    decreases s.len()
{
    if s.len() == 0 {
        Seq::empty()
    } else {
        let init = dedup(s.drop_last());
        if init.contains(s.last()) {
            init
        } else {
            init.push(s.last())
        }
    }
}

/// The hot-function names discovered in `ir`: each section entry's
/// identifier resolved to its string payload, deduplicated in first-seen
/// order.
pub open spec fn hot_names(ir: Seq<char>) -> Seq<Seq<char>> {
    let lines = lines_of(ir);
    let refs = refs_of(lines);
    dedup(resolved_upto(lines, refs, refs.len() as int))
}

proof fn lemma_dedup_distinct(s: Seq<Seq<char>>)
    ensures
        forall|p: int, q: int| 0 <= p < q < dedup(s).len() ==> dedup(s)[p] != dedup(s)[q],
    decreases s.len(),
{
    if s.len() > 0 {
        lemma_dedup_distinct(s.drop_last());
        let init = dedup(s.drop_last());
        if !init.contains(s.last()) {
            let d = init.push(s.last());
            assert forall|p: int, q: int| 0 <= p < q < d.len() implies d[p] != d[q] by {
                if q == d.len() - 1 {
                    if d[p] == s.last() {
                        assert(init[p] == s.last());
                        assert(init.contains(s.last()));
                    }
                } else {
                    assert(d[p] == init[p] && d[q] == init[q]);
                }
            }
        }
    }
}

proof fn lemma_dedup_sound(s: Seq<Seq<char>>, x: Seq<char>)
    requires
        dedup(s).contains(x),
    ensures
        s.contains(x),
    decreases s.len(),
{
    if s.len() > 0 {
        let init = dedup(s.drop_last());
        if init.contains(x) {
            lemma_dedup_sound(s.drop_last(), x);
            let k = choose|k: int| 0 <= k < s.drop_last().len() && s.drop_last()[k] == x;
            assert(s[k] == x);
        } else {
            assert(x == s.last());
            assert(s[s.len() - 1] == x);
        }
    }
}

proof fn lemma_resolved_sound(lines: Seq<Seq<char>>, refs: Seq<Seq<char>>, i: int, n: Seq<char>)
    requires
        resolved_upto(lines, refs, i).contains(n),
    ensures
        exists|k: int| 0 <= k < i && resolve_ref(lines, refs[k]) == Some(n),
    decreases i,
{
    if i > 0 {
        let init = resolved_upto(lines, refs, i - 1);
        match resolve_ref(lines, refs[i - 1]) {
            Some(x) => {
                if x == n {
                    assert(0 <= i - 1 < i && resolve_ref(lines, refs[i - 1]) == Some(n));
                } else {
                    let j = choose|j: int| 0 <= j < init.push(x).len() && init.push(x)[j] == n;
                    assert(init[j] == n);
                    assert(init.contains(n));
                    lemma_resolved_sound(lines, refs, i - 1, n);
                }
            },
            None => {
                lemma_resolved_sound(lines, refs, i - 1, n);
            },
        }
    }
}

proof fn lemma_refs_sound(lines: Seq<Seq<char>>, i: int, k: int)
    requires
        0 <= k < refs_upto(lines, i).len(),
    ensures
        exists|j: int|
            0 <= j < i && line_ref(lines[j]) == Some(refs_upto(lines, i)[k]),
    decreases i,
{
    if i > 0 {
        let init = refs_upto(lines, i - 1);
        match line_ref(lines[i - 1]) {
            Some(r) => {
                if k == init.len() {
                    assert(refs_upto(lines, i)[k] == r);
                    assert(0 <= i - 1 < i && line_ref(lines[i - 1]) == Some(
                        refs_upto(lines, i)[k],
                    ));
                } else {
                    lemma_refs_sound(lines, i - 1, k);
                    let j = choose|j: int|
                        0 <= j < i - 1 && line_ref(lines[j]) == Some(init[k]);
                    assert(refs_upto(lines, i)[k] == init[k]);
                    assert(0 <= j < i && line_ref(lines[j]) == Some(refs_upto(lines, i)[k]));
                }
            },
            None => {
                lemma_refs_sound(lines, i - 1, k);
                let j = choose|j: int| 0 <= j < i - 1 && line_ref(lines[j]) == Some(init[k]);
                assert(0 <= j < i && line_ref(lines[j]) == Some(refs_upto(lines, i)[k]));
            },
        }
    }
}

proof fn lemma_dedup_complete(s: Seq<Seq<char>>, x: Seq<char>)
    requires
        s.contains(x),
    ensures
        dedup(s).contains(x),
    decreases s.len(),
{
    let init = dedup(s.drop_last());
    if x == s.last() {
        if !init.contains(x) {
            assert(init.push(x)[init.len() as int] == x);
        }
    } else {
        let k = choose|k: int| 0 <= k < s.len() && s[k] == x;
        assert(s.drop_last()[k] == x);
        assert(s.drop_last().contains(x));
        lemma_dedup_complete(s.drop_last(), x);
        if !init.contains(s.last()) {
            let j = choose|j: int| 0 <= j < init.len() && init[j] == x;
            assert(init.push(s.last())[j] == x);
        }
    }
}

proof fn lemma_resolved_complete(
    lines: Seq<Seq<char>>,
    refs: Seq<Seq<char>>,
    i: int,
    k: int,
    n: Seq<char>,
)
    requires
        0 <= k < i,
        resolve_ref(lines, refs[k]) == Some(n),
    ensures
        resolved_upto(lines, refs, i).contains(n),
    decreases i,
{
    let init = resolved_upto(lines, refs, i - 1);
    if k == i - 1 {
        assert(init.push(n)[init.len() as int] == n);
    } else {
        lemma_resolved_complete(lines, refs, i - 1, k, n);
        let j = choose|j: int| 0 <= j < init.len() && init[j] == n;
        match resolve_ref(lines, refs[i - 1]) {
            Some(x) => {
                assert(init.push(x)[j] == n);
            },
            None => {},
        }
    }
}

proof fn lemma_refs_complete(lines: Seq<Seq<char>>, i: int, j: int, r: Seq<char>)
    requires
        0 <= j < i,
        line_ref(lines[j]) == Some(r),
    ensures
        refs_upto(lines, i).contains(r),
    decreases i,
{
    let init = refs_upto(lines, i - 1);
    if j == i - 1 {
        assert(init.push(r)[init.len() as int] == r);
    } else {
        lemma_refs_complete(lines, i - 1, j, r);
        let k = choose|k: int| 0 <= k < init.len() && init[k] == r;
        match line_ref(lines[i - 1]) {
            Some(x) => {
                assert(init.push(x)[k] == r);
            },
            None => {},
        }
    }
}

/// A name `n` came from a marked entry: some line carries a hot-function
/// entry whose identifier resolves to `n`.
pub open spec fn discovered_via(lines: Seq<Seq<char>>, n: Seq<char>) -> bool {
    exists|j: int, r: Seq<char>|
        0 <= j < lines.len() && line_ref(lines[j]) == Some(r) && resolve_ref(lines, r) == Some(n)
}

/// Discovery returns no duplicate name, and it returns exactly the names
/// resolved from entries marked in the hot-function section: every returned
/// name comes from a marked entry, and every marked entry that resolves
/// contributes its name.
pub proof fn lemma_discovery_exact(ir: Seq<char>)
    ensures
        forall|p: int, q: int|
            0 <= p < q < hot_names(ir).len() ==> hot_names(ir)[p] != hot_names(ir)[q],
        forall|n: Seq<char>| #[trigger]
            hot_names(ir).contains(n) <==> discovered_via(lines_of(ir), n),
{
    let lines = lines_of(ir);
    let refs = refs_of(lines);
    let resolved = resolved_upto(lines, refs, refs.len() as int);
    lemma_dedup_distinct(resolved);
    assert forall|n: Seq<char>| #[trigger] hot_names(ir).contains(n) implies discovered_via(
        lines,
        n,
    ) by {
        lemma_dedup_sound(resolved, n);
        lemma_resolved_sound(lines, refs, refs.len() as int, n);
        let k = choose|k: int| 0 <= k < refs.len() && resolve_ref(lines, refs[k]) == Some(n);
        lemma_refs_sound(lines, lines.len() as int, k);
        let j = choose|j: int| 0 <= j < lines.len() && line_ref(lines[j]) == Some(refs[k]);
        assert(0 <= j < lines.len() && line_ref(lines[j]) == Some(refs[k]) && resolve_ref(
            lines,
            refs[k],
        ) == Some(n));
    }
    assert forall|n: Seq<char>| discovered_via(lines, n) implies #[trigger] hot_names(ir).contains(
        n,
    ) by {
        let (j, r): (int, Seq<char>) = choose|j: int, r: Seq<char>|
            0 <= j < lines.len() && line_ref(lines[j]) == Some(r) && resolve_ref(lines, r) == Some(
                n,
            );
        lemma_refs_complete(lines, lines.len() as int, j, r);
        let k = choose|k: int| 0 <= k < refs.len() && refs[k] == r;
        lemma_resolved_complete(lines, refs, refs.len() as int, k, n);
        lemma_dedup_complete(resolved, n);
    }
}

proof fn lemma_dedup_identity(s: Seq<Seq<char>>)
    requires
        forall|p: int, q: int| 0 <= p < q < s.len() ==> s[p] != s[q],
    ensures
        dedup(s) == s,
    decreases s.len(),
{
    if s.len() > 0 {
        assert forall|p: int, q: int|
            0 <= p < q < s.drop_last().len() implies s.drop_last()[p] != s.drop_last()[q] by {
            assert(s[p] != s[q]);
        }
        lemma_dedup_identity(s.drop_last());
        let init = s.drop_last();
        if init.contains(s.last()) {
            let k = choose|k: int| 0 <= k < init.len() && init[k] == s.last();
            assert(s[k] == s[s.len() - 1]);
        }
        assert(init.push(s.last()) =~= s);
    }
}

/// The names the marked entries resolve to, in entry order, before
/// deduplication.
pub open spec fn resolved_names(ir: Seq<char>) -> Seq<Seq<char>> {
    let lines = lines_of(ir);
    let refs = refs_of(lines);
    resolved_upto(lines, refs, refs.len() as int)
}

/// When the marked entries resolve to pairwise distinct names, discovery
/// returns exactly those names, one per resolving entry, in entry order:
/// N well-formed entries referencing N distinct constants give exactly N
/// names.
pub proof fn lemma_discovery_count(ir: Seq<char>)
    requires
        forall|p: int, q: int|
            0 <= p < q < resolved_names(ir).len() ==> resolved_names(ir)[p] != resolved_names(
                ir,
            )[q],
    ensures
        hot_names(ir) == resolved_names(ir),
{
    lemma_dedup_identity(resolved_names(ir));
}

proof fn lemma_refs_empty(lines: Seq<Seq<char>>, i: int)
    requires
        i <= lines.len(),
        forall|j: int| 0 <= j < lines.len() ==> line_ref(lines[j]) is None,
    ensures
        refs_upto(lines, i) == Seq::<Seq<char>>::empty(),
    decreases i,
{
    if i > 0 {
        lemma_refs_empty(lines, i - 1);
        assert(line_ref(lines[i - 1]) is None);
    }
}

/// Discovery on IR text without hot-function entries returns the empty set.
pub proof fn lemma_discovery_empty(ir: Seq<char>)
    requires
        forall|j: int| 0 <= j < lines_of(ir).len() ==> line_ref(lines_of(ir)[j]) is None,
    ensures
        hot_names(ir) == Seq::<Seq<char>>::empty(),
{
    let lines = lines_of(ir);
    lemma_refs_empty(lines, lines.len() as int);
    assert(refs_of(lines).len() == 0);
}

/// The set of hot-function names discovered in an IR text: no duplicates,
/// first-seen order.
pub struct HotFunctionSet {
    names: Vec<String>,
}

impl View for HotFunctionSet {
    type V = Seq<Seq<char>>;

    closed spec fn view(&self) -> Seq<Seq<char>> {
        self.names.deep_view()
    }
}

impl HotFunctionSet {
    /// The number of discovered names.
    pub fn len(&self) -> (r: usize)
        ensures
            r == self@.len(),
    {
        self.names.len()
    }

    /// Whether no hot function was discovered.
    pub fn is_empty(&self) -> (r: bool)
        ensures
            r == (self@.len() == 0),
    {
        self.names.len() == 0
    }

    /// Whether `name` is among the discovered names.
    pub fn contains(&self, name: &str) -> (r: bool)
        ensures
            r == self@.contains(name@),
    {
        let n = self.names.len();
        let mut i: usize = 0;
        while i < n
            invariant
                i <= n,
                n == self.names@.len(),
                forall|k: int| 0 <= k < i ==> self@[k] != name@,
            decreases n - i,
        {
            if eq_str(self.names[i].as_str(), name) {
                proof {
                    assert(self@[i as int] == name@);
                }
                return true;
            }
            i = i + 1;
        }
        false
    }

    /// The discovered name at position `i`, in first-seen order.
    pub fn get(&self, i: usize) -> (r: &str)
        requires
            i < self@.len(),
        ensures
            r@ == self@[i as int],
    {
        self.names[i].as_str()
    }
}

/// Whether `s` occurs in `v`.
fn contains_string(v: &Vec<String>, s: &str) -> (r: bool)
    ensures
        r == v.deep_view().contains(s@),
{
    let n = v.len();
    let mut i: usize = 0;
    while i < n
        invariant
            i <= n,
            n == v@.len(),
            forall|k: int| 0 <= k < i ==> v.deep_view()[k] != s@,
        decreases n - i,
    {
        if eq_str(v[i].as_str(), s) {
            proof {
                assert(v.deep_view()[i as int] == s@);
            }
            return true;
        }
        i = i + 1;
    }
    false
}

/// Whether a section designator occurs at or after `from`.
#[verifier::loop_isolation(false)]
fn has_section_mark(lc: &Vec<char>, from: usize, sec: &Vec<char>, hot: &Vec<char>) -> (r: bool)
    requires
        sec@ == kw_section(),
        hot@ == kw_hot_section(),
        from <= lc@.len(),
    ensures
        r == section_mark_from(lc@, from as int),
{
    let n = lc.len();
    let mut s: usize = from;
    while s < n
        invariant
            from <= s <= n,
            forall|t: int| from <= t < s ==> !section_mark_at(lc@, t),
        decreases n - s,
    {
        if match_eq_at(lc, sec, s) {
            let g = ws_end(lc, s + 7);
            if g > s + 7 && match_eq_at(lc, hot, g) {
                proof {
                    assert(section_mark_at(lc@, s as int));
                }
                return true;
            }
        }
        proof {
            assert(!section_mark_at(lc@, s as int));
        }
        s = s + 1;
    }
    proof {
        assert forall|t: int| from <= t implies !section_mark_at(lc@, t) by {
            if t >= n {
                assert(!match_at(lc@, kw_section(), t));
            }
        }
    }
    false
}

/// The hot-function entry identifier starting exactly at `i`, as
/// `hot_entry_at`.
#[verifier::loop_isolation(false)]
fn hot_entry<'a>(
    line: &'a str,
    lc: &Vec<char>,
    i: usize,
    ptrv: &Vec<char>,
    allocp: &Vec<char>,
    sec: &Vec<char>,
    hot: &Vec<char>,
) -> (r: Option<&'a str>)
    requires
        lc@ == line@,
        lc@.len() <= usize::MAX,
        ptrv@ == kw_ptr(),
        allocp@ == kw_alloc_prefix(),
        sec@ == kw_section(),
        hot@ == kw_hot_section(),
    ensures
        match r {
            Some(s) => hot_entry_at(lc@, i as int) == Some(s@),
            None => hot_entry_at(lc@, i as int) is None,
        },
{
    if !match_eq_at(lc, ptrv, i) {
        return None;
    }
    let g = ws_end(lc, i + 3);
    if g == i + 3 {
        return None;
    }
    if !match_eq_at(lc, allocp, g) {
        return None;
    }
    let w = word_end(lc, g + 1);
    if w <= g + 7 {
        return None;
    }
    if !has_section_mark(lc, w, sec, hot) {
        return None;
    }
    let s = line.substring_char(g, w);
    Some(s)
}

/// The identifier referenced by the hot-function entry on `line`, if any, as
/// `line_ref`.
#[verifier::loop_isolation(false)]
fn line_hot_ref<'a>(line: &'a str) -> (r: Option<&'a str>)
    ensures
        match r {
            Some(s) => line_ref(line@) == Some(s@),
            None => line_ref(line@) is None,
        },
{
    let lc = to_chars(line);
    let ptrv = to_chars("ptr");
    let allocp = to_chars("@alloc_");
    let sec = to_chars("section");
    let hot = to_chars("\".hot_funcs\"");
    proof {
        reveal_strlit("ptr");
        reveal_strlit("@alloc_");
        reveal_strlit("section");
        reveal_strlit("\".hot_funcs\"");
        assert(ptrv@ =~= kw_ptr());
        assert(allocp@ =~= kw_alloc_prefix());
        assert(sec@ =~= kw_section());
        assert(hot@ =~= kw_hot_section());
    }
    let n = lc.len();
    let mut i: usize = 0;
    while i < n
        invariant
            i <= n,
            line_ref_from(lc@, 0) == line_ref_from(lc@, i as int),
        decreases n - i,
    {
        match hot_entry(line, &lc, i, &ptrv, &allocp, &sec, &hot) {
            Some(s) => {
                return Some(s);
            },
            None => {},
        }
        i = i + 1;
    }
    None
}

/// The payload of the first string constant at or after `t0` on `line`, as
/// `first_payload_from`.
#[verifier::loop_isolation(false)]
fn first_payload(line: &str, lc: &Vec<char>, t0: usize) -> (res: Option<String>)
    requires
        lc@ == line@,
        t0 <= lc@.len(),
    ensures
        match res {
            Some(nm) => first_payload_from(lc@, t0 as int) == Some(nm@),
            None => first_payload_from(lc@, t0 as int) is None,
        },
{
    let cq = to_chars("c\"");
    let nul = to_chars("\\00\"");
    let mut quote: Vec<char> = Vec::new();
    quote.push('"');
    proof {
        reveal_strlit("c\"");
        reveal_strlit("\\00\"");
        assert(cq@ =~= kw_cquote());
        assert(nul@ =~= kw_nul());
        assert(quote@ =~= seq!['"']);
    }
    let n = lc.len();
    let mut t: usize = t0;
    while t < n
        invariant
            t0 <= t <= n,
            first_payload_from(lc@, t0 as int) == first_payload_from(lc@, t as int),
        decreases n - t,
    {
        if match_eq_at(lc, &cq, t) {
            match find_in(lc, &quote, t + 2) {
                Some(e) => {
                    proof {
                        lemma_find_from(lc@, seq!['"'], t as int + 2);
                    }
                    if e - t >= 6 && match_eq_at(lc, &nul, e - 3) {
                        let s = line.substring_char(t + 2, e - 3);
                        proof {
                            assert(payload_at(lc@, t as int) == Some(s@));
                        }
                        return Some(String::from_str(s));
                    }
                },
                None => {},
            }
        }
        proof {
            assert(payload_at(lc@, t as int) is None);
        }
        t = t + 1;
    }
    None
}

/// The payload of the definition of `r` on `line`, if any, as `line_def`.
#[verifier::loop_isolation(false)]
fn line_def_exec(line: &str, r: &str) -> (res: Option<String>)
    ensures
        match res {
            Some(nm) => line_def(line@, r@) == Some(nm@),
            None => line_def(line@, r@) is None,
        },
{
    let lc = to_chars(line);
    let rc = to_chars(r);
    let n = lc.len();
    let rl = rc.len();
    let mut m: usize = 0;
    while m < n
        invariant
            m <= n,
            line_def_from(lc@, rc@, 0) == line_def_from(lc@, rc@, m as int),
        decreases n - m,
    {
        if match_eq_at(&lc, &rc, m) {
            let g = ws_end(&lc, m + rl);
            if g < n {
                if lc[g] == '=' {
                    proof {
                        assert(def_at(lc@, rc@, m as int));
                    }
                    let res = first_payload(line, &lc, g + 1);
                    return res;
                }
            }
            proof {
                assert(!def_at(lc@, rc@, m as int));
            }
        }
        m = m + 1;
    }
    None
}

/// The name that identifier `r` resolves to, as `resolve_ref` over the lines.
#[verifier::loop_isolation(false)]
fn resolve_ref_exec(lines: &Vec<&str>, r: &str) -> (res: Option<String>)
    ensures
        match res {
            Some(nm) => resolve_ref(lines.deep_view(), r@) == Some(nm@),
            None => resolve_ref(lines.deep_view(), r@) is None,
        },
{
    let n = lines.len();
    let mut i: usize = 0;
    while i < n
        invariant
            i <= n,
            resolve_from(lines.deep_view(), r@, 0) == resolve_from(lines.deep_view(), r@, i as int),
        decreases n - i,
    {
        match line_def_exec(lines[i], r) {
            Some(nm) => {
                proof {
                    assert(lines.deep_view()[i as int] == lines@[i as int]@);
                }
                return Some(nm);
            },
            None => {
                proof {
                    assert(lines.deep_view()[i as int] == lines@[i as int]@);
                }
            },
        }
        i = i + 1;
    }
    None
}

/// Discovers hot functions from the IR's `.hot_funcs` section entries, as
/// `hot_names`.
#[verifier::loop_isolation(false)]
pub fn find_hot_functions_from_ir(ir: &str) -> (r: HotFunctionSet)
    ensures
        r@ == hot_names(ir@),
{
    let lines = split_lines(ir);
    let ghost ls = lines_of(ir@);
    let n = lines.len();
    let mut refs: Vec<&str> = Vec::new();
    let mut i: usize = 0;
    while i < n
        invariant
            i <= n,
            refs.deep_view() == refs_upto(ls, i as int),
        decreases n - i,
    {
        let ghost prev = refs.deep_view();
        proof {
            assert(lines.deep_view()[i as int] == lines@[i as int]@);
        }
        match line_hot_ref(lines[i]) {
            Some(s) => {
                refs.push(s);
                proof {
                    assert(refs.deep_view() =~= prev.push(s@));
                }
            },
            None => {},
        }
        i = i + 1;
    }
    proof {
        assert(refs.deep_view() == refs_of(ls));
    }
    let ghost rs = refs_of(ls);
    let m = refs.len();
    let mut names: Vec<String> = Vec::new();
    proof {
        assert(names.deep_view() =~= Seq::<Seq<char>>::empty());
        assert(dedup(resolved_upto(ls, rs, 0)) == Seq::<Seq<char>>::empty());
    }
    let mut k: usize = 0;
    while k < m
        invariant
            k <= m,
            m == rs.len(),
            names.deep_view() == dedup(resolved_upto(ls, rs, k as int)),
        decreases m - k,
    {
        proof {
            assert(refs.deep_view()[k as int] == refs@[k as int]@);
        }
        let found = resolve_ref_exec(&lines, refs[k]);
        match found {
            Some(nm) => {
                let ghost prev = resolved_upto(ls, rs, k as int);
                proof {
                    assert(resolved_upto(ls, rs, k as int + 1) == prev.push(nm@));
                    assert(prev.push(nm@).drop_last() =~= prev);
                    assert(prev.push(nm@).last() == nm@);
                    assert(dedup(prev.push(nm@)) == if dedup(prev).contains(nm@) {
                        dedup(prev)
                    } else {
                        dedup(prev).push(nm@)
                    });
                }
                if !contains_string(&names, nm.as_str()) {
                    let ghost prevnames = names.deep_view();
                    names.push(nm);
                    proof {
                        assert(names.deep_view() =~= prevnames.push(prev.push(nm@).last()));
                    }
                }
            },
            None => {
                proof {
                    assert(resolved_upto(ls, rs, k as int + 1) == resolved_upto(
                        ls,
                        rs,
                        k as int,
                    ));
                }
            },
        }
        k = k + 1;
    }
    HotFunctionSet { names }
}

} // verus!
