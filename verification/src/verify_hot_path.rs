//! Verification of hot-path functions.
//!
//! A verifier holds an ordered list of checks. Verifying one function
//! extracts its body from the IR text and scans the body line by line,
//! running every check in registration order on each line: the first
//! `Error`-severity finding aborts the verification with that finding, while
//! `Warning`-severity findings are accumulated and returned on success.

use vstd::prelude::*;

use crate::checks::AllocationCheck;
use crate::checks::AtomicCheck;
use crate::checks::Check;
use crate::checks::DivisionCheck;
use crate::checks::FunctionCallCheck;
use crate::checks::HotPathCheck;
use crate::checks::IndirectionCheck;
use crate::checks::NonInboundsGepCheck;
use crate::checks::Severity;
use crate::checks::UnalignedAccessCheck;
use crate::checks::VolatileLoadCheck;
use crate::checks::VolatileStoreCheck;
use crate::discover::find_hot_functions_from_ir;
use crate::discover::hot_names;
use crate::extract::extract_body;
use crate::extract::find_function_body;
use crate::text::lines_of;
use crate::text::split_lines;

verus! {

/// The message of the first `Error`-severity check at or after position `j`
/// that fires on line `l`, if any.
pub open spec fn line_error_from(cs: Seq<Check>, l: Seq<char>, j: int) -> Option<Seq<char>>
    decreases cs.len() - j
    when 0 <= j
{
    if j >= cs.len() {
        None
    } else if cs[j].fires(l) && cs[j].spec_severity() == Severity::Error {
        Some(cs[j].message())
    } else {
        line_error_from(cs, l, j + 1)
    }
}

/// The message of the first `Error`-severity check (in registration order)
/// that fires on line `l`, if any.
pub open spec fn line_error(cs: Seq<Check>, l: Seq<char>) -> Option<Seq<char>> {
    line_error_from(cs, l, 0)
}

/// The messages of the `Warning`-severity checks that fire on line `l`, in
/// registration order.
pub open spec fn line_warnings(cs: Seq<Check>, l: Seq<char>) -> Seq<Seq<char>>
    decreases cs.len()
{
    if cs.len() == 0 {
        Seq::empty()
    } else {
        let init = line_warnings(cs.drop_last(), l);
        if cs.last().fires(l) && cs.last().spec_severity() == Severity::Warning {
            init.push(cs.last().message())
        } else {
            init
        }
    }
}

/// The warnings of the first `i` lines, concatenated in line order.
pub open spec fn warnings_upto(cs: Seq<Check>, lines: Seq<Seq<char>>, i: int) -> Seq<Seq<char>>
    decreases i
{
    if i <= 0 {
        Seq::empty()
    } else {
        warnings_upto(cs, lines, i - 1) + line_warnings(cs, lines[i - 1])
    }
}

/// The result of scanning `lines[i..]`: the first line with an
/// `Error`-severity finding fails the scan with that finding's message and
/// discards all warnings; otherwise all warnings are collected in order.
pub open spec fn scan_from(cs: Seq<Check>, lines: Seq<Seq<char>>, i: int) -> Result<
    Seq<Seq<char>>,
    Seq<char>,
>
    decreases lines.len() + 1 - i
    when 0 <= i
{
    if i >= lines.len() {
        Ok(Seq::empty())
    } else {
        match line_error(cs, lines[i]) {
            Some(m) => Err(m),
            None => match scan_from(cs, lines, i + 1) {
                Ok(ws) => Ok(line_warnings(cs, lines[i]) + ws),
                Err(m) => Err(m),
            },
        }
    }
}

/// A finding message qualified by the function it was found in.
pub open spec fn with_name(f: Seq<char>, m: Seq<char>) -> Seq<char> {
    f + ": "@ + m
}

/// Every message of `ms` qualified by the function name `f`.
pub open spec fn with_names(f: Seq<char>, ms: Seq<Seq<char>>) -> Seq<Seq<char>> {
    ms.map_values(|m: Seq<char>| with_name(f, m))
}

/// The failure message when a requested function has no definition in the IR.
pub open spec fn not_found_msg(f: Seq<char>) -> Seq<char> {
    "Function "@ + f + " not found in IR"@
}

/// The full result of verifying `fname` against `ir` with checks `cs`:
/// a `NotFound` failure when no definition matches, otherwise the scan of the
/// body's lines, with every message qualified by the function name.
pub open spec fn spec_verify(cs: Seq<Check>, ir: Seq<char>, fname: Seq<char>) -> Result<
    Seq<Seq<char>>,
    Seq<char>,
> {
    match extract_body(ir, fname) {
        None => Err(not_found_msg(fname)),
        Some(body) => match scan_from(cs, lines_of(body), 0) {
            Ok(ws) => Ok(with_names(fname, ws)),
            Err(m) => Err(with_name(fname, m)),
        },
    }
}

/// The view of an executable verification result.
pub open spec fn verify_result_view(r: Result<Vec<String>, String>) -> Result<
    Seq<Seq<char>>,
    Seq<char>,
> {
    match r {
        Ok(ws) => Ok(ws.deep_view()),
        Err(e) => Err(e@),
    }
}

/// The default check registration order.
pub open spec fn default_checks() -> Seq<Check> {
    seq![
        Check::Indirection(IndirectionCheck),
        Check::Allocation(AllocationCheck),
        Check::FunctionCall(FunctionCallCheck),
        Check::Atomic(AtomicCheck),
        Check::VolatileLoad(VolatileLoadCheck),
        Check::VolatileStore(VolatileStoreCheck),
        Check::Division(DivisionCheck),
        Check::UnalignedAccess(UnalignedAccessCheck),
        Check::NonInboundsGep(NonInboundsGepCheck),
    ]
}

/// Scanning from the start equals the warnings of the first `i` clean lines
/// composed with the scan of the rest.
proof fn lemma_scan_split(cs: Seq<Check>, lines: Seq<Seq<char>>, i: int)
    requires
        0 <= i <= lines.len(),
        forall|p: int| 0 <= p < i ==> line_error(cs, lines[p]) is None,
    ensures
        scan_from(cs, lines, 0) == match scan_from(cs, lines, i) {
            Ok(ws) => Ok::<Seq<Seq<char>>, Seq<char>>(warnings_upto(cs, lines, i) + ws),
            Err(m) => Err::<Seq<Seq<char>>, Seq<char>>(m),
        },
    decreases i,
{
    if i == 0 {
        match scan_from(cs, lines, 0) {
            Ok(ws) => {
                assert(warnings_upto(cs, lines, 0) + ws =~= ws);
            },
            Err(m) => {},
        }
    } else {
        lemma_scan_split(cs, lines, i - 1);
        assert(line_error(cs, lines[i - 1]) is None);
        match scan_from(cs, lines, i) {
            Ok(ws) => {
                assert(scan_from(cs, lines, i - 1) == Ok::<Seq<Seq<char>>, Seq<char>>(
                    line_warnings(cs, lines[i - 1]) + ws,
                ));
                assert(warnings_upto(cs, lines, i - 1) + (line_warnings(cs, lines[i - 1]) + ws)
                    =~= warnings_upto(cs, lines, i) + ws);
            },
            Err(m) => {
                assert(scan_from(cs, lines, i - 1) == Err::<Seq<Seq<char>>, Seq<char>>(m));
            },
        }
    }
}

/// A body scan succeeds exactly when no line carries an `Error`-severity
/// finding: `Warning`-severity findings never fail a function.
pub proof fn lemma_scan_ok_iff(cs: Seq<Check>, lines: Seq<Seq<char>>, i: int)
    requires
        0 <= i,
    ensures
        (scan_from(cs, lines, i) is Ok) <==> (forall|p: int|
            i <= p < lines.len() ==> line_error(cs, lines[p]) is None),
    decreases lines.len() + 1 - i,
{
    if i < lines.len() {
        lemma_scan_ok_iff(cs, lines, i + 1);
    }
}

proof fn lemma_line_error_quiet(cs: Seq<Check>, l: Seq<char>, j: int)
    requires
        0 <= j,
        forall|k: int| 0 <= k < cs.len() ==> !cs[k].fires(l),
    ensures
        line_error_from(cs, l, j) is None,
    decreases cs.len() - j,
{
    if j < cs.len() {
        lemma_line_error_quiet(cs, l, j + 1);
    }
}

proof fn lemma_line_warnings_quiet(cs: Seq<Check>, l: Seq<char>)
    requires
        forall|k: int| 0 <= k < cs.len() ==> !cs[k].fires(l),
    ensures
        line_warnings(cs, l) == Seq::<Seq<char>>::empty(),
    decreases cs.len(),
{
    if cs.len() > 0 {
        assert(forall|k: int|
            0 <= k < cs.drop_last().len() ==> cs.drop_last()[k] == cs[k]);
        lemma_line_warnings_quiet(cs.drop_last(), l);
        assert(!cs[cs.len() - 1].fires(l));
    }
}

/// A body on which no check fires at all scans to success with an empty
/// warning list.
pub proof fn lemma_scan_clean(cs: Seq<Check>, lines: Seq<Seq<char>>, i: int)
    requires
        0 <= i,
        forall|p: int, k: int|
            (0 <= p < lines.len() && 0 <= k < cs.len()) ==> !cs[k].fires(lines[p]),
    ensures
        scan_from(cs, lines, i) == Ok::<Seq<Seq<char>>, Seq<char>>(Seq::empty()),
    decreases lines.len() + 1 - i,
{
    if i < lines.len() {
        assert(forall|k: int| 0 <= k < cs.len() ==> !cs[k].fires(lines[i]));
        lemma_line_error_quiet(cs, lines[i], 0);
        lemma_line_warnings_quiet(cs, lines[i]);
        lemma_scan_clean(cs, lines, i + 1);
        assert(line_warnings(cs, lines[i]) + Seq::<Seq<char>>::empty() =~= Seq::<
            Seq<char>,
        >::empty());
    }
}

/// Fail-fast: the scan reports the error of the first line (in body order)
/// carrying an `Error`-severity finding, and that finding is the first (in
/// registration order) on that line; coexisting later findings are never
/// reported.
pub proof fn lemma_scan_fail_fast(cs: Seq<Check>, lines: Seq<Seq<char>>, k: int, m: Seq<char>)
    requires
        0 <= k < lines.len(),
        forall|p: int| 0 <= p < k ==> line_error(cs, lines[p]) is None,
        line_error(cs, lines[k]) == Some(m),
    ensures
        scan_from(cs, lines, 0) == Err::<Seq<Seq<char>>, Seq<char>>(m),
{
    lemma_scan_split(cs, lines, k);
}

proof fn lemma_line_error_from_skip(cs: Seq<Check>, l: Seq<char>, j: int, k: int)
    requires
        0 <= j <= k <= cs.len(),
        forall|t: int|
            j <= t < k ==> !(cs[t].fires(l) && cs[t].spec_severity() == Severity::Error),
    ensures
        line_error_from(cs, l, j) == line_error_from(cs, l, k),
    decreases k - j,
{
    if j < k {
        lemma_line_error_from_skip(cs, l, j + 1, k);
    }
}

/// The reported error of a line is the message of the first registered
/// `Error`-severity check that fires on it.
pub proof fn lemma_line_error_first(cs: Seq<Check>, l: Seq<char>, j: int)
    requires
        0 <= j < cs.len(),
        cs[j].fires(l),
        cs[j].spec_severity() == Severity::Error,
        forall|t: int|
            0 <= t < j ==> !(cs[t].fires(l) && cs[t].spec_severity() == Severity::Error),
    ensures
        line_error(cs, l) == Some(cs[j].message()),
{
    lemma_line_error_from_skip(cs, l, 0, j);
}

/// A registered `Warning`-severity check that fires on a line contributes
/// its message to the line's warnings.
pub proof fn lemma_line_warnings_member(cs: Seq<Check>, l: Seq<char>, j: int)
    requires
        0 <= j < cs.len(),
        cs[j].fires(l),
        cs[j].spec_severity() == Severity::Warning,
    ensures
        line_warnings(cs, l).contains(cs[j].message()),
    decreases cs.len(),
{
    let init = line_warnings(cs.drop_last(), l);
    if j == cs.len() - 1 {
        assert(init.push(cs.last().message())[init.len() as int] == cs[j].message());
    } else {
        assert(cs.drop_last()[j] == cs[j]);
        lemma_line_warnings_member(cs.drop_last(), l, j);
        let k = choose|k: int| 0 <= k < init.len() && init[k] == cs[j].message();
        if cs.last().fires(l) && cs.last().spec_severity() == Severity::Warning {
            assert(init.push(cs.last().message())[k] == cs[j].message());
        }
    }
}

proof fn lemma_warnings_upto_member(
    cs: Seq<Check>,
    lines: Seq<Seq<char>>,
    k: int,
    i: int,
    m: Seq<char>,
)
    requires
        0 <= k < i,
        line_warnings(cs, lines[k]).contains(m),
    ensures
        warnings_upto(cs, lines, i).contains(m),
    decreases i,
{
    let init = warnings_upto(cs, lines, i - 1);
    let lw = line_warnings(cs, lines[i - 1]);
    if k == i - 1 {
        let j = choose|j: int| 0 <= j < lw.len() && lw[j] == m;
        assert((init + lw)[init.len() + j] == m);
    } else {
        lemma_warnings_upto_member(cs, lines, k, i - 1, m);
        let j = choose|j: int| 0 <= j < init.len() && init[j] == m;
        assert((init + lw)[j] == m);
    }
}

/// On a successful scan, the warning of every `Warning`-severity check that
/// fires on some line stands in the returned list: warnings are accumulated,
/// never dropped, and never fail the function.
pub proof fn lemma_scan_reports_warning(cs: Seq<Check>, lines: Seq<Seq<char>>, k: int, j: int)
    requires
        0 <= k < lines.len(),
        0 <= j < cs.len(),
        cs[j].fires(lines[k]),
        cs[j].spec_severity() == Severity::Warning,
    ensures
        match scan_from(cs, lines, 0) {
            Ok(ws) => ws.contains(cs[j].message()) && ws.len() > 0,
            Err(e) => true,
        },
{
    match scan_from(cs, lines, 0) {
        Ok(ws) => {
            lemma_scan_ok_iff(cs, lines, 0);
            lemma_scan_split(cs, lines, lines.len() as int);
            assert(warnings_upto(cs, lines, lines.len() as int) + Seq::<Seq<char>>::empty()
                =~= warnings_upto(cs, lines, lines.len() as int));
            lemma_line_warnings_member(cs, lines[k], j);
            lemma_warnings_upto_member(cs, lines, k, lines.len() as int, cs[j].message());
        },
        Err(e) => {},
    }
}

/// With the default checks, a body line that calls an allocation symbol and
/// is not also an indirection fails the scan with the allocation message,
/// provided no earlier line carries an error; the failure carries that one
/// message and no warning accumulation.
pub proof fn lemma_allocation_error_reported(lines: Seq<Seq<char>>, k: int)
    requires
        0 <= k < lines.len(),
        forall|p: int| 0 <= p < k ==> line_error(default_checks(), lines[p]) is None,
        crate::checks::allocation_fires(lines[k]),
        !crate::checks::indirection_fires(lines[k]),
    ensures
        scan_from(default_checks(), lines, 0) == Err::<Seq<Seq<char>>, Seq<char>>(
            "contains allocation (real-time violation)"@,
        ),
{
    let cs = default_checks();
    assert(cs[0] == Check::Indirection(IndirectionCheck));
    assert(cs[1] == Check::Allocation(AllocationCheck));
    assert forall|t: int|
        0 <= t < 1 implies !(cs[t].fires(lines[k]) && cs[t].spec_severity()
        == Severity::Error) by {
        assert(!cs[0].fires(lines[k]));
    }
    lemma_line_error_first(cs, lines[k], 1);
    lemma_scan_fail_fast(cs, lines, k, cs[1].message());
}

/// With the default checks, a body holding an atomic operation on one line
/// and a non-allocation, non-intrinsic call on a later line fails on the
/// atomic finding alone — the coexisting call is never reported. More
/// generally: an atomic line on which no earlier-registered error check
/// fires reports the atomic message, provided earlier lines are clean.
pub proof fn lemma_atomic_error_reported(lines: Seq<Seq<char>>, k: int)
    requires
        0 <= k < lines.len(),
        forall|p: int| 0 <= p < k ==> line_error(default_checks(), lines[p]) is None,
        crate::checks::atomic_fires(lines[k]),
        !crate::checks::indirection_fires(lines[k]),
        !crate::checks::allocation_fires(lines[k]),
        !crate::checks::function_call_fires(lines[k]),
    ensures
        scan_from(default_checks(), lines, 0) == Err::<Seq<Seq<char>>, Seq<char>>(
            "contains atomic operation (real-time violation)"@,
        ),
{
    let cs = default_checks();
    assert(cs[0] == Check::Indirection(IndirectionCheck));
    assert(cs[1] == Check::Allocation(AllocationCheck));
    assert(cs[2] == Check::FunctionCall(FunctionCallCheck));
    assert(cs[3] == Check::Atomic(AtomicCheck));
    assert forall|t: int|
        0 <= t < 3 implies !(cs[t].fires(lines[k]) && cs[t].spec_severity()
        == Severity::Error) by {
        assert(!cs[0].fires(lines[k]));
        assert(!cs[1].fires(lines[k]));
        assert(!cs[2].fires(lines[k]));
    }
    lemma_line_error_first(cs, lines[k], 3);
    lemma_scan_fail_fast(cs, lines, k, cs[3].message());
}

/// With the default checks, a body with a volatile load is not failed for
/// it: whenever the scan succeeds, the returned warning list is non-empty
/// and holds the volatile-load message.
pub proof fn lemma_volatile_load_reported(lines: Seq<Seq<char>>, k: int)
    requires
        0 <= k < lines.len(),
        crate::checks::volatile_load_fires(lines[k]),
    ensures
        match scan_from(default_checks(), lines, 0) {
            Ok(ws) => ws.contains("volatile load (forces memory access, ~100-300 cycles)"@)
                && ws.len() > 0,
            Err(e) => true,
        },
{
    let cs = default_checks();
    assert(cs[4] == Check::VolatileLoad(VolatileLoadCheck));
    lemma_scan_reports_warning(cs, lines, k, 4);
}

/// The `NotFound` failure message names the requested function: the name
/// occurs verbatim inside it.
pub proof fn lemma_not_found_msg_names(f: Seq<char>)
    ensures
        crate::text::contains_seq(not_found_msg(f), f),
{
    reveal_strlit("Function ");
    reveal_strlit(" not found in IR");
    assert(not_found_msg(f).subrange(9, 9 + f.len() as int) =~= f);
    assert(crate::text::match_at(not_found_msg(f), f, 9));
}

/// Verification has no hidden state: two results of verifying the same name
/// against the same IR text with the same checks are identical.
pub proof fn lemma_verify_deterministic(
    cs: Seq<Check>,
    ir: Seq<char>,
    fname: Seq<char>,
    r1: Result<Vec<String>, String>,
    r2: Result<Vec<String>, String>,
)
    requires
        verify_result_view(r1) == spec_verify(cs, ir, fname),
        verify_result_view(r2) == spec_verify(cs, ir, fname),
    ensures
        verify_result_view(r1) == verify_result_view(r2),
{
}

/// A message list qualified element-wise: qualification distributes over
/// appending one message.
proof fn lemma_with_names_push(f: Seq<char>, ms: Seq<Seq<char>>, m: Seq<char>)
    ensures
        with_names(f, ms.push(m)) == with_names(f, ms).push(with_name(f, m)),
{
    assert(with_names(f, ms.push(m)) =~= with_names(f, ms).push(with_name(f, m)));
}

/// Builds `"<name>: <message>"`.
fn prefixed(f: &str, m: &str) -> (r: String)
    ensures
        r@ == with_name(f@, m@),
{
    let mut s = String::from_str(f);
    s.append(": ");
    s.append(m);
    s
}

/// Verifier for hot path functions with configurable checks.
///
/// The check list is fixed at construction and evaluated in registration
/// order on every line of every verified function.
pub struct HotPathVerifier {
    checks: Vec<Check>,
}

impl View for HotPathVerifier {
    type V = Seq<Check>;

    closed spec fn view(&self) -> Seq<Check> {
        self.checks@
    }
}

impl HotPathVerifier {
    /// A verifier with no checks registered.
    pub fn new() -> (r: Self)
        ensures
            r@ == Seq::<Check>::empty(),
    {
        HotPathVerifier { checks: Vec::new() }
    }

    /// Registers one more check, after all already registered.
    pub fn with_check(self, check: Check) -> (r: Self)
        ensures
            r@ == self@.push(check),
    {
        let mut s = self;
        s.checks.push(check);
        s
    }

    /// Registers the built-in checks in the default order.
    pub fn with_default_checks(self) -> (r: Self)
        ensures
            r@ == self@ + default_checks(),
    {
        let r = self.with_check(Check::Indirection(IndirectionCheck)).with_check(
            Check::Allocation(AllocationCheck),
        ).with_check(Check::FunctionCall(FunctionCallCheck)).with_check(
            Check::Atomic(AtomicCheck),
        ).with_check(Check::VolatileLoad(VolatileLoadCheck)).with_check(
            Check::VolatileStore(VolatileStoreCheck),
        ).with_check(Check::Division(DivisionCheck)).with_check(
            Check::UnalignedAccess(UnalignedAccessCheck),
        ).with_check(Check::NonInboundsGep(NonInboundsGepCheck));
        proof {
            assert(r@ =~= self@ + default_checks());
        }
        r
    }

    /// Verifies one function: returns the accumulated warning messages on
    /// success, or the first `Error`-severity finding (or the `NotFound`
    /// failure) as an error, exactly as `spec_verify` describes.
    #[verifier::loop_isolation(false)]
    pub fn verify(&self, ir: &str, func_name: &str) -> (r: Result<Vec<String>, String>)
        ensures
            verify_result_view(r) == spec_verify(self@, ir@, func_name@),
    {
        let body = match find_function_body(ir, func_name) {
            None => {
                let mut msg = String::from_str("Function ");
                msg.append(func_name);
                msg.append(" not found in IR");
                proof {
                    assert(msg@ =~= not_found_msg(func_name@));
                }
                return Err(msg);
            },
            Some(b) => b,
        };
        let lines = split_lines(body);
        let ghost lseq = lines_of(body@);
        let ghost cs = self@;
        let ghost fname = func_name@;
        let mut warnings: Vec<String> = Vec::new();
        proof {
            assert(warnings.deep_view() =~= with_names(fname, warnings_upto(cs, lseq, 0)));
        }
        let n = lines.len();
        let mut i: usize = 0;
        while i < n
            invariant
                i <= n,
                warnings.deep_view() == with_names(fname, warnings_upto(cs, lseq, i as int)),
                forall|p: int| 0 <= p < i ==> line_error(cs, lseq[p]) is None,
            decreases n - i,
        {
            let line: &str = lines[i];
            proof {
                assert(line@ == lseq[i as int]);
            }
            let m = self.checks.len();
            let mut j: usize = 0;
            while j < m
                invariant
                    j <= m,
                    i < n,
                    line_error_from(cs, lseq[i as int], 0) == line_error_from(
                        cs,
                        lseq[i as int],
                        j as int,
                    ),
                    warnings.deep_view() == with_names(
                        fname,
                        warnings_upto(cs, lseq, i as int) + line_warnings(
                            cs.take(j as int),
                            lseq[i as int],
                        ),
                    ),
                decreases m - j,
            {
                let c = self.checks[j];
                let finding = c.check_line(line);
                match finding {
                    Some(msg) => {
                        match c.severity() {
                            Severity::Error => {
                                proof {
                                    assert(line_error(cs, lseq[i as int]) == Some(c.message()));
                                    assert(scan_from(cs, lseq, i as int) == Err::<
                                        Seq<Seq<char>>,
                                        Seq<char>,
                                    >(c.message()));
                                    lemma_scan_split(cs, lseq, i as int);
                                }
                                return Err(prefixed(func_name, msg.as_str()));
                            },
                            Severity::Warning => {
                                let ghost prev = warnings_upto(cs, lseq, i as int)
                                    + line_warnings(cs.take(j as int), lseq[i as int]);
                                warnings.push(prefixed(func_name, msg.as_str()));
                                proof {
                                    assert(cs.take(j as int + 1).drop_last() =~= cs.take(j as int));
                                    assert(cs.take(j as int + 1).last() == cs[j as int]);
                                    assert(line_warnings(cs.take(j as int + 1), lseq[i as int])
                                        == line_warnings(cs.take(j as int), lseq[i as int]).push(
                                        c.message(),
                                    ));
                                    assert(warnings_upto(cs, lseq, i as int) + line_warnings(
                                        cs.take(j as int + 1),
                                        lseq[i as int],
                                    ) =~= prev.push(c.message()));
                                    lemma_with_names_push(fname, prev, c.message());
                                    assert(warnings.deep_view() =~= with_names(fname, prev).push(
                                        with_name(fname, c.message()),
                                    ));
                                }
                            },
                        }
                    },
                    None => {
                        proof {
                            assert(cs.take(j as int + 1).drop_last() =~= cs.take(j as int));
                            assert(cs.take(j as int + 1).last() == cs[j as int]);
                            assert(line_warnings(cs.take(j as int + 1), lseq[i as int])
                                == line_warnings(cs.take(j as int), lseq[i as int]));
                        }
                    },
                }
                j = j + 1;
            }
            proof {
                assert(line_error(cs, lseq[i as int]) is None);
                assert(cs.take(m as int) =~= cs);
                assert(warnings_upto(cs, lseq, i as int + 1) == warnings_upto(cs, lseq, i as int)
                    + line_warnings(cs, lseq[i as int]));
            }
            i = i + 1;
        }
        proof {
            lemma_scan_split(cs, lseq, n as int);
            assert(scan_from(cs, lseq, n as int) == Ok::<Seq<Seq<char>>, Seq<char>>(
                Seq::empty(),
            ));
            assert(warnings_upto(cs, lseq, n as int) + Seq::<Seq<char>>::empty() =~= warnings_upto(
                cs,
                lseq,
                n as int,
            ));
        }
        Ok(warnings)
    }
}

impl Default for HotPathVerifier {
    /// The verifier with the built-in checks in the default order.
    fn default() -> (r: Self)
        ensures
            r@ == default_checks(),
    {
        let r = HotPathVerifier::new().with_default_checks();
        proof {
            assert(Seq::<Check>::empty() + default_checks() =~= default_checks());
        }
        r
    }
}

/// Verifies a single hot function using the default checks; warnings are
/// dropped, an `Error`-severity finding or a missing definition is returned.
pub fn verify_hot_function(ir: &str, func_name: &str) -> (r: Result<(), String>)
    ensures
        match r {
            Ok(u) => spec_verify(default_checks(), ir@, func_name@) is Ok,
            Err(e) => spec_verify(default_checks(), ir@, func_name@) == Err::<
                Seq<Seq<char>>,
                Seq<char>,
            >(e@),
        },
{
    let verifier = HotPathVerifier::default();
    match verifier.verify(ir, func_name) {
        Ok(_) => Ok(()),
        Err(e) => Err(e),
    }
}

/// The batch result over the names from position `i` on: the first name
/// whose verification fails aborts the batch with that failure.
pub open spec fn batch_from(cs: Seq<Check>, ir: Seq<char>, names: Seq<Seq<char>>, i: int) -> Result<
    (),
    Seq<char>,
>
    decreases names.len() + 1 - i
    when 0 <= i
{
    if i >= names.len() {
        Ok(())
    } else {
        match spec_verify(cs, ir, names[i]) {
            Err(m) => Err(m),
            Ok(ws) => batch_from(cs, ir, names, i + 1),
        }
    }
}

/// The result of verifying every discovered hot function of `ir` in
/// first-seen order with the default checks.
pub open spec fn spec_batch(ir: Seq<char>) -> Result<(), Seq<char>> {
    batch_from(default_checks(), ir, hot_names(ir), 0)
}

/// Discovers all hot functions in `ir` and verifies each in turn with the
/// default checks; the first failure aborts the whole batch.
#[verifier::loop_isolation(false)]
pub fn verify_hot_path_functions(ir: &str) -> (r: Result<(), String>)
    ensures
        match r {
            Ok(u) => spec_batch(ir@) is Ok,
            Err(e) => spec_batch(ir@) == Err::<(), Seq<char>>(e@),
        },
{
    let verifier = HotPathVerifier::default();
    let hot = find_hot_functions_from_ir(ir);
    let ghost names = hot_names(ir@);
    let n = hot.len();
    let mut i: usize = 0;
    while i < n
        invariant
            i <= n,
            batch_from(default_checks(), ir@, names, 0) == batch_from(
                default_checks(),
                ir@,
                names,
                i as int,
            ),
        decreases n - i,
    {
        let name = hot.get(i);
        match verifier.verify(ir, name) {
            Err(e) => {
                return Err(e);
            },
            Ok(_) => {},
        }
        i = i + 1;
    }
    Ok(())
}

} // verus!
