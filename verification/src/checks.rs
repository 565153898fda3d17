//! The check abstraction and the built-in line checks.
//!
//! A check is a stateless, line-local analysis: given one line of IR text it
//! either fires with a fixed message or stays silent, and it carries a fixed
//! severity. `Error` findings are hard real-time violations; `Warning`
//! findings are performance concerns.

use vstd::prelude::*;

use crate::text::contains_in;
use crate::text::contains_seq;
use crate::text::dec_digit;
use crate::text::is_dec_digit;
use crate::text::match_at;
use crate::text::match_eq_at;
use crate::text::to_chars;

verus! {

/// Severity of a finding: `Error` fails verification, `Warning` is reported
/// alongside success.
#[derive(Debug, Clone, Copy, PartialEq, Eq, Structural)]
pub enum Severity {
    Error,
    Warning,
}

/// A hot-path line check: a name, a fixed severity, and a per-line test.
///
/// `fires` and `message` are the specification of `check_line`: the check
/// returns its message exactly on the lines on which it fires.
pub trait HotPathCheck: Sized {
    spec fn spec_name(&self) -> Seq<char>;

    spec fn spec_severity(&self) -> Severity;

    spec fn fires(&self, line: Seq<char>) -> bool;

    spec fn message(&self) -> Seq<char>;

    fn name(&self) -> (r: &str)
        ensures
            r@ == self.spec_name(),
    ;

    fn severity(&self) -> (r: Severity)
        ensures
            r == self.spec_severity(),
    ;

    fn check_line(&self, line: &str) -> (r: Option<String>)
        ensures
            match r {
                Some(m) => self.fires(line@) && m@ == self.message(),
                None => !self.fires(line@),
            },
    ;
}

/// A call instruction naming a known allocator symbol.
pub open spec fn allocation_fires(l: Seq<char>) -> bool {
    contains_seq(l, "call"@) && (contains_seq(l, "@malloc"@) || contains_seq(l, "@calloc"@)
        || contains_seq(l, "@realloc"@) || contains_seq(l, "@alloc"@) || contains_seq(
        l,
        "@__rust_alloc"@,
    ) || contains_seq(l, "@__rust_realloc"@))
}

/// An atomic read-modify-write, compare-and-swap, or fence instruction.
pub open spec fn atomic_fires(l: Seq<char>) -> bool {
    contains_seq(l, "atomicrmw"@) || contains_seq(l, "cmpxchg"@) || contains_seq(l, " fence "@)
}

/// An invoke- or callbr-style instruction: indirect or unwinding control flow.
pub open spec fn indirection_fires(l: Seq<char>) -> bool {
    contains_seq(l, "invoke"@) || contains_seq(l, "callbr"@)
}

/// A call that is neither a compiler intrinsic nor a call to one of the
/// allocator symbols, which the allocation check already classifies.
pub open spec fn function_call_fires(l: Seq<char>) -> bool {
    contains_seq(l, "call"@) && !contains_seq(l, "@llvm."@) && !(contains_seq(l, "@malloc"@)
        || contains_seq(l, "@calloc"@) || contains_seq(l, "@realloc"@) || contains_seq(
        l,
        "@alloc"@,
    ) || contains_seq(l, "@__rust_alloc"@) || contains_seq(l, "@__rust_realloc"@))
}

/// A load instruction marked volatile.
pub open spec fn volatile_load_fires(l: Seq<char>) -> bool {
    contains_seq(l, "load"@) && contains_seq(l, "volatile"@)
}

/// A store instruction marked volatile.
pub open spec fn volatile_store_fires(l: Seq<char>) -> bool {
    contains_seq(l, "store"@) && contains_seq(l, "volatile"@)
}

/// Integer division or remainder, signed or unsigned.
pub open spec fn division_fires(l: Seq<char>) -> bool {
    contains_seq(l, " sdiv "@) || contains_seq(l, " udiv "@) || contains_seq(l, " srem "@)
        || contains_seq(l, " urem "@)
}

/// The byte-alignment annotation.
pub open spec fn kw_align_one() -> Seq<char> {
    seq!['a', 'l', 'i', 'g', 'n', ' ', '1']
}

/// `align 1` starts at `i` as a complete alignment value: the next character
/// is not a further digit, so `align 16` and the like do not qualify.
pub open spec fn align_one_at(l: Seq<char>, i: int) -> bool {
    match_at(l, kw_align_one(), i) && (i + 7 == l.len() || !dec_digit(l[i + 7]))
}

/// The line is annotated with alignment exactly 1.
pub open spec fn has_align_one(l: Seq<char>) -> bool {
    exists|i: int| align_one_at(l, i)
}

/// A load or store annotated with alignment exactly 1 (byte alignment).
pub open spec fn unaligned_fires(l: Seq<char>) -> bool {
    (contains_seq(l, "load"@) || contains_seq(l, "store"@)) && has_align_one(l)
}

/// Pointer arithmetic without an in-bounds guarantee.
pub open spec fn non_inbounds_gep_fires(l: Seq<char>) -> bool {
    contains_seq(l, "getelementptr"@) && !contains_seq(l, "inbounds"@)
}

/// Whether the line carries an `align 1` annotation whose value is exactly 1.
fn line_has_align_one(lc: &Vec<char>) -> (r: bool)
    ensures
        r == has_align_one(lc@),
{
    let needle = to_chars("align 1");
    proof {
        reveal_strlit("align 1");
        assert(needle@ =~= kw_align_one());
    }
    let n = lc.len();
    let mut i: usize = 0;
    while i < n
        invariant
            i <= n,
            n == lc@.len(),
            needle@ == kw_align_one(),
            forall|t: int| 0 <= t < i ==> !align_one_at(lc@, t),
        decreases n - i,
    {
        if match_eq_at(lc, &needle, i) {
            if i + 7 == n || !is_dec_digit(lc[i + 7]) {
                proof {
                    assert(align_one_at(lc@, i as int));
                }
                return true;
            }
        }
        proof {
            assert(!align_one_at(lc@, i as int));
        }
        i = i + 1;
    }
    proof {
        assert forall|t: int| !align_one_at(lc@, t) by {
            if !(0 <= t < n) {
                assert(!match_at(lc@, kw_align_one(), t));
            }
        }
    }
    false
}

/// Check for memory allocations.
#[derive(Debug, Clone, Copy)]
pub struct AllocationCheck;

impl HotPathCheck for AllocationCheck {
    open spec fn spec_name(&self) -> Seq<char> {
        "allocation"@
    }

    open spec fn spec_severity(&self) -> Severity {
        Severity::Error
    }

    open spec fn fires(&self, line: Seq<char>) -> bool {
        allocation_fires(line)
    }

    open spec fn message(&self) -> Seq<char> {
        "contains allocation (real-time violation)"@
    }

    fn name(&self) -> (r: &str) {
        "allocation"
    }

    fn severity(&self) -> (r: Severity) {
        Severity::Error
    }

    fn check_line(&self, line: &str) -> (r: Option<String>) {
        let lc = to_chars(line);
        if contains_in(&lc, "call") && (contains_in(&lc, "@malloc") || contains_in(&lc, "@calloc")
            || contains_in(&lc, "@realloc") || contains_in(&lc, "@alloc") || contains_in(
            &lc,
            "@__rust_alloc",
        ) || contains_in(&lc, "@__rust_realloc")) {
            Some(String::from_str("contains allocation (real-time violation)"))
        } else {
            None
        }
    }
}

/// Check for atomic operations.
#[derive(Debug, Clone, Copy)]
pub struct AtomicCheck;

impl HotPathCheck for AtomicCheck {
    open spec fn spec_name(&self) -> Seq<char> {
        "atomic"@
    }

    open spec fn spec_severity(&self) -> Severity {
        Severity::Error
    }

    open spec fn fires(&self, line: Seq<char>) -> bool {
        atomic_fires(line)
    }

    open spec fn message(&self) -> Seq<char> {
        "contains atomic operation (real-time violation)"@
    }

    fn name(&self) -> (r: &str) {
        "atomic"
    }

    fn severity(&self) -> (r: Severity) {
        Severity::Error
    }

    fn check_line(&self, line: &str) -> (r: Option<String>) {
        let lc = to_chars(line);
        if contains_in(&lc, "atomicrmw") || contains_in(&lc, "cmpxchg") || contains_in(
            &lc,
            " fence ",
        ) {
            Some(String::from_str("contains atomic operation (real-time violation)"))
        } else {
            None
        }
    }
}

/// Check for indirect control flow.
#[derive(Debug, Clone, Copy)]
pub struct IndirectionCheck;

impl HotPathCheck for IndirectionCheck {
    open spec fn spec_name(&self) -> Seq<char> {
        "indirection"@
    }

    open spec fn spec_severity(&self) -> Severity {
        Severity::Error
    }

    open spec fn fires(&self, line: Seq<char>) -> bool {
        indirection_fires(line)
    }

    open spec fn message(&self) -> Seq<char> {
        "contains indirection"@
    }

    fn name(&self) -> (r: &str) {
        "indirection"
    }

    fn severity(&self) -> (r: Severity) {
        Severity::Error
    }

    fn check_line(&self, line: &str) -> (r: Option<String>) {
        let lc = to_chars(line);
        if contains_in(&lc, "invoke") || contains_in(&lc, "callbr") {
            Some(String::from_str("contains indirection"))
        } else {
            None
        }
    }
}

/// Check for non-inlined function calls.
#[derive(Debug, Clone, Copy)]
pub struct FunctionCallCheck;

impl HotPathCheck for FunctionCallCheck {
    open spec fn spec_name(&self) -> Seq<char> {
        "function_call"@
    }

    open spec fn spec_severity(&self) -> Severity {
        Severity::Error
    }

    open spec fn fires(&self, line: Seq<char>) -> bool {
        function_call_fires(line)
    }

    open spec fn message(&self) -> Seq<char> {
        "contains function call (not inlined)"@
    }

    fn name(&self) -> (r: &str) {
        "function_call"
    }

    fn severity(&self) -> (r: Severity) {
        Severity::Error
    }

    fn check_line(&self, line: &str) -> (r: Option<String>) {
        let lc = to_chars(line);
        if contains_in(&lc, "call") && !contains_in(&lc, "@llvm.") {
            if contains_in(&lc, "@malloc") || contains_in(&lc, "@calloc") || contains_in(
                &lc,
                "@realloc",
            ) || contains_in(&lc, "@alloc") || contains_in(&lc, "@__rust_alloc") || contains_in(
                &lc,
                "@__rust_realloc",
            ) {
                return None;
            }
            Some(String::from_str("contains function call (not inlined)"))
        } else {
            None
        }
    }
}

/// Check for volatile loads.
#[derive(Debug, Clone, Copy)]
pub struct VolatileLoadCheck;

impl HotPathCheck for VolatileLoadCheck {
    open spec fn spec_name(&self) -> Seq<char> {
        "volatile_load"@
    }

    open spec fn spec_severity(&self) -> Severity {
        Severity::Warning
    }

    open spec fn fires(&self, line: Seq<char>) -> bool {
        volatile_load_fires(line)
    }

    open spec fn message(&self) -> Seq<char> {
        "volatile load (forces memory access, ~100-300 cycles)"@
    }

    fn name(&self) -> (r: &str) {
        "volatile_load"
    }

    fn severity(&self) -> (r: Severity) {
        Severity::Warning
    }

    fn check_line(&self, line: &str) -> (r: Option<String>) {
        let lc = to_chars(line);
        if contains_in(&lc, "load") && contains_in(&lc, "volatile") {
            Some(String::from_str("volatile load (forces memory access, ~100-300 cycles)"))
        } else {
            None
        }
    }
}

/// Check for volatile stores.
#[derive(Debug, Clone, Copy)]
pub struct VolatileStoreCheck;

impl HotPathCheck for VolatileStoreCheck {
    open spec fn spec_name(&self) -> Seq<char> {
        "volatile_store"@
    }

    open spec fn spec_severity(&self) -> Severity {
        Severity::Warning
    }

    open spec fn fires(&self, line: Seq<char>) -> bool {
        volatile_store_fires(line)
    }

    open spec fn message(&self) -> Seq<char> {
        "volatile store (forces write-through, ~100-300 cycles)"@
    }

    fn name(&self) -> (r: &str) {
        "volatile_store"
    }

    fn severity(&self) -> (r: Severity) {
        Severity::Warning
    }

    fn check_line(&self, line: &str) -> (r: Option<String>) {
        let lc = to_chars(line);
        if contains_in(&lc, "store") && contains_in(&lc, "volatile") {
            Some(String::from_str("volatile store (forces write-through, ~100-300 cycles)"))
        } else {
            None
        }
    }
}

/// Check for division/modulo operations.
#[derive(Debug, Clone, Copy)]
pub struct DivisionCheck;

impl HotPathCheck for DivisionCheck {
    open spec fn spec_name(&self) -> Seq<char> {
        "division"@
    }

    open spec fn spec_severity(&self) -> Severity {
        Severity::Warning
    }

    open spec fn fires(&self, line: Seq<char>) -> bool {
        division_fires(line)
    }

    open spec fn message(&self) -> Seq<char> {
        "division/modulo operation (10-40 cycles, not pipelined)"@
    }

    fn name(&self) -> (r: &str) {
        "division"
    }

    fn severity(&self) -> (r: Severity) {
        Severity::Warning
    }

    fn check_line(&self, line: &str) -> (r: Option<String>) {
        let lc = to_chars(line);
        if contains_in(&lc, " sdiv ") || contains_in(&lc, " udiv ") || contains_in(&lc, " srem ")
            || contains_in(&lc, " urem ") {
            Some(String::from_str("division/modulo operation (10-40 cycles, not pipelined)"))
        } else {
            None
        }
    }
}

/// Check for unaligned memory access.
#[derive(Debug, Clone, Copy)]
pub struct UnalignedAccessCheck;

impl HotPathCheck for UnalignedAccessCheck {
    open spec fn spec_name(&self) -> Seq<char> {
        "unaligned_access"@
    }

    open spec fn spec_severity(&self) -> Severity {
        Severity::Warning
    }

    open spec fn fires(&self, line: Seq<char>) -> bool {
        unaligned_fires(line)
    }

    open spec fn message(&self) -> Seq<char> {
        "unaligned memory access (2-10x slower, blocks SIMD)"@
    }

    fn name(&self) -> (r: &str) {
        "unaligned_access"
    }

    fn severity(&self) -> (r: Severity) {
        Severity::Warning
    }

    fn check_line(&self, line: &str) -> (r: Option<String>) {
        let lc = to_chars(line);
        if (contains_in(&lc, "load") || contains_in(&lc, "store")) && line_has_align_one(&lc) {
            Some(String::from_str("unaligned memory access (2-10x slower, blocks SIMD)"))
        } else {
            None
        }
    }
}

/// Check for pointer arithmetic without an in-bounds guarantee.
#[derive(Debug, Clone, Copy)]
pub struct NonInboundsGepCheck;

impl HotPathCheck for NonInboundsGepCheck {
    open spec fn spec_name(&self) -> Seq<char> {
        "non_inbounds_gep"@
    }

    open spec fn spec_severity(&self) -> Severity {
        Severity::Warning
    }

    open spec fn fires(&self, line: Seq<char>) -> bool {
        non_inbounds_gep_fires(line)
    }

    open spec fn message(&self) -> Seq<char> {
        "non-inbounds GEP (adds bounds checks, prevents optimization)"@
    }

    fn name(&self) -> (r: &str) {
        "non_inbounds_gep"
    }

    fn severity(&self) -> (r: Severity) {
        Severity::Warning
    }

    fn check_line(&self, line: &str) -> (r: Option<String>) {
        let lc = to_chars(line);
        if contains_in(&lc, "getelementptr") && !contains_in(&lc, "inbounds") {
            Some(String::from_str("non-inbounds GEP (adds bounds checks, prevents optimization)"))
        } else {
            None
        }
    }
}

/// One registered check: the closed union of the built-in checks, so that a
/// verifier can hold a homogeneous list while dispatching to each check's own
/// behaviour.
#[derive(Debug, Clone, Copy)]
pub enum Check {
    Allocation(AllocationCheck),
    Atomic(AtomicCheck),
    Indirection(IndirectionCheck),
    FunctionCall(FunctionCallCheck),
    VolatileLoad(VolatileLoadCheck),
    VolatileStore(VolatileStoreCheck),
    Division(DivisionCheck),
    UnalignedAccess(UnalignedAccessCheck),
    NonInboundsGep(NonInboundsGepCheck),
}

impl HotPathCheck for Check {
    open spec fn spec_name(&self) -> Seq<char> {
        match self {
            Check::Allocation(c) => c.spec_name(),
            Check::Atomic(c) => c.spec_name(),
            Check::Indirection(c) => c.spec_name(),
            Check::FunctionCall(c) => c.spec_name(),
            Check::VolatileLoad(c) => c.spec_name(),
            Check::VolatileStore(c) => c.spec_name(),
            Check::Division(c) => c.spec_name(),
            Check::UnalignedAccess(c) => c.spec_name(),
            Check::NonInboundsGep(c) => c.spec_name(),
        }
    }

    open spec fn spec_severity(&self) -> Severity {
        match self {
            Check::Allocation(c) => c.spec_severity(),
            Check::Atomic(c) => c.spec_severity(),
            Check::Indirection(c) => c.spec_severity(),
            Check::FunctionCall(c) => c.spec_severity(),
            Check::VolatileLoad(c) => c.spec_severity(),
            Check::VolatileStore(c) => c.spec_severity(),
            Check::Division(c) => c.spec_severity(),
            Check::UnalignedAccess(c) => c.spec_severity(),
            Check::NonInboundsGep(c) => c.spec_severity(),
        }
    }

    open spec fn fires(&self, line: Seq<char>) -> bool {
        match self {
            Check::Allocation(c) => c.fires(line),
            Check::Atomic(c) => c.fires(line),
            Check::Indirection(c) => c.fires(line),
            Check::FunctionCall(c) => c.fires(line),
            Check::VolatileLoad(c) => c.fires(line),
            Check::VolatileStore(c) => c.fires(line),
            Check::Division(c) => c.fires(line),
            Check::UnalignedAccess(c) => c.fires(line),
            Check::NonInboundsGep(c) => c.fires(line),
        }
    }

    open spec fn message(&self) -> Seq<char> {
        match self {
            Check::Allocation(c) => c.message(),
            Check::Atomic(c) => c.message(),
            Check::Indirection(c) => c.message(),
            Check::FunctionCall(c) => c.message(),
            Check::VolatileLoad(c) => c.message(),
            Check::VolatileStore(c) => c.message(),
            Check::Division(c) => c.message(),
            Check::UnalignedAccess(c) => c.message(),
            Check::NonInboundsGep(c) => c.message(),
        }
    }

    fn name(&self) -> (r: &str) {
        match self {
            Check::Allocation(c) => c.name(),
            Check::Atomic(c) => c.name(),
            Check::Indirection(c) => c.name(),
            Check::FunctionCall(c) => c.name(),
            Check::VolatileLoad(c) => c.name(),
            Check::VolatileStore(c) => c.name(),
            Check::Division(c) => c.name(),
            Check::UnalignedAccess(c) => c.name(),
            Check::NonInboundsGep(c) => c.name(),
        }
    }

    fn severity(&self) -> (r: Severity) {
        match self {
            Check::Allocation(c) => c.severity(),
            Check::Atomic(c) => c.severity(),
            Check::Indirection(c) => c.severity(),
            Check::FunctionCall(c) => c.severity(),
            Check::VolatileLoad(c) => c.severity(),
            Check::VolatileStore(c) => c.severity(),
            Check::Division(c) => c.severity(),
            Check::UnalignedAccess(c) => c.severity(),
            Check::NonInboundsGep(c) => c.severity(),
        }
    }

    fn check_line(&self, line: &str) -> (r: Option<String>) {
        match self {
            Check::Allocation(c) => c.check_line(line),
            Check::Atomic(c) => c.check_line(line),
            Check::Indirection(c) => c.check_line(line),
            Check::FunctionCall(c) => c.check_line(line),
            Check::VolatileLoad(c) => c.check_line(line),
            Check::VolatileStore(c) => c.check_line(line),
            Check::Division(c) => c.check_line(line),
            Check::UnalignedAccess(c) => c.check_line(line),
            Check::NonInboundsGep(c) => c.check_line(line),
        }
    }
}

} // verus!
