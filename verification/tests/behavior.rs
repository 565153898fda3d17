use hotpath::AllocationCheck;
use hotpath::AtomicCheck;
use hotpath::Check;
use hotpath::DivisionCheck;
use hotpath::FunctionCallCheck;
use hotpath::HotPathCheck;
use hotpath::HotPathVerifier;
use hotpath::Severity;
use hotpath::UnalignedAccessCheck;
use hotpath::VolatileLoadCheck;
use hotpath::find_hot_functions_from_ir;
use hotpath::mangle_rust_path;
use hotpath::verify_hot_function;
use hotpath::verify_hot_path_functions;

#[test]
fn warning_message_volatile_load_exact() {
    let ir = "define i32 @test_func(ptr %ptr) {  %1 = load volatile i32, ptr %ptr  ret i32 %1\n}";
    let verifier = HotPathVerifier::default();
    let result = verifier.verify(ir, "test_func");
    assert_eq!(
        result.unwrap(),
        vec!["test_func: volatile load (forces memory access, ~100-300 cycles)".to_string()]
    );
}

#[test]
fn warning_message_division_exact() {
    let ir = "define i32 @test_func(i32 %a, i32 %b) {  %1 = sdiv i32 %a, %b  ret i32 %1\n}";
    let verifier = HotPathVerifier::default();
    let result = verifier.verify(ir, "test_func");
    assert_eq!(
        result.unwrap(),
        vec!["test_func: division/modulo operation (10-40 cycles, not pipelined)".to_string()]
    );
}

#[test]
fn warning_message_unaligned_exact() {
    let ir = "define i32 @test_func(ptr %ptr) {  %1 = load i32, ptr %ptr, align 1  ret i32 %1\n}";
    let verifier = HotPathVerifier::default();
    let result = verifier.verify(ir, "test_func");
    assert_eq!(
        result.unwrap(),
        vec!["test_func: unaligned memory access (2-10x slower, blocks SIMD)".to_string()]
    );
}

#[test]
fn warning_message_non_inbounds_gep_exact() {
    let ir = "define ptr @test_func(ptr %ptr) {  %1 = getelementptr i32, ptr %ptr, i32 1  ret ptr %1\n}";
    let verifier = HotPathVerifier::default();
    let result = verifier.verify(ir, "test_func");
    assert_eq!(
        result.unwrap(),
        vec!["test_func: non-inbounds GEP (adds bounds checks, prevents optimization)".to_string()]
    );
}

#[test]
fn error_message_allocation_exact() {
    let ir = "define i32 @test_func() {  %1 = call ptr @malloc(i64 16)  ret i32 0\n}";
    let result = verify_hot_function(ir, "test_func");
    assert_eq!(
        result.unwrap_err(),
        "test_func: contains allocation (real-time violation)"
    );
}

#[test]
fn error_message_not_found_exact() {
    let ir = "define i32 @other_func() { ret i32 0\n}";
    let result = verify_hot_function(ir, "test_func");
    assert_eq!(result.unwrap_err(), "Function test_func not found in IR");
}

#[test]
fn pure_function_returns_empty_warning_list() {
    let ir = "define i32 @test_func(i32 %a, i32 %b) {  %1 = add i32 %a, %b  ret i32 %1\n}";
    let verifier = HotPathVerifier::default();
    let result = verifier.verify(ir, "test_func");
    assert_eq!(result.unwrap(), Vec::<String>::new());
}

#[test]
fn fail_fast_reports_earlier_line_first() {
    // The atomic instruction stands on an earlier line than the call: the
    // atomic finding wins and the call is never reported.
    let ir = "define i32 @test_func(ptr %p) {\n  %1 = atomicrmw add ptr %p, i32 1 seq_cst\n  %2 = call i32 @helper()\n  ret i32 %2\n}";
    let result = verify_hot_function(ir, "test_func");
    assert_eq!(
        result.unwrap_err(),
        "test_func: contains atomic operation (real-time violation)"
    );
}

#[test]
fn fail_fast_reports_first_check_in_order_on_one_line() {
    // Call first in the body: the function-call check (earlier in the default
    // order than the atomic check) wins on its line.
    let ir = "define i32 @test_func(ptr %p) {\n  %1 = call i32 @helper()\n  %2 = atomicrmw add ptr %p, i32 1 seq_cst\n  ret i32 %2\n}";
    let result = verify_hot_function(ir, "test_func");
    assert_eq!(
        result.unwrap_err(),
        "test_func: contains function call (not inlined)"
    );
}

#[test]
fn verify_twice_yields_identical_results() {
    let ir = "define i32 @test_func(ptr %ptr) {  %1 = load volatile i32, ptr %ptr  ret i32 %1\n}";
    let verifier = HotPathVerifier::default();
    let first = verifier.verify(ir, "test_func");
    let second = verifier.verify(ir, "test_func");
    assert_eq!(first, second);

    let failing = "define i32 @test_func() {  %1 = call ptr @malloc(i64 16)  ret i32 0\n}";
    let first_err = verify_hot_function(failing, "test_func");
    let second_err = verify_hot_function(failing, "test_func");
    assert_eq!(first_err, second_err);
}

#[test]
fn custom_configuration_limits_checks() {
    // With only the division check registered, a call does not fail.
    let ir = "define i32 @test_func() {  %1 = call i32 @helper()  ret i32 %1\n}";
    let verifier = HotPathVerifier::new().with_check(Check::Division(DivisionCheck));
    let result = verifier.verify(ir, "test_func");
    assert_eq!(result.unwrap(), Vec::<String>::new());
}

#[test]
fn check_names_and_severities() {
    assert_eq!(AllocationCheck.name(), "allocation");
    assert_eq!(AllocationCheck.severity(), Severity::Error);
    assert_eq!(AtomicCheck.name(), "atomic");
    assert_eq!(AtomicCheck.severity(), Severity::Error);
    assert_eq!(VolatileLoadCheck.name(), "volatile_load");
    assert_eq!(VolatileLoadCheck.severity(), Severity::Warning);
    assert_eq!(DivisionCheck.name(), "division");
    assert_eq!(DivisionCheck.severity(), Severity::Warning);
}

#[test]
fn check_line_returns_message_only_when_fired() {
    assert_eq!(
        AllocationCheck.check_line("  %1 = call ptr @malloc(i64 16)"),
        Some("contains allocation (real-time violation)".to_string())
    );
    assert_eq!(AllocationCheck.check_line("  %1 = add i32 %a, %b"), None);
}

#[test]
fn discovery_collapses_duplicate_entries() {
    // Two section entries referencing the same string constant yield one name.
    let ir = r#"
            @alloc_foo = private unnamed_addr constant [4 x i8] c"foo\00", align 1
            @HOT_FUNC.1 = internal constant <{ ptr }> <{ ptr @alloc_foo }>, section ".hot_funcs", align 8
            @HOT_FUNC.2 = internal constant <{ ptr }> <{ ptr @alloc_foo }>, section ".hot_funcs", align 8
        "#;
    let found = find_hot_functions_from_ir(ir);
    assert_eq!(found.len(), 1);
    assert!(found.contains("foo"));
}

#[test]
fn discovery_skips_unresolved_entries() {
    // A marked entry whose constant has no definition is omitted; a constant
    // without a marked entry is not discovered either.
    let ir = r#"
            @alloc_unmarked = private unnamed_addr constant [9 x i8] c"unmarked\00", align 1
            @HOT_FUNC.1 = internal constant <{ ptr }> <{ ptr @alloc_missing }>, section ".hot_funcs", align 8
        "#;
    let found = find_hot_functions_from_ir(ir);
    assert!(found.is_empty());
    assert!(!found.contains("unmarked"));
}

#[test]
fn mangle_three_segments() {
    assert_eq!(mangle_rust_path("a::b::c"), "1a1b1c");
}

#[test]
fn mangled_path_matches_decorated_symbol() {
    // A namespaced name is mangled before the lookup and matches as a
    // substring of a decorated symbol.
    let ir = "define i32 @_ZN2my6hot_fn17h0123456789abcdefE(i32 %a) {  ret i32 %a\n}";
    let result = verify_hot_function(ir, "my::hot_fn");
    assert!(result.is_ok());
}

#[test]
fn multi_line_body_is_scanned_whole() {
    let ir = "define i32 @test_func(i32 %a) {\n  %1 = add i32 %a, 1\n  %2 = call i32 @helper(i32 %1)\n  ret i32 %2\n}";
    let result = verify_hot_function(ir, "test_func");
    assert_eq!(
        result.unwrap_err(),
        "test_func: contains function call (not inlined)"
    );
}

#[test]
fn batch_passes_when_all_hot_functions_are_clean() {
    let ir = r#"
            @alloc_calc = private unnamed_addr constant [5 x i8] c"calc\00", align 1
            @HOT_FUNC = constant <{ ptr }> <{ ptr @alloc_calc }>, section ".hot_funcs", align 8
            define i32 @calc(i32 %a) {
  %1 = add i32 %a, 1
  ret i32 %1
}
        "#;
    assert!(verify_hot_path_functions(ir).is_ok());
}

#[test]
fn batch_fails_on_first_violating_hot_function() {
    let ir = r#"
            @alloc_calc = private unnamed_addr constant [5 x i8] c"calc\00", align 1
            @HOT_FUNC = constant <{ ptr }> <{ ptr @alloc_calc }>, section ".hot_funcs", align 8
            define i32 @calc(i32 %a) {
  %1 = call ptr @malloc(i64 16)
  ret i32 %a
}
        "#;
    let result = verify_hot_path_functions(ir);
    assert_eq!(
        result.unwrap_err(),
        "calc: contains allocation (real-time violation)"
    );
}

#[test]
fn batch_on_empty_ir_is_ok() {
    assert!(verify_hot_path_functions("").is_ok());
}

#[test]
fn warnings_on_one_line_follow_registration_order() {
    // A volatile load at byte alignment trips two warning checks; the
    // volatile-load check is registered before the unaligned-access check.
    let ir = "define i32 @test_func(ptr %p) {  %1 = load volatile i32, ptr %p, align 1  ret i32 %1\n}";
    let verifier = HotPathVerifier::default();
    let result = verifier.verify(ir, "test_func");
    assert_eq!(
        result.unwrap(),
        vec![
            "test_func: volatile load (forces memory access, ~100-300 cycles)".to_string(),
            "test_func: unaligned memory access (2-10x slower, blocks SIMD)".to_string(),
        ]
    );
}

#[test]
fn warnings_across_lines_follow_body_order() {
    let ir = "define i32 @test_func(ptr %p, i32 %b) {\n  %1 = load volatile i32, ptr %p\n  %2 = sdiv i32 %1, %b\n  ret i32 %2\n}";
    let verifier = HotPathVerifier::default();
    let result = verifier.verify(ir, "test_func");
    assert_eq!(
        result.unwrap(),
        vec![
            "test_func: volatile load (forces memory access, ~100-300 cycles)".to_string(),
            "test_func: division/modulo operation (10-40 cycles, not pipelined)".to_string(),
        ]
    );
}

#[test]
fn natural_alignment_is_not_flagged_as_unaligned() {
    // `align 16` is natural alignment: the byte-alignment check must not
    // fire on it.
    let ir = "define i32 @test_func(ptr %ptr) {  %1 = load i32, ptr %ptr, align 16  ret i32 %1\n}";
    let verifier = HotPathVerifier::default();
    let result = verifier.verify(ir, "test_func");
    assert_eq!(result.unwrap(), Vec::<String>::new());
    assert_eq!(UnalignedAccessCheck.check_line("  %1 = load i32, ptr %p, align 128"), None);
}

#[test]
fn byte_alignment_at_line_end_is_flagged() {
    assert_eq!(
        UnalignedAccessCheck.check_line("  store i32 %v, ptr %p, align 1"),
        Some("unaligned memory access (2-10x slower, blocks SIMD)".to_string())
    );
    assert_eq!(
        UnalignedAccessCheck.check_line("  %1 = load i32, ptr %p, align 1, !tbaa !0"),
        Some("unaligned memory access (2-10x slower, blocks SIMD)".to_string())
    );
}

#[test]
fn body_ends_only_at_line_holding_only_closing_brace() {
    // A line that merely starts with `}` does not terminate the body: the
    // call after it is still scanned.
    let ir = "define i32 @test_func() {\n  %1 = add i32 1, 2\n} label\n  %2 = call i32 @helper()\n}";
    let result = verify_hot_function(ir, "test_func");
    assert_eq!(
        result.unwrap_err(),
        "test_func: contains function call (not inlined)"
    );
}

#[test]
fn backend_allocator_calls_are_left_to_the_allocation_check() {
    // The function-call check exempts all allocator symbols, the two
    // backend-specific ones included; with it alone registered, such a call
    // is not a function-call finding.
    let ir = "define ptr @test_func() {  %1 = call ptr @__rust_alloc(i64 16, i64 8)  ret ptr %1\n}";
    let verifier = HotPathVerifier::new().with_check(Check::FunctionCall(FunctionCallCheck));
    let result = verifier.verify(ir, "test_func");
    assert_eq!(result.unwrap(), Vec::<String>::new());
    let full = verify_hot_function(ir, "test_func");
    assert!(full.unwrap_err().contains("allocation"));
}

#[test]
fn discovery_requires_section_after_reference() {
    // The section designator must follow the pointer reference on its line,
    // as the compiler emits it; a designator before the reference marks
    // nothing.
    let ir = r#"
            @alloc_foo = private unnamed_addr constant [4 x i8] c"foo\00", align 1
            @ODD = section ".hot_funcs" constant <{ ptr }> <{ ptr @alloc_foo }>, align 8
        "#;
    let found = find_hot_functions_from_ir(ir);
    assert!(found.is_empty());
}
