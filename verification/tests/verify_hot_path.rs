use hotpath::find_hot_functions_from_ir;
use hotpath::mangle_rust_path;
use hotpath::verify_hot_function;

#[test]
fn test_find_mark_hot_in_ir() {
    let test_ir = r#"
            @alloc_foo = private unnamed_addr constant [4 x i8] c"foo\00", align 1
            @HOT_FUNC.1 = internal constant <{ ptr, [8 x i8] }> <{ ptr @alloc_foo, [8 x i8] c"\03\00\00\00\00\00\00\00" }>, section ".hot_funcs", align 8
            @alloc_bar = private unnamed_addr constant [4 x i8] c"bar\00", align 1
            @HOT_FUNC.2 = internal constant <{ ptr, [8 x i8] }> <{ ptr @alloc_bar, [8 x i8] c"\03\00\00\00\00\00\00\00" }>, section ".hot_funcs", align 8

            define i32 @foo() { ret i32 42 }
            define i32 @bar() { ret i32 24 }
            define i32 @baz() { ret i32 10 }
        "#;

    let found = find_hot_functions_from_ir(test_ir);

    assert_eq!(found.len(), 2);
    assert!(found.contains("foo"));
    assert!(found.contains("bar"));
    assert!(!found.contains("baz"));
}

#[test]
fn test_detect_allocation() {
    let ir = "define i32 @test_func() {  %1 = call ptr @malloc(i64 16)  ret i32 0\n}";
    let result = verify_hot_function(ir, "test_func");
    assert!(result.is_err());
    assert!(result.unwrap_err().contains("allocation"));
}

#[test]
fn test_detect_function_call() {
    let ir = "define i32 @test_func() {  %1 = call i32 @other_function()  ret i32 %1\n}";
    let result = verify_hot_function(ir, "test_func");
    assert!(result.is_err());
    assert!(result.unwrap_err().contains("function call"));
}

#[test]
fn test_detect_atomic_operation() {
    let ir = "define i32 @test_func(ptr %ptr) {  %1 = atomicrmw add ptr %ptr, i32 1 seq_cst  ret i32 %1\n}";
    let result = verify_hot_function(ir, "test_func");
    assert!(result.is_err());
    assert!(result.unwrap_err().contains("atomic"));
}

#[test]
fn test_detect_indirection() {
    let ir = "define i32 @test_func() {  %1 = invoke i32 @foo() to label %normal unwind label %error\n}";
    let result = verify_hot_function(ir, "test_func");
    assert!(result.is_err());
    assert!(result.unwrap_err().contains("indirection"));
}

#[test]
fn test_allow_llvm_intrinsics() {
    let ir = "define i32 @test_func(i32 %a, i32 %b) {  %1 = call i32 @llvm.sadd.sat.i32(i32 %a, i32 %b)  ret i32 %1\n}";
    let result = verify_hot_function(ir, "test_func");
    assert!(result.is_ok());
}

#[test]
fn test_pure_arithmetic() {
    let ir = "define i32 @test_func(i32 %a, i32 %b) {  %1 = add i32 %a, %b  %2 = mul i32 %1, 2  ret i32 %2\n}";
    let result = verify_hot_function(ir, "test_func");
    assert!(result.is_ok());
}

#[test]
fn test_pure_with_branches() {
    let ir = "define i32 @test_func(i32 %a) {  %1 = icmp sgt i32 %a, 0  br i1 %1, label %positive, label %negative\n}";
    let result = verify_hot_function(ir, "test_func");
    assert!(result.is_ok());
}

#[test]
fn test_pure_with_loads_stores() {
    let ir = "define i32 @test_func(ptr %ptr) {  %1 = load i32, ptr %ptr, align 4  %2 = add i32 %1, 1  store i32 %2, ptr %ptr, align 4  ret i32 %2\n}";
    let result = verify_hot_function(ir, "test_func");
    assert!(result.is_ok());
}

#[test]
fn test_detect_fence() {
    let ir = "define void @test_func() {  fence seq_cst  ret void\n}";
    let result = verify_hot_function(ir, "test_func");
    assert!(result.is_err());
    assert!(result.unwrap_err().contains("atomic"));
}

#[test]
fn test_detect_cmpxchg() {
    let ir = "define i32 @test_func(ptr %ptr) {  %1 = cmpxchg ptr %ptr, i32 0, i32 1 seq_cst seq_cst  ret i32 0\n}";
    let result = verify_hot_function(ir, "test_func");
    assert!(result.is_err());
    assert!(result.unwrap_err().contains("atomic"));
}

#[test]
fn test_detect_callbr() {
    let ir = "define i32 @test_func() {  callbr i32 0 to label %normal  ret i32 0\n}";
    let result = verify_hot_function(ir, "test_func");
    assert!(result.is_err());
    assert!(result.unwrap_err().contains("indirection"));
}

#[test]
fn test_warn_division() {
    let ir = "define i32 @test_func(i32 %a, i32 %b) {  %1 = sdiv i32 %a, %b  ret i32 %1\n}";
    let result = verify_hot_function(ir, "test_func");
    assert!(result.is_ok());
}

#[test]
fn test_warn_modulo() {
    let ir = "define i32 @test_func(i32 %a, i32 %b) {  %1 = urem i32 %a, %b  ret i32 %1\n}";
    let result = verify_hot_function(ir, "test_func");
    assert!(result.is_ok());
}

#[test]
fn test_warn_volatile_load() {
    let ir = "define i32 @test_func(ptr %ptr) {  %1 = load volatile i32, ptr %ptr  ret i32 %1\n}";
    let result = verify_hot_function(ir, "test_func");
    assert!(result.is_ok());
}

#[test]
fn test_warn_volatile_store() {
    let ir = "define void @test_func(ptr %ptr, i32 %val) {  store volatile i32 %val, ptr %ptr  ret void\n}";
    let result = verify_hot_function(ir, "test_func");
    assert!(result.is_ok());
}

#[test]
fn test_warn_unaligned_access() {
    let ir = "define i32 @test_func(ptr %ptr) {  %1 = load i32, ptr %ptr, align 1  ret i32 %1\n}";
    let result = verify_hot_function(ir, "test_func");
    assert!(result.is_ok());
}

#[test]
fn test_warn_non_inbounds_gep() {
    let ir = "define ptr @test_func(ptr %ptr) {  %1 = getelementptr i32, ptr %ptr, i32 1  ret ptr %1\n}";
    let result = verify_hot_function(ir, "test_func");
    assert!(result.is_ok());
}

#[test]
fn test_function_not_found() {
    let ir = "define i32 @other_func() { ret i32 0\n}";
    let result = verify_hot_function(ir, "test_func");
    assert!(result.is_err());
    assert!(result.unwrap_err().contains("not found"));
}

#[test]
fn test_multiple_violations() {
    let ir = "define i32 @test_func() {  %1 = call ptr @malloc(i64 16)  %2 = atomicrmw add ptr %1, i32 1 seq_cst  ret i32 0\n}";
    let result = verify_hot_function(ir, "test_func");
    assert!(result.is_err());
    assert!(result.unwrap_err().contains("allocation"));
}

#[test]
fn test_empty_function() {
    let ir = "define void @test_func() {\n}";
    let result = verify_hot_function(ir, "test_func");
    assert!(result.is_ok());
}

#[test]
fn test_simple_math_hot_path() {
    let ir = "define i32 @calculate(i32 %a, i32 %b) {  %1 = add i32 %a, %b  %2 = mul i32 %1, 2  ret i32 %2\n}";
    let result = verify_hot_function(ir, "calculate");
    assert!(result.is_ok());
}

#[test]
fn test_array_sum_hot_path() {
    let ir = "define i32 @sum_array(ptr %arr, i32 %len) {  %1 = load i32, ptr %arr, align 4  ret i32 %1\n}";
    let result = verify_hot_function(ir, "sum_array");
    assert!(result.is_ok());
}

#[test]
fn test_conditional_hot_path() {
    let ir = "define i32 @max(i32 %a, i32 %b) {  %1 = icmp sgt i32 %a, %b  br i1 %1, label %true, label %false  ret i32 %a\n}";
    let result = verify_hot_function(ir, "max");
    assert!(result.is_ok());
}

#[test]
fn test_find_hot_functions_empty_ir() {
    let ir = "define i32 @foo() { ret i32 0 }";
    let funcs = find_hot_functions_from_ir(ir);
    assert!(funcs.is_empty());
}

#[test]
fn test_find_hot_functions_single() {
    let ir = r#"
            @alloc_process = private unnamed_addr constant [8 x i8] c"process\00", align 1
            @HOT_FUNC = constant <{ ptr, [8 x i8] }> <{ ptr @alloc_process, [8 x i8] c"\07\00\00\00\00\00\00\00" }>, section ".hot_funcs", align 8
        "#;
    let funcs = find_hot_functions_from_ir(ir);
    assert_eq!(funcs.len(), 1);
    assert!(funcs.contains("process"));
}

#[test]
fn test_mangle_rust_path() {
    assert_eq!(mangle_rust_path("foo"), "3foo");
    assert_eq!(mangle_rust_path("foo::bar"), "3foo3bar");
    assert_eq!(
        mangle_rust_path("tinywdf::dag::node_arena::get_children_of"),
        "7tinywdf3dag10node_arena15get_children_of"
    );
}
