use nemet::compiler::CompilerContext;
use nemet::program::VariableType;

fn fresh() -> CompilerContext {
    CompilerContext::new("test.nmt".to_string())
}

#[test]
fn new_context_is_empty() {
    let cc = fresh();
    assert!(cc.codegen.instruct_buf.is_empty());
    assert!(cc.scoped_blocks.is_empty());
    assert!(cc.variables_map.is_empty());
    assert!(cc.functions_map.is_empty());
    assert!(cc.structs_map.is_empty());
    assert!(cc.bif_set.is_empty());
    assert_eq!(cc.mem_offset, 0);
    assert_eq!(cc.error_count(), 0);
    assert_eq!(cc.program_file, "test.nmt");
}

#[test]
fn offsets_grow_by_declared_sizes() {
    let mut cc = fresh();
    cc.enter_scope();
    let a = cc.declare_variable("a", VariableType::Long, VariableType::Long, false);
    let b = cc.declare_variable("b", VariableType::Int, VariableType::Int, false);
    let c = cc.declare_variable("c", VariableType::Bool, VariableType::Bool, false);
    assert_eq!(a, 0);
    assert_eq!(b, 8);
    assert_eq!(c, 12);
    assert_eq!(cc.mem_offset, 13);
    // a later variable's offset is at least an earlier one's offset plus size
    assert!(b >= a + 8);
    assert!(c >= b + 4);
    cc.exit_scope();
}

#[test]
fn stack_offset_addresses_below_the_frame_pointer() {
    let mut cc = fresh();
    cc.enter_scope();
    cc.declare_variable("x", VariableType::Long, VariableType::Long, false);
    cc.declare_variable("y", VariableType::Int, VariableType::Int, false);
    let x = cc.resolve_variable("x").unwrap();
    assert_eq!(x.offset, 0);
    assert_eq!(x.stack_offset(), -8);
    let y = cc.resolve_variable("y").unwrap();
    assert_eq!(y.offset, 8);
    assert_eq!(y.stack_offset(), -12);
    cc.exit_scope();
}

#[test]
fn redeclaration_in_same_scope_is_an_error_and_keeps_prior_binding() {
    let mut cc = fresh();
    cc.enter_scope();
    let first = cc.declare_variable("x", VariableType::Long, VariableType::Long, false);
    let again = cc.declare_variable("x", VariableType::Int, VariableType::Int, true);
    assert_eq!(cc.error_count(), 1);
    assert_eq!(again, first);
    let v = cc.resolve_variable("x").unwrap();
    assert_eq!(v.offset, 0);
    assert!(!v.is_mut);
    assert_eq!(cc.mem_offset, 8);
    assert_eq!(cc.variables_map.len(), 1);
    cc.exit_scope();
}

#[test]
fn shadowing_in_an_inner_scope_is_not_an_error() {
    let mut cc = fresh();
    cc.enter_scope();
    cc.declare_variable("x", VariableType::Long, VariableType::Long, false);
    cc.enter_scope();
    let inner = cc.declare_variable("x", VariableType::Int, VariableType::Int, true);
    assert_eq!(cc.error_count(), 0);
    assert_eq!(inner, 8);
    // the innermost binding wins
    let v = cc.resolve_variable("x").unwrap();
    assert_eq!(v.offset, 8);
    assert!(v.is_mut);
    cc.exit_scope();
    // the outer binding is visible again
    let v2 = cc.resolve_variable("x").unwrap();
    assert_eq!(v2.offset, 0);
    cc.exit_scope();
}

#[test]
fn exit_scope_removes_inner_variables_and_rewinds_offsets() {
    let mut cc = fresh();
    cc.enter_scope();
    cc.declare_variable("a", VariableType::Long, VariableType::Long, false);
    cc.enter_scope();
    cc.declare_variable("b", VariableType::Int, VariableType::Int, false);
    cc.declare_variable("c", VariableType::Short, VariableType::Short, false);
    assert_eq!(cc.mem_offset, 14);
    assert_eq!(cc.variables_map.len(), 3);
    cc.exit_scope();
    // exactly the two inner variables are gone, and their bytes reclaimed
    assert_eq!(cc.variables_map.len(), 1);
    assert_eq!(cc.mem_offset, 8);
    assert!(cc.resolve_variable("b").is_none());
    assert!(cc.resolve_variable("c").is_none());
    assert!(cc.resolve_variable("a").is_some());
    cc.exit_scope();
    assert!(cc.scoped_blocks.is_empty());
    assert_eq!(cc.mem_offset, 0);
}

#[test]
fn sibling_scope_reuses_the_identical_offset() {
    let mut cc = fresh();
    cc.enter_scope();
    cc.enter_scope();
    let first = cc.declare_variable("tmp", VariableType::Long, VariableType::Long, false);
    cc.exit_scope();
    cc.enter_scope();
    let second = cc.declare_variable("tmp", VariableType::Long, VariableType::Long, false);
    cc.exit_scope();
    assert_eq!(first, second);
    cc.exit_scope();
}

#[test]
fn resolve_unbound_name_is_none() {
    let mut cc = fresh();
    cc.enter_scope();
    assert!(cc.resolve_variable("nope").is_none());
    cc.exit_scope();
}

#[test]
fn error_counter_accumulates() {
    let mut cc = fresh();
    cc.error();
    cc.error();
    cc.error();
    assert_eq!(cc.error_count(), 3);
}
