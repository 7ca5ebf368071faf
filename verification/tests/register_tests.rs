use nemet::codegen::R;
use nemet::compiler::{function_args_register, function_args_register_sized};
use nemet::program::VariableType;

#[test]
fn accumulator_sized_names() {
    assert_eq!(R::A_s(&VariableType::Bool).name(), "al");
    assert_eq!(R::A_s(&VariableType::Short).name(), "ax");
    assert_eq!(R::A_s(&VariableType::Int).name(), "eax");
    assert_eq!(R::A_s(&VariableType::Long).name(), "rax");
}

#[test]
fn base_sized_names() {
    assert_eq!(R::B_s(&VariableType::Char).name(), "bl");
    assert_eq!(R::B_s(&VariableType::UShort).name(), "bx");
    assert_eq!(R::B_s(&VariableType::UInt).name(), "ebx");
    assert_eq!(R::B_s(&VariableType::ULong).name(), "rbx");
}

#[test]
fn counter_and_data_sized_names() {
    assert_eq!(R::C_s(&VariableType::Bool).name(), "cl");
    assert_eq!(R::C_s(&VariableType::Long).name(), "rcx");
    assert_eq!(R::D_s(&VariableType::Short).name(), "dx");
    assert_eq!(R::D_s(&VariableType::Int).name(), "edx");
}

#[test]
fn index_and_extension_sized_names() {
    assert_eq!(R::DI_s(&VariableType::Bool).name(), "dil");
    assert_eq!(R::DI_s(&VariableType::Long).name(), "rdi");
    assert_eq!(R::Si_s(&VariableType::Short).name(), "si");
    assert_eq!(R::Si_s(&VariableType::Int).name(), "esi");
    assert_eq!(R::R8_s(&VariableType::Bool).name(), "r8b");
    assert_eq!(R::R8_s(&VariableType::Short).name(), "r8w");
    assert_eq!(R::R9_s(&VariableType::Int).name(), "r9d");
    assert_eq!(R::R9_s(&VariableType::Long).name(), "r9");
}

#[test]
fn array_resolves_by_element_size() {
    let arr = VariableType::Array(Box::new(VariableType::Int), 10);
    assert_eq!(R::A_s(&arr).name(), "eax");
    let arr1 = VariableType::Array(Box::new(VariableType::Char), 3);
    assert_eq!(R::A_s(&arr1).name(), "al");
}

#[test]
fn string_contents_resolve_byte_wide() {
    assert_eq!(R::A_s(&VariableType::Str).name(), "al");
}

#[test]
fn argument_registers_in_calling_order() {
    let names: Vec<&str> = (0..6).map(|i| function_args_register(i).name()).collect();
    assert_eq!(names, vec!["rdi", "rsi", "rdx", "rcx", "r8", "r9"]);
}

#[test]
fn argument_registers_sized() {
    assert_eq!(function_args_register_sized(0, &VariableType::Int).name(), "edi");
    assert_eq!(function_args_register_sized(1, &VariableType::Long).name(), "rsi");
    assert_eq!(function_args_register_sized(2, &VariableType::Bool).name(), "dl");
    assert_eq!(function_args_register_sized(3, &VariableType::Short).name(), "cx");
    assert_eq!(function_args_register_sized(4, &VariableType::Int).name(), "r8d");
    assert_eq!(function_args_register_sized(5, &VariableType::Long).name(), "r9");
}

#[test]
fn sized_keeps_the_family() {
    assert_eq!(R::RSP.sized(2).name(), "sp");
    assert_eq!(R::RBP.sized(4).name(), "ebp");
    assert_eq!(R::RSI.sized(1).name(), "sil");
    assert_eq!(R::RDX.sized(8).name(), "rdx");
}

#[test]
fn type_sizes() {
    assert_eq!(VariableType::Bool.size(), 1);
    assert_eq!(VariableType::Char.size(), 1);
    assert_eq!(VariableType::Short.size(), 2);
    assert_eq!(VariableType::UShort.size(), 2);
    assert_eq!(VariableType::Int.size(), 4);
    assert_eq!(VariableType::UInt.size(), 4);
    assert_eq!(VariableType::Long.size(), 8);
    assert_eq!(VariableType::ULong.size(), 8);
    assert_eq!(VariableType::Pointer.size(), 8);
    assert_eq!(VariableType::Str.size(), 8);
    assert_eq!(VariableType::Custom("vec3".to_string()).size(), 8);
    let arr = VariableType::Array(Box::new(VariableType::Int), 10);
    assert_eq!(arr.size(), 40);
    assert_eq!(arr.item_size(), 4);
    assert_eq!(arr.inner(), VariableType::Int);
    assert_eq!(VariableType::Str.item_size(), 1);
    assert_eq!(VariableType::Long.item_size(), 8);
}
