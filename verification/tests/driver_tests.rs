use nemet::bif::Bif;
use nemet::compiler::{CompilerContext, impl_bifs};
use nemet::driver::{CompileError, compile, collect_types, compile_function};
use nemet::program::{
    Block, FuncArg, Function, FunctionDecl, ProgramFile, ProgramItem, Stmt, VariableType,
};

fn decl(name: &str, args: Vec<FuncArg>) -> FunctionDecl {
    FunctionDecl {
        ident: name.to_string(),
        args,
        ret_type: VariableType::Long,
        foreign: false,
    }
}

fn func(name: &str, args: Vec<FuncArg>, stmts: Vec<Stmt>) -> ProgramItem {
    ProgramItem::Func(Function { decl: decl(name, args), block: Block { stmts } })
}

fn arg(name: &str, atype: VariableType) -> FuncArg {
    FuncArg { ident: name.to_string(), atype }
}

fn fresh() -> CompilerContext {
    CompilerContext::new("test.nmt".to_string())
}

#[test]
fn empty_main_compiles_to_entry_call_and_exit() {
    let mut cc = fresh();
    let program = ProgramFile { items: vec![func("main", vec![], vec![])] };
    let r = compile(&mut cc, &program);
    assert_eq!(r, Ok(()));
    assert_eq!(cc.error_count(), 0);
    assert_eq!(
        cc.codegen.instruct_buf,
        vec![
            "_start:",
            "    push rbp",
            "    mov rbp, rsp",
            "    call main",
            "    mov rax, 60",
            "    mov rdi, 0",
            "    syscall",
            "main:",
            "    push rbp",
            "    mov rbp, rsp",
            "    leave",
            "    ret",
        ]
    );
    assert!(cc.scoped_blocks.is_empty());
    assert!(cc.variables_map.is_empty());
}

#[test]
fn missing_entry_function_fails_before_any_emission() {
    let mut cc = fresh();
    let program = ProgramFile { items: vec![func("helper", vec![], vec![])] };
    let r = compile(&mut cc, &program);
    assert_eq!(r, Err(CompileError::NoEntryPoint));
    assert!(cc.codegen.instruct_buf.is_empty());
    assert_eq!(cc.error_count(), 0);
}

#[test]
fn parameters_bind_from_argument_registers_into_descending_slots() {
    let mut cc = fresh();
    let program = ProgramFile {
        items: vec![
            func("main", vec![], vec![]),
            func(
                "pair",
                vec![arg("x", VariableType::Long), arg("y", VariableType::Int)],
                vec![],
            ),
        ],
    };
    let r = compile(&mut cc, &program);
    assert_eq!(r, Ok(()));
    let lines = &cc.codegen.instruct_buf;
    let at = lines.iter().position(|l| l == "pair:").unwrap();
    assert_eq!(lines[at + 1], "    push rbp");
    assert_eq!(lines[at + 2], "    mov rbp, rsp");
    assert_eq!(lines[at + 3], "    mov [rbp-8], rdi");
    assert_eq!(lines[at + 4], "    mov [rbp-12], esi");
    assert_eq!(lines[at + 5], "    leave");
    assert_eq!(lines[at + 6], "    ret");
}

#[test]
fn builtin_called_three_times_across_two_functions_is_implemented_once() {
    let mut cc = fresh();
    let program = ProgramFile {
        items: vec![
            func(
                "main",
                vec![],
                vec![Stmt::BifCall(Bif::Print), Stmt::BifCall(Bif::Print)],
            ),
            func("aux", vec![], vec![Stmt::BifCall(Bif::Print)]),
        ],
    };
    let r = compile(&mut cc, &program);
    assert_eq!(r, Ok(()));
    let lines = &cc.codegen.instruct_buf;
    let calls = lines.iter().filter(|l| *l == "    call print").count();
    assert_eq!(calls, 3);
    let bodies = lines.iter().filter(|l| *l == "print:").count();
    assert_eq!(bodies, 1);
    // the single body sits after both user functions
    let body_at = lines.iter().position(|l| l == "print:").unwrap();
    let main_at = lines.iter().position(|l| l == "main:").unwrap();
    let aux_at = lines.iter().position(|l| l == "aux:").unwrap();
    let last_ret = lines.iter().rposition(|l| l == "    ret").unwrap();
    assert!(body_at > main_at);
    assert!(body_at > aux_at);
    assert_eq!(cc.bif_set, vec![Bif::Print]);
    assert!(last_ret > body_at);
}

#[test]
fn unused_builtin_contributes_zero_lines() {
    let mut cc = fresh();
    let program = ProgramFile { items: vec![func("main", vec![], vec![])] };
    compile(&mut cc, &program).unwrap();
    assert!(cc.bif_set.is_empty());
    assert!(!cc.codegen.instruct_buf.iter().any(|l| l.contains("print")));
}

#[test]
fn two_distinct_builtins_are_implemented_in_first_request_order() {
    let mut cc = fresh();
    let program = ProgramFile {
        items: vec![func(
            "main",
            vec![],
            vec![
                Stmt::BifCall(Bif::PrintChar),
                Stmt::BifCall(Bif::Print),
                Stmt::BifCall(Bif::PrintChar),
            ],
        )],
    };
    compile(&mut cc, &program).unwrap();
    assert_eq!(cc.bif_set, vec![Bif::PrintChar, Bif::Print]);
    let lines = &cc.codegen.instruct_buf;
    let pc_at = lines.iter().position(|l| l == "print_char:").unwrap();
    let p_at = lines.iter().position(|l| l == "print:").unwrap();
    assert!(pc_at < p_at);
}

#[test]
fn redeclared_variable_fails_the_whole_compilation() {
    let mut cc = fresh();
    let program = ProgramFile {
        items: vec![func(
            "main",
            vec![],
            vec![
                Stmt::VariableDecl {
                    ident: "x".to_string(),
                    vtype: VariableType::Long,
                    is_mut: false,
                },
                Stmt::VariableDecl {
                    ident: "x".to_string(),
                    vtype: VariableType::Int,
                    is_mut: false,
                },
            ],
        )],
    };
    let r = compile(&mut cc, &program);
    assert_eq!(r, Err(CompileError::Failed(1)));
    assert_eq!(cc.error_count(), 1);
    assert!(cc.scoped_blocks.is_empty());
}

#[test]
fn duplicate_parameter_names_are_errors() {
    let mut cc = fresh();
    let program = ProgramFile {
        items: vec![
            func("main", vec![], vec![]),
            func(
                "twice",
                vec![arg("v", VariableType::Long), arg("v", VariableType::Long)],
                vec![],
            ),
        ],
    };
    let r = compile(&mut cc, &program);
    assert_eq!(r, Err(CompileError::Failed(1)));
    // the second binding reuses the prior slot
    let lines = &cc.codegen.instruct_buf;
    let at = lines.iter().position(|l| l == "twice:").unwrap();
    assert_eq!(lines[at + 3], "    mov [rbp-8], rdi");
    assert_eq!(lines[at + 4], "    mov [rbp-8], rsi");
}

#[test]
fn collect_types_gathers_functions_foreign_imports_and_structs() {
    let mut cc = fresh();
    let program = ProgramFile {
        items: vec![
            func("main", vec![], vec![]),
            ProgramItem::FFI(FunctionDecl {
                ident: "putchar".to_string(),
                args: vec![arg("c", VariableType::Char)],
                ret_type: VariableType::Int,
                foreign: true,
            }),
            ProgramItem::Struct(nemet::program::StructDef {
                ident: "point".to_string(),
                fields: vec![],
            }),
            ProgramItem::StaticVar(nemet::program::StaticVariable {
                ident: "counter".to_string(),
                vtype: VariableType::Long,
            }),
        ],
    };
    collect_types(&mut cc, &program);
    assert_eq!(cc.functions_map.len(), 2);
    assert_eq!(cc.functions_map[0].ident, "main");
    assert_eq!(cc.functions_map[1].ident, "putchar");
    assert!(cc.functions_map[1].foreign);
    assert_eq!(cc.structs_map.len(), 1);
    assert_eq!(cc.structs_map[0].ident, "point");
    assert!(cc.has_function("main"));
    assert!(cc.has_function("putchar"));
    assert!(!cc.has_function("exit"));
}

#[test]
fn compile_function_balances_the_scope_stack() {
    let mut cc = fresh();
    let f = Function {
        decl: decl("solo", vec![arg("n", VariableType::Long)]),
        block: Block {
            stmts: vec![Stmt::VariableDecl {
                ident: "local".to_string(),
                vtype: VariableType::Int,
                is_mut: true,
            }],
        },
    };
    compile_function(&mut cc, &f);
    assert!(cc.scoped_blocks.is_empty());
    assert!(cc.variables_map.is_empty());
    assert_eq!(cc.mem_offset, 0);
    assert_eq!(
        cc.codegen.instruct_buf,
        vec!["solo:", "    push rbp", "    mov rbp, rsp", "    mov [rbp-8], rdi", "    leave", "    ret"]
    );
}

#[test]
fn request_bif_emits_call_and_registers_once() {
    let mut cc = fresh();
    cc.request_bif(Bif::Print);
    cc.request_bif(Bif::Print);
    assert_eq!(cc.codegen.instruct_buf, vec!["    call print", "    call print"]);
    assert_eq!(cc.bif_set, vec![Bif::Print]);
    impl_bifs(&mut cc);
    let bodies = cc.codegen.instruct_buf.iter().filter(|l| *l == "print:").count();
    assert_eq!(bodies, 1);
}

#[test]
fn impl_bifs_on_empty_set_emits_nothing() {
    let mut cc = fresh();
    impl_bifs(&mut cc);
    assert!(cc.codegen.instruct_buf.is_empty());
}

#[test]
fn struct_field_offsets_follow_field_order_and_sizes() {
    let s = nemet::program::StructDef {
        ident: "mixed".to_string(),
        fields: vec![
            nemet::program::StructField { ident: "a".to_string(), vtype: VariableType::Long },
            nemet::program::StructField { ident: "b".to_string(), vtype: VariableType::Int },
            nemet::program::StructField { ident: "c".to_string(), vtype: VariableType::Bool },
        ],
    };
    assert_eq!(s.offset_of("a"), Some(0));
    assert_eq!(s.offset_of("b"), Some(8));
    assert_eq!(s.offset_of("c"), Some(12));
    assert_eq!(s.offset_of("d"), None);
}

#[test]
fn compiled_program_serializes_to_assembly_text() {
    let mut cc = fresh();
    let program = ProgramFile { items: vec![func("main", vec![], vec![])] };
    compile(&mut cc, &program).unwrap();
    let text = cc.codegen.assembly_text();
    assert!(text.starts_with("global _start\nsection .text\n_start:\n"));
    assert!(text.contains("\n    call main\n"));
    assert!(text.ends_with("section .data\nsection .bss\n"));
}
