//! The program driver and the per-function compilation protocol.
//!
//! The driver collects top-level declarations in a first pass (so forward
//! references always resolve), synthesizes the process entry point, compiles
//! every function in turn, emits the referenced built-ins once, and fails
//! the whole compilation if any function reported an error.

use vstd::prelude::*;

verus! {

use vstd::string::StringExecFns;
use crate::bif::Bif;
use crate::codegen::{R, is_register_size};
use crate::compiler::{
    CompilerContext, ScopeBlock, VariableEntry, arg_reg64, bifs_lines, fun_index,
    function_args_register_sized, impl_bifs, lemma_fun_index_props, lemma_var_index_props,
    push_unique, sum_sizes, var_index,
};
use crate::program::{
    FuncArg, Function, FunctionDecl, ProgramFile, ProgramItem, Stmt, StructDef, VariableType,
    lemma_size_positive,
};
use crate::text::{dec_digits, u64_string};

/// The frame-pointer-relative memory operand for a (negative) stack offset.
pub open spec fn spec_frame_operand(off: int) -> Seq<char> {
    "[rbp-"@ + dec_digits(-off) + "]"@
}

/// Renders the memory operand addressing the stack slot at the given
/// (negative) offset from the frame pointer.
pub fn frame_operand(off: i32) -> (r: String)
    requires
        off < 0,
    ensures
        r@ == spec_frame_operand(off as int),
{
    let mag: u64 = (-(off as i64)) as u64;
    let mut s: String = ("[rbp-").to_owned();
    s.append(u64_string(mag).as_str());
    s.append("]");
    s
}

/// One entry of the specification-level scope environment: a bound name,
/// its stack offset, and its byte size.
pub open spec fn env_contains(env: Seq<(Seq<char>, int, int)>, name: Seq<char>) -> bool {
    exists|k: int| 0 <= k < env.len() && (#[trigger] env[k]).0 == name
}

/// The index of the innermost environment binding of `name`, or -1.
pub open spec fn env_index(env: Seq<(Seq<char>, int, int)>, name: Seq<char>) -> int
    decreases env.len(),
{
    if env.len() == 0 {
        -1
    } else if env.last().0 == name {
        env.len() - 1
    } else {
        env_index(env.drop_last(), name)
    }
}

/// The total byte size of the environment's bindings.
pub open spec fn env_sum(env: Seq<(Seq<char>, int, int)>) -> int
    decreases env.len(),
{
    if env.len() == 0 {
        0
    } else {
        env_sum(env.drop_last()) + env.last().2
    }
}

/// The environment after declaring `name` of byte size `size`: unchanged on
/// a redeclaration, extended at the running offset otherwise.
pub open spec fn env_declare(
    env: Seq<(Seq<char>, int, int)>,
    name: Seq<char>,
    size: int,
) -> Seq<(Seq<char>, int, int)> {
    if env_contains(env, name) {
        env
    } else {
        env.push((name, env_sum(env), size))
    }
}

/// The scope environment after binding the first `i` parameters.
pub open spec fn penv(args: Seq<FuncArg>, i: int) -> Seq<(Seq<char>, int, int)>
    decreases i,
{
    if i <= 0 {
        Seq::empty()
    } else {
        env_declare(
            penv(args, i - 1),
            args[i - 1].ident@,
            args[i - 1].atype.spec_size() as int,
        )
    }
}

/// The number of duplicate-name errors among the first `i` parameters.
pub open spec fn params_errors(args: Seq<FuncArg>, i: int) -> int
    decreases i,
{
    if i <= 0 {
        0
    } else {
        params_errors(args, i - 1) + if env_contains(penv(args, i - 1), args[i - 1].ident@) {
            1int
        } else {
            0int
        }
    }
}

/// The (negative) operand offset used to bind parameter `i`: the slot of the
/// binding the declaration produced, or of the prior binding on a
/// redeclaration.
pub open spec fn param_operand(args: Seq<FuncArg>, i: int) -> int {
    let env = penv(args, i);
    if env_contains(env, args[i].ident@) {
        let e = env[env_index(env, args[i].ident@)];
        -(e.1 + e.2)
    } else {
        -(env_sum(env) + args[i].atype.spec_size())
    }
}

/// The instruction binding parameter `i` from its argument-passing register
/// into its stack slot.
pub open spec fn param_mov_line(args: Seq<FuncArg>, i: int) -> Seq<char> {
    "    mov "@ + spec_frame_operand(param_operand(args, i)) + ", "@ + arg_reg64(i).spec_sized(
        args[i].atype.spec_item_size(),
    ).spec_name()
}

/// The parameter-binding instructions of a function, in declaration order.
pub open spec fn params_lines(args: Seq<FuncArg>) -> Seq<Seq<char>> {
    Seq::new(args.len(), |i: int| param_mov_line(args, i))
}

/// The scope environment after the first `j` body statements, starting from
/// the parameter environment.
pub open spec fn benv(
    env0: Seq<(Seq<char>, int, int)>,
    ss: Seq<Stmt>,
) -> Seq<(Seq<char>, int, int)>
    decreases ss.len(),
{
    if ss.len() == 0 {
        env0
    } else {
        match ss.last() {
            Stmt::VariableDecl { ident, vtype, is_mut: _ } => env_declare(
                benv(env0, ss.drop_last()),
                ident@,
                vtype.spec_size() as int,
            ),
            Stmt::BifCall(_) => benv(env0, ss.drop_last()),
        }
    }
}

/// The number of duplicate-declaration errors a run of body statements
/// produces, starting from the parameter environment.
pub open spec fn body_errors(env0: Seq<(Seq<char>, int, int)>, ss: Seq<Stmt>) -> int
    decreases ss.len(),
{
    if ss.len() == 0 {
        0
    } else {
        body_errors(env0, ss.drop_last()) + match ss.last() {
            Stmt::VariableDecl { ident, vtype: _, is_mut: _ } => if env_contains(
                benv(env0, ss.drop_last()),
                ident@,
            ) {
                1int
            } else {
                0int
            },
            Stmt::BifCall(_) => 0int,
        }
    }
}

/// The instructions a run of body statements emits: a call per built-in
/// request; declarations emit nothing.
pub open spec fn body_lines(ss: Seq<Stmt>) -> Seq<Seq<char>>
    decreases ss.len(),
{
    if ss.len() == 0 {
        Seq::empty()
    } else {
        body_lines(ss.drop_last()) + match ss.last() {
            Stmt::VariableDecl { ident: _, vtype: _, is_mut: _ } => Seq::<Seq<char>>::empty(),
            Stmt::BifCall(b) => seq!["    call "@ + b.spec_label()],
        }
    }
}

/// The built-in reference set after a run of body statements, in
/// first-request order.
pub open spec fn body_bifs(acc: Seq<Bif>, ss: Seq<Stmt>) -> Seq<Bif>
    decreases ss.len(),
{
    if ss.len() == 0 {
        acc
    } else {
        match ss.last() {
            Stmt::VariableDecl { ident: _, vtype: _, is_mut: _ } => body_bifs(acc, ss.drop_last()),
            Stmt::BifCall(b) => push_unique(body_bifs(acc, ss.drop_last()), b),
        }
    }
}

/// Every instruction one function contributes: label, prologue, parameter
/// binding, body, epilogue.
pub open spec fn function_lines(f: Function) -> Seq<Seq<char>> {
    seq![f.decl.ident@ + ":"@, "    push "@ + "rbp"@, "    mov "@ + "rbp"@ + ", "@ + "rsp"@]
        + params_lines(f.decl.args@) + body_lines(f.block.stmts@) + seq![
        "    leave"@,
        "    ret"@,
    ]
}

/// The number of recoverable errors one function's compilation records.
pub open spec fn function_errors(f: Function) -> int {
    params_errors(f.decl.args@, f.decl.args@.len() as int) + body_errors(
        penv(f.decl.args@, f.decl.args@.len() as int),
        f.block.stmts@,
    )
}

/// The built-in reference set after one function's compilation.
pub open spec fn function_bifs(acc: Seq<Bif>, f: Function) -> Seq<Bif> {
    body_bifs(acc, f.block.stmts@)
}

/// The total byte size of the parameters from position `i` on.
pub open spec fn args_sizes_from(args: Seq<FuncArg>, i: int) -> int
    decreases args.len() - i,
{
    if i < 0 || i >= args.len() {
        0
    } else {
        args[i].atype.spec_size() + args_sizes_from(args, i + 1)
    }
}

/// The total byte size of the variables declared by the statements from
/// position `j` on.
pub open spec fn decls_sizes_from(ss: Seq<Stmt>, j: int) -> int
    decreases ss.len() - j,
{
    if j < 0 || j >= ss.len() {
        0
    } else {
        (match ss[j] {
            Stmt::VariableDecl { ident: _, vtype, is_mut: _ } => vtype.spec_size() as int,
            Stmt::BifCall(_) => 0int,
        }) + decls_sizes_from(ss, j + 1)
    }
}

/// What the backend requires of one function: at most six integer
/// parameters, each of a register-sized well-formed type, well-formed
/// declared types, and a frame small enough for 32-bit operand offsets.
pub open spec fn function_wf(f: Function) -> bool {
    &&& f.decl.args@.len() <= 6
    &&& forall|i: int|
        0 <= i < f.decl.args@.len() ==> (#[trigger] f.decl.args@[i]).atype.wf()
            && is_register_size(f.decl.args@[i].atype.spec_item_size())
    &&& forall|j: int|
        0 <= j < f.block.stmts@.len() ==> match #[trigger] f.block.stmts@[j] {
            Stmt::VariableDecl { ident: _, vtype, is_mut: _ } => vtype.wf(),
            Stmt::BifCall(_) => true,
        }
    &&& args_sizes_from(f.decl.args@, 0) + decls_sizes_from(f.block.stmts@, 0) <= i32::MAX
}

/// The instructions all top-level items contribute, in order.
pub open spec fn items_lines(items: Seq<ProgramItem>) -> Seq<Seq<char>>
    decreases items.len(),
{
    if items.len() == 0 {
        Seq::empty()
    } else {
        items_lines(items.drop_last()) + match items.last() {
            ProgramItem::Func(f) => function_lines(f),
            _ => Seq::<Seq<char>>::empty(),
        }
    }
}

/// The total recoverable-error count of a whole program walk.
pub open spec fn items_errors(items: Seq<ProgramItem>) -> int
    decreases items.len(),
{
    if items.len() == 0 {
        0
    } else {
        items_errors(items.drop_last()) + match items.last() {
            ProgramItem::Func(f) => function_errors(f),
            _ => 0int,
        }
    }
}

/// The built-in reference set after a whole program walk.
pub open spec fn items_bifs(acc: Seq<Bif>, items: Seq<ProgramItem>) -> Seq<Bif>
    decreases items.len(),
{
    if items.len() == 0 {
        acc
    } else {
        match items.last() {
            ProgramItem::Func(f) => function_bifs(items_bifs(acc, items.drop_last()), f),
            _ => items_bifs(acc, items.drop_last()),
        }
    }
}

/// What the backend requires of a whole program.
pub open spec fn program_wf(p: ProgramFile) -> bool {
    &&& forall|i: int|
        0 <= i < p.items@.len() ==> match #[trigger] p.items@[i] {
            ProgramItem::Func(f) => function_wf(f),
            _ => true,
        }
    &&& items_errors(p.items@) < usize::MAX
}

/// The synthesized process entry point: prologue, a call into `main`, and
/// an exit system call with status zero.
pub open spec fn entry_lines() -> Seq<Seq<char>> {
    seq![
        "_start"@ + ":"@,
        "    push "@ + "rbp"@,
        "    mov "@ + "rbp"@ + ", "@ + "rsp"@,
        "    call "@ + "main"@,
        "    mov "@ + "rax"@ + ", "@ + "60"@,
        "    mov "@ + "rdi"@ + ", "@ + "0"@,
        "    syscall"@,
    ]
}

/// The function declarations the first collection pass gathers, in order:
/// native definitions and foreign imports.
pub open spec fn collected_funs(items: Seq<ProgramItem>) -> Seq<FunctionDecl>
    decreases items.len(),
{
    if items.len() == 0 {
        Seq::empty()
    } else {
        collected_funs(items.drop_last()) + match items.last() {
            ProgramItem::Func(f) => seq![f.decl],
            ProgramItem::FFI(d) => seq![d],
            _ => Seq::<FunctionDecl>::empty(),
        }
    }
}

/// The struct definitions the first collection pass gathers, in order.
pub open spec fn collected_structs(items: Seq<ProgramItem>) -> Seq<StructDef>
    decreases items.len(),
{
    if items.len() == 0 {
        Seq::empty()
    } else {
        collected_structs(items.drop_last()) + match items.last() {
            ProgramItem::Struct(s) => seq![s],
            _ => Seq::<StructDef>::empty(),
        }
    }
}

/// Equivalence of function declarations up to string identity: same name,
/// parameters, return type and classification.
pub open spec fn decl_eqv(a: FunctionDecl, b: FunctionDecl) -> bool {
    &&& a.ident@ == b.ident@
    &&& a.args@ == b.args@
    &&& a.ret_type == b.ret_type
    &&& a.foreign == b.foreign
}

/// Equivalence of struct definitions up to string identity.
pub open spec fn struct_eqv(a: StructDef, b: StructDef) -> bool {
    a.ident@ == b.ident@ && a.fields@ == b.fields@
}

/// Whether the program declares an entry function.
pub open spec fn has_main(items: Seq<ProgramItem>) -> bool {
    exists|k: int|
        0 <= k < collected_funs(items).len() && (#[trigger] collected_funs(items)[k]).ident@
            == "main"@
}

/// The first, fast pass: populates the function and struct tables from the
/// top-level items, so that function bodies compiled later can resolve
/// forward references.
pub fn collect_types(cc: &mut CompilerContext, program: &ProgramFile)
    requires
        old(cc).wf(),
    ensures
        final(cc).wf(),
        final(cc).functions_map@.len() == old(cc).functions_map@.len() + collected_funs(
            program.items@,
        ).len(),
        forall|k: int|
            0 <= k < old(cc).functions_map@.len() ==> (#[trigger] final(cc).functions_map@[k])
                == old(cc).functions_map@[k],
        forall|k: int|
            0 <= k < collected_funs(program.items@).len() ==> decl_eqv(
                #[trigger] final(cc).functions_map@[old(cc).functions_map@.len() + k],
                collected_funs(program.items@)[k],
            ),
        final(cc).structs_map@.len() == old(cc).structs_map@.len() + collected_structs(
            program.items@,
        ).len(),
        forall|k: int|
            0 <= k < old(cc).structs_map@.len() ==> (#[trigger] final(cc).structs_map@[k]) == old(cc).structs_map@[k],
        forall|k: int|
            0 <= k < collected_structs(program.items@).len() ==> struct_eqv(
                #[trigger] final(cc).structs_map@[old(cc).structs_map@.len() + k],
                collected_structs(program.items@)[k],
            ),
        final(cc).codegen == old(cc).codegen,
        final(cc).scoped_blocks == old(cc).scoped_blocks,
        final(cc).variables_map == old(cc).variables_map,
        final(cc).bif_set == old(cc).bif_set,
        final(cc).mem_offset == old(cc).mem_offset,
        final(cc).program_file == old(cc).program_file,
        final(cc).spec_errors() == old(cc).spec_errors(),
{
    let mut i: usize = 0;
    proof {
        assert(program.items@.take(0) =~= Seq::<ProgramItem>::empty());
    }
    while i < program.items.len()
        invariant
            i <= program.items@.len(),
            cc.functions_map@.len() == old(cc).functions_map@.len() + collected_funs(
                program.items@.take(i as int),
            ).len(),
            forall|k: int|
                0 <= k < old(cc).functions_map@.len() ==> (#[trigger] cc.functions_map@[k]) == old(cc).functions_map@[k],
            forall|k: int|
                0 <= k < collected_funs(program.items@.take(i as int)).len() ==> decl_eqv(
                    #[trigger] cc.functions_map@[old(cc).functions_map@.len() + k],
                    collected_funs(program.items@.take(i as int))[k],
                ),
            cc.structs_map@.len() == old(cc).structs_map@.len() + collected_structs(
                program.items@.take(i as int),
            ).len(),
            forall|k: int|
                0 <= k < old(cc).structs_map@.len() ==> (#[trigger] cc.structs_map@[k]) == old(cc).structs_map@[k],
            forall|k: int|
                0 <= k < collected_structs(program.items@.take(i as int)).len() ==> struct_eqv(
                    #[trigger] cc.structs_map@[old(cc).structs_map@.len() + k],
                    collected_structs(program.items@.take(i as int))[k],
                ),
            cc.codegen == old(cc).codegen,
            cc.scoped_blocks == old(cc).scoped_blocks,
            cc.variables_map == old(cc).variables_map,
            cc.bif_set == old(cc).bif_set,
            cc.mem_offset == old(cc).mem_offset,
            cc.program_file == old(cc).program_file,
            cc.spec_errors() == old(cc).spec_errors(),
            old(cc).wf(),
        decreases program.items@.len() - i,
    {
        proof {
            assert(program.items@.take(i + 1).drop_last() =~= program.items@.take(i as int));
            assert(program.items@.take(i + 1).last() == program.items@[i as int]);
        }
        match &program.items[i] {
            ProgramItem::Func(f) => {
                let d = f.decl.clone();
                self_push_fun(cc, d);
            },
            ProgramItem::FFI(d) => {
                let d2 = d.clone();
                self_push_fun(cc, d2);
            },
            ProgramItem::Struct(s) => {
                let s2 = s.clone();
                self_push_struct(cc, s2);
            },
            ProgramItem::StaticVar(_) => {},
        }
        i = i + 1;
    }
    proof {
        assert(program.items@.take(program.items@.len() as int) =~= program.items@);
    }
}

fn self_push_fun(cc: &mut CompilerContext, d: FunctionDecl)
    requires
        old(cc).wf(),
    ensures
        final(cc).wf(),
        final(cc).functions_map@ == old(cc).functions_map@.push(final(cc).functions_map@.last()),
        final(cc).functions_map@.len() == old(cc).functions_map@.len() + 1,
        decl_eqv(final(cc).functions_map@.last(), d),
        final(cc).codegen == old(cc).codegen,
        final(cc).scoped_blocks == old(cc).scoped_blocks,
        final(cc).variables_map == old(cc).variables_map,
        final(cc).structs_map == old(cc).structs_map,
        final(cc).bif_set == old(cc).bif_set,
        final(cc).mem_offset == old(cc).mem_offset,
        final(cc).program_file == old(cc).program_file,
        final(cc).spec_errors() == old(cc).spec_errors(),
{
    cc.functions_map.push(d);
}

fn self_push_struct(cc: &mut CompilerContext, s: StructDef)
    requires
        old(cc).wf(),
    ensures
        final(cc).wf(),
        final(cc).structs_map@ == old(cc).structs_map@.push(final(cc).structs_map@.last()),
        final(cc).structs_map@.len() == old(cc).structs_map@.len() + 1,
        struct_eqv(final(cc).structs_map@.last(), s),
        final(cc).codegen == old(cc).codegen,
        final(cc).scoped_blocks == old(cc).scoped_blocks,
        final(cc).variables_map == old(cc).variables_map,
        final(cc).functions_map == old(cc).functions_map,
        final(cc).bif_set == old(cc).bif_set,
        final(cc).mem_offset == old(cc).mem_offset,
        final(cc).program_file == old(cc).program_file,
        final(cc).spec_errors() == old(cc).spec_errors(),
{
    cc.structs_map.push(s);
}

/// Synthesizes the process entry point.
fn compile_init_function(cc: &mut CompilerContext)
    requires
        old(cc).wf(),
    ensures
        final(cc).wf(),
        final(cc).codegen.instrs() == old(cc).codegen.instrs() + entry_lines(),
        final(cc).codegen.data_buf == old(cc).codegen.data_buf,
        final(cc).codegen.bss_buf == old(cc).codegen.bss_buf,
        final(cc).scoped_blocks == old(cc).scoped_blocks,
        final(cc).variables_map == old(cc).variables_map,
        final(cc).functions_map == old(cc).functions_map,
        final(cc).structs_map == old(cc).structs_map,
        final(cc).bif_set == old(cc).bif_set,
        final(cc).mem_offset == old(cc).mem_offset,
        final(cc).program_file == old(cc).program_file,
        final(cc).spec_errors() == old(cc).spec_errors(),
{
    cc.codegen.tag("_start");
    cc.codegen.push(R::RBP.name());
    cc.codegen.mov(R::RBP.name(), R::RSP.name());
    cc.codegen.call("main");
    cc.codegen.mov(R::RAX.name(), "60");
    cc.codegen.mov(R::RDI.name(), "0");
    cc.codegen.syscall();
    proof {
        reveal(R::spec_name);
        assert(cc.codegen.instrs() =~= old(cc).codegen.instrs() + entry_lines());
    }
}

/// Whether the context's variable table realizes a specification-level
/// scope environment: same length, names, offsets and sizes.
pub open spec fn env_models(vm: Seq<VariableEntry>, env: Seq<(Seq<char>, int, int)>) -> bool {
    &&& vm.len() == env.len()
    &&& forall|k: int| 0 <= k < vm.len() ==> (#[trigger] vm[k]).ident@ == env[k].0
    &&& forall|k: int| 0 <= k < vm.len() ==> (#[trigger] vm[k]).vmap.offset == env[k].1
    &&& forall|k: int|
        0 <= k < vm.len() ==> (#[trigger] vm[k]).vmap.vtype.spec_size() == env[k].2
}

proof fn lemma_scope_env_equiv(
    cc: CompilerContext,
    env: Seq<(Seq<char>, int, int)>,
    name: Seq<char>,
)
    requires
        env_models(cc.variables_map@, env),
        cc.cur_scope_start() == 0,
    ensures
        cc.scope_declared(name) <==> env_contains(env, name),
{
    if cc.scope_declared(name) {
        let k = choose|k: int|
            cc.cur_scope_start() <= k < cc.variables_map@.len() && (
            #[trigger] cc.variables_map@[k]).ident@ == name;
        assert(env[k].0 == name);
        assert(env_contains(env, name));
    }
    if env_contains(env, name) {
        let k = choose|k: int| 0 <= k < env.len() && (#[trigger] env[k]).0 == name;
        assert(cc.variables_map@[k].ident@ == name);
        assert(cc.scope_declared(name));
    }
}

proof fn lemma_env_index_models(
    vm: Seq<VariableEntry>,
    env: Seq<(Seq<char>, int, int)>,
    name: Seq<char>,
)
    requires
        env_models(vm, env),
    ensures
        var_index(vm, name) == env_index(env, name),
    decreases vm.len(),
{
    if vm.len() > 0 {
        assert(vm.last().ident@ == env.last().0);
        if vm.last().ident@ != name {
            assert(forall|k: int|
                0 <= k < vm.len() - 1 ==> (#[trigger] vm.drop_last()[k]) == vm[k]);
            assert(forall|k: int|
                0 <= k < env.len() - 1 ==> (#[trigger] env.drop_last()[k]) == env[k]);
            assert(env_models(vm.drop_last(), env.drop_last()));
            lemma_env_index_models(vm.drop_last(), env.drop_last(), name);
        }
    }
}

proof fn lemma_env_sum_push(env: Seq<(Seq<char>, int, int)>, e: (Seq<char>, int, int))
    ensures
        env_sum(env.push(e)) == env_sum(env) + e.2,
{
    assert(env.push(e).drop_last() =~= env);
}

proof fn lemma_params_errors_mono(args: Seq<FuncArg>, a: int, b: int)
    requires
        0 <= a <= b,
    ensures
        params_errors(args, a) <= params_errors(args, b),
    decreases b - a,
{
    if a < b {
        lemma_params_errors_mono(args, a, b - 1);
    }
}

proof fn lemma_body_errors_take_mono(env0: Seq<(Seq<char>, int, int)>, ss: Seq<Stmt>, a: int, b: int)
    requires
        0 <= a <= b <= ss.len(),
    ensures
        body_errors(env0, ss.take(a)) <= body_errors(env0, ss.take(b)),
    decreases b - a,
{
    if a < b {
        lemma_body_errors_take_mono(env0, ss, a, b - 1);
        assert(ss.take(b).drop_last() =~= ss.take(b - 1));
    }
}

proof fn lemma_args_sizes_nonneg(args: Seq<FuncArg>, i: int)
    ensures
        args_sizes_from(args, i) >= 0,
    decreases args.len() - i,
{
    if 0 <= i < args.len() {
        lemma_args_sizes_nonneg(args, i + 1);
    }
}

proof fn lemma_decls_sizes_nonneg(ss: Seq<Stmt>, j: int)
    ensures
        decls_sizes_from(ss, j) >= 0,
    decreases ss.len() - j,
{
    if 0 <= j < ss.len() {
        lemma_decls_sizes_nonneg(ss, j + 1);
    }
}

/// Binds parameter `i`: declares its stack variable and copies it from its
/// fixed argument-passing register into its stack slot.
#[verifier::rlimit(100)]
#[verifier::spinoff_prover]
fn bind_param(cc: &mut CompilerContext, f: &Function, i: usize)
    requires
        function_wf(*f),
        i < f.decl.args@.len(),
        old(cc).wf(),
        old(cc).scoped_blocks@.len() >= 1,
        old(cc).scoped_blocks@.last().vars_at_entry == 0,
        env_models(old(cc).variables_map@, penv(f.decl.args@, i as int)),
        old(cc).mem_offset == env_sum(penv(f.decl.args@, i as int)),
        env_sum(penv(f.decl.args@, i as int)) + args_sizes_from(f.decl.args@, i as int)
            <= i32::MAX,
        forall|k: int|
            0 <= k < old(cc).variables_map@.len() ==> (
            #[trigger] old(cc).variables_map@[k]).vmap.offset
                + old(cc).variables_map@[k].vmap.vtype.spec_size() <= i32::MAX,
        env_contains(penv(f.decl.args@, i as int), f.decl.args@[i as int].ident@) ==> old(
            cc,
        ).spec_errors() < usize::MAX,
    ensures
        final(cc).wf(),
        final(cc).scoped_blocks == old(cc).scoped_blocks,
        env_models(final(cc).variables_map@, penv(f.decl.args@, i + 1)),
        final(cc).mem_offset == env_sum(penv(f.decl.args@, i + 1)),
        final(cc).spec_errors() == old(cc).spec_errors() + if env_contains(
            penv(f.decl.args@, i as int),
            f.decl.args@[i as int].ident@,
        ) {
            1int
        } else {
            0int
        },
        final(cc).codegen.instrs() == old(cc).codegen.instrs().push(
            param_mov_line(f.decl.args@, i as int),
        ),
        final(cc).codegen.data_buf == old(cc).codegen.data_buf,
        final(cc).codegen.bss_buf == old(cc).codegen.bss_buf,
        final(cc).bif_set == old(cc).bif_set,
        final(cc).functions_map == old(cc).functions_map,
        final(cc).structs_map == old(cc).structs_map,
        final(cc).program_file == old(cc).program_file,
        env_sum(penv(f.decl.args@, i + 1)) + args_sizes_from(f.decl.args@, i + 1) <= env_sum(
            penv(f.decl.args@, i as int),
        ) + args_sizes_from(f.decl.args@, i as int),
        forall|k: int|
            0 <= k < final(cc).variables_map@.len() ==> (
            #[trigger] final(cc).variables_map@[k]).vmap.offset
                + final(cc).variables_map@[k].vmap.vtype.spec_size() <= i32::MAX,
{
    let ghost args = f.decl.args@;
    let ghost env = penv(args, i as int);
    let a = &f.decl.args[i];
    let reg = function_args_register_sized(i, &a.atype);
    proof {
        lemma_size_positive(a.atype);
        lemma_args_sizes_nonneg(args, i + 1);
        lemma_scope_env_equiv(*cc, env, a.ident@);
    }
    let _ = cc.declare_variable(a.ident.as_str(), a.atype.clone(), a.atype.inner(), false);
    proof {
        lemma_var_index_props(cc.variables_map@, a.ident@);
        if !old(cc).scope_declared(a.ident@) {
            // a fresh binding sits at the end of the table
            assert(var_index(cc.variables_map@, a.ident@) == cc.variables_map@.len() - 1);
            let e = (a.ident@, env_sum(env), a.atype.spec_size() as int);
            assert(penv(args, i + 1) == env.push(e));
            lemma_env_sum_push(env, e);
            assert(env_models(cc.variables_map@, penv(args, i + 1)));
        } else {
            assert(cc.variables_map@ == old(cc).variables_map@);
            lemma_env_index_models(old(cc).variables_map@, env, a.ident@);
            assert(penv(args, i + 1) == env);
            assert(env_contains(env, a.ident@));
            let k = choose|k: int| 0 <= k < env.len() && (#[trigger] env[k]).0 == a.ident@;
            assert(old(cc).variables_map@[k].ident@ == a.ident@);
            assert(var_index(cc.variables_map@, a.ident@) >= 0) by {
                if var_index(cc.variables_map@, a.ident@) < k {
                    assert(cc.variables_map@[k].ident@ != a.ident@);
                }
            }
        }
    }
    let vmr = cc.resolve_variable(a.ident.as_str());
    let so: i32 = match vmr {
        Some(v) => v.stack_offset(),
        None => {
            proof {
                assert(false);
            }
            0
        },
    };
    proof {
        assert(so as int == param_operand(args, i as int)) by {
            if old(cc).scope_declared(a.ident@) {
                lemma_env_index_models(old(cc).variables_map@, env, a.ident@);
            } else {
                assert(var_index(cc.variables_map@, a.ident@) == cc.variables_map@.len() - 1);
            }
        }
        let j = var_index(cc.variables_map@, a.ident@);
        assert(cc.variables_map@[j].vmap.vtype.wf());
        lemma_size_positive(cc.variables_map@[j].vmap.vtype);
        assert(so < 0);
    }
    let op = frame_operand(so);
    cc.codegen.mov(op.as_str(), reg.name());
}

/// Compiles one function: label, standard prologue, a fresh scope, binding
/// of each parameter from its fixed argument-passing register into a newly
/// declared stack variable, the body, scope exit, and the standard
/// epilogue.  Errors inside the body increment the context's error counter
/// but never stop compilation.
#[verifier::rlimit(100)]
pub fn compile_function(cc: &mut CompilerContext, f: &Function)
    requires
        old(cc).wf(),
        old(cc).variables_map@.len() == 0,
        old(cc).scoped_blocks@.len() == 0,
        function_wf(*f),
        old(cc).spec_errors() + function_errors(*f) <= usize::MAX,
    ensures
        final(cc).wf(),
        final(cc).codegen.instrs() == old(cc).codegen.instrs() + function_lines(*f),
        final(cc).codegen.data_buf == old(cc).codegen.data_buf,
        final(cc).codegen.bss_buf == old(cc).codegen.bss_buf,
        final(cc).bif_set@ == function_bifs(old(cc).bif_set@, *f),
        final(cc).spec_errors() == old(cc).spec_errors() + function_errors(*f),
        final(cc).variables_map@.len() == 0,
        final(cc).scoped_blocks@.len() == 0,
        final(cc).mem_offset == 0,
        final(cc).functions_map == old(cc).functions_map,
        final(cc).structs_map == old(cc).structs_map,
        final(cc).program_file == old(cc).program_file,
{
    let ghost args = f.decl.args@;
    let ghost stmts = f.block.stmts@;
    let ghost pro = seq![
        f.decl.ident@ + ":"@,
        "    push "@ + "rbp"@,
        "    mov "@ + "rbp"@ + ", "@ + "rsp"@,
    ];
    proof {
        assert(sum_sizes(old(cc).variables_map@) == 0);
    }
    cc.codegen.tag(f.decl.ident.as_str());
    cc.codegen.push(R::RBP.name());
    cc.codegen.mov(R::RBP.name(), R::RSP.name());
    cc.enter_scope();
    proof {
        reveal(R::spec_name);
        assert(cc.codegen.instrs() =~= old(cc).codegen.instrs() + pro + params_lines(args).take(
            0,
        ));
        assert(env_models(cc.variables_map@, penv(args, 0)));
        lemma_args_sizes_nonneg(args, 0);
        lemma_decls_sizes_nonneg(stmts, 0);
    }
    let mut i: usize = 0;
    while i < f.decl.args.len()
        invariant
            old(cc).wf(),
            old(cc).variables_map@.len() == 0,
            old(cc).scoped_blocks@.len() == 0,
            function_wf(*f),
            old(cc).spec_errors() + function_errors(*f) <= usize::MAX,
            args == f.decl.args@,
            stmts == f.block.stmts@,
            pro == seq![
                f.decl.ident@ + ":"@,
                "    push "@ + "rbp"@,
                "    mov "@ + "rbp"@ + ", "@ + "rsp"@,
            ],
            i <= args.len(),
            cc.wf(),
            cc.scoped_blocks@ == old(cc).scoped_blocks@.push(ScopeBlock { vars_at_entry: 0 }),
            env_models(cc.variables_map@, penv(args, i as int)),
            cc.mem_offset == env_sum(penv(args, i as int)),
            cc.spec_errors() == old(cc).spec_errors() + params_errors(args, i as int),
            cc.codegen.instrs() == old(cc).codegen.instrs() + pro + params_lines(args).take(
                i as int,
            ),
            cc.codegen.data_buf == old(cc).codegen.data_buf,
            cc.codegen.bss_buf == old(cc).codegen.bss_buf,
            cc.bif_set == old(cc).bif_set,
            cc.functions_map == old(cc).functions_map,
            cc.structs_map == old(cc).structs_map,
            cc.program_file == old(cc).program_file,
            env_sum(penv(args, i as int)) + args_sizes_from(args, i as int) + decls_sizes_from(
                stmts,
                0,
            ) <= i32::MAX,
            forall|k: int|
                0 <= k < cc.variables_map@.len() ==> (#[trigger] cc.variables_map@[k]).vmap.offset
                    + cc.variables_map@[k].vmap.vtype.spec_size() <= i32::MAX,
        decreases args.len() - i,
    {
        proof {
            lemma_decls_sizes_nonneg(stmts, 0);
            lemma_params_errors_mono(args, i + 1, args.len() as int);
            assert(body_errors(penv(args, args.len() as int), stmts.take(0)) == 0);
            lemma_body_errors_take_mono(
                penv(args, args.len() as int),
                stmts,
                0,
                stmts.len() as int,
            );
            assert(stmts.take(stmts.len() as int) =~= stmts);
        }
        bind_param(cc, f, i);
        proof {
            assert(params_lines(args).take(i + 1) =~= params_lines(args).take(i as int).push(
                param_mov_line(args, i as int),
            ));
            assert(cc.codegen.instrs() =~= old(cc).codegen.instrs() + pro + params_lines(
                args,
            ).take(i + 1));
            lemma_decls_sizes_nonneg(stmts, 0);
        }
        i = i + 1;
    }
    let ghost env0 = penv(args, args.len() as int);
    proof {
        assert(args.len() as int == i as int);
    }
    let mut j: usize = 0;
    proof {
        assert(stmts.take(0) =~= Seq::<Stmt>::empty());
        assert(benv(env0, stmts.take(0)) == env0);
        assert(body_lines(stmts.take(0)) =~= Seq::<Seq<char>>::empty());
        assert(cc.codegen.instrs() =~= old(cc).codegen.instrs() + pro + params_lines(args)
            + body_lines(stmts.take(0)));
        assert(body_bifs(old(cc).bif_set@, stmts.take(0)) == old(cc).bif_set@);
        assert(params_lines(args).take(args.len() as int) =~= params_lines(args));
    }
    while j < f.block.stmts.len()
        invariant
            old(cc).wf(),
            old(cc).variables_map@.len() == 0,
            old(cc).scoped_blocks@.len() == 0,
            function_wf(*f),
            old(cc).spec_errors() + function_errors(*f) <= usize::MAX,
            args == f.decl.args@,
            stmts == f.block.stmts@,
            env0 == penv(args, args.len() as int),
            pro == seq![
                f.decl.ident@ + ":"@,
                "    push "@ + "rbp"@,
                "    mov "@ + "rbp"@ + ", "@ + "rsp"@,
            ],
            j <= stmts.len(),
            cc.wf(),
            cc.scoped_blocks@ == old(cc).scoped_blocks@.push(ScopeBlock { vars_at_entry: 0 }),
            env_models(cc.variables_map@, benv(env0, stmts.take(j as int))),
            cc.mem_offset == env_sum(benv(env0, stmts.take(j as int))),
            cc.spec_errors() == old(cc).spec_errors() + params_errors(args, args.len() as int)
                + body_errors(env0, stmts.take(j as int)),
            cc.codegen.instrs() == old(cc).codegen.instrs() + pro + params_lines(args)
                + body_lines(stmts.take(j as int)),
            cc.codegen.data_buf == old(cc).codegen.data_buf,
            cc.codegen.bss_buf == old(cc).codegen.bss_buf,
            cc.bif_set@ == body_bifs(old(cc).bif_set@, stmts.take(j as int)),
            cc.functions_map == old(cc).functions_map,
            cc.structs_map == old(cc).structs_map,
            cc.program_file == old(cc).program_file,
            env_sum(benv(env0, stmts.take(j as int))) + decls_sizes_from(stmts, j as int)
                <= i32::MAX,
            forall|k: int|
                0 <= k < cc.variables_map@.len() ==> (#[trigger] cc.variables_map@[k]).vmap.offset
                    + cc.variables_map@[k].vmap.vtype.spec_size() <= i32::MAX,
        decreases stmts.len() - j,
    {
        let ghost env = benv(env0, stmts.take(j as int));
        let ghost pre = *cc;
        proof {
            assert(stmts.take(j + 1).drop_last() =~= stmts.take(j as int));
            assert(stmts.take(j + 1).last() == stmts[j as int]);
            lemma_decls_sizes_nonneg(stmts, j + 1);
        }
        match &f.block.stmts[j] {
            Stmt::VariableDecl { ident, vtype, is_mut } => {
                proof {
                    lemma_scope_env_equiv(*cc, env, ident@);
                    lemma_body_errors_take_mono(env0, stmts, j + 1, stmts.len() as int);
                    assert(stmts.take(stmts.len() as int) =~= stmts);
                }
                let _ = cc.declare_variable(ident.as_str(), vtype.clone(), vtype.inner(), *is_mut);
                proof {
                    if !pre.scope_declared(ident@) {
                        let e = (ident@, env_sum(env), vtype.spec_size() as int);
                        assert(benv(env0, stmts.take(j + 1)) == env.push(e));
                        lemma_env_sum_push(env, e);
                        assert(env_models(cc.variables_map@, benv(env0, stmts.take(j + 1))));
                    } else {
                        assert(benv(env0, stmts.take(j + 1)) == env);
                    }
                    assert(body_lines(stmts.take(j + 1)) =~= body_lines(stmts.take(j as int)));
                    assert(body_bifs(old(cc).bif_set@, stmts.take(j + 1)) == body_bifs(
                        old(cc).bif_set@,
                        stmts.take(j as int),
                    ));
                }
            },
            Stmt::BifCall(b) => {
                cc.request_bif(*b);
                proof {
                    assert(benv(env0, stmts.take(j + 1)) == env);
                    assert(body_errors(env0, stmts.take(j + 1)) == body_errors(
                        env0,
                        stmts.take(j as int),
                    ));
                    assert(body_lines(stmts.take(j + 1)) =~= body_lines(stmts.take(j as int)).push(
                        "    call "@ + b.spec_label(),
                    ));
                    assert(cc.codegen.instrs() =~= old(cc).codegen.instrs() + pro + params_lines(
                        args,
                    ) + body_lines(stmts.take(j + 1)));
                }
            },
        }
        j = j + 1;
    }
    proof {
        assert(stmts.take(stmts.len() as int) =~= stmts);
    }
    cc.exit_scope();
    proof {
        assert(cc.variables_map@ =~= Seq::<VariableEntry>::empty());
        assert(sum_sizes(cc.variables_map@) == 0);
        assert(cc.scoped_blocks@ =~= old(cc).scoped_blocks@);
    }
    cc.codegen.leave();
    cc.codegen.ret();
    proof {
        assert(cc.codegen.instrs() =~= old(cc).codegen.instrs() + function_lines(*f));
        assert(cc.scoped_blocks@.len() == 0);
    }
}

/// Why a compilation failed as a whole.
#[derive(Debug, Clone, Copy, PartialEq, Eq, Structural)]
pub enum CompileError {
    /// No function named `main` exists; reported before any code generation
    /// is attempted.
    NoEntryPoint,
    /// The error counter was nonzero after walking all functions; carries
    /// the total recoverable-error count.
    Failed(usize),
}

proof fn lemma_function_errors_nonneg(f: Function)
    ensures
        function_errors(f) >= 0,
{
    lemma_params_errors_mono(f.decl.args@, 0, f.decl.args@.len() as int);
    let env0 = penv(f.decl.args@, f.decl.args@.len() as int);
    assert(body_errors(env0, f.block.stmts@.take(0)) == 0);
    lemma_body_errors_take_mono(env0, f.block.stmts@, 0, f.block.stmts@.len() as int);
    assert(f.block.stmts@.take(f.block.stmts@.len() as int) =~= f.block.stmts@);
}

proof fn lemma_items_errors_take_mono(items: Seq<ProgramItem>, a: int, b: int)
    requires
        0 <= a <= b <= items.len(),
    ensures
        items_errors(items.take(a)) <= items_errors(items.take(b)),
    decreases b - a,
{
    if a < b {
        lemma_items_errors_take_mono(items, a, b - 1);
        assert(items.take(b).drop_last() =~= items.take(b - 1));
        match items.take(b).last() {
            ProgramItem::Func(f) => {
                lemma_function_errors_nonneg(f);
            },
            _ => {},
        }
    }
}

/// Compiles a whole parsed program on a fresh context.  The declaration
/// tables are populated first; absence of an entry function is fatal before
/// any code generation; every function is then compiled in turn, the
/// referenced built-ins are emitted exactly once after all user functions,
/// and a nonzero accumulated error count fails the compilation as a whole.
#[verifier::rlimit(100)]
pub fn compile(cc: &mut CompilerContext, program: &ProgramFile) -> (r: Result<(), CompileError>)
    requires
        old(cc).wf(),
        old(cc).codegen.instrs().len() == 0,
        old(cc).codegen.datas().len() == 0,
        old(cc).codegen.bsses().len() == 0,
        old(cc).variables_map@.len() == 0,
        old(cc).scoped_blocks@.len() == 0,
        old(cc).functions_map@.len() == 0,
        old(cc).structs_map@.len() == 0,
        old(cc).bif_set@.len() == 0,
        old(cc).spec_errors() == 0,
        program_wf(*program),
    ensures
        final(cc).wf(),
        final(cc).scoped_blocks@.len() == 0,
        final(cc).variables_map@.len() == 0,
        final(cc).codegen.datas().len() == 0,
        final(cc).codegen.bsses().len() == 0,
        final(cc).functions_map@.len() == collected_funs(program.items@).len(),
        forall|k: int|
            0 <= k < collected_funs(program.items@).len() ==> decl_eqv(
                #[trigger] final(cc).functions_map@[k],
                collected_funs(program.items@)[k],
            ),
        final(cc).structs_map@.len() == collected_structs(program.items@).len(),
        forall|k: int|
            0 <= k < collected_structs(program.items@).len() ==> struct_eqv(
                #[trigger] final(cc).structs_map@[k],
                collected_structs(program.items@)[k],
            ),
        !has_main(program.items@) ==> r == Err::<(), CompileError>(CompileError::NoEntryPoint)
            && final(cc).codegen.instrs().len() == 0 && final(cc).spec_errors() == 0,
        has_main(program.items@) ==> {
            &&& final(cc).codegen.instrs() == entry_lines() + items_lines(program.items@)
                + bifs_lines(items_bifs(Seq::empty(), program.items@))
            &&& final(cc).bif_set@ == items_bifs(Seq::empty(), program.items@)
            &&& final(cc).spec_errors() == items_errors(program.items@)
            &&& (items_errors(program.items@) == 0 ==> r == Ok::<(), CompileError>(()))
            &&& (items_errors(program.items@) > 0 ==> r == Err::<(), CompileError>(
                CompileError::Failed(final(cc).spec_errors()),
            ))
        },
{
    let ghost items = program.items@;
    collect_types(cc, program);
    let ghost fm = cc.functions_map@;
    let ghost sm = cc.structs_map@;
    if !cc.has_function("main") {
        proof {
            lemma_fun_index_props(fm, "main"@);
            if has_main(items) {
                let k = choose|k: int|
                    0 <= k < collected_funs(items).len() && (
                    #[trigger] collected_funs(items)[k]).ident@ == "main"@;
                assert(decl_eqv(fm[0 + k], collected_funs(items)[k]));
                assert(fm[k].ident@ == "main"@);
            }
        }
        proof {
            assert forall|k: int| 0 <= k < collected_funs(items).len() implies decl_eqv(
                #[trigger] cc.functions_map@[k],
                collected_funs(items)[k],
            ) by {
                assert(decl_eqv(cc.functions_map@[0 + k], collected_funs(items)[k]));
            }
            assert forall|k: int| 0 <= k < collected_structs(items).len() implies struct_eqv(
                #[trigger] cc.structs_map@[k],
                collected_structs(items)[k],
            ) by {
                assert(struct_eqv(cc.structs_map@[0 + k], collected_structs(items)[k]));
            }
        }
        return Err(CompileError::NoEntryPoint);
    }
    proof {
        lemma_fun_index_props(fm, "main"@);
        let j = fun_index(fm, "main"@);
        assert(decl_eqv(fm[0 + j], collected_funs(items)[j]));
        assert(collected_funs(items)[j].ident@ == "main"@);
        assert(has_main(items));
    }
    compile_init_function(cc);
    let mut i: usize = 0;
    proof {
        assert(items.take(0) =~= Seq::<ProgramItem>::empty());
        assert(cc.codegen.instrs() =~= entry_lines() + items_lines(items.take(0)));
        assert(cc.bif_set@ =~= items_bifs(Seq::empty(), items.take(0)));
        assert forall|k: int| 0 <= k < collected_funs(items).len() implies decl_eqv(
            #[trigger] fm[k],
            collected_funs(items)[k],
        ) by {
            assert(decl_eqv(fm[0 + k], collected_funs(items)[k]));
        }
        assert forall|k: int| 0 <= k < collected_structs(items).len() implies struct_eqv(
            #[trigger] sm[k],
            collected_structs(items)[k],
        ) by {
            assert(struct_eqv(sm[0 + k], collected_structs(items)[k]));
        }
    }
    while i < program.items.len()
        invariant
            program_wf(*program),
            items == program.items@,
            i <= items.len(),
            cc.wf(),
            cc.variables_map@.len() == 0,
            cc.scoped_blocks@.len() == 0,
            cc.codegen.instrs() == entry_lines() + items_lines(items.take(i as int)),
            cc.codegen.datas().len() == 0,
            cc.codegen.bsses().len() == 0,
            cc.bif_set@ == items_bifs(Seq::empty(), items.take(i as int)),
            cc.spec_errors() == items_errors(items.take(i as int)),
            cc.functions_map@ == fm,
            cc.structs_map@ == sm,
            fm.len() == collected_funs(items).len(),
            forall|k: int|
                0 <= k < collected_funs(items).len() ==> decl_eqv(
                    #[trigger] fm[k],
                    collected_funs(items)[k],
                ),
            sm.len() == collected_structs(items).len(),
            forall|k: int|
                0 <= k < collected_structs(items).len() ==> struct_eqv(
                    #[trigger] sm[k],
                    collected_structs(items)[k],
                ),
        decreases items.len() - i,
    {
        proof {
            assert(items.take(i + 1).drop_last() =~= items.take(i as int));
            assert(items.take(i + 1).last() == items[i as int]);
            assert(items.take(items.len() as int) =~= items);
            lemma_items_errors_take_mono(items, i + 1, items.len() as int);
        }
        match &program.items[i] {
            ProgramItem::Func(f) => {
                proof {
                    assert(function_wf(*f));
                }
                compile_function(cc, f);
                proof {
                    assert(cc.codegen.instrs() =~= entry_lines() + items_lines(items.take(i + 1)));
                }
            },
            _ => {
                proof {
                    assert(items_lines(items.take(i + 1)) =~= items_lines(items.take(i as int)));
                    assert(items_bifs(Seq::empty(), items.take(i + 1)) == items_bifs(
                        Seq::empty(),
                        items.take(i as int),
                    ));
                }
            },
        }
        i = i + 1;
    }
    proof {
        assert(items.take(items.len() as int) =~= items);
    }
    impl_bifs(cc);
    let e = cc.error_count();
    if e > 0 {
        Err(CompileError::Failed(e))
    } else {
        Ok(())
    }
}

} // verus!
