//! The compiler context: the mutable state threaded through compilation of
//! one source file.  It owns the emission buffer, the scope stack, the
//! symbol tables, the running stack-frame offset counter, the set of
//! built-in routines actually referenced, and the recoverable-error counter.

use vstd::prelude::*;

verus! {

use crate::bif::Bif;
use crate::codegen::{Codegen, R, is_register_size};
use crate::program::{FunctionDecl, StructDef, VariableType};

/// One variable binding: its stack offset, outer and element types, and
/// mutability.
#[derive(Debug)]
pub struct VariableMap {
    pub offset_inner: usize,
    pub offset: usize,
    pub vtype: VariableType,
    pub vtype_inner: VariableType,
    pub is_mut: bool,
}

impl VariableMap {
    /// The memory operand offset of the variable relative to the frame
    /// pointer: the negative of (offset + type size), addressing a
    /// downward-growing frame.
    pub fn stack_offset(&self) -> (r: i32)
        requires
            self.vtype.wf(),
            self.offset + self.vtype.spec_size() <= i32::MAX,
        ensures
            r as int == -(self.offset + self.vtype.spec_size()),
    {
        -((self.offset + self.vtype.size()) as i32)
    }
}

impl Clone for VariableMap {
    fn clone(&self) -> (r: Self)
        ensures
            r == *self,
    {
        VariableMap {
            offset_inner: self.offset_inner,
            offset: self.offset,
            vtype: self.vtype.clone(),
            vtype_inner: self.vtype_inner.clone(),
            is_mut: self.is_mut,
        }
    }
}

/// A named variable binding held by the context's table.
#[derive(Debug)]
pub struct VariableEntry {
    pub ident: String,
    pub vmap: VariableMap,
}

/// A scope marker: the number of variable bindings that existed when the
/// scope was entered.
#[derive(Debug, Clone, Copy)]
pub struct ScopeBlock {
    pub vars_at_entry: usize,
}

/// The total byte size of a run of variable bindings.
pub open spec fn sum_sizes(entries: Seq<VariableEntry>) -> nat
    decreases entries.len(),
{
    if entries.len() == 0 {
        0
    } else {
        sum_sizes(entries.drop_last()) + entries.last().vmap.vtype.spec_size()
    }
}

pub(crate) proof fn lemma_sum_take_step(entries: Seq<VariableEntry>, k: int)
    requires
        0 <= k < entries.len(),
    ensures
        sum_sizes(entries.take(k + 1)) == sum_sizes(entries.take(k))
            + entries[k].vmap.vtype.spec_size(),
{
    assert(entries.take(k + 1).drop_last() =~= entries.take(k));
    assert(entries.take(k + 1).last() == entries[k]);
}

pub(crate) proof fn lemma_sum_mono(entries: Seq<VariableEntry>, a: int, b: int)
    requires
        0 <= a <= b <= entries.len(),
    ensures
        sum_sizes(entries.take(a)) <= sum_sizes(entries.take(b)),
    decreases b - a,
{
    if a < b {
        lemma_sum_mono(entries, a, b - 1);
        lemma_sum_take_step(entries, b - 1);
    }
}

pub(crate) proof fn lemma_sum_split(entries: Seq<VariableEntry>, k: int)
    requires
        0 <= k <= entries.len(),
    ensures
        sum_sizes(entries) == sum_sizes(entries.take(k)) + sum_sizes(entries.skip(k)),
    decreases entries.len() - k,
{
    if k == entries.len() {
        assert(entries.take(k) =~= entries);
        assert(entries.skip(k) =~= Seq::<VariableEntry>::empty());
    } else {
        lemma_sum_split(entries.drop_last(), k);
        assert(entries.drop_last().take(k) =~= entries.take(k));
        assert(entries.skip(k).drop_last() =~= entries.drop_last().skip(k));
        assert(entries.skip(k).last() == entries.last());
    }
}

/// The index of the innermost binding of `name`, or -1 when `name` is not
/// bound.
pub open spec fn var_index(vm: Seq<VariableEntry>, name: Seq<char>) -> int
    decreases vm.len(),
{
    if vm.len() == 0 {
        -1
    } else if vm.last().ident@ == name {
        vm.len() - 1
    } else {
        var_index(vm.drop_last(), name)
    }
}

pub(crate) proof fn lemma_var_index_props(vm: Seq<VariableEntry>, name: Seq<char>)
    ensures
        -1 <= var_index(vm, name) < vm.len(),
        var_index(vm, name) >= 0 ==> vm[var_index(vm, name)].ident@ == name,
        forall|k: int|
            var_index(vm, name) < k < vm.len() ==> (#[trigger] vm[k]).ident@ != name,
    decreases vm.len(),
{
    if vm.len() > 0 && vm.last().ident@ != name {
        lemma_var_index_props(vm.drop_last(), name);
        assert(forall|k: int|
            0 <= k < vm.len() - 1 ==> vm.drop_last()[k] == (#[trigger] vm[k]));
    }
}

/// Inserts a built-in into a reference set, keeping insertion idempotent.
pub open spec fn push_unique(s: Seq<Bif>, b: Bif) -> Seq<Bif> {
    if s.contains(b) {
        s
    } else {
        s.push(b)
    }
}

/// The implementation bodies of a run of built-ins, in order.
pub open spec fn bifs_lines(bs: Seq<Bif>) -> Seq<Seq<char>>
    decreases bs.len(),
{
    if bs.len() == 0 {
        Seq::empty()
    } else {
        bifs_lines(bs.drop_last()) + bs.last().impl_lines()
    }
}

/// The index of the latest declaration of a function name, or -1 when the
/// name is not declared.
pub open spec fn fun_index(fm: Seq<FunctionDecl>, name: Seq<char>) -> int
    decreases fm.len(),
{
    if fm.len() == 0 {
        -1
    } else if fm.last().ident@ == name {
        fm.len() - 1
    } else {
        fun_index(fm.drop_last(), name)
    }
}

pub(crate) proof fn lemma_fun_index_props(fm: Seq<FunctionDecl>, name: Seq<char>)
    ensures
        -1 <= fun_index(fm, name) < fm.len(),
        fun_index(fm, name) >= 0 ==> fm[fun_index(fm, name)].ident@ == name,
        forall|k: int|
            fun_index(fm, name) < k < fm.len() ==> (#[trigger] fm[k]).ident@ != name,
    decreases fm.len(),
{
    if fm.len() > 0 && fm.last().ident@ != name {
        lemma_fun_index_props(fm.drop_last(), name);
        assert(forall|k: int|
            0 <= k < fm.len() - 1 ==> fm.drop_last()[k] == (#[trigger] fm[k]));
    }
}

/// The central mutable state of one compilation unit.
#[derive(Debug)]
pub struct CompilerContext {
    pub codegen: Codegen,
    pub scoped_blocks: Vec<ScopeBlock>,
    pub variables_map: Vec<VariableEntry>,
    pub functions_map: Vec<FunctionDecl>,
    pub structs_map: Vec<StructDef>,
    pub bif_set: Vec<Bif>,
    pub mem_offset: usize,
    pub program_file: String,
    pub errors: usize,
}

impl CompilerContext {
    /// The recoverable-error count recorded so far.
    pub open spec fn spec_errors(self) -> usize {
        self.errors
    }

    /// Well-formedness of the variable table: every binding's offset is the
    /// sum of the sizes of the bindings declared before it, and the offset
    /// counter is the total size of all bindings.
    pub open spec fn vars_wf(self) -> bool {
        &&& forall|i: int|
            0 <= i < self.variables_map@.len() ==> (#[trigger] self.variables_map@[i]).vmap.vtype.wf()
        &&& forall|i: int|
            0 <= i < self.variables_map@.len() ==> (#[trigger] self.variables_map@[i]).vmap.offset
                == sum_sizes(self.variables_map@.take(i))
        &&& self.mem_offset == sum_sizes(self.variables_map@)
    }

    /// Well-formedness of the scope stack: markers never exceed the table
    /// length and are ordered.
    pub open spec fn scopes_wf(self) -> bool {
        &&& forall|i: int|
            0 <= i < self.scoped_blocks@.len() ==> (#[trigger] self.scoped_blocks@[i]).vars_at_entry
                <= self.variables_map@.len()
        &&& forall|i: int, j: int|
            0 <= i <= j < self.scoped_blocks@.len() ==> (#[trigger] self.scoped_blocks@[i]).vars_at_entry
                <= (#[trigger] self.scoped_blocks@[j]).vars_at_entry
    }

    /// Well-formedness of the built-in reference set: no duplicates.
    pub open spec fn bifs_wf(self) -> bool {
        forall|i: int, j: int|
            0 <= i < j < self.bif_set@.len() ==> (#[trigger] self.bif_set@[i]) != (
            #[trigger] self.bif_set@[j])
    }

    /// The context invariant.
    pub open spec fn wf(self) -> bool {
        self.vars_wf() && self.scopes_wf() && self.bifs_wf()
    }

    /// The table index at which the innermost active scope begins.
    pub open spec fn cur_scope_start(self) -> int {
        if self.scoped_blocks@.len() == 0 {
            0
        } else {
            self.scoped_blocks@.last().vars_at_entry as int
        }
    }

    /// Whether `name` is already bound within the innermost active scope.
    pub open spec fn scope_declared(self, name: Seq<char>) -> bool {
        exists|k: int|
            self.cur_scope_start() <= k < self.variables_map@.len() && (
            #[trigger] self.variables_map@[k]).ident@ == name
    }

    /// Creates the context for one compilation unit.
    pub fn new(program_file: String) -> (r: Self)
        ensures
            r.wf(),
            r.codegen.instrs().len() == 0,
            r.codegen.datas().len() == 0,
            r.codegen.bsses().len() == 0,
            r.scoped_blocks@.len() == 0,
            r.variables_map@.len() == 0,
            r.functions_map@.len() == 0,
            r.structs_map@.len() == 0,
            r.bif_set@.len() == 0,
            r.mem_offset == 0,
            r.spec_errors() == 0,
            r.program_file == program_file,
    {
        Self {
            program_file,
            codegen: Codegen::new(),
            scoped_blocks: Vec::new(),
            bif_set: Vec::new(),
            variables_map: Vec::new(),
            functions_map: Vec::new(),
            structs_map: Vec::new(),
            mem_offset: 0,
            errors: 0,
        }
    }

    /// Records one recoverable error; compilation continues so that later
    /// errors in the same run are still surfaced.
    pub fn error(&mut self)
        requires
            old(self).spec_errors() < usize::MAX,
        ensures
            final(self).spec_errors() == old(self).spec_errors() + 1,
            final(self).codegen == old(self).codegen,
            final(self).scoped_blocks == old(self).scoped_blocks,
            final(self).variables_map == old(self).variables_map,
            final(self).functions_map == old(self).functions_map,
            final(self).structs_map == old(self).structs_map,
            final(self).bif_set == old(self).bif_set,
            final(self).mem_offset == old(self).mem_offset,
            final(self).program_file == old(self).program_file,
    {
        self.errors = self.errors + 1;
    }

    /// The recoverable-error count recorded so far.
    pub fn error_count(&self) -> (r: usize)
        ensures
            r == self.spec_errors(),
    {
        self.errors
    }

    /// Pushes a new innermost scope.
    pub fn enter_scope(&mut self)
        requires
            old(self).wf(),
        ensures
            final(self).wf(),
            final(self).scoped_blocks@ == old(self).scoped_blocks@.push(
                ScopeBlock { vars_at_entry: old(self).variables_map@.len() as usize },
            ),
            final(self).codegen == old(self).codegen,
            final(self).variables_map == old(self).variables_map,
            final(self).functions_map == old(self).functions_map,
            final(self).structs_map == old(self).structs_map,
            final(self).bif_set == old(self).bif_set,
            final(self).mem_offset == old(self).mem_offset,
            final(self).program_file == old(self).program_file,
            final(self).spec_errors() == old(self).spec_errors(),
    {
        let n = self.variables_map.len();
        self.scoped_blocks.push(ScopeBlock { vars_at_entry: n });
    }

    /// Pops the innermost scope: every variable declared since the matching
    /// enter is removed and the offset counter is rewound by exactly the sum
    /// of their sizes, so sibling blocks may reuse stack space.
    pub fn exit_scope(&mut self)
        requires
            old(self).wf(),
            old(self).scoped_blocks@.len() > 0,
        ensures
            final(self).wf(),
            final(self).scoped_blocks@ == old(self).scoped_blocks@.drop_last(),
            final(self).variables_map@ == old(self).variables_map@.take(
                old(self).scoped_blocks@.last().vars_at_entry as int,
            ),
            final(self).mem_offset == sum_sizes(final(self).variables_map@),
            old(self).mem_offset - final(self).mem_offset == sum_sizes(
                old(self).variables_map@.skip(old(self).scoped_blocks@.last().vars_at_entry as int),
            ),
            final(self).codegen == old(self).codegen,
            final(self).functions_map == old(self).functions_map,
            final(self).structs_map == old(self).structs_map,
            final(self).bif_set == old(self).bif_set,
            final(self).program_file == old(self).program_file,
            final(self).spec_errors() == old(self).spec_errors(),
    {
        let marker = self.scoped_blocks[self.scoped_blocks.len() - 1].vars_at_entry;
        let _ = self.scoped_blocks.pop();
        proof {
            assert(old(self).variables_map@.take(old(self).variables_map@.len() as int)
                =~= old(self).variables_map@);
        }
        while self.variables_map.len() > marker
            invariant
                old(self).wf(),
                marker <= self.variables_map@.len() <= old(self).variables_map@.len(),
                self.variables_map@ == old(self).variables_map@.take(
                    self.variables_map@.len() as int,
                ),
                self.mem_offset == sum_sizes(self.variables_map@),
                self.scoped_blocks@ == old(self).scoped_blocks@.drop_last(),
                self.codegen == old(self).codegen,
                self.functions_map == old(self).functions_map,
                self.structs_map == old(self).structs_map,
                self.bif_set == old(self).bif_set,
                self.program_file == old(self).program_file,
                self.spec_errors() == old(self).spec_errors(),
            decreases self.variables_map@.len(),
        {
            proof {
                let vm = self.variables_map@;
                assert(vm.len() > 0);
                assert(vm.last() == old(self).variables_map@[vm.len() - 1]);
                assert(vm.last().vmap.vtype.wf());
            }
            let e = self.variables_map.pop().unwrap();
            let sz = e.vmap.vtype.size();
            proof {
                let k = self.variables_map@.len() as int;
                assert(self.variables_map@ =~= old(self).variables_map@.take(k + 1).drop_last());
                assert(old(self).variables_map@.take(k + 1).drop_last() =~= old(
                    self,
                ).variables_map@.take(k));
            }
            self.mem_offset = self.mem_offset - sz;
        }
        proof {
            lemma_sum_split(old(self).variables_map@, marker as int);
            let newvm = self.variables_map@;
            // remaining bindings keep their prefix-sum offsets
            assert(forall|i: int|
                0 <= i < newvm.len() ==> newvm.take(i) =~= (#[trigger] old(
                    self,
                ).variables_map@.take(i)));
            assert(forall|i: int|
                0 <= i < newvm.len() ==> (#[trigger] newvm[i]) == old(self).variables_map@[i]);
            // remaining scope markers never exceed the popped marker
            assert(forall|i: int|
                0 <= i < self.scoped_blocks@.len() ==> (#[trigger] self.scoped_blocks@[i])
                    == old(self).scoped_blocks@[i]);
        }
    }

    /// Declares a variable in the innermost scope.  Redeclaration within the
    /// same scope is a recoverable compile error: the error counter grows,
    /// the prior binding stays in force, and its offset is returned.  On
    /// success the new binding's offset — the value returned — is the
    /// current offset counter, which then grows by the type's size.
    pub fn declare_variable(
        &mut self,
        ident: &str,
        vtype: VariableType,
        vtype_inner: VariableType,
        is_mut: bool,
    ) -> (r: usize)
        requires
            old(self).wf(),
            vtype.wf(),
            old(self).mem_offset + vtype.spec_size() <= usize::MAX,
            old(self).scope_declared(ident@) ==> old(self).spec_errors() < usize::MAX,
        ensures
            final(self).wf(),
            final(self).codegen == old(self).codegen,
            final(self).scoped_blocks == old(self).scoped_blocks,
            final(self).functions_map == old(self).functions_map,
            final(self).structs_map == old(self).structs_map,
            final(self).bif_set == old(self).bif_set,
            final(self).program_file == old(self).program_file,
            old(self).scope_declared(ident@) ==> {
                &&& final(self).variables_map == old(self).variables_map
                &&& final(self).mem_offset == old(self).mem_offset
                &&& final(self).spec_errors() == old(self).spec_errors() + 1
                &&& r == old(self).variables_map@[var_index(old(self).variables_map@, ident@)].vmap.offset
            },
            !old(self).scope_declared(ident@) ==> {
                &&& final(self).variables_map@.len() == old(self).variables_map@.len() + 1
                &&& final(self).variables_map@ == old(self).variables_map@.push(
                    final(self).variables_map@.last(),
                )
                &&& final(self).variables_map@.last().ident@ == ident@
                &&& final(self).variables_map@.last().vmap.offset == old(self).mem_offset
                &&& final(self).variables_map@.last().vmap.offset_inner == old(self).mem_offset
                &&& final(self).variables_map@.last().vmap.vtype == vtype
                &&& final(self).variables_map@.last().vmap.vtype_inner == vtype_inner
                &&& final(self).variables_map@.last().vmap.is_mut == is_mut
                &&& final(self).mem_offset == old(self).mem_offset + vtype.spec_size()
                &&& final(self).spec_errors() == old(self).spec_errors()
                &&& r == old(self).mem_offset
            },
    {
        let key: String = ident.to_owned();
        let start: usize = if self.scoped_blocks.len() == 0 {
            0
        } else {
            self.scoped_blocks[self.scoped_blocks.len() - 1].vars_at_entry
        };
        let found = find_index(&self.variables_map, &key);
        proof {
            lemma_var_index_props(self.variables_map@, key@);
        }
        let dup_at: Option<usize> = match found {
            Some(j) => if j >= start {
                Some(j)
            } else {
                None
            },
            None => None,
        };
        match dup_at {
            Some(j) => {
                proof {
                    assert(old(self).scope_declared(ident@));
                }
                self.errors = self.errors + 1;
                self.variables_map[j].vmap.offset
            },
            None => {
                proof {
                    assert(!old(self).scope_declared(ident@)) by {
                        if old(self).scope_declared(ident@) {
                            let k = choose|k: int|
                                old(self).cur_scope_start() <= k < old(self).variables_map@.len()
                                    && (#[trigger] old(self).variables_map@[k]).ident@ == ident@;
                            assert(var_index(old(self).variables_map@, ident@) >= k);
                        }
                    }
                }
                let off = self.mem_offset;
                let sz = vtype.size();
                let entry = VariableEntry {
                    ident: key,
                    vmap: VariableMap {
                        offset_inner: off,
                        offset: off,
                        vtype,
                        vtype_inner,
                        is_mut,
                    },
                };
                proof {
                    let vm = self.variables_map@;
                    assert(vm.push(entry).drop_last() =~= vm);
                    assert(forall|i: int|
                        0 <= i < vm.len() ==> vm.push(entry).take(i) =~= (#[trigger] vm.take(i)));
                    assert(vm.push(entry).take(vm.len() as int) =~= vm);
                }
                self.variables_map.push(entry);
                self.mem_offset = off + sz;
                off
            },
        }
    }

    /// Resolves a variable along the innermost-to-outermost scope chain.
    /// `None` means the name is unbound, which callers report as a compile
    /// error.
    pub fn resolve_variable(&self, ident: &str) -> (r: Option<&VariableMap>)
        ensures
            match r {
                Some(v) => var_index(self.variables_map@, ident@) >= 0 && *v
                    == self.variables_map@[var_index(self.variables_map@, ident@)].vmap,
                None => var_index(self.variables_map@, ident@) == -1,
            },
    {
        let key: String = ident.to_owned();
        match find_index(&self.variables_map, &key) {
            Some(j) => Some(&self.variables_map[j].vmap),
            None => None,
        }
    }

    /// Whether a function of the given name has been collected.
    pub fn has_function(&self, name: &str) -> (r: bool)
        ensures
            r == (fun_index(self.functions_map@, name@) >= 0),
    {
        let key: String = name.to_owned();
        let mut j = self.functions_map.len();
        proof {
            assert(self.functions_map@.take(j as int) =~= self.functions_map@);
        }
        while j > 0
            invariant
                j <= self.functions_map@.len(),
                fun_index(self.functions_map@, key@) == fun_index(
                    self.functions_map@.take(j as int),
                    key@,
                ),
                key@ == name@,
            decreases j,
        {
            proof {
                assert(self.functions_map@.take(j as int).last() == self.functions_map@[j - 1]);
            }
            if self.functions_map[j - 1].ident == key {
                proof {
                    lemma_fun_index_props(self.functions_map@, key@);
                }
                return true;
            }
            proof {
                assert(self.functions_map@.take(j as int).drop_last() =~= self.functions_map@.take(
                    j - 1,
                ));
            }
            j = j - 1;
        }
        false
    }

    /// Emits a call to a built-in's fixed label and records the built-in in
    /// the reference set, idempotently, so that its implementation is
    /// emitted exactly once after all user functions.
    pub fn request_bif(&mut self, bif: Bif)
        requires
            old(self).wf(),
        ensures
            final(self).wf(),
            final(self).codegen.instrs() == old(self).codegen.instrs().push(
                "    call "@ + bif.spec_label(),
            ),
            final(self).codegen.data_buf == old(self).codegen.data_buf,
            final(self).codegen.bss_buf == old(self).codegen.bss_buf,
            final(self).bif_set@ == push_unique(old(self).bif_set@, bif),
            final(self).scoped_blocks == old(self).scoped_blocks,
            final(self).variables_map == old(self).variables_map,
            final(self).functions_map == old(self).functions_map,
            final(self).structs_map == old(self).structs_map,
            final(self).mem_offset == old(self).mem_offset,
            final(self).program_file == old(self).program_file,
            final(self).spec_errors() == old(self).spec_errors(),
    {
        self.codegen.call(bif.label());
        let mut present = false;
        let mut i: usize = 0;
        while i < self.bif_set.len()
            invariant
                i <= self.bif_set@.len(),
                present == self.bif_set@.take(i as int).contains(bif),
            decreases self.bif_set@.len() - i,
        {
            proof {
                assert(self.bif_set@.take(i + 1).drop_last() =~= self.bif_set@.take(i as int));
                assert(self.bif_set@.take(i + 1).last() == self.bif_set@[i as int]);
                assert(self.bif_set@.take(i as int).contains(bif) ==> self.bif_set@.take(
                    i + 1,
                ).contains(bif));
                assert(self.bif_set@[i as int] == bif ==> self.bif_set@.take(i + 1).contains(bif));
                assert(self.bif_set@.take(i + 1).contains(bif) ==> (self.bif_set@.take(
                    i as int,
                ).contains(bif) || self.bif_set@[i as int] == bif)) by {
                    if self.bif_set@.take(i + 1).contains(bif) {
                        let k = choose|k: int|
                            0 <= k < i + 1 && (#[trigger] self.bif_set@.take(i + 1)[k]) == bif;
                        if k < i {
                            assert(self.bif_set@.take(i as int)[k] == bif);
                        }
                    }
                }
            }
            if self.bif_set[i] == bif {
                present = true;
            }
            i = i + 1;
        }
        proof {
            assert(self.bif_set@.take(self.bif_set@.len() as int) =~= self.bif_set@);
        }
        if !present {
            self.bif_set.push(bif);
            proof {
                assert(forall|k: int|
                    0 <= k < old(self).bif_set@.len() ==> old(self).bif_set@.push(bif)[k] == (
                    #[trigger] old(self).bif_set@[k]));
            }
        }
    }
}

fn find_index(vm: &Vec<VariableEntry>, name: &String) -> (r: Option<usize>)
    ensures
        match r {
            Some(i) => i == var_index(vm@, name@) && i < vm@.len(),
            None => var_index(vm@, name@) == -1,
        },
{
    let mut j = vm.len();
    proof {
        assert(vm@.take(j as int) =~= vm@);
    }
    while j > 0
        invariant
            j <= vm@.len(),
            var_index(vm@, name@) == var_index(vm@.take(j as int), name@),
        decreases j,
    {
        proof {
            assert(vm@.take(j as int).last() == vm@[j - 1]);
        }
        if vm[j - 1].ident == *name {
            return Some(j - 1);
        }
        proof {
            assert(vm@.take(j as int).drop_last() =~= vm@.take(j - 1));
        }
        j = j - 1;
    }
    None
}

/// The System-V integer argument-passing register for a zero-based argument
/// position.
pub open spec fn arg_reg64(i: int) -> R {
    if i == 0 {
        R::RDI
    } else if i == 1 {
        R::RSI
    } else if i == 2 {
        R::RDX
    } else if i == 3 {
        R::RCX
    } else if i == 4 {
        R::R8
    } else {
        R::R9
    }
}

/// The argument-passing register for a zero-based argument position, at full
/// width.  Integer arguments beyond the sixth are not supported.
pub fn function_args_register(arg_numer: usize) -> (r: R)
    requires
        arg_numer < 6,
    ensures
        r == arg_reg64(arg_numer as int),
{
    match arg_numer {
        0 => R::RDI,
        1 => R::RSI,
        2 => R::RDX,
        3 => R::RCX,
        4 => R::R8,
        _ => R::R9,
    }
}

/// The argument-passing register for a zero-based argument position, sized
/// for one element of the given type.
pub fn function_args_register_sized(arg_numer: usize, vtype: &VariableType) -> (r: R)
    requires
        arg_numer < 6,
        vtype.wf(),
        is_register_size(vtype.spec_item_size()),
    ensures
        r == arg_reg64(arg_numer as int).spec_sized(vtype.spec_item_size()),
{
    function_args_register(arg_numer).sized(vtype.item_size())
}

/// Emits the implementation body of every referenced built-in, each exactly
/// once, in first-request order.  A built-in never requested contributes
/// nothing.
pub fn impl_bifs(cc: &mut CompilerContext)
    requires
        old(cc).wf(),
    ensures
        final(cc).wf(),
        final(cc).codegen.instrs() == old(cc).codegen.instrs() + bifs_lines(old(cc).bif_set@),
        final(cc).codegen.data_buf == old(cc).codegen.data_buf,
        final(cc).codegen.bss_buf == old(cc).codegen.bss_buf,
        final(cc).scoped_blocks == old(cc).scoped_blocks,
        final(cc).variables_map == old(cc).variables_map,
        final(cc).functions_map == old(cc).functions_map,
        final(cc).structs_map == old(cc).structs_map,
        final(cc).bif_set == old(cc).bif_set,
        final(cc).mem_offset == old(cc).mem_offset,
        final(cc).program_file == old(cc).program_file,
        final(cc).spec_errors() == old(cc).spec_errors(),
{
    let mut i: usize = 0;
    proof {
        assert(bifs_lines(old(cc).bif_set@.take(0)) =~= Seq::<Seq<char>>::empty());
        assert(cc.codegen.instrs() =~= old(cc).codegen.instrs() + bifs_lines(
            old(cc).bif_set@.take(0),
        ));
    }
    while i < cc.bif_set.len()
        invariant
            i <= cc.bif_set@.len(),
            cc.bif_set == old(cc).bif_set,
            cc.scoped_blocks == old(cc).scoped_blocks,
            cc.variables_map == old(cc).variables_map,
            cc.functions_map == old(cc).functions_map,
            cc.structs_map == old(cc).structs_map,
            cc.mem_offset == old(cc).mem_offset,
            cc.program_file == old(cc).program_file,
            cc.spec_errors() == old(cc).spec_errors(),
            cc.codegen.instrs() == old(cc).codegen.instrs() + bifs_lines(
                old(cc).bif_set@.take(i as int),
            ),
            cc.codegen.data_buf == old(cc).codegen.data_buf,
            cc.codegen.bss_buf == old(cc).codegen.bss_buf,
        decreases cc.bif_set@.len() - i,
    {
        let b = cc.bif_set[i];
        b.implement(&mut cc.codegen);
        proof {
            let pre = old(cc).bif_set@.take(i as int);
            let post = old(cc).bif_set@.take(i + 1);
            assert(post.drop_last() =~= pre);
            assert(post.last() == old(cc).bif_set@[i as int]);
            assert((old(cc).codegen.instrs() + bifs_lines(pre)) + b.impl_lines() =~= old(
                cc,
            ).codegen.instrs() + bifs_lines(post));
        }
        i = i + 1;
    }
    proof {
        assert(old(cc).bif_set@.take(cc.bif_set@.len() as int) =~= old(cc).bif_set@);
    }
}

/// Stack offsets assigned to variables are strictly increasing in
/// declaration order and never overlap: a later binding's offset is at
/// least an earlier binding's offset plus that binding's size.
pub proof fn lemma_offsets_disjoint(cc: CompilerContext, i: int, j: int)
    requires
        cc.wf(),
        0 <= i < j < cc.variables_map@.len(),
    ensures
        cc.variables_map@[j].vmap.offset >= cc.variables_map@[i].vmap.offset
            + cc.variables_map@[i].vmap.vtype.spec_size(),
{
    lemma_sum_take_step(cc.variables_map@, i);
    lemma_sum_mono(cc.variables_map@, i + 1, j);
}

} // verus!
