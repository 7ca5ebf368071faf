//! The parsed-program data model handed to the backend by the front end:
//! value types with their byte sizes, function and struct declarations, and
//! the top-level items of one source file.

use vstd::prelude::*;

verus! {

use crate::bif::Bif;

/// A value type of the source language.  Every type has a byte size, and an
/// element size used to pick register widths when single elements of it are
/// moved around.
#[derive(Debug, PartialEq, Eq)]
pub enum VariableType {
    Bool,
    Char,
    Short,
    UShort,
    Int,
    UInt,
    Long,
    ULong,
    Pointer,
    Str,
    Array(Box<VariableType>, usize),
    Custom(String),
}

impl VariableType {
    /// The number of bytes a value of this type occupies on the stack.
    pub open spec fn spec_size(self) -> nat
        decreases self,
    {
        match self {
            VariableType::Bool => 1,
            VariableType::Char => 1,
            VariableType::Short => 2,
            VariableType::UShort => 2,
            VariableType::Int => 4,
            VariableType::UInt => 4,
            VariableType::Long => 8,
            VariableType::ULong => 8,
            VariableType::Pointer => 8,
            VariableType::Str => 8,
            VariableType::Array(t, n) => t.spec_size() * n as nat,
            VariableType::Custom(_) => 8,
        }
    }

    /// The byte size of one element of this type: the element type's size for
    /// arrays, one byte for string contents, and the type's own size
    /// otherwise.
    pub open spec fn spec_item_size(self) -> nat {
        match self {
            VariableType::Array(t, _) => t.spec_size(),
            VariableType::Str => 1,
            _ => self.spec_size(),
        }
    }

    /// Well-formedness: array lengths are positive and every array's total
    /// size fits in a machine word.
    pub open spec fn wf(self) -> bool
        decreases self,
    {
        match self {
            VariableType::Array(t, n) => t.wf() && 1 <= n && t.spec_size() * n <= usize::MAX,
            _ => true,
        }
    }

    /// Executable byte size; see [`VariableType::spec_size`].
    pub fn size(&self) -> (r: usize)
        requires
            self.wf(),
        ensures
            r == self.spec_size(),
        decreases self,
    {
        match self {
            VariableType::Bool => 1,
            VariableType::Char => 1,
            VariableType::Short => 2,
            VariableType::UShort => 2,
            VariableType::Int => 4,
            VariableType::UInt => 4,
            VariableType::Long => 8,
            VariableType::ULong => 8,
            VariableType::Pointer => 8,
            VariableType::Str => 8,
            VariableType::Array(t, n) => t.size() * *n,
            VariableType::Custom(_) => 8,
        }
    }

    /// Executable element size; see [`VariableType::spec_item_size`].
    pub fn item_size(&self) -> (r: usize)
        requires
            self.wf(),
        ensures
            r == self.spec_item_size(),
    {
        match self {
            VariableType::Array(t, n) => {
                proof {
                    lemma_mul_lower_bound(t.spec_size(), *n as nat);
                }
                t.size()
            },
            VariableType::Str => 1,
            _ => self.size(),
        }
    }

    /// The element type: an array's element type, and the type itself
    /// otherwise.
    pub open spec fn spec_inner(self) -> VariableType {
        match self {
            VariableType::Array(t, _) => *t,
            _ => self,
        }
    }

    /// Executable element type; see [`VariableType::spec_inner`].
    pub fn inner(&self) -> (r: VariableType)
        ensures
            r == self.spec_inner(),
    {
        match self {
            VariableType::Array(t, _) => (**t).clone(),
            _ => self.clone(),
        }
    }
}

/// Every well-formed type occupies at least one byte.
pub proof fn lemma_size_positive(t: VariableType)
    requires
        t.wf(),
    ensures
        1 <= t.spec_size(),
    decreases t,
{
    match t {
        VariableType::Array(inner, n) => {
            lemma_size_positive(*inner);
            assert(1 <= inner.spec_size() * n as nat) by (nonlinear_arith)
                requires
                    1 <= inner.spec_size(),
                    1 <= n,
            ;
        },
        _ => {},
    }
}

proof fn lemma_mul_lower_bound(a: nat, n: nat)
    requires
        1 <= n,
    ensures
        a <= a * n,
{
    assert(a <= a * n) by (nonlinear_arith)
        requires
            1 <= n,
    ;
}

impl Clone for VariableType {
    fn clone(&self) -> (r: Self)
        ensures
            r == *self,
        decreases self,
    {
        match self {
            VariableType::Bool => VariableType::Bool,
            VariableType::Char => VariableType::Char,
            VariableType::Short => VariableType::Short,
            VariableType::UShort => VariableType::UShort,
            VariableType::Int => VariableType::Int,
            VariableType::UInt => VariableType::UInt,
            VariableType::Long => VariableType::Long,
            VariableType::ULong => VariableType::ULong,
            VariableType::Pointer => VariableType::Pointer,
            VariableType::Str => VariableType::Str,
            VariableType::Array(t, n) => VariableType::Array(Box::new((**t).clone()), *n),
            VariableType::Custom(s) => VariableType::Custom(s.clone()),
        }
    }
}

/// One formal parameter of a function declaration.
#[derive(Debug)]
pub struct FuncArg {
    pub ident: String,
    pub atype: VariableType,
}

impl Clone for FuncArg {
    fn clone(&self) -> (r: Self)
        ensures
            r == *self,
    {
        FuncArg { ident: self.ident.clone(), atype: self.atype.clone() }
    }
}

/// A function's declaration: name, ordered parameters, return type, and its
/// calling-convention classification (native definition or foreign import).
#[derive(Debug)]
pub struct FunctionDecl {
    pub ident: String,
    pub args: Vec<FuncArg>,
    pub ret_type: VariableType,
    pub foreign: bool,
}

impl Clone for FunctionDecl {
    fn clone(&self) -> (r: Self)
        ensures
            r.ident@ == self.ident@,
            r.args@ == self.args@,
            r.ret_type == self.ret_type,
            r.foreign == self.foreign,
    {
        let mut args: Vec<FuncArg> = Vec::new();
        let mut i: usize = 0;
        while i < self.args.len()
            invariant
                i <= self.args.len(),
                args@ == self.args@.take(i as int),
            decreases self.args.len() - i,
        {
            args.push(self.args[i].clone());
            proof {
                assert(self.args@.take(i as int).push(self.args@[i as int]) =~= self.args@.take(
                    i + 1,
                ));
            }
            i = i + 1;
        }
        proof {
            assert(self.args@.take(self.args@.len() as int) =~= self.args@);
        }
        FunctionDecl {
            ident: self.ident.clone(),
            args,
            ret_type: self.ret_type.clone(),
            foreign: self.foreign,
        }
    }
}

/// One field of a struct definition.
#[derive(Debug)]
pub struct StructField {
    pub ident: String,
    pub vtype: VariableType,
}

impl Clone for StructField {
    fn clone(&self) -> (r: Self)
        ensures
            r == *self,
    {
        StructField { ident: self.ident.clone(), vtype: self.vtype.clone() }
    }
}

/// A struct definition: name and ordered fields.  Field byte offsets are
/// derived from field order and sizes.
#[derive(Debug)]
pub struct StructDef {
    pub ident: String,
    pub fields: Vec<StructField>,
}

impl Clone for StructDef {
    fn clone(&self) -> (r: Self)
        ensures
            r.ident@ == self.ident@,
            r.fields@ == self.fields@,
    {
        let mut fields: Vec<StructField> = Vec::new();
        let mut i: usize = 0;
        while i < self.fields.len()
            invariant
                i <= self.fields.len(),
                fields@ == self.fields@.take(i as int),
            decreases self.fields.len() - i,
        {
            fields.push(self.fields[i].clone());
            proof {
                assert(self.fields@.take(i as int).push(self.fields@[i as int])
                    =~= self.fields@.take(i + 1));
            }
            i = i + 1;
        }
        proof {
            assert(self.fields@.take(self.fields@.len() as int) =~= self.fields@);
        }
        StructDef { ident: self.ident.clone(), fields }
    }
}

/// The total byte size of the first `k` fields of a struct.
pub open spec fn fields_sum(fields: Seq<StructField>, k: int) -> nat
    decreases k,
{
    if k <= 0 {
        0
    } else {
        fields_sum(fields, k - 1) + fields[k - 1].vtype.spec_size()
    }
}

proof fn lemma_fields_sum_mono(fields: Seq<StructField>, a: int, b: int)
    requires
        0 <= a <= b,
    ensures
        fields_sum(fields, a) <= fields_sum(fields, b),
    decreases b - a,
{
    if a < b {
        lemma_fields_sum_mono(fields, a, b - 1);
    }
}

impl StructDef {
    /// Well-formedness: field types are well formed and the struct's total
    /// size fits in a machine word.
    pub open spec fn wf(self) -> bool {
        &&& forall|k: int| 0 <= k < self.fields@.len() ==> (#[trigger] self.fields@[k]).vtype.wf()
        &&& fields_sum(self.fields@, self.fields@.len() as int) <= usize::MAX
    }

    /// The byte offset of a field, derived from field order and sizes: the
    /// sum of the sizes of the fields declared before the first field of the
    /// given name.  `None` means the struct has no such field.
    pub fn offset_of(&self, name: &str) -> (r: Option<usize>)
        requires
            self.wf(),
        ensures
            match r {
                Some(off) => exists|k: int|
                    0 <= k < self.fields@.len() && (#[trigger] self.fields@[k]).ident@ == name@
                        && off == fields_sum(self.fields@, k) && (forall|j: int|
                        0 <= j < k ==> (#[trigger] self.fields@[j]).ident@ != name@),
                None => forall|k: int|
                    0 <= k < self.fields@.len() ==> (#[trigger] self.fields@[k]).ident@ != name@,
            },
    {
        let key: String = name.to_owned();
        let mut off: usize = 0;
        let mut i: usize = 0;
        while i < self.fields.len()
            invariant
                self.wf(),
                key@ == name@,
                i <= self.fields@.len(),
                off == fields_sum(self.fields@, i as int),
                forall|j: int| 0 <= j < i ==> (#[trigger] self.fields@[j]).ident@ != name@,
            decreases self.fields@.len() - i,
        {
            if self.fields[i].ident == key {
                return Some(off);
            }
            proof {
                lemma_fields_sum_mono(self.fields@, i + 1, self.fields@.len() as int);
            }
            off = off + self.fields[i].vtype.size();
            i = i + 1;
        }
        None
    }
}

/// A statement of a function body, reduced to the operations the backend's
/// context has to serve: declaring a stack variable and requesting a built-in
/// routine.  Statement and expression compilation proper is delegated to the
/// front half of the compiler and only consumes the context's interface.
#[derive(Debug)]
pub enum Stmt {
    VariableDecl { ident: String, vtype: VariableType, is_mut: bool },
    BifCall(Bif),
}

/// A function body.
#[derive(Debug)]
pub struct Block {
    pub stmts: Vec<Stmt>,
}

/// A function definition: its declaration plus its parsed body.
#[derive(Debug)]
pub struct Function {
    pub decl: FunctionDecl,
    pub block: Block,
}

/// A static variable declaration at the top level of a source file.
#[derive(Debug)]
pub struct StaticVariable {
    pub ident: String,
    pub vtype: VariableType,
}

/// One top-level item of a parsed source file.
#[derive(Debug)]
pub enum ProgramItem {
    Func(Function),
    FFI(FunctionDecl),
    Struct(StructDef),
    StaticVar(StaticVariable),
}

/// A whole parsed source file: the ordered top-level items.
#[derive(Debug)]
pub struct ProgramFile {
    pub items: Vec<ProgramItem>,
}

} // verus!
