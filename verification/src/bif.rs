//! Built-in runtime routines.
//!
//! A built-in is referenced by call sites during body compilation and its
//! implementation is emitted exactly once, after all user functions, for the
//! subset of built-ins actually used.

use vstd::prelude::*;

verus! {

use crate::codegen::Codegen;

/// The identity of a built-in runtime routine.
#[derive(Debug, Clone, Copy, PartialEq, Eq, Structural)]
pub enum Bif {
    /// Prints the unsigned integer in the first argument register in
    /// decimal, followed by a newline.
    Print,
    /// Prints the single byte in the first argument register.
    PrintChar,
}

impl Bif {
    /// The fixed label call sites jump to.
    pub open spec fn spec_label(self) -> Seq<char> {
        match self {
            Bif::Print => "print"@,
            Bif::PrintChar => "print_char"@,
        }
    }

    /// Renders the built-in's fixed label.
    pub fn label(&self) -> (r: &'static str)
        ensures
            r@ == self.spec_label(),
    {
        match self {
            Bif::Print => "print",
            Bif::PrintChar => "print_char",
        }
    }

    /// The exact instruction lines of the built-in's implementation body.
    pub open spec fn impl_lines(self) -> Seq<Seq<char>> {
        match self {
            Bif::Print => seq![
                "print"@ + ":"@,
                "    push "@ + "rbp"@,
                "    mov "@ + "rbp"@ + ", "@ + "rsp"@,
                "    sub "@ + "rsp"@ + ", "@ + "64"@,
                "    mov "@ + "rax"@ + ", "@ + "rdi"@,
                "    mov "@ + "rbx"@ + ", "@ + "10"@,
                "    lea "@ + "rsi"@ + ", "@ + "[rbp-1]"@,
                "    mov "@ + "byte [rsi]"@ + ", "@ + "10"@,
                "    mov "@ + "rcx"@ + ", "@ + "1"@,
                "print_loop"@ + ":"@,
                "    mov "@ + "rdx"@ + ", "@ + "0"@,
                "    idiv "@ + "rbx"@,
                "    add "@ + "rdx"@ + ", "@ + "48"@,
                "    sub "@ + "rsi"@ + ", "@ + "1"@,
                "    mov "@ + "byte [rsi]"@ + ", "@ + "dl"@,
                "    add "@ + "rcx"@ + ", "@ + "1"@,
                "    cmp "@ + "rax"@ + ", "@ + "0"@,
                "    jnz "@ + "print_loop"@,
                "    mov "@ + "rax"@ + ", "@ + "1"@,
                "    mov "@ + "rdi"@ + ", "@ + "1"@,
                "    mov "@ + "rdx"@ + ", "@ + "rcx"@,
                "    syscall"@,
                "    leave"@,
                "    ret"@,
            ],
            Bif::PrintChar => seq![
                "print_char"@ + ":"@,
                "    push "@ + "rbp"@,
                "    mov "@ + "rbp"@ + ", "@ + "rsp"@,
                "    push "@ + "rdi"@,
                "    mov "@ + "rax"@ + ", "@ + "1"@,
                "    mov "@ + "rdi"@ + ", "@ + "1"@,
                "    mov "@ + "rsi"@ + ", "@ + "rsp"@,
                "    mov "@ + "rdx"@ + ", "@ + "1"@,
                "    syscall"@,
                "    pop "@ + "rdi"@,
                "    leave"@,
                "    ret"@,
            ],
        }
    }

    /// Emits the built-in's implementation body into the instruction stream.
    pub fn implement(&self, cg: &mut Codegen)
        ensures
            final(cg).instrs() == old(cg).instrs() + self.impl_lines(),
            final(cg).data_buf == old(cg).data_buf,
            final(cg).bss_buf == old(cg).bss_buf,
    {
        match self {
            Bif::Print => implement_print(cg),
            Bif::PrintChar => implement_print_char(cg),
        }
    }
}

/// The decimal-print routine: converts the value in the accumulator to ASCII
/// digits in a stack buffer, backwards, then writes the buffer and a newline
/// through the write system call.
#[verifier::rlimit(60)]
fn implement_print(cg: &mut Codegen)
    ensures
        final(cg).instrs() == old(cg).instrs() + Bif::Print.impl_lines(),
        final(cg).data_buf == old(cg).data_buf,
        final(cg).bss_buf == old(cg).bss_buf,
{
    cg.tag("print");
    cg.push("rbp");
    cg.mov("rbp", "rsp");
    cg.sub("rsp", "64");
    cg.mov("rax", "rdi");
    cg.mov("rbx", "10");
    cg.lea("rsi", "[rbp-1]");
    cg.mov("byte [rsi]", "10");
    cg.mov("rcx", "1");
    cg.tag("print_loop");
    cg.mov("rdx", "0");
    cg.idiv("rbx");
    cg.add("rdx", "48");
    cg.sub("rsi", "1");
    cg.mov("byte [rsi]", "dl");
    cg.add("rcx", "1");
    cg.cmp("rax", "0");
    cg.jnz("print_loop");
    cg.mov("rax", "1");
    cg.mov("rdi", "1");
    cg.mov("rdx", "rcx");
    cg.syscall();
    cg.leave();
    cg.ret();
    proof {
        assert(cg.instrs() =~= old(cg).instrs() + Bif::Print.impl_lines());
    }
}

/// The byte-print routine: pushes the argument byte onto the stack and
/// writes it through the write system call.
#[verifier::rlimit(60)]
fn implement_print_char(cg: &mut Codegen)
    ensures
        final(cg).instrs() == old(cg).instrs() + Bif::PrintChar.impl_lines(),
        final(cg).data_buf == old(cg).data_buf,
        final(cg).bss_buf == old(cg).bss_buf,
{
    cg.tag("print_char");
    cg.push("rbp");
    cg.mov("rbp", "rsp");
    cg.push("rdi");
    cg.mov("rax", "1");
    cg.mov("rdi", "1");
    cg.mov("rsi", "rsp");
    cg.mov("rdx", "1");
    cg.syscall();
    cg.pop("rdi");
    cg.leave();
    cg.ret();
    proof {
        assert(cg.instrs() =~= old(cg).instrs() + Bif::PrintChar.impl_lines());
    }
}

} // verus!
