//! The operand/register model and the emission buffer.
//!
//! Registers are identified by one enum covering every width variant of the
//! ten addressable registers; resolution functions pick the variant whose
//! width equals a type's element size.  The emission buffer accumulates three
//! independently ordered streams of text lines: instructions, initialized
//! data, and reserved (uninitialized) data.

use vstd::prelude::*;

verus! {

use vstd::string::StringExecFns;
use crate::program::VariableType;
use crate::text::{dec_digits, u64_string};

/// An x86-64 register, at a definite width.  The 64-bit names double as the
/// register identities that the sizing functions start from.
#[derive(Debug, Clone, Copy, PartialEq, Eq, Structural)]
pub enum R {
    RAX,
    RCX,
    RDX,
    RBX,
    RSP,
    RBP,
    RSI,
    RDI,
    R8,
    R9,
    EAX,
    ECX,
    EDX,
    EBX,
    ESP,
    EBP,
    ESI,
    EDI,
    R8D,
    R9D,
    AX,
    CX,
    DX,
    BX,
    SP,
    BP,
    SI,
    DI,
    R8W,
    R9W,
    AH,
    AL,
    CH,
    CL,
    DH,
    DL,
    BH,
    BL,
    SPL,
    BPL,
    SIL,
    DIL,
    R8B,
    R9B,
}

/// The element sizes a register can be resolved for.
pub open spec fn is_register_size(n: nat) -> bool {
    n == 1 || n == 2 || n == 4 || n == 8
}

impl R {
    /// The canonical lowercase architectural name of the register.
    #[verifier::opaque]
    pub open spec fn spec_name(self) -> Seq<char> {
        match self {
            R::RAX => "rax"@,
            R::RCX => "rcx"@,
            R::RDX => "rdx"@,
            R::RBX => "rbx"@,
            R::RSP => "rsp"@,
            R::RBP => "rbp"@,
            R::RSI => "rsi"@,
            R::RDI => "rdi"@,
            R::R8 => "r8"@,
            R::R9 => "r9"@,
            R::EAX => "eax"@,
            R::ECX => "ecx"@,
            R::EDX => "edx"@,
            R::EBX => "ebx"@,
            R::ESP => "esp"@,
            R::EBP => "ebp"@,
            R::ESI => "esi"@,
            R::EDI => "edi"@,
            R::R8D => "r8d"@,
            R::R9D => "r9d"@,
            R::AX => "ax"@,
            R::CX => "cx"@,
            R::DX => "dx"@,
            R::BX => "bx"@,
            R::SP => "sp"@,
            R::BP => "bp"@,
            R::SI => "si"@,
            R::DI => "di"@,
            R::R8W => "r8w"@,
            R::R9W => "r9w"@,
            R::AH => "ah"@,
            R::AL => "al"@,
            R::CH => "ch"@,
            R::CL => "cl"@,
            R::DH => "dh"@,
            R::DL => "dl"@,
            R::BH => "bh"@,
            R::BL => "bl"@,
            R::SPL => "spl"@,
            R::BPL => "bpl"@,
            R::SIL => "sil"@,
            R::DIL => "dil"@,
            R::R8B => "r8b"@,
            R::R9B => "r9b"@,
        }
    }

    /// Renders the register as its canonical architectural name.
    pub fn name(&self) -> (r: &'static str)
        ensures
            r@ == self.spec_name(),
    {
        proof {
            reveal(R::spec_name);
        }
        match self {
            R::RAX => "rax",
            R::RCX => "rcx",
            R::RDX => "rdx",
            R::RBX => "rbx",
            R::RSP => "rsp",
            R::RBP => "rbp",
            R::RSI => "rsi",
            R::RDI => "rdi",
            R::R8 => "r8",
            R::R9 => "r9",
            R::EAX => "eax",
            R::ECX => "ecx",
            R::EDX => "edx",
            R::EBX => "ebx",
            R::ESP => "esp",
            R::EBP => "ebp",
            R::ESI => "esi",
            R::EDI => "edi",
            R::R8D => "r8d",
            R::R9D => "r9d",
            R::AX => "ax",
            R::CX => "cx",
            R::DX => "dx",
            R::BX => "bx",
            R::SP => "sp",
            R::BP => "bp",
            R::SI => "si",
            R::DI => "di",
            R::R8W => "r8w",
            R::R9W => "r9w",
            R::AH => "ah",
            R::AL => "al",
            R::CH => "ch",
            R::CL => "cl",
            R::DH => "dh",
            R::DL => "dl",
            R::BH => "bh",
            R::BL => "bl",
            R::SPL => "spl",
            R::BPL => "bpl",
            R::SIL => "sil",
            R::DIL => "dil",
            R::R8B => "r8b",
            R::R9B => "r9b",
        }
    }

    /// The width of the register in bytes (high-byte variants are one byte
    /// wide).
    pub open spec fn spec_width(self) -> nat {
        match self {
            R::RAX | R::RCX | R::RDX | R::RBX | R::RSP | R::RBP | R::RSI | R::RDI | R::R8
            | R::R9 => 8,
            R::EAX | R::ECX | R::EDX | R::EBX | R::ESP | R::EBP | R::ESI | R::EDI | R::R8D
            | R::R9D => 4,
            R::AX | R::CX | R::DX | R::BX | R::SP | R::BP | R::SI | R::DI | R::R8W | R::R9W => 2,
            _ => 1,
        }
    }

    /// The 64-bit identity a width variant belongs to.
    pub open spec fn family(self) -> R {
        match self {
            R::RAX | R::EAX | R::AX | R::AH | R::AL => R::RAX,
            R::RCX | R::ECX | R::CX | R::CH | R::CL => R::RCX,
            R::RDX | R::EDX | R::DX | R::DH | R::DL => R::RDX,
            R::RBX | R::EBX | R::BX | R::BH | R::BL => R::RBX,
            R::RSP | R::ESP | R::SP | R::SPL => R::RSP,
            R::RBP | R::EBP | R::BP | R::BPL => R::RBP,
            R::RSI | R::ESI | R::SI | R::SIL => R::RSI,
            R::RDI | R::EDI | R::DI | R::DIL => R::RDI,
            R::R8 | R::R8D | R::R8W | R::R8B => R::R8,
            _ => R::R9,
        }
    }

    /// Whether the register is one of the ten 64-bit identities.
    pub open spec fn is_64(self) -> bool {
        self.spec_width() == 8
    }

    /// The width variant of a 64-bit register identity for a given element
    /// size, choosing the low byte for size one.
    #[verifier::opaque]
    pub open spec fn spec_sized(self, size: nat) -> R {
        match self {
            R::RAX => if size == 1 { R::AL } else if size == 2 { R::AX } else if size == 4 { R::EAX } else { R::RAX },
            R::RCX => if size == 1 { R::CL } else if size == 2 { R::CX } else if size == 4 { R::ECX } else { R::RCX },
            R::RDX => if size == 1 { R::DL } else if size == 2 { R::DX } else if size == 4 { R::EDX } else { R::RDX },
            R::RBX => if size == 1 { R::BL } else if size == 2 { R::BX } else if size == 4 { R::EBX } else { R::RBX },
            R::RSP => if size == 1 { R::SPL } else if size == 2 { R::SP } else if size == 4 { R::ESP } else { R::RSP },
            R::RBP => if size == 1 { R::BPL } else if size == 2 { R::BP } else if size == 4 { R::EBP } else { R::RBP },
            R::RSI => if size == 1 { R::SIL } else if size == 2 { R::SI } else if size == 4 { R::ESI } else { R::RSI },
            R::RDI => if size == 1 { R::DIL } else if size == 2 { R::DI } else if size == 4 { R::EDI } else { R::RDI },
            R::R8 => if size == 1 { R::R8B } else if size == 2 { R::R8W } else if size == 4 { R::R8D } else { R::R8 },
            R::R9 => if size == 1 { R::R9B } else if size == 2 { R::R9W } else if size == 4 { R::R9D } else { R::R9 },
            _ => self,
        }
    }

    /// Resolves a 64-bit register identity to its variant of the given byte
    /// width.
    pub fn sized(self, size: usize) -> (r: R)
        requires
            self.is_64(),
            is_register_size(size as nat),
        ensures
            r == self.spec_sized(size as nat),
    {
        proof {
            reveal(R::spec_sized);
        }
        match self {
            R::RAX => if size == 1 { R::AL } else if size == 2 { R::AX } else if size == 4 { R::EAX } else { R::RAX },
            R::RCX => if size == 1 { R::CL } else if size == 2 { R::CX } else if size == 4 { R::ECX } else { R::RCX },
            R::RDX => if size == 1 { R::DL } else if size == 2 { R::DX } else if size == 4 { R::EDX } else { R::RDX },
            R::RBX => if size == 1 { R::BL } else if size == 2 { R::BX } else if size == 4 { R::EBX } else { R::RBX },
            R::RSP => if size == 1 { R::SPL } else if size == 2 { R::SP } else if size == 4 { R::ESP } else { R::RSP },
            R::RBP => if size == 1 { R::BPL } else if size == 2 { R::BP } else if size == 4 { R::EBP } else { R::RBP },
            R::RSI => if size == 1 { R::SIL } else if size == 2 { R::SI } else if size == 4 { R::ESI } else { R::RSI },
            R::RDI => if size == 1 { R::DIL } else if size == 2 { R::DI } else if size == 4 { R::EDI } else { R::RDI },
            R::R8 => if size == 1 { R::R8B } else if size == 2 { R::R8W } else if size == 4 { R::R8D } else { R::R8 },
            _ => if size == 1 { R::R9B } else if size == 2 { R::R9W } else if size == 4 { R::R9D } else { R::R9 },
        }
    }

    /// The accumulator register sized for one element of the given type.
    pub fn A_s(vtype: &VariableType) -> (r: Self)
        requires
            vtype.wf(),
            is_register_size(vtype.spec_item_size()),
        ensures
            r == R::RAX.spec_sized(vtype.spec_item_size()),
    {
        R::RAX.sized(vtype.item_size())
    }

    /// The base register sized for one element of the given type.
    pub fn B_s(vtype: &VariableType) -> (r: Self)
        requires
            vtype.wf(),
            is_register_size(vtype.spec_item_size()),
        ensures
            r == R::RBX.spec_sized(vtype.spec_item_size()),
    {
        R::RBX.sized(vtype.item_size())
    }

    /// The counter register sized for one element of the given type.
    pub fn C_s(vtype: &VariableType) -> (r: Self)
        requires
            vtype.wf(),
            is_register_size(vtype.spec_item_size()),
        ensures
            r == R::RCX.spec_sized(vtype.spec_item_size()),
    {
        R::RCX.sized(vtype.item_size())
    }

    /// The data register sized for one element of the given type.
    pub fn D_s(vtype: &VariableType) -> (r: Self)
        requires
            vtype.wf(),
            is_register_size(vtype.spec_item_size()),
        ensures
            r == R::RDX.spec_sized(vtype.spec_item_size()),
    {
        R::RDX.sized(vtype.item_size())
    }

    /// The destination-index register sized for one element of the given
    /// type.
    pub fn DI_s(vtype: &VariableType) -> (r: Self)
        requires
            vtype.wf(),
            is_register_size(vtype.spec_item_size()),
        ensures
            r == R::RDI.spec_sized(vtype.spec_item_size()),
    {
        R::RDI.sized(vtype.item_size())
    }

    /// The source-index register sized for one element of the given type.
    pub fn Si_s(vtype: &VariableType) -> (r: Self)
        requires
            vtype.wf(),
            is_register_size(vtype.spec_item_size()),
        ensures
            r == R::RSI.spec_sized(vtype.spec_item_size()),
    {
        R::RSI.sized(vtype.item_size())
    }

    /// The first extended scratch register sized for one element of the given
    /// type.
    pub fn R8_s(vtype: &VariableType) -> (r: Self)
        requires
            vtype.wf(),
            is_register_size(vtype.spec_item_size()),
        ensures
            r == R::R8.spec_sized(vtype.spec_item_size()),
    {
        R::R8.sized(vtype.item_size())
    }

    /// The second extended scratch register sized for one element of the
    /// given type.
    pub fn R9_s(vtype: &VariableType) -> (r: Self)
        requires
            vtype.wf(),
            is_register_size(vtype.spec_item_size()),
        ensures
            r == R::R9.spec_sized(vtype.spec_item_size()),
    {
        R::R9.sized(vtype.item_size())
    }
}

/// Resolving a register identity for a supported element size always yields
/// the variant of exactly that width within the same register family, so the
/// rendered name is the architecturally defined name for that width.
pub proof fn lemma_sized_register_width(base: R, size: nat)
    requires
        base.is_64(),
        is_register_size(size),
    ensures
        base.spec_sized(size).spec_width() == size,
        base.spec_sized(size).family() == base,
{
    reveal(R::spec_sized);
}

/// The view of a buffer of text lines.
pub open spec fn lines_view(v: Seq<String>) -> Seq<Seq<char>> {
    v.map_values(|s: String| s@)
}

proof fn lemma_lines_push(v: Seq<String>, s: String)
    ensures
        lines_view(v.push(s)) == lines_view(v).push(s@),
{
    assert(lines_view(v.push(s)) =~= lines_view(v).push(s@));
}

proof fn lemma_lines_update(v: Seq<String>, i: int, s: String)
    requires
        0 <= i < v.len(),
    ensures
        lines_view(v.update(i, s)) == lines_view(v).update(i, s@),
{
    assert(lines_view(v.update(i, s)) =~= lines_view(v).update(i, s@));
}

/// The initialized-data line for entry `id` holding `content`.
pub open spec fn data_line(id: int, content: Seq<char>) -> Seq<char> {
    "data"@ + dec_digits(id) + " db "@ + content
}

/// The computed-length symbol line paired with data entry `id`.
pub open spec fn len_line(id: int) -> Seq<char> {
    "len"@ + dec_digits(id) + " equ $ - data"@ + dec_digits(id)
}

/// The label generated for reserved-data entry `id`.
pub open spec fn bss_tag(id: int) -> Seq<char> {
    "arr"@ + dec_digits(id)
}

/// The reserved-data line for entry `id` reserving `size` bytes.
pub open spec fn bss_line(id: int, size: int) -> Seq<char> {
    bss_tag(id) + ": resb "@ + dec_digits(size)
}

/// The emission buffer: three ordered streams of assembly text lines.
/// Streams are append-only, except that a previously reserved instruction
/// slot may be rewritten in place through [`Codegen::insert_into_raw`].
#[derive(Debug)]
pub struct Codegen {
    pub instruct_buf: Vec<String>,
    pub data_buf: Vec<String>,
    pub bss_buf: Vec<String>,
}

impl Codegen {
    /// The instruction stream as text lines.
    pub open spec fn instrs(self) -> Seq<Seq<char>> {
        lines_view(self.instruct_buf@)
    }

    /// The initialized-data stream as text lines.
    pub open spec fn datas(self) -> Seq<Seq<char>> {
        lines_view(self.data_buf@)
    }

    /// The reserved-data stream as text lines.
    pub open spec fn bsses(self) -> Seq<Seq<char>> {
        lines_view(self.bss_buf@)
    }

    /// Creates an empty emission buffer.
    pub fn new() -> (r: Self)
        ensures
            r.instrs() == Seq::<Seq<char>>::empty(),
            r.datas() == Seq::<Seq<char>>::empty(),
            r.bsses() == Seq::<Seq<char>>::empty(),
    {
        let r = Codegen { instruct_buf: Vec::new(), bss_buf: Vec::new(), data_buf: Vec::new() };
        proof {
            assert(r.instrs() =~= Seq::<Seq<char>>::empty());
            assert(r.datas() =~= Seq::<Seq<char>>::empty());
            assert(r.bsses() =~= Seq::<Seq<char>>::empty());
        }
        r
    }

    /// The index the next appended instruction will occupy.
    pub fn get_id(&mut self) -> (r: usize)
        ensures
            *final(self) == *old(self),
            r == old(self).instrs().len(),
    {
        self.instruct_buf.len()
    }

    /// Appends one initialized-data entry: a labeled byte literal plus a
    /// length symbol computed as current-position-minus-label.  Returns the
    /// entry's numeric id.
    pub fn add_data_seg(&mut self, data: &str, _size: usize) -> (r: u64)
        ensures
            final(self).datas() == old(self).datas() + seq![
                data_line(old(self).datas().len() as int, data@),
                len_line(old(self).datas().len() as int),
            ],
            final(self).instruct_buf == old(self).instruct_buf,
            final(self).bss_buf == old(self).bss_buf,
            r == old(self).datas().len(),
    {
        let id = self.data_buf.len();
        let ids = u64_string(id as u64);
        let mut l1: String = ("data").to_owned();
        l1.append(ids.as_str());
        l1.append(" db ");
        l1.append(data);
        proof {
            lemma_lines_push(self.data_buf@, l1);
        }
        self.data_buf.push(l1);
        let mut l2: String = ("len").to_owned();
        l2.append(ids.as_str());
        l2.append(" equ $ - data");
        l2.append(ids.as_str());
        proof {
            lemma_lines_push(self.data_buf@, l2);
        }
        self.data_buf.push(l2);
        proof {
            assert(self.datas() =~= old(self).datas() + seq![
                data_line(old(self).datas().len() as int, data@),
                len_line(old(self).datas().len() as int),
            ]);
        }
        id as u64
    }

    /// Appends one reserved-data entry of the given byte count and returns
    /// its generated label.
    pub fn add_bss_seg(&mut self, size: usize) -> (r: String)
        ensures
            r@ == bss_tag(old(self).bsses().len() as int),
            final(self).bsses() == old(self).bsses().push(
                bss_line(old(self).bsses().len() as int, size as int),
            ),
            final(self).instruct_buf == old(self).instruct_buf,
            final(self).data_buf == old(self).data_buf,
    {
        let mut tag: String = ("arr").to_owned();
        tag.append(u64_string(self.bss_buf.len() as u64).as_str());
        let mut line = tag.clone();
        line.append(": resb ");
        line.append(u64_string(size as u64).as_str());
        proof {
            lemma_lines_push(self.bss_buf@, line);
        }
        self.bss_buf.push(line);
        tag
    }

    /// Reserves an empty placeholder slot at the end of the instruction
    /// stream and returns its index for a later in-place rewrite.
    pub fn place_holder(&mut self) -> (r: usize)
        ensures
            final(self).instrs() == old(self).instrs().push(Seq::<char>::empty()),
            final(self).data_buf == old(self).data_buf,
            final(self).bss_buf == old(self).bss_buf,
            r == old(self).instrs().len(),
    {
        let s = String::new();
        proof {
            lemma_lines_push(self.instruct_buf@, s);
        }
        self.instruct_buf.push(s);
        self.instruct_buf.len() - 1
    }

    /// Appends one already-formatted line to the instruction stream.
    pub fn insert_raw(&mut self, instr: String)
        ensures
            final(self).instrs() == old(self).instrs().push(instr@),
            final(self).data_buf == old(self).data_buf,
            final(self).bss_buf == old(self).bss_buf,
    {
        proof {
            lemma_lines_push(self.instruct_buf@, instr);
        }
        self.instruct_buf.push(instr);
    }

    /// Rewrites a previously reserved slot in place, exactly once.  An index
    /// not strictly below the last valid instruction index is out of bounds.
    pub fn insert_into_raw(&mut self, index: usize, instr: String) -> (r: Result<(), String>)
        ensures
            r is Ok <==> index + 1 < old(self).instrs().len(),
            r is Ok ==> final(self).instrs() == old(self).instrs().update(index as int, instr@),
            r is Ok ==> final(self).data_buf == old(self).data_buf && final(self).bss_buf == old(
                self,
            ).bss_buf,
            r matches Err(m) ==> *final(self) == *old(self) && m@ == "index out of bounds!"@,
    {
        let n = self.instruct_buf.len();
        if n > 0 && index < n - 1 {
            proof {
                lemma_lines_update(self.instruct_buf@, index as int, instr);
            }
            self.instruct_buf.set(index, instr);
            Ok(())
        } else {
            Err(("index out of bounds!").to_owned())
        }
    }

    /// Appends an indented zero-operand instruction line.
    fn emit0(&mut self, head: &str)
        ensures
            final(self).instrs() == old(self).instrs().push(head@),
            final(self).data_buf == old(self).data_buf,
            final(self).bss_buf == old(self).bss_buf,
    {
        let s: String = head.to_owned();
        proof {
            lemma_lines_push(self.instruct_buf@, s);
        }
        self.instruct_buf.push(s);
    }

    /// Appends an indented one-operand instruction line.
    fn emit1(&mut self, head: &str, d1: &str)
        ensures
            final(self).instrs() == old(self).instrs().push(head@ + d1@),
            final(self).data_buf == old(self).data_buf,
            final(self).bss_buf == old(self).bss_buf,
    {
        let mut s: String = head.to_owned();
        s.append(d1);
        proof {
            lemma_lines_push(self.instruct_buf@, s);
        }
        self.instruct_buf.push(s);
    }

    /// Appends an indented two-operand instruction line.
    fn emit2(&mut self, head: &str, d1: &str, d2: &str)
        ensures
            final(self).instrs() == old(self).instrs().push(head@ + d1@ + ", "@ + d2@),
            final(self).data_buf == old(self).data_buf,
            final(self).bss_buf == old(self).bss_buf,
    {
        let mut s: String = head.to_owned();
        s.append(d1);
        s.append(", ");
        s.append(d2);
        proof {
            lemma_lines_push(self.instruct_buf@, s);
        }
        self.instruct_buf.push(s);
    }

    /// Emits `lea d1, d2`.
    pub fn lea(&mut self, d1: &str, d2: &str)
        ensures
            final(self).instrs() == old(self).instrs().push("    lea "@ + d1@ + ", "@ + d2@),
            final(self).data_buf == old(self).data_buf,
            final(self).bss_buf == old(self).bss_buf,
    {
        self.emit2("    lea ", d1, d2)
    }

    /// Emits `mov d1, d2`.
    pub fn mov(&mut self, d1: &str, d2: &str)
        ensures
            final(self).instrs() == old(self).instrs().push("    mov "@ + d1@ + ", "@ + d2@),
            final(self).data_buf == old(self).data_buf,
            final(self).bss_buf == old(self).bss_buf,
    {
        self.emit2("    mov ", d1, d2)
    }

    /// Emits `cmove d1, d2`.
    pub fn cmove(&mut self, d1: &str, d2: &str)
        ensures
            final(self).instrs() == old(self).instrs().push("    cmove "@ + d1@ + ", "@ + d2@),
            final(self).data_buf == old(self).data_buf,
            final(self).bss_buf == old(self).bss_buf,
    {
        self.emit2("    cmove ", d1, d2)
    }

    /// Emits `cmovne d1, d2`.
    pub fn cmovne(&mut self, d1: &str, d2: &str)
        ensures
            final(self).instrs() == old(self).instrs().push("    cmovne "@ + d1@ + ", "@ + d2@),
            final(self).data_buf == old(self).data_buf,
            final(self).bss_buf == old(self).bss_buf,
    {
        self.emit2("    cmovne ", d1, d2)
    }

    /// Emits `cmovg d1, d2`.
    pub fn cmovg(&mut self, d1: &str, d2: &str)
        ensures
            final(self).instrs() == old(self).instrs().push("    cmovg "@ + d1@ + ", "@ + d2@),
            final(self).data_buf == old(self).data_buf,
            final(self).bss_buf == old(self).bss_buf,
    {
        self.emit2("    cmovg ", d1, d2)
    }

    /// Emits `cmovl d1, d2`.
    pub fn cmovl(&mut self, d1: &str, d2: &str)
        ensures
            final(self).instrs() == old(self).instrs().push("    cmovl "@ + d1@ + ", "@ + d2@),
            final(self).data_buf == old(self).data_buf,
            final(self).bss_buf == old(self).bss_buf,
    {
        self.emit2("    cmovl ", d1, d2)
    }

    /// Emits `cmovge d1, d2`.
    pub fn cmovge(&mut self, d1: &str, d2: &str)
        ensures
            final(self).instrs() == old(self).instrs().push("    cmovge "@ + d1@ + ", "@ + d2@),
            final(self).data_buf == old(self).data_buf,
            final(self).bss_buf == old(self).bss_buf,
    {
        self.emit2("    cmovge ", d1, d2)
    }

    /// Emits `cmovle d1, d2`.
    pub fn cmovle(&mut self, d1: &str, d2: &str)
        ensures
            final(self).instrs() == old(self).instrs().push("    cmovle "@ + d1@ + ", "@ + d2@),
            final(self).data_buf == old(self).data_buf,
            final(self).bss_buf == old(self).bss_buf,
    {
        self.emit2("    cmovle ", d1, d2)
    }

    /// Emits `push d1`.
    pub fn push(&mut self, d1: &str)
        ensures
            final(self).instrs() == old(self).instrs().push("    push "@ + d1@),
            final(self).data_buf == old(self).data_buf,
            final(self).bss_buf == old(self).bss_buf,
    {
        self.emit1("    push ", d1)
    }

    /// Emits `pop d1`.
    pub fn pop(&mut self, d1: &str)
        ensures
            final(self).instrs() == old(self).instrs().push("    pop "@ + d1@),
            final(self).data_buf == old(self).data_buf,
            final(self).bss_buf == old(self).bss_buf,
    {
        self.emit1("    pop ", d1)
    }

    /// Emits `add d1, d2`.
    pub fn add(&mut self, d1: &str, d2: &str)
        ensures
            final(self).instrs() == old(self).instrs().push("    add "@ + d1@ + ", "@ + d2@),
            final(self).data_buf == old(self).data_buf,
            final(self).bss_buf == old(self).bss_buf,
    {
        self.emit2("    add ", d1, d2)
    }

    /// Emits `sub d1, d2`.
    pub fn sub(&mut self, d1: &str, d2: &str)
        ensures
            final(self).instrs() == old(self).instrs().push("    sub "@ + d1@ + ", "@ + d2@),
            final(self).data_buf == old(self).data_buf,
            final(self).bss_buf == old(self).bss_buf,
    {
        self.emit2("    sub ", d1, d2)
    }

    /// Emits `imul d1, d2`.
    pub fn imul(&mut self, d1: &str, d2: &str)
        ensures
            final(self).instrs() == old(self).instrs().push("    imul "@ + d1@ + ", "@ + d2@),
            final(self).data_buf == old(self).data_buf,
            final(self).bss_buf == old(self).bss_buf,
    {
        self.emit2("    imul ", d1, d2)
    }

    /// Emits `idiv d1`.
    pub fn idiv(&mut self, d1: &str)
        ensures
            final(self).instrs() == old(self).instrs().push("    idiv "@ + d1@),
            final(self).data_buf == old(self).data_buf,
            final(self).bss_buf == old(self).bss_buf,
    {
        self.emit1("    idiv ", d1)
    }

    /// Emits `or d1, d2`.
    pub fn or(&mut self, d1: &str, d2: &str)
        ensures
            final(self).instrs() == old(self).instrs().push("    or "@ + d1@ + ", "@ + d2@),
            final(self).data_buf == old(self).data_buf,
            final(self).bss_buf == old(self).bss_buf,
    {
        self.emit2("    or ", d1, d2)
    }

    /// Emits `and d1, d2`.
    pub fn and(&mut self, d1: &str, d2: &str)
        ensures
            final(self).instrs() == old(self).instrs().push("    and "@ + d1@ + ", "@ + d2@),
            final(self).data_buf == old(self).data_buf,
            final(self).bss_buf == old(self).bss_buf,
    {
        self.emit2("    and ", d1, d2)
    }

    /// Emits `sal d1, d2`.
    pub fn sal(&mut self, d1: &str, d2: &str)
        ensures
            final(self).instrs() == old(self).instrs().push("    sal "@ + d1@ + ", "@ + d2@),
            final(self).data_buf == old(self).data_buf,
            final(self).bss_buf == old(self).bss_buf,
    {
        self.emit2("    sal ", d1, d2)
    }

    /// Emits `sar d1, d2`.
    pub fn sar(&mut self, d1: &str, d2: &str)
        ensures
            final(self).instrs() == old(self).instrs().push("    sar "@ + d1@ + ", "@ + d2@),
            final(self).data_buf == old(self).data_buf,
            final(self).bss_buf == old(self).bss_buf,
    {
        self.emit2("    sar ", d1, d2)
    }

    /// Emits `cmp d1, d2`.
    pub fn cmp(&mut self, d1: &str, d2: &str)
        ensures
            final(self).instrs() == old(self).instrs().push("    cmp "@ + d1@ + ", "@ + d2@),
            final(self).data_buf == old(self).data_buf,
            final(self).bss_buf == old(self).bss_buf,
    {
        self.emit2("    cmp ", d1, d2)
    }

    /// Emits `test d1, d2`.
    pub fn test(&mut self, d1: &str, d2: &str)
        ensures
            final(self).instrs() == old(self).instrs().push("    test "@ + d1@ + ", "@ + d2@),
            final(self).data_buf == old(self).data_buf,
            final(self).bss_buf == old(self).bss_buf,
    {
        self.emit2("    test ", d1, d2)
    }

    /// Emits `cqo`.
    pub fn cqo(&mut self)
        ensures
            final(self).instrs() == old(self).instrs().push("    cqo"@),
            final(self).data_buf == old(self).data_buf,
            final(self).bss_buf == old(self).bss_buf,
    {
        self.emit0("    cqo")
    }

    /// Emits `neg d1`.
    pub fn neg(&mut self, d1: &str)
        ensures
            final(self).instrs() == old(self).instrs().push("    neg "@ + d1@),
            final(self).data_buf == old(self).data_buf,
            final(self).bss_buf == old(self).bss_buf,
    {
        self.emit1("    neg ", d1)
    }

    /// Emits `not d1`.
    pub fn not(&mut self, d1: &str)
        ensures
            final(self).instrs() == old(self).instrs().push("    not "@ + d1@),
            final(self).data_buf == old(self).data_buf,
            final(self).bss_buf == old(self).bss_buf,
    {
        self.emit1("    not ", d1)
    }

    /// Emits `call d1`.
    pub fn call(&mut self, d1: &str)
        ensures
            final(self).instrs() == old(self).instrs().push("    call "@ + d1@),
            final(self).data_buf == old(self).data_buf,
            final(self).bss_buf == old(self).bss_buf,
    {
        self.emit1("    call ", d1)
    }

    /// Emits a flush-left label line `tag:`.
    pub fn tag(&mut self, tag: &str)
        ensures
            final(self).instrs() == old(self).instrs().push(tag@ + ":"@),
            final(self).data_buf == old(self).data_buf,
            final(self).bss_buf == old(self).bss_buf,
    {
        let mut s: String = tag.to_owned();
        s.append(":");
        proof {
            lemma_lines_push(self.instruct_buf@, s);
        }
        self.instruct_buf.push(s);
    }

    /// Emits `jmp tag`.
    pub fn jmp(&mut self, tag: &str)
        ensures
            final(self).instrs() == old(self).instrs().push("    jmp "@ + tag@),
            final(self).data_buf == old(self).data_buf,
            final(self).bss_buf == old(self).bss_buf,
    {
        self.emit1("    jmp ", tag)
    }

    /// Emits `jz tag`.
    pub fn jz(&mut self, tag: &str)
        ensures
            final(self).instrs() == old(self).instrs().push("    jz "@ + tag@),
            final(self).data_buf == old(self).data_buf,
            final(self).bss_buf == old(self).bss_buf,
    {
        self.emit1("    jz ", tag)
    }

    /// Emits `jnz tag`.
    pub fn jnz(&mut self, tag: &str)
        ensures
            final(self).instrs() == old(self).instrs().push("    jnz "@ + tag@),
            final(self).data_buf == old(self).data_buf,
            final(self).bss_buf == old(self).bss_buf,
    {
        self.emit1("    jnz ", tag)
    }

    /// Emits the raw `syscall` trap.
    pub fn syscall(&mut self)
        ensures
            final(self).instrs() == old(self).instrs().push("    syscall"@),
            final(self).data_buf == old(self).data_buf,
            final(self).bss_buf == old(self).bss_buf,
    {
        self.emit0("    syscall")
    }

    /// Emits `leave`.
    pub fn leave(&mut self)
        ensures
            final(self).instrs() == old(self).instrs().push("    leave"@),
            final(self).data_buf == old(self).data_buf,
            final(self).bss_buf == old(self).bss_buf,
    {
        self.emit0("    leave")
    }

    /// Emits `ret`.
    pub fn ret(&mut self)
        ensures
            final(self).instrs() == old(self).instrs().push("    ret"@),
            final(self).data_buf == old(self).data_buf,
            final(self).bss_buf == old(self).bss_buf,
    {
        self.emit0("    ret")
    }

    /// The final assembly text: the three streams concatenated under their
    /// segment headers, one line per logical directive.
    pub open spec fn spec_assembly(self) -> Seq<char> {
        joined(seq!["global _start"@, "section .text"@]) + joined(self.instrs()) + joined(
            seq!["section .data"@],
        ) + joined(self.datas()) + joined(seq!["section .bss"@]) + joined(self.bsses())
    }

    /// Serializes the buffer as the final assembly text.
    pub fn assembly_text(&self) -> (r: String)
        ensures
            r@ == self.spec_assembly(),
    {
        let mut out = String::new();
        push_line(&mut out, "global _start");
        push_line(&mut out, "section .text");
        proof {
            lemma_joined_two("global _start"@, "section .text"@);
            assert(out@ =~= joined(seq!["global _start"@, "section .text"@]) + joined(
                self.instrs().take(0),
            ));
        }
        let mut i: usize = 0;
        while i < self.instruct_buf.len()
            invariant
                i <= self.instrs().len(),
                out@ == joined(seq!["global _start"@, "section .text"@]) + joined(
                    self.instrs().take(i as int),
                ),
            decreases self.instrs().len() - i,
        {
            push_line(&mut out, self.instruct_buf[i].as_str());
            proof {
                assert(self.instrs().take(i + 1).drop_last() =~= self.instrs().take(i as int));
                assert(self.instrs().take(i + 1).last() == self.instrs()[i as int]);
                assert(out@ =~= joined(seq!["global _start"@, "section .text"@]) + joined(
                    self.instrs().take(i + 1),
                ));
            }
            i = i + 1;
        }
        let ghost text_part = joined(seq!["global _start"@, "section .text"@]) + joined(
            self.instrs(),
        );
        proof {
            assert(self.instrs().take(self.instrs().len() as int) =~= self.instrs());
        }
        push_line(&mut out, "section .data");
        proof {
            lemma_joined_one("section .data"@);
            assert(out@ =~= text_part + joined(seq!["section .data"@]) + joined(
                self.datas().take(0),
            ));
        }
        let mut j: usize = 0;
        while j < self.data_buf.len()
            invariant
                j <= self.datas().len(),
                text_part == joined(seq!["global _start"@, "section .text"@]) + joined(
                    self.instrs(),
                ),
                out@ == text_part + joined(seq!["section .data"@]) + joined(
                    self.datas().take(j as int),
                ),
            decreases self.datas().len() - j,
        {
            push_line(&mut out, self.data_buf[j].as_str());
            proof {
                assert(self.datas().take(j + 1).drop_last() =~= self.datas().take(j as int));
                assert(self.datas().take(j + 1).last() == self.datas()[j as int]);
                assert(out@ =~= text_part + joined(seq!["section .data"@]) + joined(
                    self.datas().take(j + 1),
                ));
            }
            j = j + 1;
        }
        let ghost data_part = text_part + joined(seq!["section .data"@]) + joined(self.datas());
        proof {
            assert(self.datas().take(self.datas().len() as int) =~= self.datas());
        }
        push_line(&mut out, "section .bss");
        proof {
            lemma_joined_one("section .bss"@);
            assert(out@ =~= data_part + joined(seq!["section .bss"@]) + joined(
                self.bsses().take(0),
            ));
        }
        let mut k: usize = 0;
        while k < self.bss_buf.len()
            invariant
                k <= self.bsses().len(),
                data_part == joined(seq!["global _start"@, "section .text"@]) + joined(
                    self.instrs(),
                ) + joined(seq!["section .data"@]) + joined(self.datas()),
                out@ == data_part + joined(seq!["section .bss"@]) + joined(
                    self.bsses().take(k as int),
                ),
            decreases self.bsses().len() - k,
        {
            push_line(&mut out, self.bss_buf[k].as_str());
            proof {
                assert(self.bsses().take(k + 1).drop_last() =~= self.bsses().take(k as int));
                assert(self.bsses().take(k + 1).last() == self.bsses()[k as int]);
                assert(out@ =~= data_part + joined(seq!["section .bss"@]) + joined(
                    self.bsses().take(k + 1),
                ));
            }
            k = k + 1;
        }
        proof {
            assert(self.bsses().take(self.bsses().len() as int) =~= self.bsses());
            assert(out@ =~= self.spec_assembly());
        }
        out
    }
}

/// A run of lines joined into one text, each line followed by a newline.
pub open spec fn joined(ls: Seq<Seq<char>>) -> Seq<char>
    decreases ls.len(),
{
    if ls.len() == 0 {
        Seq::empty()
    } else {
        joined(ls.drop_last()) + ls.last() + "\n"@
    }
}

proof fn lemma_joined_one(a: Seq<char>)
    ensures
        joined(seq![a]) == a + "\n"@,
{
    let s = seq![a];
    assert(s.drop_last() =~= Seq::<Seq<char>>::empty());
    assert(s.last() == a);
    assert(joined(Seq::<Seq<char>>::empty()) == Seq::<char>::empty());
    assert(Seq::<char>::empty() + a + "\n"@ =~= a + "\n"@);
}

proof fn lemma_joined_two(a: Seq<char>, b: Seq<char>)
    ensures
        joined(seq![a, b]) == a + "\n"@ + b + "\n"@,
{
    let s = seq![a, b];
    assert(s.drop_last() =~= seq![a]);
    assert(s.last() == b);
    lemma_joined_one(a);
}

fn push_line(out: &mut String, line: &str)
    ensures
        final(out)@ == old(out)@ + line@ + "\n"@,
{
    out.append(line);
    out.append("\n");
}

} // verus!
