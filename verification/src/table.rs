//! The injected opcode table: one descriptor per mnemonic, carrying the
//! opcode's code bits and the operand layout of its instruction word.

use vstd::prelude::*;
use vstd::string::StrSliceExecFns;
use vstd::string::StringExecFns;

verus! {

/// The fixed operand-field layout of an instruction word, following the
/// opcode's code bits.  Together the code bits and the operand fields
/// always fill exactly sixteen bits.
#[derive(Clone, Copy, PartialEq, Eq, Structural, Debug)]
pub enum OperandLayout {
    /// No operands: ten zero bits.
    Nullary,
    /// `Rd, imm`: an eight-bit immediate, then a four-bit register id.
    LoadImmediate,
    /// `addr`: a ten-bit jump target.
    Branch,
    /// `Rd, Rs`: source register, four fixed zero bits, destination.
    RegisterPair,
    /// `Rd, R1, R2`: first source, second source, destination.
    RegisterTriple,
    /// `Rd, addr`: a six-bit address, then the destination register.
    LoadMemory,
    /// `Rs, addr`: the source register, then a six-bit address.
    StoreMemory,
    /// `port, addr`: a four-bit port id, then a six-bit address.
    PortTransfer,
}

/// The number of operand-field bits that follow the opcode's code bits.
pub open spec fn spec_layout_width(l: OperandLayout) -> nat {
    match l {
        OperandLayout::Nullary => 10,
        OperandLayout::LoadImmediate => 12,
        OperandLayout::Branch => 10,
        OperandLayout::RegisterPair => 12,
        OperandLayout::RegisterTriple => 12,
        OperandLayout::LoadMemory => 10,
        OperandLayout::StoreMemory => 10,
        OperandLayout::PortTransfer => 10,
    }
}

/// Exec mirror of [`spec_layout_width`].
pub fn layout_width(l: OperandLayout) -> (w: usize)
    ensures
        w == spec_layout_width(l),
{
    match l {
        OperandLayout::Nullary => 10,
        OperandLayout::LoadImmediate => 12,
        OperandLayout::Branch => 10,
        OperandLayout::RegisterPair => 12,
        OperandLayout::RegisterTriple => 12,
        OperandLayout::LoadMemory => 10,
        OperandLayout::StoreMemory => 10,
        OperandLayout::PortTransfer => 10,
    }
}

/// One entry of the opcode table.
pub struct OpcodeDescriptor {
    /// The mnemonic, in the exact capitalization the table recognizes.
    pub name: String,
    /// The opcode's code bits, a string of `'0'`/`'1'` characters.
    pub code_bits: String,
    /// The number of code bits; always the length of `code_bits`.
    pub code_width: usize,
    /// The operand layout of the instruction word.
    pub layout: OperandLayout,
}

impl OpcodeDescriptor {
    /// The descriptor invariant: the recorded width matches the code
    /// bits, the code bits are binary digits, and code bits plus operand
    /// fields fill exactly sixteen bits.
    pub open spec fn wf(self) -> bool {
        &&& self.code_width == self.code_bits@.len()
        &&& self.code_bits@.len() + spec_layout_width(self.layout) == 16
        &&& forall|i: int|
            0 <= i < self.code_bits@.len() ==> (#[trigger] self.code_bits@[i] == '0'
                || self.code_bits@[i] == '1')
    }

    /// Builds a descriptor, computing the width from the code bits.
    pub fn new(name: String, code_bits: String, layout: OperandLayout) -> (d: OpcodeDescriptor)
        ensures
            d.name == name,
            d.code_bits == code_bits,
            d.code_width == code_bits@.len(),
            d.layout == layout,
    {
        let code_width = code_bits.as_str().unicode_len();
        OpcodeDescriptor { name, code_bits, code_width, layout }
    }

    /// Checks the descriptor invariant.
    pub fn is_well_formed(&self) -> (r: bool)
        ensures
            r == self.wf(),
    {
        let n = self.code_bits.as_str().unicode_len();
        if self.code_width != n {
            return false;
        }
        if n > 16 || n + layout_width(self.layout) != 16 {
            return false;
        }
        let mut i: usize = 0;
        while i < n
            invariant
                n == self.code_bits@.len(),
                0 <= i <= n,
                forall|j: int|
                    0 <= j < i ==> (#[trigger] self.code_bits@[j] == '0' || self.code_bits@[j]
                        == '1'),
            decreases n - i,
        {
            let c = self.code_bits.as_str().get_char(i);
            if c != '0' && c != '1' {
                return false;
            }
            i = i + 1;
        }
        true
    }
}

/// The first entry of `entries` whose name is `name`, if any.
pub open spec fn spec_lookup(entries: Seq<OpcodeDescriptor>, name: Seq<char>) -> Option<
    OpcodeDescriptor,
>
    decreases entries.len(),
{
    if entries.len() == 0 {
        None
    } else if entries[0].name@ == name {
        Some(entries[0])
    } else {
        spec_lookup(entries.drop_first(), name)
    }
}

proof fn lemma_lookup_skip(entries: Seq<OpcodeDescriptor>, name: Seq<char>, i: int)
    requires
        0 <= i <= entries.len(),
        forall|j: int| 0 <= j < i ==> (#[trigger] entries[j].name)@ != name,
    ensures
        spec_lookup(entries, name) == spec_lookup(entries.skip(i), name),
    decreases i,
{
    if i > 0 {
        lemma_lookup_skip(entries, name, i - 1);
        let s = entries.skip(i - 1);
        assert(entries[i - 1].name@ != name);
        assert(s[0] == entries[i - 1]);
        assert(s.drop_first() =~= entries.skip(i));
        assert(spec_lookup(s, name) == spec_lookup(entries.skip(i), name));
    } else {
        assert(entries.skip(0) =~= entries);
    }
}

/// The opcode table: the instruction-set descriptor, injected as data.
pub struct OpcodeTable {
    pub entries: Vec<OpcodeDescriptor>,
}

impl OpcodeTable {
    /// All entries satisfy the descriptor invariant.
    pub open spec fn wf(self) -> bool {
        forall|i: int| 0 <= i < self.entries@.len() ==> (#[trigger] self.entries@[i]).wf()
    }

    /// Builds a table from its entries.
    pub fn new(entries: Vec<OpcodeDescriptor>) -> (t: OpcodeTable)
        ensures
            t.entries == entries,
    {
        OpcodeTable { entries }
    }

    /// Checks that every entry satisfies the descriptor invariant, so
    /// that unverified callers can establish [`OpcodeTable::wf`] at run
    /// time.
    pub fn is_well_formed(&self) -> (r: bool)
        ensures
            r == self.wf(),
    {
        let mut i: usize = 0;
        while i < self.entries.len()
            invariant
                0 <= i <= self.entries@.len(),
                forall|j: int| 0 <= j < i ==> (#[trigger] self.entries@[j]).wf(),
            decreases self.entries@.len() - i,
        {
            if !self.entries[i].is_well_formed() {
                return false;
            }
            i = i + 1;
        }
        true
    }

    /// Finds the first entry named `name`, by exact match.
    pub fn lookup(&self, name: &str) -> (r: Option<&OpcodeDescriptor>)
        ensures
            match r {
                Some(d) => spec_lookup(self.entries@, name@) == Some(*d),
                None => spec_lookup(self.entries@, name@) is None,
            },
    {
        let key = name.to_owned();
        let mut i: usize = 0;
        while i < self.entries.len()
            invariant
                key@ == name@,
                0 <= i <= self.entries@.len(),
                forall|j: int| 0 <= j < i ==> (#[trigger] self.entries@[j].name)@ != name@,
            decreases self.entries@.len() - i,
        {
            if self.entries[i].name == key {
                proof {
                    lemma_lookup_skip(self.entries@, name@, i as int);
                    assert(self.entries@.skip(i as int)[0] == self.entries@[i as int]);
                }
                return Some(&self.entries[i]);
            }
            i = i + 1;
        }
        proof {
            lemma_lookup_skip(self.entries@, name@, self.entries@.len() as int);
            assert(self.entries@.skip(self.entries@.len() as int) =~= Seq::<
                OpcodeDescriptor,
            >::empty());
        }
        None
    }
}

} // verus!
