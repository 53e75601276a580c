//! Library-wide laws, each proved against the specification model that
//! the executable functions are verified to implement.

use vstd::prelude::*;

use crate::assembler::spec_assemble;
use crate::assembler::spec_encode_line;
use crate::assembler::spec_padded;
use crate::assembler::spec_process;
use crate::assembler::LineOutcomeModel;
use crate::assembler::PROGRAM_SIZE;
use crate::encode::spec_encode_instr;
use crate::encode::spec_extract_num;
use crate::encode::spec_extract_prefixed;
use crate::errors::AsmErrorModel;
use crate::errors::OperandErrorModel;
use crate::numeric::lemma_spec_bits_binary;
use crate::numeric::lemma_spec_bits_len;
use crate::numeric::spec_bits;
use crate::table::OpcodeDescriptor;
use crate::text::spec_lines;
use crate::text::spec_nonempty_lines;
use crate::text::spec_split;
use crate::text::spec_split_term;
use crate::text::spec_underscored;

verus! {

/// For every recognized mnemonic whose operands pass the two legacy
/// range checks, the encoded word is exactly sixteen `'0'`/`'1'`
/// characters.  (In lenient mode, a `LoadImmediate` register id of 16 or
/// more, or a `Branch` target of 1024 or more, instead yields the bare
/// code bits: the legacy malformed-word path.  In strict mode those
/// inputs fail, so every successful word is complete.)
pub proof fn lemma_encoded_word_binary16(
    desc: OpcodeDescriptor,
    tokens: Seq<Seq<char>>,
    strict: bool,
    w: Seq<char>,
)
    requires
        desc.wf(),
        spec_encode_instr(desc, tokens, strict) == Ok::<Seq<char>, OperandErrorModel>(w),
        !strict && desc.layout is LoadImmediate ==> (spec_extract_prefixed(tokens, 1, 'R').0
            matches Ok(rd) && rd < 16),
        !strict && desc.layout is Branch ==> (spec_extract_num(tokens, 1).0 matches Ok(addr)
            && addr < 1024),
    ensures
        w.len() == 16,
        forall|i: int| 0 <= i < w.len() ==> w[i] == '0' || w[i] == '1',
{
    assert forall|v: nat, width: nat| true implies spec_bits(v, width).len() == width by {
        lemma_spec_bits_len(v, width);
    }
    assert forall|v: nat, width: nat, i: int|
        0 <= i < spec_bits(v, width).len() implies spec_bits(v, width)[i] == '0' || spec_bits(
        v,
        width,
    )[i] == '1' by {
        lemma_spec_bits_binary(v, width);
    }
}

/// The formatted word is the encoded word with a separator inserted
/// after positions 4, 8 and 12: four nibble groups.
pub proof fn lemma_format_nibble_groups(w: Seq<char>)
    requires
        w.len() == 16,
    ensures
        spec_underscored(w) == w.subrange(0, 4) + seq!['_'] + w.subrange(4, 8) + seq!['_']
            + w.subrange(8, 12) + seq!['_'] + w.subrange(12, 16),
        spec_underscored(w).len() == 19,
{
    reveal_with_fuel(spec_underscored, 5);
    let t1 = w.skip(4);
    let t2 = t1.skip(4);
    let t3 = t2.skip(4);
    assert(t1.len() == 12 && t2.len() == 8 && t3.len() == 4);
    assert(spec_underscored(t2) == t2.take(4) + seq!['_'] + spec_underscored(t3));
    assert(w.take(4) =~= w.subrange(0, 4));
    assert(t1.take(4) =~= w.subrange(4, 8));
    assert(t2.take(4) =~= w.subrange(8, 12));
    assert(t3 =~= w.subrange(12, 16));
    assert(spec_underscored(w) =~= w.subrange(0, 4) + seq!['_'] + w.subrange(4, 8) + seq!['_']
        + w.subrange(8, 12) + seq!['_'] + w.subrange(12, 16));
}

/// A word of zero bits is all `'0'` characters.
proof fn lemma_zero_bits(width: nat)
    ensures
        spec_bits(0, width).len() == width,
        forall|i: int| 0 <= i < width ==> spec_bits(0, width)[i] == '0',
    decreases width,
{
    if width > 0 {
        lemma_zero_bits((width - 1) as nat);
    }
}

/// Empty input assembles to a full image of [`PROGRAM_SIZE`] padding
/// words, each formatted as `0000_0000_0000_0000`.
pub proof fn lemma_empty_source(entries: Seq<OpcodeDescriptor>, strict: bool)
    ensures
        spec_assemble(Seq::empty(), entries, strict) matches Ok(v) && v.len() == PROGRAM_SIZE as int
            && forall|i: int|
            0 <= i < PROGRAM_SIZE as int ==> v[i] == "0000_0000_0000_0000"@,
{
    let source = Seq::<char>::empty();
    assert(spec_split(source, '\n') == seq![Seq::<char>::empty()]);
    assert(spec_split_term(source, '\n') =~~= Seq::<Seq<char>>::empty());
    assert(spec_lines(source) =~~= Seq::<Seq<char>>::empty());
    assert(spec_nonempty_lines(spec_lines(source)) =~~= Seq::<Seq<char>>::empty());
    assert(spec_process(spec_nonempty_lines(spec_lines(source)), entries, strict) == Ok::<
        Seq<Seq<char>>,
        AsmErrorModel,
    >(Seq::empty()));
    let ws = Seq::<Seq<char>>::empty();
    let padded = spec_padded(ws);
    assert(padded =~~= Seq::new(PROGRAM_SIZE as nat, |i: int| spec_bits(0, 16)));
    lemma_zero_bits(16);
    let zero = spec_bits(0, 16);
    lemma_format_nibble_groups(zero);
    reveal_strlit("0000_0000_0000_0000");
    assert(spec_underscored(zero) =~= "0000_0000_0000_0000"@);
    let v = padded.map_values(|w: Seq<char>| spec_underscored(w));
    assert(spec_assemble(source, entries, strict) == Ok::<Seq<Seq<char>>, AsmErrorModel>(v));
    assert(v.len() == PROGRAM_SIZE as int);
    assert(forall|i: int| 0 <= i < PROGRAM_SIZE as int ==> v[i] == "0000_0000_0000_0000"@);
}

/// More than [`PROGRAM_SIZE`] encoded instructions is an overflow: the
/// run fails, and no image is produced.
pub proof fn lemma_overflow(source: Seq<char>, entries: Seq<OpcodeDescriptor>, strict: bool)
    requires
        spec_process(spec_nonempty_lines(spec_lines(source)), entries, strict) matches Ok(ws)
            && ws.len() > PROGRAM_SIZE as int,
    ensures
        spec_assemble(source, entries, strict) == Err::<Seq<Seq<char>>, AsmErrorModel>(
            AsmErrorModel::Overflow,
        ),
{
}

/// A line whose mnemonic the table does not recognize is absent from the
/// output sequence, and every following instruction moves up one slot:
/// dropping that line leaves the output of a successful run unchanged.
pub proof fn lemma_unrecognized_dropped(
    lines: Seq<Seq<char>>,
    entries: Seq<OpcodeDescriptor>,
    strict: bool,
    i: int,
)
    requires
        0 <= i < lines.len(),
        spec_encode_line(lines[i], entries, strict) is Skip,
        spec_process(lines, entries, strict) is Ok,
    ensures
        spec_process(lines.remove(i), entries, strict) == spec_process(lines, entries, strict),
    decreases lines.len(),
{
    if i == lines.len() - 1 {
        assert(lines.remove(i) =~~= lines.drop_last());
        assert(spec_process(lines.drop_last(), entries, strict) is Ok);
    } else {
        assert(lines.remove(i).drop_last() =~~= lines.drop_last().remove(i));
        assert(lines.remove(i).last() == lines.last());
        assert(lines.drop_last()[i] == lines[i]);
        assert(spec_process(lines.drop_last(), entries, strict) is Ok);
        lemma_unrecognized_dropped(lines.drop_last(), entries, strict, i);
    }
}

/// Assembling the same input twice against the same opcode table gives
/// identical output: the result is a function of the source text and the
/// table alone.
pub proof fn lemma_assemble_deterministic(
    source: Seq<char>,
    entries: Seq<OpcodeDescriptor>,
    strict: bool,
    r1: Result<Seq<Seq<char>>, AsmErrorModel>,
    r2: Result<Seq<Seq<char>>, AsmErrorModel>,
)
    requires
        r1 == spec_assemble(source, entries, strict),
        r2 == spec_assemble(source, entries, strict),
    ensures
        r1 == r2,
{
}

} // verus!
