//! The program assembler: drives the encoder over every source line,
//! enforces the fixed program size, and formats the words for output.

use vstd::prelude::*;
use vstd::string::StrSliceExecFns;
use vstd::string::StringExecFns;

use crate::encode::encode_instruction;
use crate::encode::spec_encode_instr;
use crate::errors::spec_at_line;
use crate::errors::AsmError;
use crate::errors::AsmErrorModel;
use crate::errors::OperandErrorModel;
use crate::numeric::bits_string;
use crate::numeric::spec_bits;
use crate::table::spec_lookup;
use crate::table::OpcodeTable;
use crate::text::lemma_split_term_nonempty;
use crate::text::spec_capitalize;
use crate::text::spec_lines;
use crate::text::spec_nonempty_lines;
use crate::text::spec_split_term;
use crate::text::spec_underscored;
use crate::text::split_lines;
use crate::text::split_term_char;
use crate::text::str_views;
use crate::text::underscored;
use crate::text::uppercase_char;
use crate::text::filter_nonempty;
use crate::text::lemma_nonempty_lines_all_nonempty;

verus! {

/// The fixed number of words in a program image.
pub const PROGRAM_SIZE: usize = 1024;

/// What one non-empty source line contributes to the program.
pub enum LineOutcomeModel {
    /// The mnemonic is not in the opcode table and the run is lenient:
    /// the line is dropped and its address slot is not reserved.
    Skip,
    /// The line encodes to this binary word.
    Word(Seq<char>),
    /// Operand extraction or validation failed.
    Fail(OperandErrorModel),
    /// The mnemonic is not in the opcode table and the run is strict.
    Unrecognized { mnemonic: Seq<char> },
}

/// The outcome of one non-empty source line: its first token, upper-cased
/// on the first character, selects the opcode table entry; the rest of
/// the line is encoded under that entry's layout.
pub open spec fn spec_encode_line(
    line: Seq<char>,
    entries: Seq<crate::table::OpcodeDescriptor>,
    strict: bool,
) -> LineOutcomeModel {
    let toks = spec_split_term(line, ' ');
    if toks.len() == 0 {
        LineOutcomeModel::Skip
    } else {
        match spec_lookup(entries, spec_capitalize(toks[0])) {
            None => if strict {
                LineOutcomeModel::Unrecognized { mnemonic: spec_capitalize(toks[0]) }
            } else {
                LineOutcomeModel::Skip
            },
            Some(desc) => match spec_encode_instr(desc, toks, strict) {
                Ok(w) => LineOutcomeModel::Word(w),
                Err(e) => LineOutcomeModel::Fail(e),
            },
        }
    }
}

/// The binary words of a line sequence, in order: recognized lines
/// contribute their word, unrecognized lines are dropped, and the first
/// operand error aborts the whole run, tagged with its line index.
pub open spec fn spec_process(
    lines: Seq<Seq<char>>,
    entries: Seq<crate::table::OpcodeDescriptor>,
    strict: bool,
) -> Result<Seq<Seq<char>>, AsmErrorModel>
    decreases lines.len(),
{
    if lines.len() == 0 {
        Ok(Seq::empty())
    } else {
        match spec_process(lines.drop_last(), entries, strict) {
            Err(e) => Err(e),
            Ok(ws) => match spec_encode_line(lines.last(), entries, strict) {
                LineOutcomeModel::Skip => Ok(ws),
                LineOutcomeModel::Word(w) => Ok(ws.push(w)),
                LineOutcomeModel::Fail(e) => Err(spec_at_line(e, lines.len() - 1)),
                LineOutcomeModel::Unrecognized { mnemonic } => Err(
                    AsmErrorModel::UnrecognizedMnemonic { line: lines.len() - 1, mnemonic },
                ),
            },
        }
    }
}

/// An error in a prefix of the lines decides the whole run.
proof fn lemma_process_err_persists(
    lines: Seq<Seq<char>>,
    entries: Seq<crate::table::OpcodeDescriptor>,
    strict: bool,
    i: int,
)
    requires
        0 <= i <= lines.len(),
        spec_process(lines.take(i), entries, strict) is Err,
    ensures
        spec_process(lines, entries, strict) == spec_process(lines.take(i), entries, strict),
    decreases lines.len() - i,
{
    if i == lines.len() {
        assert(lines.take(i) =~= lines);
    } else {
        assert(lines.take(i + 1).drop_last() =~= lines.take(i));
        lemma_process_err_persists(lines, entries, strict, i + 1);
    }
}

/// The words once the program size is enforced: all-zero words pad the
/// program out to [`PROGRAM_SIZE`] entries.
pub open spec fn spec_padded(ws: Seq<Seq<char>>) -> Seq<Seq<char>> {
    if ws.len() >= PROGRAM_SIZE {
        ws
    } else {
        ws + Seq::new((PROGRAM_SIZE - ws.len()) as nat, |i: int| spec_bits(0, 16))
    }
}

/// The whole pipeline on one source text: non-empty lines are encoded in
/// order; over [`PROGRAM_SIZE`] words is an overflow; otherwise the
/// program is padded with all-zero words and each word is formatted into
/// `'_'`-separated nibble groups.
pub open spec fn spec_assemble(
    source: Seq<char>,
    entries: Seq<crate::table::OpcodeDescriptor>,
    strict: bool,
) -> Result<Seq<Seq<char>>, AsmErrorModel> {
    let lines = spec_nonempty_lines(spec_lines(source));
    match spec_process(lines, entries, strict) {
        Err(e) => Err(e),
        Ok(ws) => if ws.len() > PROGRAM_SIZE as int {
            Err(AsmErrorModel::Overflow)
        } else {
            Ok(spec_padded(ws).map_values(|w: Seq<char>| spec_underscored(w)))
        },
    }
}

/// The assembler, holding the injected opcode table.
pub struct Assembler {
    /// The instruction-set descriptor this assembler encodes against.
    pub table: OpcodeTable,
    /// Strict validation: unrecognized mnemonics and out-of-range
    /// operands become hard errors instead of the legacy silent drop
    /// and truncation.
    pub strict: bool,
}

impl Assembler {
    /// Builds an assembler over the given opcode table, with the legacy
    /// lenient behavior: unrecognized mnemonics are dropped and
    /// out-of-range operand values are truncated to their field.
    pub fn new(table: OpcodeTable) -> (a: Assembler)
        ensures
            a.table == table,
            !a.strict,
    {
        Assembler { table, strict: false }
    }

    /// Builds a strict assembler: unrecognized mnemonics and operand
    /// values that do not fit their bit field are hard errors.
    pub fn new_strict(table: OpcodeTable) -> (a: Assembler)
        ensures
            a.table == table,
            a.strict,
    {
        Assembler { table, strict: true }
    }

    /// Upper-cases only the first character of `s`; the rest of the
    /// string keeps its case.
    pub fn capitalize_str(s: &str) -> (r: String)
        ensures
            r@ == spec_capitalize(s@),
    {
        let n = s.unicode_len();
        if n == 0 {
            String::new()
        } else {
            let mut r = uppercase_char(s.get_char(0));
            r.append(s.substring_char(1, n));
            proof {
                assert(r@ =~= spec_capitalize(s@));
            }
            r
        }
    }

    /// Reformats every word in place into `'_'`-separated nibble groups.
    pub fn add_underscore_padding(bin_instr: &mut Vec<String>)
        ensures
            final(bin_instr)@.len() == old(bin_instr)@.len(),
            forall|i: int|
                0 <= i < old(bin_instr)@.len() ==> (#[trigger] final(bin_instr)@[i])@
                    == spec_underscored(old(bin_instr)@[i]@),
    {
        let n = bin_instr.len();
        let mut out: Vec<String> = Vec::new();
        let mut i: usize = 0;
        while i < n
            invariant
                n == old(bin_instr)@.len(),
                bin_instr@ == old(bin_instr)@,
                0 <= i <= n,
                out@.len() == i,
                forall|j: int|
                    0 <= j < i ==> (#[trigger] out@[j])@ == spec_underscored(old(bin_instr)@[j]@),
            decreases n - i,
        {
            let line = underscored(bin_instr[i].as_str());
            out.push(line);
            i = i + 1;
        }
        *bin_instr = out;
    }

    /// Encodes every line of `asm_vec` in order: unrecognized mnemonics
    /// are dropped (their address slot is not reserved), and the first
    /// operand error aborts the run, identifying its line.
    pub fn process_instructions(&self, asm_vec: &Vec<String>) -> (r: Result<Vec<String>, AsmError>)
        requires
            forall|i: int| 0 <= i < asm_vec@.len() ==> (#[trigger] asm_vec@[i])@.len() > 0,
        ensures
            match r {
                Ok(v) => spec_process(str_views(asm_vec@), self.table.entries@, self.strict)
                    == Ok::<Seq<Seq<char>>, AsmErrorModel>(str_views(v@)),
                Err(e) => spec_process(str_views(asm_vec@), self.table.entries@, self.strict)
                    == Err::<Seq<Seq<char>>, AsmErrorModel>(e@),
            },
    {
        let ghost all = str_views(asm_vec@);
        let ghost entries = self.table.entries@;
        let mut out: Vec<String> = Vec::new();
        let mut i: usize = 0;
        proof {
            assert(all.take(0) =~~= Seq::<Seq<char>>::empty());
            assert(str_views(out@) =~~= Seq::<Seq<char>>::empty());
        }
        while i < asm_vec.len()
            invariant
                all == str_views(asm_vec@),
                entries == self.table.entries@,
                forall|k: int| 0 <= k < asm_vec@.len() ==> (#[trigger] asm_vec@[k])@.len() > 0,
                0 <= i <= asm_vec@.len(),
                spec_process(all.take(i as int), entries, self.strict) == Ok::<
                    Seq<Seq<char>>,
                    AsmErrorModel,
                >(str_views(out@)),
            decreases asm_vec@.len() - i,
        {
            let ghost pre_words = str_views(out@);
            proof {
                assert(all.take(i + 1).drop_last() =~= all.take(i as int));
                assert(all.take(i + 1).last() == all[i as int]);
                assert(all[i as int] == asm_vec@[i as int]@);
            }
            let line = &asm_vec[i];
            let toks = split_term_char(line.as_str(), ' ');
            proof {
                lemma_split_term_nonempty(line@, ' ');
                assert(str_views(toks@)[0] == toks@[0]@);
            }
            let cap = Assembler::capitalize_str(toks[0].as_str());
            match self.table.lookup(cap.as_str()) {
                None => {
                    if self.strict {
                        let err = AsmError::UnrecognizedMnemonic { line: i, mnemonic: cap };
                        proof {
                            assert(spec_encode_line(all[i as int], entries, self.strict)
                                matches LineOutcomeModel::Unrecognized { mnemonic } && mnemonic
                                == err@->UnrecognizedMnemonic_mnemonic);
                            assert(spec_process(all.take(i + 1), entries, self.strict) == Err::<
                                Seq<Seq<char>>,
                                AsmErrorModel,
                            >(err@));
                            lemma_process_err_persists(all, entries, self.strict, i + 1);
                        }
                        return Err(err);
                    }
                    proof {
                        assert(spec_encode_line(all[i as int], entries, self.strict) is Skip);
                        assert(spec_process(all.take(i + 1), entries, self.strict) == Ok::<
                            Seq<Seq<char>>,
                            AsmErrorModel,
                        >(str_views(out@)));
                    }
                },
                Some(desc) => {
                    match encode_instruction(desc, &toks, self.strict) {
                        Ok(w) => {
                            proof {
                                assert(spec_encode_line(all[i as int], entries, self.strict)
                                    == LineOutcomeModel::Word(w@));
                            }
                            out.push(w);
                            proof {
                                assert(str_views(out@) =~~= pre_words.push(
                                    str_views(out@).last(),
                                ));
                                assert(spec_process(all.take(i + 1), entries, self.strict) == Ok::<
                                    Seq<Seq<char>>,
                                    AsmErrorModel,
                                >(str_views(out@)));
                            }
                        },
                        Err(e) => {
                            let err = AsmError::at_line(e, i);
                            proof {
                                assert(spec_encode_line(all[i as int], entries, self.strict)
                                    == LineOutcomeModel::Fail(e@));
                                assert(spec_process(all.take(i + 1), entries, self.strict) == Err::<
                                    Seq<Seq<char>>,
                                    AsmErrorModel,
                                >(err@));
                                lemma_process_err_persists(all, entries, self.strict, i + 1);
                            }
                            return Err(err);
                        },
                    }
                },
            }
            i = i + 1;
        }
        proof {
            assert(all.take(asm_vec@.len() as int) =~= all);
        }
        Ok(out)
    }

    /// Assembles one source text into the formatted program image: the
    /// full fixed-size word list, one formatted word per entry, or the
    /// first error.  No partial image is ever produced.
    pub fn assemble(&self, source: &str) -> (r: Result<Vec<String>, AsmError>)
        ensures
            match r {
                Ok(v) => spec_assemble(source@, self.table.entries@, self.strict) == Ok::<
                    Seq<Seq<char>>,
                    AsmErrorModel,
                >(str_views(v@)),
                Err(e) => spec_assemble(source@, self.table.entries@, self.strict) == Err::<
                    Seq<Seq<char>>,
                    AsmErrorModel,
                >(e@),
            },
    {
        let ghost entries = self.table.entries@;
        let raw_lines = split_lines(source);
        let asm_vec = filter_nonempty(&raw_lines);
        let ghost lines = spec_nonempty_lines(spec_lines(source@));
        proof {
            lemma_nonempty_lines_all_nonempty(spec_lines(source@));
            assert(forall|i: int|
                0 <= i < asm_vec@.len() ==> (#[trigger] asm_vec@[i])@ == str_views(asm_vec@)[i]);
        }
        let mut bin_vec = match self.process_instructions(&asm_vec) {
            Ok(v) => v,
            Err(e) => {
                return Err(e);
            },
        };
        let ghost ws = str_views(bin_vec@);
        if bin_vec.len() > PROGRAM_SIZE {
            return Err(AsmError::Overflow);
        }
        proof {
            assert(str_views(bin_vec@) =~~= ws + Seq::new(
                (bin_vec@.len() - ws.len()) as nat,
                |k: int| spec_bits(0, 16),
            ));
        }
        while bin_vec.len() < PROGRAM_SIZE
            invariant
                ws.len() <= bin_vec@.len() <= PROGRAM_SIZE as int,
                str_views(bin_vec@) == ws + Seq::new(
                    (bin_vec@.len() - ws.len()) as nat,
                    |k: int| spec_bits(0, 16),
                ),
            decreases PROGRAM_SIZE as int - bin_vec@.len(),
        {
            let ghost before = bin_vec@;
            let zero = bits_string(0, 16);
            bin_vec.push(zero);
            proof {
                let target = ws + Seq::new((bin_vec@.len() - ws.len()) as nat, |k: int| spec_bits(0, 16));
                assert(bin_vec@ == before.push(zero));
                assert(str_views(bin_vec@).len() == target.len());
                assert forall|k: int| 0 <= k < str_views(bin_vec@).len() implies str_views(
                    bin_vec@,
                )[k] == target[k] by {
                    if k < before.len() {
                        assert(str_views(bin_vec@)[k] == bin_vec@[k]@);
                        assert(bin_vec@[k] == before[k]);
                        assert(str_views(before)[k] == before[k]@);
                        assert(str_views(before)[k] == (ws + Seq::new(
                            (before.len() - ws.len()) as nat,
                            |k2: int| spec_bits(0, 16),
                        ))[k]);
                    } else {
                        assert(str_views(bin_vec@)[k] == zero@);
                    }
                }
                assert(str_views(bin_vec@) =~~= target);
            }
        }
        proof {
            assert(str_views(bin_vec@) =~~= spec_padded(ws));
        }
        let ghost padded = str_views(bin_vec@);
        Assembler::add_underscore_padding(&mut bin_vec);
        proof {
            assert(str_views(bin_vec@) =~~= padded.map_values(
                |w: Seq<char>| spec_underscored(w),
            ));
        }
        Ok(bin_vec)
    }
}

} // verus!
