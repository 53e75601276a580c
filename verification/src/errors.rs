//! Typed errors: every invalid-input path that the assembler can hit
//! surfaces as a recoverable error naming the offending line and token.

use vstd::prelude::*;

verus! {

/// Specification-level image of an operand extraction error.
pub enum OperandErrorModel {
    /// The token could not be parsed in the form the layout asks for.
    Malformed { token: Seq<char> },
    /// The token cursor was already exhausted.
    Missing,
    /// Strict mode only: the value does not fit its bit field.
    OutOfRange { value: u16, limit: u16 },
}

/// An operand extraction failure, local to one token cursor.
#[derive(Debug)]
pub enum OperandError {
    /// The token could not be parsed in the form the layout asks for.
    Malformed { token: String },
    /// The token cursor was already exhausted.
    Missing,
    /// Strict mode only: the value does not fit its bit field.
    OutOfRange { value: u16, limit: u16 },
}

impl View for OperandError {
    type V = OperandErrorModel;

    open spec fn view(&self) -> OperandErrorModel {
        match self {
            OperandError::Malformed { token } => OperandErrorModel::Malformed { token: token@ },
            OperandError::Missing => OperandErrorModel::Missing,
            OperandError::OutOfRange { value, limit } => OperandErrorModel::OutOfRange {
                value: *value,
                limit: *limit,
            },
        }
    }
}

/// Specification-level image of an assembly error.
pub enum AsmErrorModel {
    /// More than the fixed number of instructions were encoded.
    Overflow,
    /// A malformed operand token on the given source line.
    MalformedOperand { line: int, token: Seq<char> },
    /// A source line ended before all its operands were read.
    MissingOperand { line: int },
    /// Strict mode only: an operand value does not fit its bit field.
    OperandOutOfRange { line: int, value: u16, limit: u16 },
    /// Strict mode only: the line's mnemonic is not in the opcode table.
    UnrecognizedMnemonic { line: int, mnemonic: Seq<char> },
}

/// A failure of one assembly run.  `line` indexes the sequence of
/// non-empty source lines handed to the encoder.
#[derive(Debug)]
pub enum AsmError {
    /// More than the fixed number of instructions were encoded.
    Overflow,
    /// A malformed operand token on the given source line.
    MalformedOperand { line: usize, token: String },
    /// A source line ended before all its operands were read.
    MissingOperand { line: usize },
    /// Strict mode only: an operand value does not fit its bit field.
    OperandOutOfRange { line: usize, value: u16, limit: u16 },
    /// Strict mode only: the line's mnemonic is not in the opcode table.
    UnrecognizedMnemonic { line: usize, mnemonic: String },
}

impl View for AsmError {
    type V = AsmErrorModel;

    open spec fn view(&self) -> AsmErrorModel {
        match self {
            AsmError::Overflow => AsmErrorModel::Overflow,
            AsmError::MalformedOperand { line, token } => AsmErrorModel::MalformedOperand {
                line: *line as int,
                token: token@,
            },
            AsmError::MissingOperand { line } => AsmErrorModel::MissingOperand {
                line: *line as int,
            },
            AsmError::OperandOutOfRange { line, value, limit } => AsmErrorModel::OperandOutOfRange {
                line: *line as int,
                value: *value,
                limit: *limit,
            },
            AsmError::UnrecognizedMnemonic { line, mnemonic } => AsmErrorModel::UnrecognizedMnemonic {
                line: *line as int,
                mnemonic: mnemonic@,
            },
        }
    }
}

/// Attaches the index of the offending source line to an operand error.
pub open spec fn spec_at_line(e: OperandErrorModel, line: int) -> AsmErrorModel {
    match e {
        OperandErrorModel::Malformed { token } => AsmErrorModel::MalformedOperand { line, token },
        OperandErrorModel::Missing => AsmErrorModel::MissingOperand { line },
        OperandErrorModel::OutOfRange { value, limit } => AsmErrorModel::OperandOutOfRange {
            line,
            value,
            limit,
        },
    }
}

impl AsmError {
    /// Exec mirror of [`spec_at_line`].
    pub fn at_line(e: OperandError, line: usize) -> (r: AsmError)
        ensures
            r@ == spec_at_line(e@, line as int),
    {
        match e {
            OperandError::Malformed { token } => AsmError::MalformedOperand { line, token },
            OperandError::Missing => AsmError::MissingOperand { line },
            OperandError::OutOfRange { value, limit } => AsmError::OperandOutOfRange {
                line,
                value,
                limit,
            },
        }
    }
}

} // verus!
