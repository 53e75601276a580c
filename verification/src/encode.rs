//! Operand extraction from a token cursor, and the per-opcode bit-field
//! packing of one instruction word.

use vstd::prelude::*;
use vstd::string::StrSliceExecFns;
use vstd::string::StringExecFns;

use crate::errors::OperandError;
use crate::errors::OperandErrorModel;
use crate::numeric::bits_string;
use crate::numeric::parse_dec;
use crate::numeric::spec_bits;
use crate::numeric::spec_parse_dec;
use crate::table::OpcodeDescriptor;
use crate::table::OperandLayout;
use crate::text::str_views;

verus! {

/// Parses a register- or port-style token: the prefix character followed
/// by a decimal id no larger than 255.
pub open spec fn spec_parse_prefixed(tok: Seq<char>, prefix: char) -> Option<u8> {
    if tok.len() >= 1 && tok[0] == prefix {
        match spec_parse_dec(tok.drop_first(), 255) {
            Some(v) => Some(v as u8),
            None => None,
        }
    } else {
        None
    }
}

/// Parses `tok` as `prefix` followed by a decimal id of at most 255.
fn parse_prefixed(tok: &str, prefix: char) -> (r: Option<u8>)
    ensures
        r == spec_parse_prefixed(tok@, prefix),
{
    let n = tok.unicode_len();
    if n == 0 || tok.get_char(0) != prefix {
        return None;
    }
    proof {
        assert(tok@.subrange(1, n as int) =~= tok@.drop_first());
    }
    match parse_dec(tok.substring_char(1, n), 255) {
        Some(v) => Some(v as u8),
        None => None,
    }
}

/// The outcome of taking one prefixed operand at cursor position `pos`:
/// the parsed id or the error, and the new cursor position.
pub open spec fn spec_extract_prefixed(tokens: Seq<Seq<char>>, pos: int, prefix: char) -> (Result<
    u8,
    OperandErrorModel,
>, int) {
    if !(0 <= pos < tokens.len()) {
        (Err(OperandErrorModel::Missing), pos)
    } else {
        match spec_parse_prefixed(tokens[pos], prefix) {
            Some(v) => (Ok(v), pos + 1),
            None => (Err(OperandErrorModel::Malformed { token: tokens[pos] }), pos + 1),
        }
    }
}

/// The outcome of taking one raw-number operand at cursor position `pos`.
pub open spec fn spec_extract_num(tokens: Seq<Seq<char>>, pos: int) -> (Result<
    u16,
    OperandErrorModel,
>, int) {
    if !(0 <= pos < tokens.len()) {
        (Err(OperandErrorModel::Missing), pos)
    } else {
        match spec_parse_dec(tokens[pos], 65535) {
            Some(v) => (Ok(v), pos + 1),
            None => (Err(OperandErrorModel::Malformed { token: tokens[pos] }), pos + 1),
        }
    }
}

/// Takes one token shaped `<prefix><decimal id>` from the cursor.
fn extract_prefixed(tokens: &Vec<String>, pos: &mut usize, prefix: char) -> (r: Result<
    u8,
    OperandError,
>)
    ensures
        ({
            let (res, p) = spec_extract_prefixed(str_views(tokens@), *old(pos) as int, prefix);
            &&& *final(pos) == p
            &&& match r {
                Ok(v) => res == Ok::<u8, OperandErrorModel>(v),
                Err(e) => res == Err::<u8, OperandErrorModel>(e@),
            }
        }),
{
    if *pos >= tokens.len() {
        return Err(OperandError::Missing);
    }
    let tok = &tokens[*pos];
    *pos = *pos + 1;
    proof {
        assert(str_views(tokens@)[*old(pos) as int] == tok@);
    }
    match parse_prefixed(tok.as_str(), prefix) {
        Some(v) => Ok(v),
        None => Err(OperandError::Malformed { token: tok.clone() }),
    }
}

/// Extracts a register operand: a token `R<id>` with `id` at most 255.
pub fn get_reg_id(tokens: &Vec<String>, pos: &mut usize) -> (r: Result<u8, OperandError>)
    ensures
        ({
            let (res, p) = spec_extract_prefixed(str_views(tokens@), *old(pos) as int, 'R');
            &&& *final(pos) == p
            &&& match r {
                Ok(v) => res == Ok::<u8, OperandErrorModel>(v),
                Err(e) => res == Err::<u8, OperandErrorModel>(e@),
            }
        }),
{
    extract_prefixed(tokens, pos, 'R')
}

/// Extracts a port operand: a token `P<id>` with `id` at most 255.
pub fn get_port_id(tokens: &Vec<String>, pos: &mut usize) -> (r: Result<u8, OperandError>)
    ensures
        ({
            let (res, p) = spec_extract_prefixed(str_views(tokens@), *old(pos) as int, 'P');
            &&& *final(pos) == p
            &&& match r {
                Ok(v) => res == Ok::<u8, OperandErrorModel>(v),
                Err(e) => res == Err::<u8, OperandErrorModel>(e@),
            }
        }),
{
    extract_prefixed(tokens, pos, 'P')
}

/// Extracts a raw numeric operand: a decimal token of at most 65535.
pub fn get_raw_num(tokens: &Vec<String>, pos: &mut usize) -> (r: Result<u16, OperandError>)
    ensures
        ({
            let (res, p) = spec_extract_num(str_views(tokens@), *old(pos) as int);
            &&& *final(pos) == p
            &&& match r {
                Ok(v) => res == Ok::<u16, OperandErrorModel>(v),
                Err(e) => res == Err::<u16, OperandErrorModel>(e@),
            }
        }),
{
    if *pos >= tokens.len() {
        return Err(OperandError::Missing);
    }
    let tok = &tokens[*pos];
    *pos = *pos + 1;
    proof {
        assert(str_views(tokens@)[*old(pos) as int] == tok@);
    }
    match parse_dec(tok.as_str(), 65535) {
        Some(v) => Ok(v),
        None => Err(OperandError::Malformed { token: tok.clone() }),
    }
}

/// The binary word for one recognized instruction: the opcode's code
/// bits followed by the operand fields of its layout.  `tokens[0]` is the
/// mnemonic; operands are read from `tokens[1]` on.  Out-of-range values
/// are truncated to their field width, except the two legacy checks: a
/// `LoadImmediate` register id of 16 or more and a `Branch` target of
/// 1024 or more yield the bare code bits.
pub open spec fn spec_encode_instr(
    desc: OpcodeDescriptor,
    tokens: Seq<Seq<char>>,
    strict: bool,
) -> Result<Seq<char>, OperandErrorModel> {
    let code = desc.code_bits@;
    match desc.layout {
        OperandLayout::Nullary => Ok(code + spec_bits(0, 10)),
        OperandLayout::LoadImmediate => {
            let (rd_r, p1) = spec_extract_prefixed(tokens, 1, 'R');
            match rd_r {
                Err(e) => Err(e),
                Ok(rd) => {
                    if rd >= 16 {
                        if strict {
                            Err(OperandErrorModel::OutOfRange { value: rd as u16, limit: 15 })
                        } else {
                            Ok(code)
                        }
                    } else {
                        let (imm_r, p2) = spec_extract_num(tokens, p1);
                        match imm_r {
                            Err(e) => Err(e),
                            Ok(imm) => if strict && imm > 255 {
                                Err(OperandErrorModel::OutOfRange { value: imm, limit: 255 })
                            } else {
                                Ok(code + spec_bits(imm as nat, 8) + spec_bits(rd as nat, 4))
                            },
                        }
                    }
                },
            }
        },
        OperandLayout::Branch => {
            let (addr_r, p1) = spec_extract_num(tokens, 1);
            match addr_r {
                Err(e) => Err(e),
                Ok(addr) => {
                    if addr < 1024 {
                        Ok(code + spec_bits(addr as nat, 10))
                    } else if strict {
                        Err(OperandErrorModel::OutOfRange { value: addr, limit: 1023 })
                    } else {
                        Ok(code)
                    }
                },
            }
        },
        OperandLayout::RegisterPair => {
            let (rd_r, p1) = spec_extract_prefixed(tokens, 1, 'R');
            match rd_r {
                Err(e) => Err(e),
                Ok(rd) => {
                    if strict && rd >= 16 {
                        Err(OperandErrorModel::OutOfRange { value: rd as u16, limit: 15 })
                    } else {
                        let (rs_r, p2) = spec_extract_prefixed(tokens, p1, 'R');
                        match rs_r {
                            Err(e) => Err(e),
                            Ok(rs) => if strict && rs >= 16 {
                                Err(OperandErrorModel::OutOfRange { value: rs as u16, limit: 15 })
                            } else {
                                Ok(
                                    code + spec_bits(rs as nat, 4) + spec_bits(0, 4) + spec_bits(
                                        rd as nat,
                                        4,
                                    ),
                                )
                            },
                        }
                    }
                },
            }
        },
        OperandLayout::RegisterTriple => {
            let (rd_r, p1) = spec_extract_prefixed(tokens, 1, 'R');
            match rd_r {
                Err(e) => Err(e),
                Ok(rd) => {
                    if strict && rd >= 16 {
                        Err(OperandErrorModel::OutOfRange { value: rd as u16, limit: 15 })
                    } else {
                        let (r1_r, p2) = spec_extract_prefixed(tokens, p1, 'R');
                        match r1_r {
                            Err(e) => Err(e),
                            Ok(r1) => if strict && r1 >= 16 {
                                Err(OperandErrorModel::OutOfRange { value: r1 as u16, limit: 15 })
                            } else {
                                let (r2_r, p3) = spec_extract_prefixed(tokens, p2, 'R');
                                match r2_r {
                                    Err(e) => Err(e),
                                    Ok(r2) => if strict && r2 >= 16 {
                                        Err(
                                            OperandErrorModel::OutOfRange {
                                                value: r2 as u16,
                                                limit: 15,
                                            },
                                        )
                                    } else {
                                        Ok(
                                            code + spec_bits(r1 as nat, 4) + spec_bits(
                                                r2 as nat,
                                                4,
                                            ) + spec_bits(rd as nat, 4),
                                        )
                                    },
                                }
                            },
                        }
                    }
                },
            }
        },
        OperandLayout::LoadMemory => {
            let (rd_r, p1) = spec_extract_prefixed(tokens, 1, 'R');
            match rd_r {
                Err(e) => Err(e),
                Ok(rd) => {
                    if strict && rd >= 16 {
                        Err(OperandErrorModel::OutOfRange { value: rd as u16, limit: 15 })
                    } else {
                        let (addr_r, p2) = spec_extract_num(tokens, p1);
                        match addr_r {
                            Err(e) => Err(e),
                            Ok(addr) => if strict && addr > 63 {
                                Err(OperandErrorModel::OutOfRange { value: addr, limit: 63 })
                            } else {
                                Ok(code + spec_bits(addr as nat, 6) + spec_bits(rd as nat, 4))
                            },
                        }
                    }
                },
            }
        },
        OperandLayout::StoreMemory => {
            let (rs_r, p1) = spec_extract_prefixed(tokens, 1, 'R');
            match rs_r {
                Err(e) => Err(e),
                Ok(rs) => {
                    if strict && rs >= 16 {
                        Err(OperandErrorModel::OutOfRange { value: rs as u16, limit: 15 })
                    } else {
                        let (addr_r, p2) = spec_extract_num(tokens, p1);
                        match addr_r {
                            Err(e) => Err(e),
                            Ok(addr) => if strict && addr > 63 {
                                Err(OperandErrorModel::OutOfRange { value: addr, limit: 63 })
                            } else {
                                Ok(code + spec_bits(rs as nat, 4) + spec_bits(addr as nat, 6))
                            },
                        }
                    }
                },
            }
        },
        OperandLayout::PortTransfer => {
            let (port_r, p1) = spec_extract_prefixed(tokens, 1, 'P');
            match port_r {
                Err(e) => Err(e),
                Ok(port) => {
                    if strict && port >= 16 {
                        Err(OperandErrorModel::OutOfRange { value: port as u16, limit: 15 })
                    } else {
                        let (addr_r, p2) = spec_extract_num(tokens, p1);
                        match addr_r {
                            Err(e) => Err(e),
                            Ok(addr) => if strict && addr > 63 {
                                Err(OperandErrorModel::OutOfRange { value: addr, limit: 63 })
                            } else {
                                Ok(code + spec_bits(port as nat, 4) + spec_bits(addr as nat, 6))
                            },
                        }
                    }
                },
            }
        },
    }
}

/// Encodes one recognized instruction line.  `tokens[0]` is the mnemonic
/// that selected `desc`; the remaining tokens are its operands.
pub fn encode_instruction(desc: &OpcodeDescriptor, tokens: &Vec<String>, strict: bool) -> (r:
    Result<String, OperandError>)
    ensures
        match r {
            Ok(w) => spec_encode_instr(*desc, str_views(tokens@), strict) == Ok::<
                Seq<char>,
                OperandErrorModel,
            >(w@),
            Err(e) => spec_encode_instr(*desc, str_views(tokens@), strict) == Err::<
                Seq<char>,
                OperandErrorModel,
            >(e@),
        },
{
    let mut pos: usize = 1;
    let mut w: String = desc.code_bits.as_str().to_owned();
    let ghost code = desc.code_bits@;
    match desc.layout {
        OperandLayout::Nullary => {
            let zeros = bits_string(0, 10);
            w.append(zeros.as_str());
            Ok(w)
        },
        OperandLayout::LoadImmediate => {
            let rd = match get_reg_id(tokens, &mut pos) {
                Ok(v) => v,
                Err(e) => {
                    return Err(e);
                },
            };
            if rd >= 16 {
                if strict {
                    return Err(OperandError::OutOfRange { value: rd as u16, limit: 15 });
                }
            } else {
                let imm = match get_raw_num(tokens, &mut pos) {
                    Ok(v) => v,
                    Err(e) => {
                        return Err(e);
                    },
                };
                if strict && imm > 255 {
                    return Err(OperandError::OutOfRange { value: imm, limit: 255 });
                }
                let f1 = bits_string(imm, 8);
                w.append(f1.as_str());
                let f2 = bits_string(rd as u16, 4);
                w.append(f2.as_str());
                proof {
                    assert(w@ =~= code + spec_bits(imm as nat, 8) + spec_bits(rd as nat, 4));
                }
            }
            Ok(w)
        },
        OperandLayout::Branch => {
            let addr = match get_raw_num(tokens, &mut pos) {
                Ok(v) => v,
                Err(e) => {
                    return Err(e);
                },
            };
            if addr < 1024 {
                let f1 = bits_string(addr, 10);
                w.append(f1.as_str());
            } else if strict {
                return Err(OperandError::OutOfRange { value: addr, limit: 1023 });
            }
            Ok(w)
        },
        OperandLayout::RegisterPair => {
            let rd = match get_reg_id(tokens, &mut pos) {
                Ok(v) => v,
                Err(e) => {
                    return Err(e);
                },
            };
            if strict && rd >= 16 {
                return Err(OperandError::OutOfRange { value: rd as u16, limit: 15 });
            }
            let rs = match get_reg_id(tokens, &mut pos) {
                Ok(v) => v,
                Err(e) => {
                    return Err(e);
                },
            };
            if strict && rs >= 16 {
                return Err(OperandError::OutOfRange { value: rs as u16, limit: 15 });
            }
            let f1 = bits_string(rs as u16, 4);
            w.append(f1.as_str());
            let f2 = bits_string(0, 4);
            w.append(f2.as_str());
            let f3 = bits_string(rd as u16, 4);
            w.append(f3.as_str());
            proof {
                assert(w@ =~= code + spec_bits(rs as nat, 4) + spec_bits(0, 4) + spec_bits(
                    rd as nat,
                    4,
                ));
            }
            Ok(w)
        },
        OperandLayout::RegisterTriple => {
            let rd = match get_reg_id(tokens, &mut pos) {
                Ok(v) => v,
                Err(e) => {
                    return Err(e);
                },
            };
            if strict && rd >= 16 {
                return Err(OperandError::OutOfRange { value: rd as u16, limit: 15 });
            }
            let r1 = match get_reg_id(tokens, &mut pos) {
                Ok(v) => v,
                Err(e) => {
                    return Err(e);
                },
            };
            if strict && r1 >= 16 {
                return Err(OperandError::OutOfRange { value: r1 as u16, limit: 15 });
            }
            let r2 = match get_reg_id(tokens, &mut pos) {
                Ok(v) => v,
                Err(e) => {
                    return Err(e);
                },
            };
            if strict && r2 >= 16 {
                return Err(OperandError::OutOfRange { value: r2 as u16, limit: 15 });
            }
            let f1 = bits_string(r1 as u16, 4);
            w.append(f1.as_str());
            let f2 = bits_string(r2 as u16, 4);
            w.append(f2.as_str());
            let f3 = bits_string(rd as u16, 4);
            w.append(f3.as_str());
            proof {
                assert(w@ =~= code + spec_bits(r1 as nat, 4) + spec_bits(r2 as nat, 4)
                    + spec_bits(rd as nat, 4));
            }
            Ok(w)
        },
        OperandLayout::LoadMemory => {
            let rd = match get_reg_id(tokens, &mut pos) {
                Ok(v) => v,
                Err(e) => {
                    return Err(e);
                },
            };
            if strict && rd >= 16 {
                return Err(OperandError::OutOfRange { value: rd as u16, limit: 15 });
            }
            let addr = match get_raw_num(tokens, &mut pos) {
                Ok(v) => v,
                Err(e) => {
                    return Err(e);
                },
            };
            if strict && addr > 63 {
                return Err(OperandError::OutOfRange { value: addr, limit: 63 });
            }
            let f1 = bits_string(addr, 6);
            w.append(f1.as_str());
            let f2 = bits_string(rd as u16, 4);
            w.append(f2.as_str());
            proof {
                assert(w@ =~= code + spec_bits(addr as nat, 6) + spec_bits(rd as nat, 4));
            }
            Ok(w)
        },
        OperandLayout::StoreMemory => {
            let rs = match get_reg_id(tokens, &mut pos) {
                Ok(v) => v,
                Err(e) => {
                    return Err(e);
                },
            };
            if strict && rs >= 16 {
                return Err(OperandError::OutOfRange { value: rs as u16, limit: 15 });
            }
            let addr = match get_raw_num(tokens, &mut pos) {
                Ok(v) => v,
                Err(e) => {
                    return Err(e);
                },
            };
            if strict && addr > 63 {
                return Err(OperandError::OutOfRange { value: addr, limit: 63 });
            }
            let f1 = bits_string(rs as u16, 4);
            w.append(f1.as_str());
            let f2 = bits_string(addr, 6);
            w.append(f2.as_str());
            proof {
                assert(w@ =~= code + spec_bits(rs as nat, 4) + spec_bits(addr as nat, 6));
            }
            Ok(w)
        },
        OperandLayout::PortTransfer => {
            let port = match get_port_id(tokens, &mut pos) {
                Ok(v) => v,
                Err(e) => {
                    return Err(e);
                },
            };
            if strict && port >= 16 {
                return Err(OperandError::OutOfRange { value: port as u16, limit: 15 });
            }
            let addr = match get_raw_num(tokens, &mut pos) {
                Ok(v) => v,
                Err(e) => {
                    return Err(e);
                },
            };
            if strict && addr > 63 {
                return Err(OperandError::OutOfRange { value: addr, limit: 63 });
            }
            let f1 = bits_string(port as u16, 4);
            w.append(f1.as_str());
            let f2 = bits_string(addr, 6);
            w.append(f2.as_str());
            proof {
                assert(w@ =~= code + spec_bits(port as nat, 4) + spec_bits(addr as nat, 6));
            }
            Ok(w)
        },
    }
}

} // verus!
