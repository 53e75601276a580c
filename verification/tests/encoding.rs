use asm16::assembler::Assembler;
use asm16::encode::get_port_id;
use asm16::encode::get_raw_num;
use asm16::encode::get_reg_id;
use asm16::errors::AsmError;
use asm16::errors::OperandError;
use asm16::table::OpcodeDescriptor;
use asm16::table::OpcodeTable;
use asm16::table::OperandLayout;

fn entry(name: &str, bits: &str, layout: OperandLayout) -> OpcodeDescriptor {
    OpcodeDescriptor::new(name.to_string(), bits.to_string(), layout)
}

fn table() -> OpcodeTable {
    OpcodeTable::new(vec![
        entry("Nop", "100000", OperandLayout::Nullary),
        entry("Li", "0001", OperandLayout::LoadImmediate),
        entry("Jmp", "100001", OperandLayout::Branch),
        entry("Jz", "100010", OperandLayout::Branch),
        entry("Jnz", "100011", OperandLayout::Branch),
        entry("Mov", "0010", OperandLayout::RegisterPair),
        entry("Not", "0011", OperandLayout::RegisterPair),
        entry("Add", "0100", OperandLayout::RegisterTriple),
        entry("Sub", "0101", OperandLayout::RegisterTriple),
        entry("And", "0110", OperandLayout::RegisterTriple),
        entry("Or", "0111", OperandLayout::RegisterTriple),
        entry("Call", "100100", OperandLayout::Branch),
        entry("Ret", "100101", OperandLayout::Nullary),
        entry("Lw", "100110", OperandLayout::LoadMemory),
        entry("Sw", "100111", OperandLayout::StoreMemory),
        entry("In", "101000", OperandLayout::PortTransfer),
        entry("Out", "101001", OperandLayout::PortTransfer),
    ])
}

fn words_of(src_lines: &[&str]) -> Vec<String> {
    let assembler = Assembler::new(table());
    let lines: Vec<String> = src_lines.iter().map(|s| s.to_string()).collect();
    assembler.process_instructions(&lines).expect("encoding should succeed")
}

#[test]
fn table_is_well_formed() {
    assert!(table().is_well_formed());
}

#[test]
fn bad_code_width_is_rejected() {
    let t = OpcodeTable::new(vec![entry("Nop", "10000", OperandLayout::Nullary)]);
    assert!(!t.is_well_formed());
}

#[test]
fn non_binary_code_bits_are_rejected() {
    let t = OpcodeTable::new(vec![entry("Nop", "10x000", OperandLayout::Nullary)]);
    assert!(!t.is_well_formed());
}

#[test]
fn nop_encodes_ten_zero_bits() {
    let words = words_of(&["Nop"]);
    assert_eq!(words, vec!["1000000000000000".to_string()]);
}

#[test]
fn ret_encodes_ten_zero_bits() {
    let words = words_of(&["Ret"]);
    assert_eq!(words, vec!["1001010000000000".to_string()]);
}

#[test]
fn li_encodes_immediate_then_register() {
    // 200 in 8 bits is 11001000; R3 in 4 bits is 0011.
    let words = words_of(&["Li R3 200"]);
    assert_eq!(words, vec!["0001110010000011".to_string()]);
}

#[test]
fn add_encodes_sources_then_destination() {
    // Operand field order is first-source, second-source, destination.
    let words = words_of(&["Add R1 R2 R3"]);
    assert_eq!(words, vec!["0100001000110001".to_string()]);
}

#[test]
fn mov_encodes_source_zero_destination() {
    let words = words_of(&["Mov R1 R2"]);
    assert_eq!(words, vec!["0010001000000001".to_string()]);
}

#[test]
fn jmp_encodes_ten_bit_address() {
    let words = words_of(&["Jmp 5"]);
    assert_eq!(words, vec!["1000010000000101".to_string()]);
}

#[test]
fn jmp_out_of_range_emits_code_bits_only() {
    let words = words_of(&["Jmp 2000"]);
    assert_eq!(words, vec!["100001".to_string()]);
}

#[test]
fn li_register_out_of_range_emits_code_bits_only() {
    let words = words_of(&["Li R20 5"]);
    assert_eq!(words, vec!["0001".to_string()]);
}

#[test]
fn lw_encodes_address_then_register() {
    let words = words_of(&["Lw R2 7"]);
    assert_eq!(words, vec!["1001100001110010".to_string()]);
}

#[test]
fn sw_encodes_register_then_address() {
    let words = words_of(&["Sw R2 7"]);
    assert_eq!(words, vec!["1001110010000111".to_string()]);
}

#[test]
fn in_encodes_port_then_address() {
    let words = words_of(&["In P2 9"]);
    assert_eq!(words, vec!["1010000010001001".to_string()]);
}

#[test]
fn out_encodes_port_then_address() {
    let words = words_of(&["Out P1 3"]);
    assert_eq!(words, vec!["1010010001000011".to_string()]);
}

#[test]
fn wide_register_ids_truncate_to_four_bits() {
    // 18 is 10010; the low four bits are 0010.
    let words = words_of(&["Add R18 R2 R3"]);
    assert_eq!(words, vec!["0100001000110010".to_string()]);
}

#[test]
fn recognized_words_are_sixteen_binary_chars() {
    let words = words_of(&[
        "Nop", "Li R3 200", "Jmp 5", "Mov R1 R2", "Add R1 R2 R3", "Lw R2 7", "Sw R2 7", "In P2 9",
        "Out P1 3", "Ret",
    ]);
    for w in &words {
        assert_eq!(w.len(), 16);
        assert!(w.chars().all(|c| c == '0' || c == '1'));
    }
}

#[test]
fn get_reg_id_parses_and_advances() {
    let toks = vec!["R5".to_string(), "R12".to_string()];
    let mut pos: usize = 0;
    assert_eq!(get_reg_id(&toks, &mut pos).unwrap(), 5);
    assert_eq!(pos, 1);
    assert_eq!(get_reg_id(&toks, &mut pos).unwrap(), 12);
    assert_eq!(pos, 2);
    assert!(matches!(get_reg_id(&toks, &mut pos), Err(OperandError::Missing)));
}

#[test]
fn get_reg_id_rejects_missing_prefix() {
    let toks = vec!["5".to_string()];
    let mut pos: usize = 0;
    match get_reg_id(&toks, &mut pos) {
        Err(OperandError::Malformed { token }) => assert_eq!(token, "5"),
        other => panic!("expected a malformed-operand error, got {:?}", other),
    }
}

#[test]
fn get_port_id_parses_p_prefix() {
    let toks = vec!["P7".to_string()];
    let mut pos: usize = 0;
    assert_eq!(get_port_id(&toks, &mut pos).unwrap(), 7);
}

#[test]
fn get_raw_num_bounds() {
    let toks = vec!["65535".to_string(), "65536".to_string(), "12a".to_string()];
    let mut pos: usize = 0;
    assert_eq!(get_raw_num(&toks, &mut pos).unwrap(), 65535);
    assert!(matches!(get_raw_num(&toks, &mut pos), Err(OperandError::Malformed { .. })));
    assert!(matches!(get_raw_num(&toks, &mut pos), Err(OperandError::Malformed { .. })));
}

#[test]
fn capitalize_str_upper_cases_first_char_only() {
    assert_eq!(Assembler::capitalize_str("li"), "Li");
    assert_eq!(Assembler::capitalize_str("mOv"), "MOv");
    assert_eq!(Assembler::capitalize_str("LI"), "LI");
    assert_eq!(Assembler::capitalize_str(""), "");
}

#[test]
fn add_underscore_padding_groups_nibbles() {
    let mut v = vec![
        "0101010101010101".to_string(),
        "010101".to_string(),
        "01010101".to_string(),
        "010101010101".to_string(),
    ];
    Assembler::add_underscore_padding(&mut v);
    assert_eq!(
        v,
        vec![
            "0101_0101_0101_0101".to_string(),
            "010101".to_string(),
            "0101_0101".to_string(),
            "0101_0101_0101".to_string(),
        ]
    );
}

#[test]
fn missing_operand_is_a_typed_error() {
    let assembler = Assembler::new(table());
    let lines = vec!["Li".to_string()];
    match assembler.process_instructions(&lines) {
        Err(AsmError::MissingOperand { line }) => assert_eq!(line, 0),
        other => panic!("expected a missing-operand error, got {:?}", other),
    }
}

#[test]
fn malformed_operand_names_line_and_token() {
    let assembler = Assembler::new(table());
    let lines = vec!["Nop".to_string(), "Li RX 5".to_string()];
    match assembler.process_instructions(&lines) {
        Err(AsmError::MalformedOperand { line, token }) => {
            assert_eq!(line, 1);
            assert_eq!(token, "RX");
        },
        other => panic!("expected a malformed-operand error, got {:?}", other),
    }
}

#[test]
fn consecutive_spaces_make_an_empty_malformed_token() {
    let assembler = Assembler::new(table());
    let lines = vec!["Li  R3 200".to_string()];
    match assembler.process_instructions(&lines) {
        Err(AsmError::MalformedOperand { line, token }) => {
            assert_eq!(line, 0);
            assert_eq!(token, "");
        },
        other => panic!("expected a malformed-operand error, got {:?}", other),
    }
}
