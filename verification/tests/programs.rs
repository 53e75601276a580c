use asm16::assembler::Assembler;
use asm16::errors::AsmError;
use asm16::table::OpcodeDescriptor;
use asm16::table::OpcodeTable;
use asm16::table::OperandLayout;

fn entry(name: &str, bits: &str, layout: OperandLayout) -> OpcodeDescriptor {
    OpcodeDescriptor::new(name.to_string(), bits.to_string(), layout)
}

fn table() -> OpcodeTable {
    OpcodeTable::new(vec![
        entry("Nop", "100000", OperandLayout::Nullary),
        entry("Li", "0001", OperandLayout::LoadImmediate),
        entry("Jmp", "100001", OperandLayout::Branch),
        entry("Add", "0100", OperandLayout::RegisterTriple),
        entry("Ret", "100101", OperandLayout::Nullary),
    ])
}

#[test]
fn empty_input_gives_full_zero_image() {
    let assembler = Assembler::new(table());
    let image = assembler.assemble("").expect("empty input should assemble");
    assert_eq!(image.len(), 1024);
    for line in &image {
        assert_eq!(line, "0000_0000_0000_0000");
    }
}

#[test]
fn blank_lines_are_dropped() {
    let assembler = Assembler::new(table());
    let image = assembler.assemble("\n\r\n\nNop\n\n").expect("input should assemble");
    assert_eq!(image.len(), 1024);
    assert_eq!(image[0], "1000_0000_0000_0000");
    assert_eq!(image[1], "0000_0000_0000_0000");
}

#[test]
fn program_image_is_padded_to_fixed_size() {
    let assembler = Assembler::new(table());
    let image = assembler.assemble("Li R3 200\nJmp 5\n").expect("input should assemble");
    assert_eq!(image.len(), 1024);
    assert_eq!(image[0], "0001_1100_1000_0011");
    assert_eq!(image[1], "1000_0100_0000_0101");
    for line in &image[2..] {
        assert_eq!(line, "0000_0000_0000_0000");
    }
}

#[test]
fn exactly_full_program_assembles() {
    let assembler = Assembler::new(table());
    let src = "Nop\n".repeat(1024);
    let image = assembler.assemble(&src).expect("a full program should assemble");
    assert_eq!(image.len(), 1024);
    for line in &image {
        assert_eq!(line, "1000_0000_0000_0000");
    }
}

#[test]
fn overflowing_program_fails() {
    let assembler = Assembler::new(table());
    let src = "Nop\n".repeat(1025);
    assert!(matches!(assembler.assemble(&src), Err(AsmError::Overflow)));
}

#[test]
fn unrecognized_mnemonic_is_dropped_and_compacted() {
    let assembler = Assembler::new(table());
    let lines = vec!["FOO 1 2".to_string(), "Nop".to_string()];
    let words = assembler.process_instructions(&lines).expect("encoding should succeed");
    // The dropped line reserves no slot: Nop lands at address 0.
    assert_eq!(words, vec!["1000000000000000".to_string()]);

    let image = assembler.assemble("FOO 1 2\nNop\n").expect("input should assemble");
    assert_eq!(image[0], "1000_0000_0000_0000");
}

#[test]
fn lowercase_mnemonic_is_capitalized_before_lookup() {
    let assembler = Assembler::new(table());
    let words = assembler
        .process_instructions(&vec!["li R3 200".to_string()])
        .expect("encoding should succeed");
    assert_eq!(words, vec!["0001110010000011".to_string()]);
}

#[test]
fn all_caps_mnemonic_does_not_match() {
    // Capitalization touches only the first character, so "LI" stays
    // "LI" and misses the table's "Li".
    let assembler = Assembler::new(table());
    let words = assembler
        .process_instructions(&vec!["LI R3 200".to_string()])
        .expect("encoding should succeed");
    assert!(words.is_empty());
}

#[test]
fn assembling_twice_is_identical() {
    let assembler = Assembler::new(table());
    let src = "Li R3 200\nAdd R1 R2 R3\nJmp 5\nRet\n";
    let first = assembler.assemble(src).expect("input should assemble");
    let second = assembler.assemble(src).expect("input should assemble");
    assert_eq!(first, second);
}

#[test]
fn lookup_finds_first_match() {
    let t = OpcodeTable::new(vec![
        entry("Nop", "100000", OperandLayout::Nullary),
        entry("Nop", "111111", OperandLayout::Nullary),
    ]);
    let assembler = Assembler::new(t);
    let words = assembler.process_instructions(&vec!["Nop".to_string()]).expect("encoding should succeed");
    assert_eq!(words, vec!["1000000000000000".to_string()]);
}

#[test]
fn errors_identify_the_nonempty_line_index() {
    let assembler = Assembler::new(table());
    // The blank line is dropped before indexing, so the bad line is 1.
    match assembler.assemble("Nop\n\nLi RX 5\n") {
        Err(AsmError::MalformedOperand { line, token }) => {
            assert_eq!(line, 1);
            assert_eq!(token, "RX");
        },
        other => panic!("expected a malformed-operand error, got {:?}", other),
    }
}

#[test]
fn strict_mode_rejects_unrecognized_mnemonics() {
    let assembler = Assembler::new_strict(table());
    match assembler.assemble("Nop\nFOO 1 2\n") {
        Err(AsmError::UnrecognizedMnemonic { line, mnemonic }) => {
            assert_eq!(line, 1);
            assert_eq!(mnemonic, "FOO");
        },
        other => panic!("expected an unrecognized-mnemonic error, got {:?}", other),
    }
}

#[test]
fn strict_mode_rejects_out_of_range_li_register() {
    let assembler = Assembler::new_strict(table());
    match assembler.assemble("Li R20 5\n") {
        Err(AsmError::OperandOutOfRange { line, value, limit }) => {
            assert_eq!((line, value, limit), (0, 20, 15));
        },
        other => panic!("expected an out-of-range error, got {:?}", other),
    }
}

#[test]
fn strict_mode_rejects_out_of_range_branch_target() {
    let assembler = Assembler::new_strict(table());
    match assembler.assemble("Jmp 2000\n") {
        Err(AsmError::OperandOutOfRange { line, value, limit }) => {
            assert_eq!((line, value, limit), (0, 2000, 1023));
        },
        other => panic!("expected an out-of-range error, got {:?}", other),
    }
}

#[test]
fn strict_mode_rejects_truncated_register_ids() {
    let assembler = Assembler::new_strict(table());
    match assembler.assemble("Add R18 R2 R3\n") {
        Err(AsmError::OperandOutOfRange { line, value, limit }) => {
            assert_eq!((line, value, limit), (0, 18, 15));
        },
        other => panic!("expected an out-of-range error, got {:?}", other),
    }
}

#[test]
fn strict_mode_rejects_wide_immediates() {
    let assembler = Assembler::new_strict(table());
    match assembler.assemble("Li R3 300\n") {
        Err(AsmError::OperandOutOfRange { line, value, limit }) => {
            assert_eq!((line, value, limit), (0, 300, 255));
        },
        other => panic!("expected an out-of-range error, got {:?}", other),
    }
}

#[test]
fn strict_mode_matches_lenient_output_on_valid_input() {
    let src = "Li R3 200\nAdd R1 R2 R3\nJmp 5\nRet\n";
    let lenient = Assembler::new(table()).assemble(src).expect("valid input assembles");
    let strict = Assembler::new_strict(table()).assemble(src).expect("valid input assembles");
    assert_eq!(lenient, strict);
}
