use rusty_jello::assembler::{AssembleError, Assembler};

fn assemble(src: &str) -> Result<Vec<u8>, AssembleError> {
    let mut a = Assembler::new();
    a.add_string(src);
    a.assemble()
}

#[test]
fn pushi_and_halt_encode() {
    assert_eq!(assemble("PUSHI 0x1234\nHALT"), Ok(vec![0x3a, 0x34, 0x12, 0x08]));
}

#[test]
fn instruction_sizes_follow_catalog() {
    assert_eq!(assemble("NOOP").unwrap().len(), 1);
    assert_eq!(assemble("LRS 0x41").unwrap(), vec![0x1a, 0x41]);
    assert_eq!(assemble("PRN2I 0x4142").unwrap(), vec![0xf3, 0x42, 0x41]);
    assert_eq!(assemble("JMPI 0x0000").unwrap().len(), 3);
}

#[test]
fn label_resolves_to_halt_offset() {
    assert_eq!(
        assemble("LRI :end\nNOOP\n:end\nHALT"),
        Ok(vec![0x10, 0x04, 0x00, 0x00, 0x08])
    );
}

#[test]
fn backward_label_reference() {
    assert_eq!(
        assemble(":top\nNOOP\nJMPI :top"),
        Ok(vec![0x00, 0x40, 0x00, 0x00])
    );
}

#[test]
fn two_labels_on_one_instruction() {
    assert_eq!(
        assemble("NOOP\n:a\n:b\nHALT\nJMPI :a\nJMPI :b"),
        Ok(vec![0x00, 0x08, 0x40, 0x01, 0x00, 0x40, 0x01, 0x00])
    );
}

#[test]
fn data_directive_zero_fills() {
    let out = assemble("PUSHI 0x0001\nHALT\n.DATA 0x0010 \"AB\"").unwrap();
    assert_eq!(out.len(), 18);
    assert_eq!(&out[0..4], &[0x3a, 0x01, 0x00, 0x08]);
    for b in &out[4..16] {
        assert_eq!(*b, 0);
    }
    assert_eq!(&out[16..18], &[0x41, 0x42]);
}

#[test]
fn data_directive_at_end_of_code() {
    assert_eq!(assemble("HALT\n.DATA 0x0001 0x07"), Ok(vec![0x08, 0x07]));
}

#[test]
fn data_overlap_is_rejected() {
    assert_eq!(
        assemble("PUSHI 0x0001\nHALT\n.DATA 0x0002 0x01"),
        Err(AssembleError::DataOverlapError { address: 2, line: 3 })
    );
}

#[test]
fn assembling_twice_is_identical() {
    let src = "LRI :end\nNOOP\n:end\nHALT\n.DATA 0x0020 \"hi\\n\"";
    let mut a = Assembler::new();
    a.add_string(src);
    let first = a.assemble();
    let second = a.assemble();
    assert!(first.is_ok());
    assert_eq!(first, second);
}

#[test]
fn mnemonics_are_case_insensitive() {
    assert_eq!(assemble("halt"), Ok(vec![0x08]));
    assert_eq!(assemble("PuShI 0x0102"), Ok(vec![0x3a, 0x02, 0x01]));
}

#[test]
fn blank_lines_and_comments_are_skipped() {
    assert_eq!(assemble("# a comment\n\n   NOOP   \n\t# more\nHALT\n"), Ok(vec![0x00, 0x08]));
}

#[test]
fn operand_forms() {
    assert_eq!(assemble("LRS 0b101"), Ok(vec![0x1a, 0x05]));
    assert_eq!(assemble("LRS 0b11111111"), Ok(vec![0x1a, 0xff]));
    assert_eq!(assemble("LRS 'A'"), Ok(vec![0x1a, 0x41]));
    assert_eq!(assemble("PRN2I \"hi\""), Ok(vec![0xf3, 0x68, 0x69]));
    assert_eq!(assemble("PRN2I \"a b\""), Err(AssembleError::OperandTooWide { line: 1, expected: 2, found: 3 }));
    assert_eq!(assemble("LRI 0xbeef"), Ok(vec![0x10, 0xef, 0xbe]));
}

#[test]
fn string_escapes() {
    assert_eq!(
        assemble(".DATA 0x0000 \"a\\n\\t\\r\\0\\\\\""),
        Ok(vec![0x61, 0x0a, 0x09, 0x0d, 0x00, 0x5c])
    );
    assert_eq!(assemble(".DATA 0x0000 \"q\\\"x\""), Ok(vec![0x71, 0x22, 0x78]));
}

#[test]
fn unknown_instruction() {
    assert_eq!(assemble("NOOP\n\nFOO"), Err(AssembleError::UnknownInstruction { line: 3 }));
}

#[test]
fn argument_count_mismatch() {
    assert_eq!(
        assemble("HALT 0x01"),
        Err(AssembleError::ArgumentCountMismatch { line: 1, expected: 0, found: 1 })
    );
}

#[test]
fn operand_too_wide() {
    assert_eq!(
        assemble("LRS 0x1234"),
        Err(AssembleError::OperandTooWide { line: 1, expected: 1, found: 2 })
    );
}

#[test]
fn operand_too_narrow() {
    assert_eq!(
        assemble("PUSHI 0x12"),
        Err(AssembleError::OperandTooNarrow { line: 1, expected: 2, found: 1 })
    );
}

#[test]
fn unparsable_operand() {
    assert_eq!(assemble("PUSHI 0xZZZZ"), Err(AssembleError::UnparsableOperand { line: 1 }));
    assert_eq!(assemble("PUSHI 0x123"), Err(AssembleError::UnparsableOperand { line: 1 }));
    assert_eq!(assemble("LRS 0b"), Err(AssembleError::UnparsableOperand { line: 1 }));
    assert_eq!(assemble("LRS 0b2"), Err(AssembleError::UnparsableOperand { line: 1 }));
    assert_eq!(assemble("LRS \"\""), Err(AssembleError::UnparsableOperand { line: 1 }));
    assert_eq!(assemble("LRS \"ab"), Err(AssembleError::UnparsableOperand { line: 1 }));
    assert_eq!(assemble("LRS 12"), Err(AssembleError::UnparsableOperand { line: 1 }));
}

#[test]
fn duplicate_label() {
    assert_eq!(
        assemble("FOO\n:a\nNOOP\n:a\nHALT"),
        Err(AssembleError::DuplicateLabel { name: vec!['a'], line: 4 })
    );
}

#[test]
fn undefined_label() {
    assert_eq!(
        assemble("NOOP\nJMPI :nowhere"),
        Err(AssembleError::UndefinedLabel { name: "nowhere".chars().collect(), line: 2 })
    );
}

#[test]
fn data_directive_errors() {
    assert_eq!(assemble(".DATA 0x0010"), Err(AssembleError::DataLengthError { line: 1 }));
    assert_eq!(assemble(".DATA zz 0x01"), Err(AssembleError::DataAddressError { line: 1 }));
    assert_eq!(assemble(".DATA :x 0x01"), Err(AssembleError::DataAddressError { line: 1 }));
    assert_eq!(assemble(".DATA 0x01 0x01"), Err(AssembleError::DataAddressLengthError { line: 1 }));
    assert_eq!(assemble(".DATA 0x0010 zz"), Err(AssembleError::DataValueError { line: 1 }));
}

#[test]
fn check_labels_reports_redefinition() {
    let mut a = Assembler::new();
    a.add_string(":x\nNOOP\n");
    assert_eq!(a.check_labels(), Ok(()));
    a.add_string(":x\nHALT");
    assert_eq!(
        a.check_labels(),
        Err(AssembleError::DuplicateLabel { name: vec!['x'], line: 3 })
    );
}

#[test]
fn mnemonics_fold_unicode_case() {
    assert_eq!(assemble("pu\u{17f}hi 0x0001\nhalt"), Ok(vec![0x3a, 0x01, 0x00, 0x08]));
}
