use rusty_jello::instructions::{find_inst_by_name, find_inst_by_opcode, find_inst_by_upper};

#[test]
fn lookup_by_name_upper_cases_first() {
    assert_eq!(find_inst_by_name("pushi").unwrap().op_code, 0x3a);
    assert_eq!(find_inst_by_name("PuSh").unwrap().op_code, 0x30);
    // long s and dotless i upper-case to S and I
    assert_eq!(find_inst_by_name("pu\u{17f}h").unwrap().op_code, 0x30);
    assert_eq!(find_inst_by_name("push\u{131}").unwrap().op_code, 0x3a);
    // the ligature st upper-cases to two letters
    assert_eq!(find_inst_by_name("\u{fb06}ore").unwrap().op_code, 0x51);
    assert!(find_inst_by_name("PUSH I").is_none());
    assert!(find_inst_by_name("").is_none());
}

#[test]
fn lookup_of_upper_case_text_is_exact() {
    assert_eq!(find_inst_by_upper(&"HALT".chars().collect()).unwrap().op_code, 0x08);
    assert!(find_inst_by_upper(&"halt".chars().collect()).is_none());
}

#[test]
fn lookup_by_opcode() {
    let add = find_inst_by_opcode(&0x20).unwrap();
    assert_eq!(add.inst, "ADD");
    assert_eq!(add.clock_cycles, 1);
    assert!(find_inst_by_opcode(&0x01).is_none());
}
