use hack_assembler::code::Code;
use hack_assembler::error::AsmError;

#[test]
fn test_dest() {
    assert_eq!(Code::dest("null"), "000");
    assert_eq!(Code::dest("M"), "001");
    assert_eq!(Code::dest("D"), "010");
    assert_eq!(Code::dest("DM"), "011");
    assert_eq!(Code::dest("A"), "100");
    assert_eq!(Code::dest("AM"), "101");
    assert_eq!(Code::dest("AD"), "110");
    assert_eq!(Code::dest("ADM"), "111");
}

#[test]
fn test_comp() {
    assert_eq!(Code::comp("A+1").unwrap(), "0110111");
}

#[test]
fn test_jump() {
    assert_eq!(Code::jump("JNE").unwrap(), "101");
}

#[test]
fn dest_empty_is_zero() {
    assert_eq!(Code::dest(""), "000");
}

#[test]
fn dest_ignores_letter_order() {
    assert_eq!(Code::dest("MD"), Code::dest("DM"));
    assert_eq!(Code::dest("MDA"), Code::dest("ADM"));
    assert_eq!(Code::dest("MA"), "101");
}

#[test]
fn comp_full_table() {
    let table = [
        ("0", "0101010"),
        ("1", "0111111"),
        ("-1", "0111010"),
        ("D", "0001100"),
        ("A", "0110000"),
        ("M", "1110000"),
        ("!D", "0001101"),
        ("!A", "0110001"),
        ("!M", "1110001"),
        ("-D", "0001111"),
        ("-A", "0110011"),
        ("-M", "1110011"),
        ("D+1", "0011111"),
        ("A+1", "0110111"),
        ("M+1", "1110111"),
        ("D-1", "0001110"),
        ("A-1", "0110010"),
        ("M-1", "1110010"),
        ("D+A", "0000010"),
        ("D+M", "1000010"),
        ("D-A", "0010011"),
        ("D-M", "1010011"),
        ("A-D", "0000111"),
        ("M-D", "1000111"),
        ("D&A", "0000000"),
        ("D&M", "1000000"),
        ("D|A", "0010101"),
        ("D|M", "1010101"),
    ];
    for (m, code) in table.iter() {
        assert_eq!(Code::comp(m).unwrap(), *code, "mnemonic {}", m);
    }
}

#[test]
fn comp_alternate_operand_sets_high_bit() {
    let pairs = [("A", "M"), ("!A", "!M"), ("-A", "-M"), ("A+1", "M+1"), ("A-1", "M-1"),
        ("D+A", "D+M"), ("D-A", "D-M"), ("A-D", "M-D"), ("D&A", "D&M"), ("D|A", "D|M")];
    for (a, m) in pairs.iter() {
        let ca = Code::comp(a).unwrap();
        let cm = Code::comp(m).unwrap();
        assert!(ca.starts_with('0'));
        assert!(cm.starts_with('1'));
        assert_eq!(&ca[1..], &cm[1..]);
    }
}

#[test]
fn comp_rejects_unknown() {
    assert_eq!(Code::comp(""), Err(AsmError::UnknownComp));
    assert_eq!(Code::comp("A+D"), Err(AsmError::UnknownComp));
    assert_eq!(Code::comp("D+1 "), Err(AsmError::UnknownComp));
    assert_eq!(Code::comp("1+D"), Err(AsmError::UnknownComp));
}

#[test]
fn jump_full_table() {
    let table = [
        ("", "000"),
        ("JGT", "001"),
        ("JEQ", "010"),
        ("JGE", "011"),
        ("JLT", "100"),
        ("JNE", "101"),
        ("JLE", "110"),
        ("JMP", "111"),
    ];
    for (m, code) in table.iter() {
        assert_eq!(Code::jump(m).unwrap(), *code, "mnemonic {}", m);
    }
}

#[test]
fn jump_rejects_unknown() {
    assert_eq!(Code::jump("null"), Err(AsmError::UnknownJump));
    assert_eq!(Code::jump("jmp"), Err(AsmError::UnknownJump));
    assert_eq!(Code::jump("JMPX"), Err(AsmError::UnknownJump));
}
