use hack_assembler::assembler::{
    assemble, first_pass, format_16bit_binary_string, parse_literal, second_pass,
};
use hack_assembler::error::AsmError;
use hack_assembler::symbol_table::SymbolTable;

fn source_lines(text: &str) -> Vec<String> {
    text.lines().map(String::from).collect()
}

#[test]
fn playground() {
    let path = std::path::Path::new("/a/b/c.txt");
    assert_eq!(path.parent(), Some(std::path::Path::new("/a/b/")));
}

#[test]
fn test_hack_assemble() {
    let out = assemble(&source_lines("@40\nDM=A+1;JNE")).unwrap();
    assert_eq!(out, "0000000000101000\n1110110111011101\n");
}

#[test]
fn test_first_pass() {
    let lines = source_lines("(START)\n@40\n(LOOP)\nDM=A+1;JNE\n(STOP)\n(END)\n");
    let mut symbol_table = SymbolTable::new();
    first_pass(&lines, &mut symbol_table).unwrap();
    assert_eq!(symbol_table.get_address("START"), 0);
    assert_eq!(symbol_table.get_address("LOOP"), 1);
    assert_eq!(symbol_table.get_address("STOP"), 2);
    assert_eq!(symbol_table.get_address("END"), 2);
}

#[test]
fn test_second_pass() {
    let lines = source_lines("(START)\n@40\n(LOOP)\nDM=A+1;JNE\n(STOP)\nD=A\n(END)\n");
    let mut symbol_table = SymbolTable::new();
    first_pass(&lines, &mut symbol_table).unwrap();
    second_pass(&lines, &mut symbol_table).unwrap();
    assert_eq!(symbol_table.get_address("START"), 0);
    assert_eq!(symbol_table.get_address("LOOP"), 1);
    assert_eq!(symbol_table.get_address("STOP"), 2);
    assert_eq!(symbol_table.get_address("END"), 3);
}

#[test]
fn binary_words() {
    assert_eq!(format_16bit_binary_string(0), "0000000000000000\n");
    assert_eq!(format_16bit_binary_string(40), "0000000000101000\n");
    assert_eq!(format_16bit_binary_string(16384), "0100000000000000\n");
    assert_eq!(format_16bit_binary_string(65535), "1111111111111111\n");
}

#[test]
fn literals() {
    assert_eq!(parse_literal("0"), Some(0));
    assert_eq!(parse_literal("0040"), Some(40));
    assert_eq!(parse_literal("65535"), Some(65535));
    assert_eq!(parse_literal("65536"), None);
    assert_eq!(parse_literal("999999999999999999999"), None);
    assert_eq!(parse_literal(""), None);
    assert_eq!(parse_literal("12a"), None);
    assert_eq!(parse_literal("-1"), None);
}

#[test]
fn label_used_before_and_after_definition() {
    let out = assemble(&source_lines("@END\n0;JMP\n(END)\n@END\n0;JMP")).unwrap();
    assert_eq!(
        out,
        "0000000000000010\n1110101010000111\n0000000000000010\n1110101010000111\n"
    );
}

#[test]
fn variables_in_first_use_order() {
    let lines = source_lines("@i\n@sum\n@i\nM=0\n@sum\n@j\n@R2\n@SCREEN");
    let mut table = SymbolTable::new();
    first_pass(&lines, &mut table).unwrap();
    let out = second_pass(&lines, &mut table).unwrap();
    assert_eq!(table.get_address("i"), 16);
    assert_eq!(table.get_address("sum"), 17);
    assert_eq!(table.get_address("j"), 18);
    assert_eq!(
        out,
        "0000000000010000\n0000000000010001\n0000000000010000\n1110101010001000\n\
         0000000000010001\n0000000000010010\n0000000000000010\n0100000000000000\n"
    );
}

#[test]
fn oversized_number_is_a_variable() {
    let out = assemble(&source_lines("@65536\n@65535")).unwrap();
    assert_eq!(out, "0000000000010000\n1111111111111111\n");
}

#[test]
fn rerun_gives_identical_output() {
    let lines = source_lines("(LOOP)\n@x\nM=M+1\n@LOOP\n0;JMP\n@y");
    let first = assemble(&lines).unwrap();
    let second = assemble(&lines).unwrap();
    assert_eq!(first, second);
    let mut table = SymbolTable::new();
    first_pass(&lines, &mut table).unwrap();
    assert_eq!(second_pass(&lines, &mut table).unwrap(), first);
}

#[test]
fn comments_and_blanks_emit_nothing() {
    assert_eq!(assemble(&source_lines("// only a comment\n\n   \n")).unwrap(), "");
    assert_eq!(assemble(&Vec::new()).unwrap(), "");
}

#[test]
fn malformed_line_aborts() {
    assert_eq!(assemble(&source_lines("@1\nnonsense\n@2")), Err(AsmError::MalformedLine));
}

#[test]
fn unknown_comp_aborts() {
    assert_eq!(assemble(&source_lines("@1\nD=A+D")), Err(AsmError::UnknownComp));
}

#[test]
fn unknown_jump_aborts() {
    assert_eq!(assemble(&source_lines("D;JUMP")), Err(AsmError::UnknownJump));
}

#[test]
fn label_past_last_address_overflows() {
    let mut lines: Vec<String> = Vec::new();
    for _ in 0..65536 {
        lines.push("D=A".to_string());
    }
    lines.push("(FAR)".to_string());
    assert_eq!(assemble(&lines), Err(AsmError::AddressOverflow));
}
