use hack_assembler::error::AsmError;
use hack_assembler::parser::{InstructionType, Parser};

fn source_lines(text: &str) -> Vec<String> {
    text.lines().map(String::from).collect()
}

#[test]
fn test_constructor() {
    let parser = Parser::new(source_lines(""));
    parser.lines.iter().for_each(|line| println!("{}", line));
    assert_eq!(parser.has_more_lines(), false);
    assert_eq!(parser.current_instruction, None);
}

#[test]
fn test_has_more_lines() {
    let mut parser = Parser::new(source_lines("@123\n//this comment\n \n(START)\nD;JGT"));
    parser.advance();
    assert_eq!(parser.has_more_lines(), true);
    parser.advance();
    assert_eq!(parser.has_more_lines(), true);
    parser.advance();
    assert_eq!(parser.has_more_lines(), false);
}

#[test]
fn test_advance() {
    let mut parser = Parser::new(source_lines("@123\n//this comment\n \n(START)\nD;JGT"));
    parser.advance();
    assert_eq!(parser.current_instruction.clone().unwrap(), "@123");
    parser.advance();
    assert_eq!(parser.current_instruction.clone().unwrap(), "(START)");
    parser.advance();
    assert_eq!(parser.current_instruction.clone().unwrap(), "D;JGT");
    assert_eq!(parser.has_more_lines(), false);
}

#[test]
fn test_instruction() {
    let mut parser = Parser::new(source_lines("@123\n//this comment\n \n(START)\nD;JGT"));
    parser.advance();
    assert_eq!(parser.instruction_type().unwrap().unwrap(), InstructionType::A);
    parser.advance();
    assert_eq!(parser.instruction_type().unwrap().unwrap(), InstructionType::L);
    parser.advance();
    assert_eq!(parser.instruction_type().unwrap().unwrap(), InstructionType::C);
    parser.advance();
    assert_eq!(parser.instruction_type().unwrap().unwrap(), InstructionType::C);
}

#[test]
fn test_symbol() {
    let mut parser = Parser::new(source_lines("@123\n//this comment\n \n(START)\n@sum\nD;JGT"));
    parser.advance();
    assert_eq!(parser.symbol().unwrap().unwrap(), "123");
    parser.advance();
    assert_eq!(parser.symbol().unwrap().unwrap(), "START");
    parser.advance();
    assert_eq!(parser.symbol().unwrap().unwrap(), "sum");
    parser.advance();
    assert_eq!(parser.symbol().unwrap(), None);
}

#[test]
fn test_dest_comp_jump() {
    let mut parser = Parser::new(source_lines("D=D+1;JLE\nDM=D|A;JLT\nD&A;JMP\nD=A"));
    parser.advance();
    assert_eq!(parser.dest().unwrap(), "D");
    assert_eq!(parser.comp().unwrap(), "D+1");
    assert_eq!(parser.jump().unwrap(), "JLE");

    parser.advance();
    assert_eq!(parser.dest().unwrap(), "DM");
    assert_eq!(parser.comp().unwrap(), "D|A");
    assert_eq!(parser.jump().unwrap(), "JLT");

    parser.advance();
    assert_eq!(parser.dest().unwrap(), "");
    assert_eq!(parser.comp().unwrap(), "D&A");
    assert_eq!(parser.jump().unwrap(), "JMP");

    parser.advance();
    assert_eq!(parser.dest().unwrap(), "D");
    assert_eq!(parser.comp().unwrap(), "A");
    assert_eq!(parser.jump().unwrap(), "");
}

#[test]
fn trailing_comments_clear_the_current_line() {
    let mut parser = Parser::new(source_lines("@1\n// end\n\t\n"));
    parser.advance();
    assert_eq!(parser.current_instruction.clone().unwrap(), "@1");
    parser.advance();
    assert_eq!(parser.current_instruction, None);
    assert_eq!(parser.has_more_lines(), false);
    assert_eq!(parser.instruction_type().unwrap(), None);
}

#[test]
fn malformed_line_is_an_error() {
    let mut parser = Parser::new(source_lines("garbage"));
    parser.advance();
    assert_eq!(parser.instruction_type(), Err(AsmError::MalformedLine));
    assert_eq!(parser.symbol(), Err(AsmError::MalformedLine));
    assert_eq!(parser.dest(), Err(AsmError::MalformedLine));
}

#[test]
fn fields_are_empty_off_computation_lines() {
    let mut parser = Parser::new(source_lines("@x"));
    assert_eq!(parser.instruction_type().unwrap(), None);
    parser.advance();
    assert_eq!(parser.dest().unwrap(), "");
    assert_eq!(parser.comp().unwrap(), "");
    assert_eq!(parser.jump().unwrap(), "");
}
