use bfasm::{Instruction, ParseError, parse};
use bfasm::Instruction::{
    Decrement, Increment, Input, LoopEnd, LoopStart, MoveLeft, MoveRight, Output,
};

fn parsed(source: &str) -> Vec<Instruction> {
    parse(source).unwrap().instructions().clone()
}

#[test]
fn scenario_loop_program() {
    let p = parsed("++>+[-<+>]");
    assert_eq!(
        p,
        vec![
            Increment,
            Increment,
            MoveRight,
            Increment,
            LoopStart(9),
            Decrement,
            MoveLeft,
            Increment,
            MoveRight,
            LoopEnd(4),
        ]
    );
}

#[test]
fn empty_source_gives_empty_program() {
    let p = parse("").unwrap();
    assert_eq!(p.len(), 0);
    assert!(p.is_empty());
}

#[test]
fn input_then_output() {
    assert_eq!(parsed(",."), vec![Instruction::Input, Instruction::Output]);
}

#[test]
fn every_command_maps_to_its_instruction() {
    assert_eq!(
        parsed("><+-.,"),
        vec![MoveRight, MoveLeft, Increment, Decrement, Output, Input]
    );
}

#[test]
fn bracket_free_length_counts_commands() {
    let p = parse("+ -\n< >. ,hello 123").unwrap();
    assert_eq!(p.len(), 6);
    for i in 0..p.len() {
        assert!(!matches!(p.get(i), Instruction::LoopStart(_) | Instruction::LoopEnd(_)));
    }
}

#[test]
fn nested_loops_point_at_each_other() {
    let p = parsed("+[[-]>[+]]<[]");
    let mut loops = 0;
    for (i, ins) in p.iter().enumerate() {
        match *ins {
            Instruction::LoopStart(t) => {
                loops += 1;
                assert!(t > i);
                assert_eq!(p[t], Instruction::LoopEnd(i));
            }
            Instruction::LoopEnd(t) => {
                assert!(t < i);
                assert_eq!(p[t], Instruction::LoopStart(i));
            }
            _ => {}
        }
    }
    assert_eq!(loops, 4);
    assert_eq!(p[1], Instruction::LoopStart(9));
    assert_eq!(p[2], Instruction::LoopStart(4));
    assert_eq!(p[6], Instruction::LoopStart(8));
    assert_eq!(p[11], Instruction::LoopStart(12));
}

#[test]
fn close_without_open_fails() {
    assert_eq!(parse("]").unwrap_err(), ParseError::UnmatchedCloseBracket);
    assert_eq!(parse("+-abc]").unwrap_err(), ParseError::UnmatchedCloseBracket);
    assert_eq!(parse("[+]]").unwrap_err(), ParseError::UnmatchedCloseBracket);
    assert_eq!(parse("[]][").unwrap_err(), ParseError::UnmatchedCloseBracket);
    assert_eq!(parse("][").unwrap_err(), ParseError::UnmatchedCloseBracket);
}

#[test]
fn open_without_close_fails() {
    assert_eq!(parse("[").unwrap_err(), ParseError::UnmatchedOpenBracket);
    assert_eq!(parse("+[+").unwrap_err(), ParseError::UnmatchedOpenBracket);
    assert_eq!(parse("[[]").unwrap_err(), ParseError::UnmatchedOpenBracket);
    assert_eq!(parse("[]>[<[-]").unwrap_err(), ParseError::UnmatchedOpenBracket);
}

#[test]
fn comments_do_not_change_program() {
    let with = parsed("a+ 1[b-\n c<x]d9 .\t");
    let without = parsed("+[-<].");
    assert_eq!(with, without);
}

#[test]
fn only_comments_give_empty_program() {
    assert!(parse("hello world\n0123456789").unwrap().is_empty());
}
