use bfasm::{ParseError, TAPE_SIZE, asm_path, compile, generate, parse};

const PREAMBLE: &str = "bits 64\ndefault rel\n\nsegment .data\n\tdp dd 0\n\nsegment .bss\n\ttape resd 256\n\nsegment .text\nglobal main\n\nextern _getch\nextern putchar\n\nmain:\n\tpush rbp\n\tmov rbp, rsp\n\tsub rsp, 32\n\n";

const EPILOGUE: &str = "\n\tmov rsp, rbp\n\tpop rbp\n\n\txor rax, rax\n\tret\n";

fn assembly(source: &str) -> String {
    generate(&parse(source).unwrap())
}

fn body(text: &str) -> &str {
    assert!(text.starts_with(PREAMBLE));
    assert!(text.ends_with(EPILOGUE));
    &text[PREAMBLE.len()..text.len() - EPILOGUE.len()]
}

#[test]
fn tape_size_is_256() {
    assert_eq!(TAPE_SIZE, 256);
}

#[test]
fn empty_program_is_preamble_and_epilogue() {
    let text = assembly("");
    assert_eq!(text, format!("{}{}", PREAMBLE, EPILOGUE));
    assert!(!text.contains("JUMP_"));
    assert!(!text.contains("RETURN_"));
}

#[test]
fn read_then_write() {
    let text = assembly(",.");
    assert_eq!(
        body(&text),
        "\tcall _getch\n\tmov ebx, [dp]\n\tmov [tape + 4 * ebx], eax\n\tmov ebx, [dp]\n\tmov ecx, [tape + 4 * ebx]\n\tcall putchar\n"
    );
}

#[test]
fn pointer_and_cell_blocks() {
    assert_eq!(body(&assembly(">")), "\tinc dword [dp]\n");
    assert_eq!(body(&assembly("<")), "\tdec dword [dp]\n");
    assert_eq!(body(&assembly("+")), "\tmov ebx, [dp]\n\tinc dword [tape + 4 * ebx]\n");
    assert_eq!(body(&assembly("-")), "\tmov ebx, [dp]\n\tdec dword [tape + 4 * ebx]\n");
}

#[test]
fn loop_blocks_carry_labels() {
    assert_eq!(
        body(&assembly("[]")),
        "JUMP_0:\n\tmov ebx, [dp]\n\tcmp dword [tape + 4 * ebx], 0\n\tje RETURN_1\nRETURN_1:\n\tmov ebx, [dp]\n\tcmp dword [tape + 4 * ebx], 0\n\tjne JUMP_0\n"
    );
}

#[test]
fn labels_past_nine_use_all_digits() {
    let text = assembly("++++++++++[-]");
    let b = body(&text);
    assert!(b.contains("JUMP_10:\n"));
    assert!(b.contains("\tje RETURN_12\n"));
    assert!(b.contains("RETURN_12:\n"));
    assert!(b.contains("\tjne JUMP_10\n"));
}

#[test]
fn bracket_free_program_has_no_label() {
    let text = assembly("+-<>.,+ comment");
    assert!(!body(&text).contains(':'));
    assert!(!text.contains("JUMP_"));
    assert!(!text.contains("RETURN_"));
}

#[test]
fn generation_twice_is_identical() {
    let p = parse("++[>+<-]>.,").unwrap();
    assert_eq!(generate(&p), generate(&p));
}

#[test]
fn compile_hands_back_parse_errors() {
    assert_eq!(compile("]").unwrap_err(), ParseError::UnmatchedCloseBracket);
    assert_eq!(compile("[").unwrap_err(), ParseError::UnmatchedOpenBracket);
    assert_eq!(compile("+.").unwrap(), assembly("+."));
}

#[test]
fn output_path_replaces_suffix() {
    assert_eq!(asm_path("hello.bf"), "hello.asm");
    assert_eq!(asm_path("dir/a.bf.bf"), "dir/a.bf.asm");
    assert_eq!(asm_path("plain"), "plain.asm");
    assert_eq!(asm_path("bf"), "bf.asm");
    assert_eq!(asm_path(".bf"), ".asm");
}
