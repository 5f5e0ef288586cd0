use vstd::prelude::*;
use crate::instruction::{Instruction, Program};

verus! {

/// The number of 32-bit cells reserved for the tape.
pub const TAPE_SIZE: usize = 256;

/// The character of a decimal digit.
pub open spec fn digit_char(d: nat) -> char {
    if d == 0 {
        '0'
    } else if d == 1 {
        '1'
    } else if d == 2 {
        '2'
    } else if d == 3 {
        '3'
    } else if d == 4 {
        '4'
    } else if d == 5 {
        '5'
    } else if d == 6 {
        '6'
    } else if d == 7 {
        '7'
    } else if d == 8 {
        '8'
    } else {
        '9'
    }
}

/// `n` written in decimal, without leading zeros.
pub open spec fn decimal(n: nat) -> Seq<char>
    decreases n,
{
    if n < 10 {
        seq![digit_char(n)]
    } else {
        decimal(n / 10).push(digit_char(n % 10))
    }
}

/// The text before the tape size in the preamble.
pub open spec fn preamble_head() -> Seq<char> {
    "bits 64\ndefault rel\n\nsegment .data\n\tdp dd 0\n\nsegment .bss\n\ttape resd "@
}

/// The text after the tape size in the preamble.
pub open spec fn preamble_tail() -> Seq<char> {
    "\n\nsegment .text\nglobal main\n\nextern _getch\nextern putchar\n\nmain:\n\tpush rbp\n\tmov rbp, rsp\n\tsub rsp, 32\n\n"@
}

/// The fixed text that opens every output: the data pointer, the tape, the
/// entry point, the two character primitives and the stack frame.
pub open spec fn preamble() -> Seq<char> {
    preamble_head() + decimal(TAPE_SIZE as nat) + preamble_tail()
}

/// The fixed text that closes every output: leave the frame, return zero.
pub open spec fn epilogue() -> Seq<char> {
    "\n\tmov rsp, rbp\n\tpop rbp\n\n\txor rax, rax\n\tret\n"@
}

/// The test of the addressed cell that both loop instructions make.
pub open spec fn cell_test() -> Seq<char> {
    ":\n\tmov ebx, [dp]\n\tcmp dword [tape + 4 * ebx], 0\n"@
}

/// The text emitted for the instruction at position `pos`.
pub open spec fn block(pos: nat, ins: Instruction) -> Seq<char> {
    match ins {
        Instruction::MoveRight => "\tinc dword [dp]\n"@,
        Instruction::MoveLeft => "\tdec dword [dp]\n"@,
        Instruction::Increment => "\tmov ebx, [dp]\n\tinc dword [tape + 4 * ebx]\n"@,
        Instruction::Decrement => "\tmov ebx, [dp]\n\tdec dword [tape + 4 * ebx]\n"@,
        Instruction::Output => "\tmov ebx, [dp]\n\tmov ecx, [tape + 4 * ebx]\n\tcall putchar\n"@,
        Instruction::Input => "\tcall _getch\n\tmov ebx, [dp]\n\tmov [tape + 4 * ebx], eax\n"@,
        Instruction::LoopStart(t) => "JUMP_"@ + decimal(pos) + cell_test() + "\tje RETURN_"@
            + decimal(t as nat) + "\n"@,
        Instruction::LoopEnd(t) => "RETURN_"@ + decimal(pos) + cell_test() + "\tjne JUMP_"@
            + decimal(t as nat) + "\n"@,
    }
}

/// The blocks of all instructions of `p`, in order.
pub open spec fn body(p: Seq<Instruction>) -> Seq<char>
    decreases p.len(),
{
    if p.len() == 0 {
        Seq::empty()
    } else {
        body(p.drop_last()) + block((p.len() - 1) as nat, p.last())
    }
}

/// The whole assembly text for `p`.
pub open spec fn asm_text(p: Seq<Instruction>) -> Seq<char> {
    preamble() + body(p) + epilogue()
}

fn digit_str(d: usize) -> (r: &'static str)
    requires
        d < 10,
    ensures
        r@ == seq![digit_char(d as nat)],
{
    proof {
        reveal_strlit("0");
        reveal_strlit("1");
        reveal_strlit("2");
        reveal_strlit("3");
        reveal_strlit("4");
        reveal_strlit("5");
        reveal_strlit("6");
        reveal_strlit("7");
        reveal_strlit("8");
        reveal_strlit("9");
    }
    if d == 0 {
        "0"
    } else if d == 1 {
        "1"
    } else if d == 2 {
        "2"
    } else if d == 3 {
        "3"
    } else if d == 4 {
        "4"
    } else if d == 5 {
        "5"
    } else if d == 6 {
        "6"
    } else if d == 7 {
        "7"
    } else if d == 8 {
        "8"
    } else {
        "9"
    }
}

/// Appends `n` in decimal to `out`.
pub fn push_decimal(out: &mut String, n: usize)
    ensures
        final(out)@ == old(out)@ + decimal(n as nat),
    decreases n,
{
    if n >= 10 {
        push_decimal(out, n / 10);
    }
    out.append(digit_str(n % 10));
    proof {
        if n >= 10 {
            assert(old(out)@ + decimal((n / 10) as nat) + seq![digit_char((n % 10) as nat)]
                =~= old(out)@ + decimal(n as nat));
        } else {
            assert(decimal(n as nat) == seq![digit_char(n as nat)]);
        }
    }
}

/// Appends the block of the instruction at position `pos` to `out`.
fn push_block(out: &mut String, pos: usize, ins: Instruction)
    ensures
        final(out)@ == old(out)@ + block(pos as nat, ins),
{
    match ins {
        Instruction::MoveRight => out.append("\tinc dword [dp]\n"),
        Instruction::MoveLeft => out.append("\tdec dword [dp]\n"),
        Instruction::Increment => out.append("\tmov ebx, [dp]\n\tinc dword [tape + 4 * ebx]\n"),
        Instruction::Decrement => out.append("\tmov ebx, [dp]\n\tdec dword [tape + 4 * ebx]\n"),
        Instruction::Output => out.append(
            "\tmov ebx, [dp]\n\tmov ecx, [tape + 4 * ebx]\n\tcall putchar\n",
        ),
        Instruction::Input => out.append(
            "\tcall _getch\n\tmov ebx, [dp]\n\tmov [tape + 4 * ebx], eax\n",
        ),
        Instruction::LoopStart(t) => {
            out.append("JUMP_");
            push_decimal(out, pos);
            out.append(":\n\tmov ebx, [dp]\n\tcmp dword [tape + 4 * ebx], 0\n");
            out.append("\tje RETURN_");
            push_decimal(out, t);
            out.append("\n");
            assert(final(out)@ =~= old(out)@ + block(pos as nat, ins));
        },
        Instruction::LoopEnd(t) => {
            out.append("RETURN_");
            push_decimal(out, pos);
            out.append(":\n\tmov ebx, [dp]\n\tcmp dword [tape + 4 * ebx], 0\n");
            out.append("\tjne JUMP_");
            push_decimal(out, t);
            out.append("\n");
            assert(final(out)@ =~= old(out)@ + block(pos as nat, ins));
        },
    }
}

/// The assembly text for `program`: the preamble, one block per instruction
/// in order, then the epilogue.
pub fn generate(program: &Program) -> (r: String)
    ensures
        r@ == asm_text(program@),
{
    let mut out = String::new();
    out.append("bits 64\ndefault rel\n\nsegment .data\n\tdp dd 0\n\nsegment .bss\n\ttape resd ");
    push_decimal(&mut out, TAPE_SIZE);
    out.append(
        "\n\nsegment .text\nglobal main\n\nextern _getch\nextern putchar\n\nmain:\n\tpush rbp\n\tmov rbp, rsp\n\tsub rsp, 32\n\n",
    );
    let n = program.len();
    let mut i: usize = 0;
    while i < n
        invariant
            n == program@.len(),
            i <= n,
            out@ == preamble() + body(program@.take(i as int)),
        decreases n - i,
    {
        push_block(&mut out, i, program.get(i));
        proof {
            assert(program@.take(i + 1).drop_last() =~= program@.take(i as int));
        }
        i = i + 1;
    }
    out.append("\n\tmov rsp, rbp\n\tpop rbp\n\n\txor rax, rax\n\tret\n");
    proof {
        assert(program@.take(n as int) =~= program@);
    }
    out
}

} // verus!
