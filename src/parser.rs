use vstd::prelude::*;
use crate::instruction::{Instruction, Program, loops_matched};

verus! {

/// Why a source text does not form a program.
#[derive(Clone, Copy, Debug, PartialEq, Eq, Structural)]
pub enum ParseError {
    /// A `]` came while no `[` was open.
    UnmatchedCloseBracket,
    /// A `[` was still open at the end of the source.
    UnmatchedOpenBracket,
}

/// The eight characters that are commands; every other character is a comment.
pub open spec fn is_command(c: char) -> bool {
    c == '>' || c == '<' || c == '+' || c == '-' || c == '.' || c == ',' || c == '[' || c == ']'
}

/// The parser's state after a prefix of the source: the instructions so far
/// and the positions of the loops still open, or `None` once a `]` found no
/// open loop.
pub type ScanState = Option<(Seq<Instruction>, Seq<usize>)>;

/// The effect of one source character on the parser's state.
pub open spec fn step(st: ScanState, c: char) -> ScanState {
    match st {
        None => None,
        Some((prog, open)) => {
            let n = prog.len() as usize;
            if c == '>' {
                Some((prog.push(Instruction::MoveRight), open))
            } else if c == '<' {
                Some((prog.push(Instruction::MoveLeft), open))
            } else if c == '+' {
                Some((prog.push(Instruction::Increment), open))
            } else if c == '-' {
                Some((prog.push(Instruction::Decrement), open))
            } else if c == '.' {
                Some((prog.push(Instruction::Output), open))
            } else if c == ',' {
                Some((prog.push(Instruction::Input), open))
            } else if c == '[' {
                Some((prog.push(Instruction::LoopStart(0)), open.push(n)))
            } else if c == ']' {
                if open.len() == 0 {
                    None
                } else {
                    let p = open.last();
                    Some(
                        (
                            prog.update(p as int, Instruction::LoopStart(n)).push(
                                Instruction::LoopEnd(p),
                            ),
                            open.drop_last(),
                        ),
                    )
                }
            } else {
                Some((prog, open))
            }
        },
    }
}

/// The parser's state after all of `s`.
pub open spec fn scan(s: Seq<char>) -> ScanState
    decreases s.len(),
{
    if s.len() == 0 {
        Some((Seq::empty(), Seq::empty()))
    } else {
        step(scan(s.drop_last()), s.last())
    }
}

/// What parsing `s` yields.
pub open spec fn parse_spec(s: Seq<char>) -> Result<Seq<Instruction>, ParseError> {
    match scan(s) {
        None => Err(ParseError::UnmatchedCloseBracket),
        Some((prog, open)) => if open.len() == 0 {
            Ok(prog)
        } else {
            Err(ParseError::UnmatchedOpenBracket)
        },
    }
}

/// The model of a parse result.
pub open spec fn result_view(r: Result<Program, ParseError>) -> Result<Seq<Instruction>, ParseError> {
    match r {
        Ok(p) => Ok(p@),
        Err(e) => Err(e),
    }
}

/// What holds of the parser's state at every point: each open position
/// holds a `LoopStart`, open positions ascend, and every loop instruction
/// that is not open points at a partner that points back.
pub open spec fn scan_inv(prog: Seq<Instruction>, open: Seq<usize>) -> bool {
    &&& forall|k: int|
        0 <= k < open.len() ==> #[trigger] open[k] < prog.len() && prog[open[k] as int] is LoopStart
    &&& forall|k: int, j: int| 0 <= k < j < open.len() ==> open[k] < open[j]
    &&& forall|i: int|
        0 <= i < prog.len() ==> match #[trigger] prog[i] {
            Instruction::LoopStart(t) => open.contains(i as usize) || (i < t < prog.len()
                && prog[t as int] == Instruction::LoopEnd(i as usize)),
            Instruction::LoopEnd(t) => t < i && prog[t as int] == Instruction::LoopStart(i as usize)
                && !open.contains(t),
            _ => true,
        }
}

/// One character keeps the parser's invariant.
pub proof fn lemma_step_inv(prog: Seq<Instruction>, open: Seq<usize>, c: char)
    requires
        scan_inv(prog, open),
        prog.len() <= usize::MAX,
    ensures
        step(Some((prog, open)), c) matches Some((p2, o2)) ==> scan_inv(p2, o2),
{
    let n = prog.len() as usize;
    if c == '[' {
        let p2 = prog.push(Instruction::LoopStart(0));
        let o2 = open.push(n);
        assert forall|i: int| 0 <= i < p2.len() implies match #[trigger] p2[i] {
            Instruction::LoopStart(t) => o2.contains(i as usize) || (i < t < p2.len()
                && p2[t as int] == Instruction::LoopEnd(i as usize)),
            Instruction::LoopEnd(t) => t < i && p2[t as int] == Instruction::LoopStart(i as usize)
                && !o2.contains(t),
            _ => true,
        } by {
            if i == n {
                assert(o2[o2.len() - 1] == n);
            } else {
                assert(p2[i] == prog[i]);
                match prog[i] {
                    Instruction::LoopStart(t) => {
                        if open.contains(i as usize) {
                            let k = choose|k: int| 0 <= k < open.len() && open[k] == i as usize;
                            assert(o2[k] == i as usize);
                        }
                    },
                    Instruction::LoopEnd(t) => {
                        if o2.contains(t) {
                            let k = choose|k: int| 0 <= k < o2.len() && o2[k] == t;
                            if k < open.len() {
                                assert(open[k] == t);
                            }
                        }
                    },
                    _ => {},
                }
            }
        }
        assert forall|k: int| 0 <= k < o2.len() implies #[trigger] o2[k] < p2.len()
            && p2[o2[k] as int] is LoopStart by {
            if k < open.len() {
                assert(o2[k] == open[k]);
            }
        }
    } else if c == ']' && open.len() > 0 {
        let p = open.last();
        let p1 = prog.update(p as int, Instruction::LoopStart(n));
        let p2 = p1.push(Instruction::LoopEnd(p));
        let o2 = open.drop_last();
        assert forall|k: int| 0 <= k < o2.len() implies #[trigger] o2[k] < p2.len()
            && p2[o2[k] as int] is LoopStart by {
            assert(open[k] < open[open.len() - 1]);
            assert(o2[k] == open[k]);
        }
        assert forall|i: int| 0 <= i < p2.len() implies match #[trigger] p2[i] {
            Instruction::LoopStart(t) => o2.contains(i as usize) || (i < t < p2.len()
                && p2[t as int] == Instruction::LoopEnd(i as usize)),
            Instruction::LoopEnd(t) => t < i && p2[t as int] == Instruction::LoopStart(i as usize)
                && !o2.contains(t),
            _ => true,
        } by {
            if i == n {
                assert(p2[i] == Instruction::LoopEnd(p));
                assert(p2[p as int] == Instruction::LoopStart(n));
                if o2.contains(p) {
                    let k = choose|k: int| 0 <= k < o2.len() && o2[k] == p;
                    assert(open[k] < open[open.len() - 1]);
                }
            } else if i == p {
            } else {
                assert(p2[i] == prog[i]);
                match prog[i] {
                    Instruction::LoopStart(t) => {
                        if open.contains(i as usize) {
                            let k = choose|k: int| 0 <= k < open.len() && open[k] == i as usize;
                            assert(k != open.len() - 1);
                            assert(o2[k] == i as usize);
                        } else {
                            assert(t != p);
                            assert(p2[t as int] == prog[t as int]);
                        }
                    },
                    Instruction::LoopEnd(t) => {
                        assert(open[open.len() - 1] == p);
                        assert(t != p);
                        assert(p2[t as int] == prog[t as int]);
                        if o2.contains(t) {
                            let k = choose|k: int| 0 <= k < o2.len() && o2[k] == t;
                            assert(open[k] == t);
                        }
                    },
                    _ => {},
                }
            }
        }
    } else if is_command(c) && c != ']' {
        let p2 = match step(Some((prog, open)), c) {
            Some((p2, _)) => p2,
            None => prog,
        };
        assert forall|i: int| 0 <= i < p2.len() implies match #[trigger] p2[i] {
            Instruction::LoopStart(t) => open.contains(i as usize) || (i < t < p2.len()
                && p2[t as int] == Instruction::LoopEnd(i as usize)),
            Instruction::LoopEnd(t) => t < i && p2[t as int] == Instruction::LoopStart(i as usize)
                && !open.contains(t),
            _ => true,
        } by {
            if i < n {
                assert(p2[i] == prog[i]);
            }
        }
    }
}

/// Turns source text into a program, matching each `]` with the innermost
/// open `[`; every character but the eight commands is a comment.
pub fn parse(source: &str) -> (r: Result<Program, ParseError>)
    ensures
        result_view(r) == parse_spec(source@),
        r matches Ok(p) ==> loops_matched(p@),
{
    let mut instructions: Vec<Instruction> = Vec::new();
    let mut open: Vec<usize> = Vec::new();
    let ghost s = source@;
    let mut iter = source.chars();
    for c in it: iter
        invariant
            it.seq() == s,
            s == source@,
            scan(s.take(it.index())) == Some((instructions@, open@)),
            scan_inv(instructions@, open@),
            instructions@.len() <= it.index(),
    {
        let n = instructions.len();
        proof {
            assert(s.take(it.index() + 1).drop_last() =~= s.take(it.index()));
            lemma_step_inv(instructions@, open@, c);
        }
        if c == '>' {
            instructions.push(Instruction::MoveRight);
        } else if c == '<' {
            instructions.push(Instruction::MoveLeft);
        } else if c == '+' {
            instructions.push(Instruction::Increment);
        } else if c == '-' {
            instructions.push(Instruction::Decrement);
        } else if c == '.' {
            instructions.push(Instruction::Output);
        } else if c == ',' {
            instructions.push(Instruction::Input);
        } else if c == '[' {
            instructions.push(Instruction::LoopStart(0));
            open.push(n);
        } else if c == ']' {
            match open.pop() {
                Some(p) => {
                    instructions.set(p, Instruction::LoopStart(n));
                    instructions.push(Instruction::LoopEnd(p));
                },
                None => {
                    proof {
                        lemma_failed_stays(s.take(it.index() + 1), s.skip(it.index() + 1));
                        assert(s.take(it.index() + 1) + s.skip(it.index() + 1) =~= s);
                    }
                    return Err(ParseError::UnmatchedCloseBracket);
                },
            }
        }
    }
    proof {
        assert(s.take(s.len() as int) =~= s);
    }
    if open.len() > 0 {
        Err(ParseError::UnmatchedOpenBracket)
    } else {
        Ok(Program::from_instructions(instructions))
    }
}

/// Once a `]` has found no open loop, no further text changes the outcome.
pub proof fn lemma_failed_stays(a: Seq<char>, b: Seq<char>)
    requires
        scan(a) is None,
    ensures
        scan(a + b) is None,
    decreases b.len(),
{
    if b.len() > 0 {
        lemma_failed_stays(a, b.drop_last());
        assert((a + b).drop_last() =~= a + b.drop_last());
    } else {
        assert(a + b =~= a);
    }
}

} // verus!

verus! {

/// The command characters of `s`, in order: `s` with its comments removed.
pub open spec fn commands(s: Seq<char>) -> Seq<char>
    decreases s.len(),
{
    if s.len() == 0 {
        Seq::empty()
    } else if is_command(s.last()) {
        commands(s.drop_last()).push(s.last())
    } else {
        commands(s.drop_last())
    }
}

/// The number of `[` in `s` less the number of `]`.
pub open spec fn balance(s: Seq<char>) -> int
    decreases s.len(),
{
    if s.len() == 0 {
        0
    } else if s.last() == '[' {
        balance(s.drop_last()) + 1
    } else if s.last() == ']' {
        balance(s.drop_last()) - 1
    } else {
        balance(s.drop_last())
    }
}

/// No prefix of `s` holds more `]` than `[`.
pub open spec fn never_negative(s: Seq<char>) -> bool {
    forall|k: int| 0 <= k <= s.len() ==> balance(#[trigger] s.take(k)) >= 0
}

} // verus!
