use vstd::prelude::*;

verus! {

/// One instruction of a program; loop instructions carry the position of
/// their partner.
#[derive(Clone, Copy, Debug, PartialEq, Eq, Structural)]
pub enum Instruction {
    /// `>`: move the data pointer one cell right.
    MoveRight,
    /// `<`: move the data pointer one cell left.
    MoveLeft,
    /// `+`: add one to the addressed cell.
    Increment,
    /// `-`: subtract one from the addressed cell.
    Decrement,
    /// `.`: write the addressed cell as a character.
    Output,
    /// `,`: read a character into the addressed cell.
    Input,
    /// `[`: start of a loop; holds the position of the matching `LoopEnd`.
    LoopStart(usize),
    /// `]`: end of a loop; holds the position of the matching `LoopStart`.
    LoopEnd(usize),
}

/// Every loop instruction of `p` points at a partner of the other kind that
/// points back, a `LoopStart` always before its `LoopEnd`.
pub open spec fn loops_matched(p: Seq<Instruction>) -> bool {
    &&& forall|i: int|
        0 <= i < p.len() ==> match #[trigger] p[i] {
            Instruction::LoopStart(t) => i < t < p.len() && p[t as int] == Instruction::LoopEnd(
                i as usize,
            ),
            Instruction::LoopEnd(t) => t < i && p[t as int] == Instruction::LoopStart(i as usize),
            _ => true,
        }
}

/// A parsed program: the instruction at each position, loops resolved.
/// It cannot be changed once built.
#[derive(Debug)]
pub struct Program {
    instructions: Vec<Instruction>,
}

impl View for Program {
    type V = Seq<Instruction>;

    closed spec fn view(&self) -> Seq<Instruction> {
        self.instructions@
    }
}

impl Program {
    #[verifier::type_invariant]
    spec fn inv(self) -> bool {
        loops_matched(self.instructions@)
    }

    /// A program of the given instructions, whose loops must be matched.
    pub(crate) fn from_instructions(instructions: Vec<Instruction>) -> (r: Program)
        requires
            loops_matched(instructions@),
        ensures
            r@ == instructions@,
    {
        Program { instructions }
    }

    /// The number of instructions.
    pub fn len(&self) -> (r: usize)
        ensures
            r == self@.len(),
    {
        self.instructions.len()
    }

    /// Whether the program has no instruction.
    pub fn is_empty(&self) -> (r: bool)
        ensures
            r == (self@.len() == 0),
    {
        self.instructions.len() == 0
    }

    /// The instruction at position `i`.
    pub fn get(&self, i: usize) -> (r: Instruction)
        requires
            i < self@.len(),
        ensures
            r == self@[i as int],
    {
        self.instructions[i]
    }

    /// The instructions, in order.
    pub fn instructions(&self) -> (r: &Vec<Instruction>)
        ensures
            r@ == self@,
    {
        &self.instructions
    }
}

} // verus!
