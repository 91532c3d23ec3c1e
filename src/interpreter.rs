use crate::brackets::{as_index, closing_of, opening_of, pairs, partner, BracketPair};
use vstd::prelude::*;
use vstd::string::StrSliceExecFns;

verus! {

/// The abstract state of a machine: program text, memory cells and the two
/// cursors.
pub struct MachineState {
    pub program: Seq<char>,
    pub memory: Seq<u8>,
    pub pc: int,
    pub mc: int,
}

impl MachineState {
    /// Memory is never empty, both cursors stay in range, and every index
    /// into the text fits a machine word.
    pub open spec fn wf(self) -> bool {
        &&& self.program.len() <= usize::MAX
        &&& self.memory.len() >= 1
        &&& 0 <= self.mc < self.memory.len()
        &&& 0 <= self.pc <= self.program.len()
    }

    /// The program cursor has run off the end of the text.
    pub open spec fn halted(self) -> bool {
        self.pc >= self.program.len()
    }

    /// The cell under the memory cursor.
    pub open spec fn cell(self) -> u8 {
        self.memory[self.mc]
    }

    /// The next instruction reads input.
    pub open spec fn awaiting_input(self) -> bool {
        !self.halted() && self.program[self.pc] == ','
    }

    /// The same memory with the cursors moved.
    pub open spec fn with_cursors(self, pc: int, mc: int) -> MachineState {
        MachineState { program: self.program, memory: self.memory, pc, mc }
    }

    /// The current cell set to `v` and the program cursor moved to `pc`.
    pub open spec fn with_cell(self, v: u8, pc: int) -> MachineState {
        MachineState {
            program: self.program,
            memory: self.memory.update(self.mc, v),
            pc,
            mc: self.mc,
        }
    }
}

/// What a machine reports after it has executed.
#[derive(Clone, Copy, Debug, PartialEq, Eq, Structural)]
pub enum Status {
    /// An ordinary instruction ran; execution can go on.
    Running,
    /// The program cursor is at the end of the text.
    Halted,
    /// An output instruction ran and emitted this byte.
    Output(u8),
    /// The next instruction reads input; supply it before going on.
    AwaitingInput,
}

/// Why execution aborted.
#[derive(Clone, Copy, Debug, PartialEq, Eq, Structural)]
pub enum RunError {
    /// A loop bracket that has to jump has no partner.
    UnmatchedBracket,
    /// `<` was executed at the lowest cell.
    MemoryUnderflow,
    /// The input line was empty or the input stream had ended.
    InputExhausted,
}

/// A fresh machine for `program`: one zero cell and both cursors at 0.
pub open spec fn initial(program: Seq<char>) -> MachineState {
    MachineState { program, memory: seq![0u8], pc: 0, mc: 0 }
}

/// Increment modulo 256.
pub open spec fn wrapping_inc(v: u8) -> u8 {
    if v == 255 {
        0
    } else {
        (v + 1) as u8
    }
}

/// Decrement modulo 256.
pub open spec fn wrapping_dec(v: u8) -> u8 {
    if v == 0 {
        255
    } else {
        (v - 1) as u8
    }
}

/// One instruction: the next state and what is reported. On an error, and
/// where input is needed, the state is left as it was.
pub open spec fn step_spec(s: MachineState) -> (MachineState, Result<Status, RunError>) {
    if s.halted() {
        (s, Ok(Status::Halted))
    } else {
        let c = s.program[s.pc];
        if c == '>' {
            let memory = if s.mc + 1 >= s.memory.len() {
                s.memory.push(0)
            } else {
                s.memory
            };
            (
                MachineState { program: s.program, memory, pc: s.pc + 1, mc: s.mc + 1 },
                Ok(Status::Running),
            )
        } else if c == '<' {
            if s.mc == 0 {
                (s, Err(RunError::MemoryUnderflow))
            } else {
                (s.with_cursors(s.pc + 1, s.mc - 1), Ok(Status::Running))
            }
        } else if c == '+' {
            (s.with_cell(wrapping_inc(s.cell()), s.pc + 1), Ok(Status::Running))
        } else if c == '-' {
            (s.with_cell(wrapping_dec(s.cell()), s.pc + 1), Ok(Status::Running))
        } else if c == '.' {
            (s.with_cursors(s.pc + 1, s.mc), Ok(Status::Output(s.cell())))
        } else if c == ',' {
            (s, Ok(Status::AwaitingInput))
        } else if c == '[' && s.cell() == 0 {
            match partner(s.program, s.pc, BracketPair::LEFT) {
                Some(j) => (s.with_cursors(j + 1, s.mc), Ok(Status::Running)),
                None => (s, Err(RunError::UnmatchedBracket)),
            }
        } else if c == ']' && s.cell() != 0 {
            match partner(s.program, s.pc, BracketPair::RIGHT) {
                Some(i) => (s.with_cursors(i + 1, s.mc), Ok(Status::Running)),
                None => (s, Err(RunError::UnmatchedBracket)),
            }
        } else {
            (s.with_cursors(s.pc + 1, s.mc), Ok(Status::Running))
        }
    }
}

/// At most `fuel` instructions, stopping early at the first step that
/// reports anything but `Running`. `Running` is reported when the fuel ran
/// out first.
pub open spec fn run_spec(s: MachineState, fuel: nat) -> (MachineState, Result<Status, RunError>)
    decreases fuel,
{
    if fuel == 0 {
        (s, Ok(Status::Running))
    } else {
        let (t, r) = step_spec(s);
        if r == Ok::<Status, RunError>(Status::Running) {
            run_spec(t, (fuel - 1) as nat)
        } else {
            (t, r)
        }
    }
}

/// The input instruction given one line of input: its first byte goes into
/// the current cell; an empty line is an error and changes nothing.
pub open spec fn input_spec(s: MachineState, line: Seq<u8>) -> (MachineState, Result<(), RunError>) {
    if line.len() == 0 {
        (s, Err(RunError::InputExhausted))
    } else {
        (s.with_cell(line[0], s.pc + 1), Ok(()))
    }
}

/// Cell arithmetic wraps around: `+` on 255 gives 0 and `-` on 0 gives 255.
pub proof fn lemma_cell_wraps(s: MachineState)
    requires
        s.wf(),
        !s.halted(),
    ensures
        s.program[s.pc] == '+' && s.cell() == 255 ==> step_spec(s).0.cell() == 0,
        s.program[s.pc] == '-' && s.cell() == 0 ==> step_spec(s).0.cell() == 255,
{
}

/// Moving right `n` times from the highest cell appends `n` zero cells and
/// leaves the cursor on the last of them; from a single cell this gives
/// `n + 1` cells.
pub proof fn lemma_growth_on_demand(s: MachineState, n: nat)
    requires
        s.wf(),
        s.mc == s.memory.len() - 1,
        s.pc + n <= s.program.len(),
        forall|k: int| s.pc <= k < s.pc + n ==> s.program[k] == '>',
    ensures
        run_spec(s, n).0.memory == s.memory + Seq::new(n, |_k: int| 0u8),
        run_spec(s, n).0.mc == s.mc + n,
        run_spec(s, n).0.pc == s.pc + n,
        run_spec(s, n).1 == Ok::<Status, RunError>(Status::Running),
    decreases n,
{
    if n == 0 {
        assert(s.memory + Seq::new(0, |_k: int| 0u8) =~= s.memory);
    } else {
        let t = step_spec(s).0;
        assert(s.program[s.pc] == '>');
        lemma_growth_on_demand(t, (n - 1) as nat);
        assert(t.memory + Seq::new((n - 1) as nat, |_k: int| 0u8) =~= s.memory + Seq::new(
            n,
            |_k: int| 0u8,
        ));
    }
}

/// `<` at the lowest cell aborts the run with `MemoryUnderflow` and changes
/// nothing.
pub proof fn lemma_underflow_fails(s: MachineState, fuel: nat)
    requires
        s.wf(),
        !s.halted(),
        s.program[s.pc] == '<',
        s.mc == 0,
        fuel > 0,
    ensures
        run_spec(s, fuel) == (s, Err::<Status, RunError>(RunError::MemoryUnderflow)),
{
}

/// A `[` on a zero cell with no `]` after it, or a `]` on a non-zero cell
/// with no `[` before it, aborts the run with `UnmatchedBracket`.
pub proof fn lemma_unmatched_bracket_fails(s: MachineState, fuel: nat)
    requires
        s.wf(),
        !s.halted(),
        fuel > 0,
        ({
            let p = s.program;
            ||| p[s.pc] == '[' && s.cell() == 0 && forall|j: int| s.pc < j < p.len() ==> p[j] != ']'
            ||| p[s.pc] == ']' && s.cell() != 0 && forall|i: int| 0 <= i < s.pc ==> p[i] != '['
        }),
    ensures
        run_spec(s, fuel) == (s, Err::<Status, RunError>(RunError::UnmatchedBracket)),
{
    if s.program[s.pc] == '[' {
        assert(!exists|j: int| pairs(s.program, s.pc, j));
    } else {
        assert(!exists|i: int| pairs(s.program, i, s.pc));
    }
}

/// An interpreter: the program as characters, the memory cells, and the
/// program and memory cursors.
#[derive(Debug)]
pub struct BFInterpreter {
    tape: Vec<char>,
    memory: Vec<u8>,
    tape_index: usize,
    memory_index: usize,
}

impl View for BFInterpreter {
    type V = MachineState;

    closed spec fn view(&self) -> MachineState {
        MachineState {
            program: self.tape@,
            memory: self.memory@,
            pc: self.tape_index as int,
            mc: self.memory_index as int,
        }
    }
}

impl BFInterpreter {
    /// A machine for `tape` with one zero cell; the text is not checked.
    pub fn new(tape: &str) -> (r: BFInterpreter)
        ensures
            r@ == initial(tape@),
            r@.wf(),
    {
        let n = tape.unicode_len();
        let mut chars: Vec<char> = Vec::new();
        let mut i: usize = 0;
        while i < n
            invariant
                n == tape@.len(),
                i <= n,
                chars@ == tape@.subrange(0, i as int),
            decreases n - i,
        {
            chars.push(tape.get_char(i));
            i = i + 1;
        }
        assert(chars@ == tape@);
        let mut memory: Vec<u8> = Vec::new();
        memory.push(0);
        BFInterpreter { tape: chars, memory, tape_index: 0, memory_index: 0 }
    }

    /// `>`: move right, growing memory by one zero cell at the high end.
    fn move_right(&mut self) -> (r: Result<Status, RunError>)
        requires
            old(self)@.wf(),
            !old(self)@.halted(),
            old(self)@.program[old(self)@.pc] == '>',
        ensures
            (final(self)@, r) == step_spec(old(self)@),
            final(self)@.wf(),
    {
        let len = self.memory.len();
        self.memory_index = self.memory_index + 1;
        if self.memory_index >= len {
            self.memory.push(0);
        }
        self.tape_index = self.tape_index + 1;
        Ok(Status::Running)
    }

    /// `<`: move left; the lowest cell has nothing to its left.
    fn move_left(&mut self) -> (r: Result<Status, RunError>)
        requires
            old(self)@.wf(),
            !old(self)@.halted(),
            old(self)@.program[old(self)@.pc] == '<',
        ensures
            (final(self)@, r) == step_spec(old(self)@),
            final(self)@.wf(),
    {
        if self.memory_index == 0 {
            return Err(RunError::MemoryUnderflow);
        }
        self.memory_index = self.memory_index - 1;
        self.tape_index = self.tape_index + 1;
        Ok(Status::Running)
    }

    /// `+`: increment the current cell, wrapping.
    fn increment(&mut self) -> (r: Result<Status, RunError>)
        requires
            old(self)@.wf(),
            !old(self)@.halted(),
            old(self)@.program[old(self)@.pc] == '+',
        ensures
            (final(self)@, r) == step_spec(old(self)@),
            final(self)@.wf(),
    {
        let index = self.memory_index;
        let v = self.memory[index].wrapping_add(1);
        self.memory.set(index, v);
        self.tape_index = self.tape_index + 1;
        Ok(Status::Running)
    }

    /// `-`: decrement the current cell, wrapping.
    fn decrement(&mut self) -> (r: Result<Status, RunError>)
        requires
            old(self)@.wf(),
            !old(self)@.halted(),
            old(self)@.program[old(self)@.pc] == '-',
        ensures
            (final(self)@, r) == step_spec(old(self)@),
            final(self)@.wf(),
    {
        let index = self.memory_index;
        let v = self.memory[index].wrapping_sub(1);
        self.memory.set(index, v);
        self.tape_index = self.tape_index + 1;
        Ok(Status::Running)
    }

    /// `[`: enter the loop body, or jump past the matching `]` when the
    /// current cell is zero.
    fn open_loop(&mut self) -> (r: Result<Status, RunError>)
        requires
            old(self)@.wf(),
            !old(self)@.halted(),
            old(self)@.program[old(self)@.pc] == '[',
        ensures
            (final(self)@, r) == step_spec(old(self)@),
            final(self)@.wf(),
    {
        if self.memory[self.memory_index] != 0 {
            self.tape_index = self.tape_index + 1;
            return Ok(Status::Running);
        }
        match self.paired_bracket(self.tape_index, BracketPair::LEFT) {
            Some(j) => {
                self.tape_index = j + 1;
                Ok(Status::Running)
            },
            None => Err(RunError::UnmatchedBracket),
        }
    }

    /// `]`: leave the loop when the current cell is zero, or jump back past
    /// the matching `[`.
    fn close_loop(&mut self) -> (r: Result<Status, RunError>)
        requires
            old(self)@.wf(),
            !old(self)@.halted(),
            old(self)@.program[old(self)@.pc] == ']',
        ensures
            (final(self)@, r) == step_spec(old(self)@),
            final(self)@.wf(),
    {
        if self.memory[self.memory_index] == 0 {
            self.tape_index = self.tape_index + 1;
            return Ok(Status::Running);
        }
        match self.paired_bracket(self.tape_index, BracketPair::RIGHT) {
            Some(i) => {
                self.tape_index = i + 1;
                Ok(Status::Running)
            },
            None => Err(RunError::UnmatchedBracket),
        }
    }

    /// Executes the instruction under the program cursor. `.` reports the
    /// byte to emit; `,` reports that input is needed and does not advance.
    pub fn step(&mut self) -> (r: Result<Status, RunError>)
        requires
            old(self)@.wf(),
        ensures
            (final(self)@, r) == step_spec(old(self)@),
            final(self)@.wf(),
    {
        if self.tape_index >= self.tape.len() {
            return Ok(Status::Halted);
        }
        let c = self.tape[self.tape_index];
        if c == '>' {
            self.move_right()
        } else if c == '<' {
            self.move_left()
        } else if c == '+' {
            self.increment()
        } else if c == '-' {
            self.decrement()
        } else if c == '.' {
            let v = self.memory[self.memory_index];
            self.tape_index = self.tape_index + 1;
            Ok(Status::Output(v))
        } else if c == ',' {
            Ok(Status::AwaitingInput)
        } else if c == '[' {
            self.open_loop()
        } else if c == ']' {
            self.close_loop()
        } else {
            self.tape_index = self.tape_index + 1;
            Ok(Status::Running)
        }
    }

    /// Steps until the program halts, an instruction does input or output,
    /// or an error aborts the run. After `u64::MAX` instructions without any
    /// of these it returns `Running`, and a further call goes on from there.
    pub fn run(&mut self) -> (r: Result<Status, RunError>)
        requires
            old(self)@.wf(),
        ensures
            (final(self)@, r) == run_spec(old(self)@, u64::MAX as nat),
            final(self)@.wf(),
    {
        let mut fuel: u64 = u64::MAX;
        while fuel > 0
            invariant
                self@.wf(),
                run_spec(self@, fuel as nat) == run_spec(old(self)@, u64::MAX as nat),
            decreases fuel,
        {
            let r = self.step();
            match r {
                Ok(Status::Running) => {},
                _ => return r,
            }
            fuel = fuel - 1;
        }
        Ok(Status::Running)
    }

    /// Completes a pending `,` with one line of input: its first byte is
    /// stored in the current cell. An empty line means input is exhausted.
    pub fn supply_input(&mut self, line: &[u8]) -> (r: Result<(), RunError>)
        requires
            old(self)@.wf(),
            old(self)@.awaiting_input(),
        ensures
            (final(self)@, r) == input_spec(old(self)@, line@),
            final(self)@.wf(),
    {
        if line.len() == 0 {
            return Err(RunError::InputExhausted);
        }
        let index = self.memory_index;
        self.memory.set(index, line[0]);
        self.tape_index = self.tape_index + 1;
        Ok(())
    }

    /// The next instruction is `,`.
    pub fn awaiting_input(&self) -> (r: bool)
        requires
            self@.wf(),
        ensures
            r == self@.awaiting_input(),
    {
        self.tape_index < self.tape.len() && self.tape[self.tape_index] == ','
    }

    /// The memory cells.
    pub fn memory(&self) -> (r: &Vec<u8>)
        ensures
            r@ == self@.memory,
    {
        &self.memory
    }

    /// The index of the current cell.
    pub fn memory_index(&self) -> (r: usize)
        ensures
            r as int == self@.mc,
    {
        self.memory_index
    }

    /// The index of the next instruction.
    pub fn tape_index(&self) -> (r: usize)
        ensures
            r as int == self@.pc,
    {
        self.tape_index
    }

    /// The index of the partner of the bracket at `bracket_index`, queried
    /// from `bracket_type`; `None` where there is no such partner.
    pub fn paired_bracket(&self, bracket_index: usize, bracket_type: BracketPair) -> (r: Option<
        usize,
    >)
        ensures
            as_index(r) == partner(self@.program, bracket_index as int, bracket_type),
    {
        match bracket_type {
            BracketPair::LEFT => closing_of(&self.tape, bracket_index),
            BracketPair::RIGHT => opening_of(&self.tape, bracket_index),
        }
    }
}

} // verus!
