//! The emulator's state as mathematical values, and the meaning of one step
//! and of a whole run over it.
use vstd::prelude::*;

use crate::decode::{Instruction, address_of, instruction_spec, word_of};

verus! {

/// Bytes of addressable memory.
pub const MEMORY_SIZE: usize = 4096;

/// General-purpose registers, the flag register included.
pub const REGISTER_COUNT: usize = 16;

/// Return addresses the call stack can hold.
pub const STACK_SIZE: usize = 16;

/// The register that arithmetic uses as its carry flag.
pub const FLAG_REGISTER: usize = 0xF;

/// Why a run stopped short of a halt instruction.
#[derive(Clone, Copy, Debug, PartialEq, Eq, Structural)]
pub enum CpuError {
    /// The instruction at the program counter would be read past the end of memory.
    MemoryBounds,
    /// A call found every stack slot in use.
    StackOverflow,
    /// A return found the stack empty.
    StackUnderflow,
    /// The word matches no entry of the opcode table.
    UnimplementedOpcode(u16),
}

/// The whole state of the emulator.
pub struct CpuState {
    pub registers: Seq<u8>,
    pub program_counter: nat,
    pub memory: Seq<u8>,
    pub stack: Seq<u16>,
    pub stack_pointer: nat,
}

/// Where a single step leaves the machine.
pub enum Step {
    /// The instruction was carried out and the run goes on from this state.
    Running(CpuState),
    /// The run ends in this state, with this outcome.
    Stopped(CpuState, Result<(), CpuError>),
}

impl CpuState {
    /// Fixed sizes, and a stack pointer within the stack.
    pub open spec fn wf(self) -> bool {
        &&& self.registers.len() == REGISTER_COUNT
        &&& self.memory.len() == MEMORY_SIZE
        &&& self.stack.len() == STACK_SIZE
        &&& self.stack_pointer <= STACK_SIZE
    }

    /// The state a CPU starts in: everything zero, the stack empty.
    pub open spec fn zeroed() -> CpuState {
        CpuState {
            registers: Seq::new(REGISTER_COUNT as nat, |i: int| 0u8),
            program_counter: 0,
            memory: Seq::new(MEMORY_SIZE as nat, |i: int| 0u8),
            stack: Seq::new(STACK_SIZE as nat, |i: int| 0u16),
            stack_pointer: 0,
        }
    }

    /// Memory with `bytes` written over it from address `addr` on.
    pub open spec fn loaded(self, addr: int, bytes: Seq<u8>) -> Seq<u8> {
        Seq::new(
            self.memory.len(),
            |i: int|
                if addr <= i < addr + bytes.len() {
                    bytes[i - addr]
                } else {
                    self.memory[i]
                },
        )
    }

    /// Both bytes of the instruction at the program counter lie in memory.
    pub open spec fn can_fetch(self) -> bool {
        self.program_counter + 1 < MEMORY_SIZE
    }

    /// The instruction word at the program counter, high byte first.
    pub open spec fn fetched(self) -> u16 {
        word_of(self.memory[self.program_counter as int], self.memory[self.program_counter + 1int])
    }

    /// The program counter moved past the instruction just fetched.
    pub open spec fn advanced(self) -> CpuState {
        CpuState { program_counter: self.program_counter + 2, ..self }
    }

    /// Register `x` takes the sum of registers `x` and `y` modulo 256; then the
    /// flag register takes 1 if the true sum exceeds 255, else 0. The flag is
    /// written last, so it wins when `x` is the flag register.
    pub open spec fn add_xy(self, x: int, y: int) -> CpuState {
        let sum = self.registers[x] + self.registers[y];
        let flag: u8 = if sum > 255 { 1 } else { 0 };
        CpuState {
            registers: self.registers.update(x, (sum % 256) as u8).update(
                FLAG_REGISTER as int,
                flag,
            ),
            ..self
        }
    }

    /// Pushes the program counter and jumps to `addr`; on a full stack the
    /// state stays as it was and the call fails.
    pub open spec fn call(self, addr: u16) -> (CpuState, Result<(), CpuError>) {
        if self.stack_pointer >= STACK_SIZE {
            (self, Err(CpuError::StackOverflow))
        } else {
            (
                CpuState {
                    stack: self.stack.update(
                        self.stack_pointer as int,
                        self.program_counter as u16,
                    ),
                    stack_pointer: self.stack_pointer + 1,
                    program_counter: addr as nat,
                    ..self
                },
                Ok(()),
            )
        }
    }

    /// Pops a return address and jumps to it; on an empty stack the state
    /// stays as it was and the return fails.
    pub open spec fn ret(self) -> (CpuState, Result<(), CpuError>) {
        if self.stack_pointer == 0 {
            (self, Err(CpuError::StackUnderflow))
        } else {
            (
                CpuState {
                    stack_pointer: (self.stack_pointer - 1) as nat,
                    program_counter: self.stack[self.stack_pointer - 1] as nat,
                    ..self
                },
                Ok(()),
            )
        }
    }

    /// Carries out `ins` on a state whose program counter has already moved on.
    pub open spec fn execute(self, ins: Instruction) -> Step {
        match ins {
            Instruction::Halt => Step::Stopped(self, Ok(())),
            Instruction::Return => {
                let (t, r) = self.ret();
                if r is Ok {
                    Step::Running(t)
                } else {
                    Step::Stopped(t, r)
                }
            },
            Instruction::Call(addr) => {
                let (t, r) = self.call(addr);
                if r is Ok {
                    Step::Running(t)
                } else {
                    Step::Stopped(t, r)
                }
            },
            Instruction::AddXY(x, y) => Step::Running(self.add_xy(x as int, y as int)),
            Instruction::Unimplemented(word) => Step::Stopped(
                self,
                Err(CpuError::UnimplementedOpcode(word)),
            ),
        }
    }

    /// One turn of the dispatch loop: fetch, advance the program counter by
    /// two, decode, execute.
    pub open spec fn step(self) -> Step {
        if !self.can_fetch() {
            Step::Stopped(self, Err(CpuError::MemoryBounds))
        } else {
            self.advanced().execute(instruction_spec(self.fetched()))
        }
    }

    /// The state and outcome in which the dispatch loop ends when started here.
    pub open spec fn run(self) -> (CpuState, Result<(), CpuError>)
        decreases self.rank(),
        when self.wf()
    {
        match self.step() {
            Step::Running(t) => {
                proof {
                    lemma_step_progress(self);
                }
                t.run()
            },
            Step::Stopped(t, r) => (t, r),
        }
    }

    /// The return addresses on the stack, oldest first, then the program counter.
    pub open spec fn frames(self) -> Seq<int> {
        Seq::new(self.stack_pointer, |i: int| self.stack[i] as int).push(
            self.program_counter as int,
        )
    }

    /// A measure that every step that keeps the machine running lowers: the
    /// frames read as digits, most significant first, where a higher address
    /// is a lower digit and a missing frame is digit zero.
    pub open spec fn rank(self) -> int {
        frames_rank(self.frames())
    }
}

/// Base of the digits that `frames_rank` reads frames as.
pub open spec fn rank_base() -> int {
    MEMORY_SIZE + 2
}

/// The digit of one frame: the further an address lies from the end of
/// memory, the higher.
pub open spec fn frame_digit(addr: int) -> int {
    if addr >= MEMORY_SIZE + 1 {
        0
    } else {
        MEMORY_SIZE + 1 - addr
    }
}

/// `rank_base()` to the power `e`, for `e >= 0`.
pub open spec fn place(e: int) -> int
    decreases e,
{
    if e <= 0 {
        1
    } else {
        rank_base() * place(e - 1)
    }
}

/// The number whose digits are those of the frames, the first frame in the
/// place of highest weight (there are at most `STACK_SIZE + 1` frames).
pub open spec fn frames_rank(f: Seq<int>) -> int
    decreases f.len(),
{
    if f.len() == 0 {
        0
    } else {
        frames_rank(f.drop_last()) + frame_digit(f.last()) * place(
            STACK_SIZE + 1 - f.len(),
        )
    }
}

proof fn lemma_place_positive(e: int)
    ensures
        place(e) > 0,
    decreases e,
{
    if e > 0 {
        lemma_place_positive(e - 1);
        assert(rank_base() * place(e - 1) > 0) by (nonlinear_arith)
            requires
                place(e - 1) > 0,
        ;
    }
}

proof fn lemma_frames_rank_nonnegative(f: Seq<int>)
    ensures
        frames_rank(f) >= 0,
    decreases f.len(),
{
    if f.len() > 0 {
        let p = place(STACK_SIZE + 1 - f.len());
        lemma_frames_rank_nonnegative(f.drop_last());
        lemma_place_positive(STACK_SIZE + 1 - f.len());
        let d = frame_digit(f.last());
        assert(d * p >= 0) by (nonlinear_arith)
            requires
                d >= 0,
                p > 0,
        ;
    }
}

proof fn lemma_frames_rank_push(f: Seq<int>, v: int)
    ensures
        frames_rank(f.push(v)) == frames_rank(f) + frame_digit(v) * place(
            STACK_SIZE - f.len(),
        ),
{
    assert(f.push(v).drop_last() =~= f);
}

/// A step that keeps the machine running keeps it well formed and lowers its
/// rank, which never drops below zero.
pub proof fn lemma_step_progress(s: CpuState)
    requires
        s.wf(),
        s.step() is Running,
    ensures
        s.step()->Running_0.wf(),
        0 <= s.step()->Running_0.rank() < s.rank(),
{
    let t = s.step()->Running_0;
    let a = s.advanced();
    let sp = s.stack_pointer;
    let pc = s.program_counter as int;
    let prefix = Seq::new(sp, |i: int| s.stack[i] as int);
    let p = place(STACK_SIZE - sp);
    lemma_place_positive(STACK_SIZE - sp);
    lemma_frames_rank_push(prefix, pc);
    lemma_frames_rank_nonnegative(t.frames());
    assert(s.frames() == prefix.push(pc));
    let d = frame_digit(pc);
    assert(d >= 3);
    match instruction_spec(s.fetched()) {
        Instruction::AddXY(x, y) => {
            assert(t.frames() =~= prefix.push(pc + 2));
            lemma_frames_rank_push(prefix, pc + 2);
            assert((d - 2) * p < d * p) by (nonlinear_arith)
                requires
                    p > 0,
            ;
        },
        Instruction::Call(addr) => {
            let q = place(STACK_SIZE - sp - 1);
            let e = frame_digit(addr as int);
            assert(Seq::new(t.stack_pointer, |i: int| t.stack[i] as int) =~= prefix.push(pc + 2));
            assert(t.frames() == prefix.push(pc + 2).push(addr as int));
            lemma_frames_rank_push(prefix, pc + 2);
            lemma_frames_rank_push(prefix.push(pc + 2), addr as int);
            assert(p == rank_base() * q);
            assert((d - 2) * p + e * q < d * p) by (nonlinear_arith)
                requires
                    p == rank_base() * q,
                    q > 0,
                    0 <= e < rank_base(),
            ;
        },
        Instruction::Return => {
            assert(t.frames() =~= prefix);
            assert(d * p > 0) by (nonlinear_arith)
                requires
                    d > 0,
                    p > 0,
            ;
        },
        _ => {},
    }
}

/// A halt instruction at the program counter ends the run at once and with
/// success: nothing is executed, and the registers, memory and stack are left
/// as they were; only the program counter has moved past the halt.
pub proof fn lemma_halt_stops_at_once(s: CpuState)
    requires
        s.wf(),
        s.can_fetch(),
        s.fetched() == 0,
    ensures
        s.run() == (s.advanced(), Ok::<(), CpuError>(())),
        s.run().0.registers == s.registers,
{
    assert(instruction_spec(0u16) == Instruction::Halt);
}

/// A word that matches no entry of the opcode table ends the run with
/// `UnimplementedOpcode` carrying that word; the registers, memory and stack
/// stay as they were before it was fetched.
pub proof fn lemma_unimplemented_is_fatal(s: CpuState)
    requires
        s.wf(),
        s.can_fetch(),
        instruction_spec(s.fetched()) is Unimplemented,
    ensures
        s.run() == (s.advanced(), Err::<(), CpuError>(CpuError::UnimplementedOpcode(s.fetched()))),
        s.run().0.registers == s.registers,
{
}

/// A call instruction that finds room on the stack jumps to its address and
/// saves the address of the instruction after it, so that a return taken
/// straight away comes back there with the stack as deep as before.
pub proof fn lemma_call_then_return(s: CpuState)
    requires
        s.wf(),
        s.can_fetch(),
        instruction_spec(s.fetched()) is Call,
        s.stack_pointer < STACK_SIZE,
    ensures
        s.step() is Running,
        s.step()->Running_0.program_counter == address_of(s.fetched()),
        s.step()->Running_0.ret().1 is Ok,
        s.step()->Running_0.ret().0.program_counter == s.program_counter + 2,
        s.step()->Running_0.ret().0.stack_pointer == s.stack_pointer,
{
}

} // verus!
