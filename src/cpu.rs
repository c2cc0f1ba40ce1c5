//! The executable emulator, proved against the model in `machine`.
use vstd::prelude::*;

use crate::decode::{Instruction, combine_bytes, instruction_of, instruction_spec};
use crate::machine::{
    CpuError,
    CpuState,
    FLAG_REGISTER,
    MEMORY_SIZE,
    REGISTER_COUNT,
    STACK_SIZE,
    Step,
    lemma_step_progress,
};

verus! {

/// The emulator: registers, program counter, memory and call stack.
pub struct CPU {
    registers: [u8; REGISTER_COUNT],
    program_counter: usize,
    memory: [u8; MEMORY_SIZE],
    stack: [u16; STACK_SIZE],
    stack_pointer: usize,
}

impl View for CPU {
    type V = CpuState;

    closed spec fn view(&self) -> CpuState {
        CpuState {
            registers: self.registers@,
            program_counter: self.program_counter as nat,
            memory: self.memory@,
            stack: self.stack@,
            stack_pointer: self.stack_pointer as nat,
        }
    }
}

impl CPU {
    /// Every CPU this module hands out is well formed.
    pub open spec fn wf(&self) -> bool {
        self@.wf()
    }

    /// A CPU with every register, byte of memory and stack slot zero, the
    /// program counter at 0 and the stack empty.
    pub fn new() -> (cpu: CPU)
        ensures
            cpu.wf(),
            cpu@ == CpuState::zeroed(),
    {
        let cpu = CPU {
            registers: [0u8; REGISTER_COUNT],
            program_counter: 0,
            memory: [0u8; MEMORY_SIZE],
            stack: [0u16; STACK_SIZE],
            stack_pointer: 0,
        };
        assert(cpu.registers@ =~= CpuState::zeroed().registers);
        assert(cpu.memory@ =~= CpuState::zeroed().memory);
        assert(cpu.stack@ =~= CpuState::zeroed().stack);
        cpu
    }

    /// The value of register `i`.
    pub fn register(&self, i: usize) -> (v: u8)
        requires
            self.wf(),
            i < REGISTER_COUNT,
        ensures
            v == self@.registers[i as int],
    {
        self.registers[i]
    }

    /// Sets register `i` to `v`, leaving the rest of the state alone.
    pub fn set_register(&mut self, i: usize, v: u8)
        requires
            old(self).wf(),
            i < REGISTER_COUNT,
        ensures
            final(self)@ == (CpuState { registers: old(self)@.registers.update(i as int, v), ..old(self)@ }),
    {
        self.registers[i] = v;
        assert(self@ =~= (CpuState { registers: old(self)@.registers.update(i as int, v), ..old(self)@ }));
    }

    /// Copies `bytes` into memory starting at `addr`, leaving the rest of the
    /// state alone.
    pub fn load(&mut self, addr: usize, bytes: &[u8])
        requires
            old(self).wf(),
            addr + bytes@.len() <= MEMORY_SIZE,
        ensures
            final(self)@ == (CpuState { memory: old(self)@.loaded(addr as int, bytes@), ..old(self)@ }),
    {
        let mut k: usize = 0;
        while k < bytes.len()
            invariant
                self.wf(),
                k <= bytes@.len(),
                addr + bytes@.len() <= MEMORY_SIZE,
                self@ == (CpuState { memory: self@.memory, ..old(self)@ }),
                self@.memory =~= old(self)@.loaded(addr as int, bytes@.take(k as int)),
            decreases bytes@.len() - k,
        {
            self.memory[addr + k] = bytes[k];
            k = k + 1;
            assert(self@.memory =~= old(self)@.loaded(addr as int, bytes@.take(k as int)));
        }
        assert(bytes@.take(k as int) =~= bytes@);
    }

    /// The address of the next instruction to fetch.
    pub fn program_counter(&self) -> (pc: usize)
        ensures
            pc == self@.program_counter,
    {
        self.program_counter
    }

    /// The number of return addresses on the call stack.
    pub fn stack_pointer(&self) -> (sp: usize)
        ensures
            sp == self@.stack_pointer,
    {
        self.stack_pointer
    }

    /// Reads the instruction word at the program counter: the byte there is
    /// the high byte, the next one the low byte.
    pub fn read_opcode(&self) -> (word: u16)
        requires
            self@.can_fetch(),
        ensures
            word == self@.fetched(),
    {
        let p = self.program_counter;
        combine_bytes(self.memory[p], self.memory[p + 1])
    }

    /// Adds register `y` into register `x` modulo 256, then sets the flag
    /// register to 1 if the sum overflowed and to 0 if not.
    pub fn add_xy(&mut self, x: u8, y: u8)
        requires
            old(self).wf(),
            x < REGISTER_COUNT,
            y < REGISTER_COUNT,
        ensures
            final(self)@ == old(self)@.add_xy(x as int, y as int),
    {
        let arg1 = self.registers[x as usize];
        let arg2 = self.registers[y as usize];
        let sum: u16 = arg1 as u16 + arg2 as u16;
        let overflow = sum > 255;
        self.registers[x as usize] = (sum % 256) as u8;
        self.registers[FLAG_REGISTER] = if overflow {
            1
        } else {
            0
        };
        assert(self@ =~= old(self)@.add_xy(x as int, y as int));
    }

    /// Pushes the program counter onto the call stack and jumps to `addr`.
    /// With all `STACK_SIZE` slots in use the call fails and nothing changes.
    pub fn call(&mut self, addr: u16) -> (r: Result<(), CpuError>)
        requires
            old(self).wf(),
        ensures
            (final(self)@, r) == old(self)@.call(addr),
    {
        let sp = self.stack_pointer;
        if sp >= STACK_SIZE {
            return Err(CpuError::StackOverflow);
        }
        self.stack[sp] = self.program_counter as u16;
        self.stack_pointer = sp + 1;
        self.program_counter = addr as usize;
        assert(self@ =~= old(self)@.call(addr).0);
        Ok(())
    }

    /// Pops a return address off the call stack and jumps to it. With the
    /// stack empty the return fails and nothing changes.
    pub fn ret(&mut self) -> (r: Result<(), CpuError>)
        requires
            old(self).wf(),
        ensures
            (final(self)@, r) == old(self)@.ret(),
    {
        if self.stack_pointer == 0 {
            return Err(CpuError::StackUnderflow);
        }
        self.stack_pointer = self.stack_pointer - 1;
        self.program_counter = self.stack[self.stack_pointer] as usize;
        assert(self@ =~= old(self)@.ret().0);
        Ok(())
    }

    /// Performs one turn of the dispatch loop and tells whether the loop goes
    /// on (`None`) or how it ends.
    fn step(&mut self) -> (r: Option<Result<(), CpuError>>)
        requires
            old(self).wf(),
        ensures
            final(self).wf(),
            match old(self)@.step() {
                Step::Running(t) => r is None && final(self)@ == t,
                Step::Stopped(t, o) => r == Some(o) && final(self)@ == t,
            },
    {
        if self.program_counter >= MEMORY_SIZE - 1 {
            return Some(Err(CpuError::MemoryBounds));
        }
        let opcode = self.read_opcode();
        self.program_counter = self.program_counter + 2;
        assert(self@ =~= old(self)@.advanced());
        match instruction_of(opcode) {
            Instruction::Halt => Some(Ok(())),
            Instruction::Return => match self.ret() {
                Ok(()) => None,
                Err(e) => Some(Err(e)),
            },
            Instruction::Call(nnn) => match self.call(nnn) {
                Ok(()) => None,
                Err(e) => Some(Err(e)),
            },
            Instruction::AddXY(x, y) => {
                self.add_xy(x, y);
                None
            },
            Instruction::Unimplemented(word) => Some(Err(CpuError::UnimplementedOpcode(word))),
        }
    }

    /// Runs the dispatch loop from the current state until a halt instruction
    /// (`Ok`) or a fatal condition (`Err`). The final state and outcome are
    /// those of the model's `run`.
    pub fn run(&mut self) -> (r: Result<(), CpuError>)
        requires
            old(self).wf(),
        ensures
            final(self).wf(),
            (final(self)@, r) == old(self)@.run(),
    {
        loop
            invariant
                self.wf(),
                self@.run() == old(self)@.run(),
            decreases self@.rank(),
        {
            let ghost before = self@;
            match self.step() {
                None => {
                    proof {
                        lemma_step_progress(before);
                    }
                },
                Some(r) => {
                    return r;
                },
            }
        }
    }
}

} // verus!
