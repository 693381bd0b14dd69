use vstd::prelude::*;
use crate::error::EmuError;

verus! {

/// Bytes of addressable memory.
pub const MEMORY_SIZE: usize = 65536;

/// Number of general-purpose registers.
pub const REGISTER_COUNT: usize = 16;

/// Number of return addresses the call stack can hold.
pub const STACK_SIZE: usize = 16;

/// The register that arithmetic instructions use as their carry flag.
pub const FLAG_REGISTER: usize = 15;

/// A decoded instruction.
#[derive(Clone, Copy, Debug, PartialEq, Eq)]
pub enum Instruction {
    /// `0x0000`: stop the machine.
    Halt,
    /// `0x00EE`: return from a subroutine.
    Return,
    /// `0x2NNN`: call the subroutine at `NNN`.
    Call(u16),
    /// `0x8XY4`: add register `Y` to register `X`, carry into the flag register.
    AddXY(u8, u8),
}

/// What a single step left the machine doing.
#[derive(Clone, Copy, Debug, PartialEq, Eq)]
pub enum Flow {
    Continue,
    Halt,
}

/// The mathematical state of the interpreter.
pub struct CpuModel {
    pub registers: Seq<u8>,
    pub memory: Seq<u8>,
    pub pc: int,
    pub stack: Seq<u16>,
    pub sp: int,
}

/// The result of running the model for a while.
pub enum Outcome {
    /// Still running, in this state.
    Continue(CpuModel),
    /// Stopped on a halt instruction, in this state.
    Halted(CpuModel),
    /// Stopped on a fault, in this state.
    Failed(CpuModel, EmuError),
}

impl CpuModel {
    pub open spec fn wf(self) -> bool {
        &&& self.registers.len() == REGISTER_COUNT
        &&& self.memory.len() == MEMORY_SIZE
        &&& self.stack.len() == STACK_SIZE
        &&& 0 <= self.sp <= STACK_SIZE
        &&& 0 <= self.pc <= usize::MAX
    }
}

/// The nibbles of an opcode, most significant first, and its low twelve bits.
pub open spec fn nibble_c(op: u16) -> int { op as int / 4096 }
pub open spec fn nibble_x(op: u16) -> int { (op as int / 256) % 16 }
pub open spec fn nibble_y(op: u16) -> int { (op as int / 16) % 16 }
pub open spec fn nibble_d(op: u16) -> int { op as int % 16 }
pub open spec fn address_of(op: u16) -> int { op as int % 4096 }

/// Which instruction an opcode stands for, if any.
pub open spec fn decode_spec(op: u16) -> Option<Instruction> {
    let (c, x, y, d) = (nibble_c(op), nibble_x(op), nibble_y(op), nibble_d(op));
    if c == 0 && x == 0 && y == 0 && d == 0 {
        Some(Instruction::Halt)
    } else if c == 0 && x == 0 && y == 0xE && d == 0xE {
        Some(Instruction::Return)
    } else if c == 8 && d == 4 {
        Some(Instruction::AddXY(x as u8, y as u8))
    } else if c == 2 {
        Some(Instruction::Call(address_of(op) as u16))
    } else {
        None
    }
}

/// The big-endian word stored at `p` and `p + 1`.
pub open spec fn opcode_at(memory: Seq<u8>, p: int) -> u16 {
    (memory[p] as int * 256 + memory[p + 1] as int) as u16
}

/// Register `x` takes `x + y` modulo 256; the flag register records the carry.
pub open spec fn add_model(s: CpuModel, x: int, y: int) -> CpuModel {
    let sum = s.registers[x] as int + s.registers[y] as int;
    CpuModel {
        registers: s.registers.update(x, (sum % 256) as u8).update(
            FLAG_REGISTER as int,
            if sum > 255 { 1u8 } else { 0u8 },
        ),
        ..s
    }
}

/// Push the program counter and jump to `addr`.
pub open spec fn call_model(s: CpuModel, addr: u16) -> Outcome {
    if s.sp >= STACK_SIZE {
        Outcome::Failed(s, EmuError::StackOverflow)
    } else if s.pc > u16::MAX {
        Outcome::Failed(s, EmuError::ProgramCounterOutOfRange(s.pc as usize))
    } else {
        Outcome::Continue(
            CpuModel { stack: s.stack.update(s.sp, s.pc as u16), sp: s.sp + 1, pc: addr as int, ..s },
        )
    }
}

/// Pop a return address into the program counter.
pub open spec fn ret_model(s: CpuModel) -> Outcome {
    if s.sp <= 0 {
        Outcome::Failed(s, EmuError::StackUnderflow)
    } else {
        Outcome::Continue(CpuModel { sp: s.sp - 1, pc: s.stack[s.sp - 1] as int, ..s })
    }
}

/// Fetch the instruction at the program counter, advance past it, and execute it.
pub open spec fn step_model(s: CpuModel) -> Outcome {
    if s.pc + 1 >= MEMORY_SIZE {
        Outcome::Failed(s, EmuError::ProgramCounterOutOfRange(s.pc as usize))
    } else {
        let op = opcode_at(s.memory, s.pc);
        let t = CpuModel { pc: s.pc + 2, ..s };
        match decode_spec(op) {
            None => Outcome::Failed(t, EmuError::UnsupportedOpcode(op)),
            Some(Instruction::Halt) => Outcome::Halted(t),
            Some(Instruction::Return) => ret_model(t),
            Some(Instruction::Call(addr)) => call_model(t, addr),
            Some(Instruction::AddXY(x, y)) => Outcome::Continue(add_model(t, x as int, y as int)),
        }
    }
}

/// The outcome of `n` steps from `s`; a stopped machine stays stopped.
pub open spec fn run_model(s: CpuModel, n: nat) -> Outcome
    decreases n,
{
    if n == 0 {
        Outcome::Continue(s)
    } else {
        match run_model(s, (n - 1) as nat) {
            Outcome::Continue(t) => step_model(t),
            other => other,
        }
    }
}

/// A stack level's distance from completion. Every step lowers the levels,
/// read from the bottom of the stack up, in lexicographic order: the levels
/// below the stack pointer hold pending returns, the level at it the
/// program counter.
spec fn level_rank(s: CpuModel, i: int) -> int {
    if i < s.sp {
        262144 - 2 * s.stack[i] as int
    } else if i == s.sp {
        262144 - 2 * s.pc - 1
    } else {
        0
    }
}

/// Calls to `addrs`, in order, each from the state the previous one left.
pub open spec fn call_many(s: CpuModel, addrs: Seq<u16>) -> Outcome
    decreases addrs.len(),
{
    if addrs.len() == 0 {
        Outcome::Continue(s)
    } else {
        match call_many(s, addrs.drop_last()) {
            Outcome::Continue(t) => call_model(t, addrs.last()),
            other => other,
        }
    }
}

/// A machine whose memory holds only zero words stops on its first fetch:
/// after any number of steps it is still at the start or halted, with its
/// registers, stack and stack pointer as they were.
pub proof fn lemma_zero_program_halts(s: CpuModel, n: nat)
    requires
        s.wf(),
        s.pc + 1 < MEMORY_SIZE,
        forall|i: int| 0 <= i < MEMORY_SIZE ==> s.memory[i] == 0,
    ensures
        n == 0 ==> run_model(s, n) == Outcome::Continue(s),
        n > 0 ==> run_model(s, n) == Outcome::Halted(CpuModel { pc: s.pc + 2, ..s }),
    decreases n,
{
    if n > 1 {
        lemma_zero_program_halts(s, (n - 1) as nat);
    } else if n == 1 {
        assert(run_model(s, 0) == Outcome::Continue(s));
        assert(opcode_at(s.memory, s.pc) == 0u16);
        assert(decode_spec(0u16) == Some(Instruction::Halt));
    }
}

/// A call followed at once by a return puts back the program counter, the
/// stack pointer and the registers; only the freed slot keeps the address.
pub proof fn lemma_call_ret_round_trip(s: CpuModel, addr: u16)
    requires
        s.wf(),
        s.sp < STACK_SIZE,
        s.pc <= u16::MAX,
    ensures
        call_model(s, addr) is Continue,
        ret_model(call_model(s, addr)->Continue_0) == Outcome::Continue(
            CpuModel { stack: s.stack.update(s.sp, s.pc as u16), ..s },
        ),
{
}

/// More calls than the stack has free slots end in `StackOverflow`; a
/// return on an empty stack ends in `StackUnderflow`.
pub proof fn lemma_stack_bounds(s: CpuModel, addrs: Seq<u16>)
    requires
        s.wf(),
        s.pc <= u16::MAX,
        addrs.len() > STACK_SIZE - s.sp,
    ensures
        call_many(s, addrs) matches Outcome::Failed(_, e) && e == EmuError::StackOverflow,
        s.sp == 0 ==> ret_model(s) == Outcome::Failed(s, EmuError::StackUnderflow),
{
    let free = (STACK_SIZE - s.sp) as nat;
    lemma_calls_fill_stack(s, addrs, free);
    lemma_overflow_persists(s, addrs, (free + 1) as nat);
}

proof fn lemma_calls_fill_stack(s: CpuModel, addrs: Seq<u16>, k: nat)
    requires
        s.wf(),
        s.pc <= u16::MAX,
        k <= STACK_SIZE - s.sp,
        k <= addrs.len(),
    ensures
        call_many(s, addrs.take(k as int)) matches Outcome::Continue(t) && t.wf() && t.sp == s.sp + k
            && t.pc <= u16::MAX,
    decreases k,
{
    if k > 0 {
        lemma_calls_fill_stack(s, addrs, (k - 1) as nat);
        assert(addrs.take(k as int).drop_last() =~= addrs.take(k - 1));
    } else {
        assert(addrs.take(0) =~= Seq::<u16>::empty());
    }
}

proof fn lemma_overflow_persists(s: CpuModel, addrs: Seq<u16>, k: nat)
    requires
        s.wf(),
        s.pc <= u16::MAX,
        k == STACK_SIZE - s.sp + 1,
        k <= addrs.len(),
    ensures
        call_many(s, addrs) matches Outcome::Failed(_, e) && e == EmuError::StackOverflow,
    decreases addrs.len() - k,
{
    if addrs.len() == k {
        lemma_calls_fill_stack(s, addrs, (k - 1) as nat);
        assert(addrs.drop_last() =~= addrs.take(k - 1));
    } else {
        lemma_overflow_persists(s, addrs.drop_last(), k);
    }
}

/// The interpreter: registers, memory, call stack and program counter.
pub struct CPU {
    pub registers: [u8; 16],
    pub position_in_memory: usize,
    pub memory: Vec<u8>,
    pub stack: [u16; 16],
    pub stack_pointer: usize,
}

impl View for CPU {
    type V = CpuModel;

    open spec fn view(&self) -> CpuModel {
        CpuModel {
            registers: self.registers@,
            memory: self.memory@,
            pc: self.position_in_memory as int,
            stack: self.stack@,
            sp: self.stack_pointer as int,
        }
    }
}

/// Decodes an opcode by its four nibbles.
pub fn decode(opcode: u16) -> (r: Option<Instruction>)
    ensures
        r == decode_spec(opcode),
{
    let c = opcode / 4096;
    let x = ((opcode / 256) % 16) as u8;
    let y = ((opcode / 16) % 16) as u8;
    let d = opcode % 16;
    let nnn = opcode % 4096;
    if c == 0 && x == 0 && y == 0 && d == 0 {
        Some(Instruction::Halt)
    } else if c == 0 && x == 0 && y == 0xE && d == 0xE {
        Some(Instruction::Return)
    } else if c == 8 && d == 4 {
        Some(Instruction::AddXY(x, y))
    } else if c == 2 {
        Some(Instruction::Call(nnn))
    } else {
        None
    }
}

impl CPU {
    pub open spec fn wf(&self) -> bool {
        self@.wf()
    }

    /// A machine with zeroed registers, memory and stack, about to execute address 0.
    pub fn new() -> (r: Self)
        ensures
            r.wf(),
            r.position_in_memory == 0,
            r.stack_pointer == 0,
            forall|i: int| 0 <= i < REGISTER_COUNT ==> r.registers[i] == 0,
            forall|i: int| 0 <= i < MEMORY_SIZE ==> r.memory@[i] == 0,
            forall|i: int| 0 <= i < STACK_SIZE ==> r.stack[i] == 0,
    {
        Self {
            registers: [0; 16],
            memory: vec![0u8; MEMORY_SIZE],
            position_in_memory: 0,
            stack: [0; 16],
            stack_pointer: 0,
        }
    }

    /// Copies `program` into memory starting at `start`.
    pub fn load(&mut self, start: usize, program: &[u8])
        requires
            old(self).wf(),
            start + program@.len() <= MEMORY_SIZE,
        ensures
            final(self).wf(),
            final(self).memory@ == old(self).memory@.take(start as int) + program@
                + old(self).memory@.skip(start + program@.len()),
            final(self).registers == old(self).registers,
            final(self).stack == old(self).stack,
            final(self).stack_pointer == old(self).stack_pointer,
            final(self).position_in_memory == old(self).position_in_memory,
    {
        let ghost before = self.memory@;
        let mut i: usize = 0;
        while i < program.len()
            invariant
                self.wf(),
                start + program@.len() <= MEMORY_SIZE,
                i <= program@.len(),
                self.registers == old(self).registers,
                self.stack == old(self).stack,
                self.stack_pointer == old(self).stack_pointer,
                self.position_in_memory == old(self).position_in_memory,
                before == old(self).memory@,
                forall|k: int| 0 <= k < start ==> self.memory@[k] == before[k],
                forall|k: int| 0 <= k < i ==> self.memory@[start + k] == program@[k],
                forall|k: int| start + i <= k < MEMORY_SIZE ==> self.memory@[k] == before[k],
            decreases program@.len() - i,
        {
            self.memory.set(start + i, program[i]);
            i = i + 1;
        }
        assert(self.memory@ =~= before.take(start as int) + program@ + before.skip(
            start + program@.len(),
        ));
    }

    /// The big-endian instruction word at the program counter.
    pub fn read_opcode(&self) -> (r: u16)
        requires
            self.wf(),
            self.position_in_memory + 1 < MEMORY_SIZE,
        ensures
            r == opcode_at(self.memory@, self.position_in_memory as int),
    {
        let p = self.position_in_memory;
        let op_byte1 = self.memory[p] as u16;
        let op_byte2 = self.memory[p + 1] as u16;
        assert((op_byte1 << 8u16) | op_byte2 == op_byte1 * 256 + op_byte2) by (bit_vector)
            requires
                op_byte1 < 256,
                op_byte2 < 256,
        ;
        op_byte1 << 8u16 | op_byte2
    }

    /// Adds register `y` into register `x` modulo 256, and sets the flag
    /// register to 1 on a carry out of eight bits, else to 0.
    pub fn add_xy(&mut self, x: u8, y: u8)
        requires
            old(self).wf(),
            x < REGISTER_COUNT,
            y < REGISTER_COUNT,
        ensures
            final(self).wf(),
            final(self)@ == add_model(old(self)@, x as int, y as int),
            x != FLAG_REGISTER ==> final(self).registers[x as int] as int == (
            old(self).registers[x as int] as int + old(self).registers[y as int] as int) % 256,
            final(self).registers[FLAG_REGISTER as int] == (if old(self).registers[x as int] as int
                + old(self).registers[y as int] as int > 255 {
                1u8
            } else {
                0u8
            }),
    {
        let arg1 = self.registers[x as usize];
        let arg2 = self.registers[y as usize];
        let sum = arg1 as u16 + arg2 as u16;
        self.registers[x as usize] = (sum % 256) as u8;
        if sum > 255 {
            self.registers[FLAG_REGISTER] = 1;
        } else {
            self.registers[FLAG_REGISTER] = 0;
        }
        assert(self@.registers =~= add_model(old(self)@, x as int, y as int).registers);
    }

    /// Pushes the program counter and jumps to `addr`. Fails with
    /// `StackOverflow` when every slot is in use, and with
    /// `ProgramCounterOutOfRange` when the counter does not fit in a slot.
    pub fn call(&mut self, addr: u16) -> (r: Result<(), EmuError>)
        requires
            old(self).wf(),
        ensures
            final(self).wf(),
            match call_model(old(self)@, addr) {
                Outcome::Continue(s) => r == Ok::<(), EmuError>(()) && final(self)@ == s,
                Outcome::Failed(s, e) => r == Err::<(), EmuError>(e) && final(self)@ == s,
                Outcome::Halted(_) => false,
            },
    {
        let sp = self.stack_pointer;
        if sp >= STACK_SIZE {
            return Err(EmuError::StackOverflow);
        }
        if self.position_in_memory > 0xFFFF {
            return Err(EmuError::ProgramCounterOutOfRange(self.position_in_memory));
        }
        self.stack[sp] = self.position_in_memory as u16;
        self.stack_pointer = sp + 1;
        self.position_in_memory = addr as usize;
        assert(self@.stack =~= old(self)@.stack.update(sp as int, old(self)@.pc as u16));
        Ok(())
    }

    /// Pops the most recent return address into the program counter. Fails
    /// with `StackUnderflow` when the stack is empty.
    pub fn ret(&mut self) -> (r: Result<(), EmuError>)
        requires
            old(self).wf(),
        ensures
            final(self).wf(),
            match ret_model(old(self)@) {
                Outcome::Continue(s) => r == Ok::<(), EmuError>(()) && final(self)@ == s,
                Outcome::Failed(s, e) => r == Err::<(), EmuError>(e) && final(self)@ == s,
                Outcome::Halted(_) => false,
            },
    {
        if self.stack_pointer == 0 {
            return Err(EmuError::StackUnderflow);
        }
        self.stack_pointer = self.stack_pointer - 1;
        let call_addr = self.stack[self.stack_pointer];
        self.position_in_memory = call_addr as usize;
        Ok(())
    }

    /// Executes one instruction: fetch, advance the counter by 2, decode, dispatch.
    pub fn step(&mut self) -> (r: Result<Flow, EmuError>)
        requires
            old(self).wf(),
        ensures
            final(self).wf(),
            match step_model(old(self)@) {
                Outcome::Continue(s) => r == Ok::<Flow, EmuError>(Flow::Continue) && final(self)@ == s,
                Outcome::Halted(s) => r == Ok::<Flow, EmuError>(Flow::Halt) && final(self)@ == s,
                Outcome::Failed(s, e) => r == Err::<Flow, EmuError>(e) && final(self)@ == s,
            },
    {
        if self.position_in_memory >= MEMORY_SIZE - 1 {
            return Err(EmuError::ProgramCounterOutOfRange(self.position_in_memory));
        }
        let opcode = self.read_opcode();
        self.position_in_memory = self.position_in_memory + 2;
        match decode(opcode) {
            None => Err(EmuError::UnsupportedOpcode(opcode)),
            Some(Instruction::Halt) => Ok(Flow::Halt),
            Some(Instruction::Return) => match self.ret() {
                Ok(()) => Ok(Flow::Continue),
                Err(e) => Err(e),
            },
            Some(Instruction::Call(addr)) => match self.call(addr) {
                Ok(()) => Ok(Flow::Continue),
                Err(e) => Err(e),
            },
            Some(Instruction::AddXY(x, y)) => {
                self.add_xy(x, y);
                Ok(Flow::Continue)
            },
        }
    }

    /// Executes instructions from the program counter until a halt
    /// instruction (`Ok`) or a fault (`Err`). The final state is the one the
    /// model reaches after some number of steps.
    pub fn run(&mut self) -> (r: Result<(), EmuError>)
        requires
            old(self).wf(),
        ensures
            final(self).wf(),
            exists|n: nat|
                #[trigger] run_model(old(self)@, n) == match r {
                    Ok(_) => Outcome::Halted(final(self)@),
                    Err(e) => Outcome::Failed(final(self)@, e),
                },
    {
        let ghost start = self@;
        let ghost mut n: nat = 0;
        loop
            invariant
                self.wf(),
                start == old(self)@,
                run_model(start, n) == Outcome::Continue(self@),
            decreases
                level_rank(self@, 0),
                level_rank(self@, 1),
                level_rank(self@, 2),
                level_rank(self@, 3),
                level_rank(self@, 4),
                level_rank(self@, 5),
                level_rank(self@, 6),
                level_rank(self@, 7),
                level_rank(self@, 8),
                level_rank(self@, 9),
                level_rank(self@, 10),
                level_rank(self@, 11),
                level_rank(self@, 12),
                level_rank(self@, 13),
                level_rank(self@, 14),
                level_rank(self@, 15),
                level_rank(self@, 16),
        {
            let res = self.step();
            proof {
                n = n + 1;
            }
            match res {
                Ok(Flow::Continue) => {},
                Ok(Flow::Halt) => {
                    assert(run_model(start, n) == Outcome::Halted(self@));
                    return Ok(());
                },
                Err(e) => {
                    assert(run_model(start, n) == Outcome::Failed(self@, e));
                    return Err(e);
                },
            }
        }
    }
}

} // verus!
