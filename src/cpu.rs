use vstd::prelude::*;

use crate::display::{collides, drawn, FrameBuffer, SCREEN_PIXELS};
use crate::keypad::{key_down, pressed_key, Keypad};
use crate::mmu::{word_at, wrap_addr, Chip8Mmu, FONT_SPRITE_HEIGHT, MEM_SIZE};

verus! {

/// Number of general-purpose registers.
pub const NUM_REGISTERS: usize = 16;

/// Deepest nesting of subroutine calls.
pub const STACK_SIZE: usize = 16;

/// Register that receives carries, borrows, shifted-out bits and collisions.
pub const CARRY_REGISTER: usize = 15;

/// Address of the first instruction executed.
pub const START_ADDRESS: u16 = 0x200;

/// Bytes per instruction.
pub const OPCODE_SIZE: u16 = 2;

/// The whole machine as the instruction set sees it.
pub struct CpuState {
    pub memory: Seq<u8>,
    pub screen: Seq<bool>,
    pub registers: Seq<u8>,
    pub index: u16,
    pub program_counter: u16,
    pub delay_timer: u8,
    pub sound_timer: u8,
    pub stack: Seq<u16>,
    pub key_latch: Option<u8>,
}

pub open spec fn state_wf(s: CpuState) -> bool {
    &&& s.memory.len() == MEM_SIZE
    &&& s.screen.len() == SCREEN_PIXELS
    &&& s.registers.len() == NUM_REGISTERS
    &&& s.index < MEM_SIZE
    &&& s.program_counter < MEM_SIZE
    &&& s.stack.len() <= STACK_SIZE
    &&& forall|i: int| 0 <= i < s.stack.len() ==> s.stack[i] < MEM_SIZE
}

/// A fatal condition met while executing `opcode` fetched from `program_counter`.
#[derive(Debug, Clone, Copy, PartialEq, Eq, Structural)]
pub enum CpuError {
    /// The instruction word has no defined meaning.
    UndefinedInstruction { opcode: u16, program_counter: u16 },
    /// A return with no active call.
    StackUnderflow { opcode: u16, program_counter: u16 },
    /// A call with `STACK_SIZE` calls already active.
    StackOverflow { opcode: u16, program_counter: u16 },
}

/// What the sound output should do after a timer tick.
#[derive(Debug, Clone, Copy, PartialEq, Eq, Structural)]
pub enum AudioCommand {
    Play,
    Pause,
}

/// The instruction family: the top four bits.
pub open spec fn family(op: u16) -> int {
    op as int / 4096
}

/// The 12-bit address operand.
pub open spec fn operand_nnn(op: u16) -> u16 {
    (op as int % 4096) as u16
}

/// The 8-bit immediate operand.
pub open spec fn operand_nn(op: u16) -> u8 {
    (op as int % 256) as u8
}

/// The first register operand.
pub open spec fn operand_x(op: u16) -> int {
    (op as int / 256) % 16
}

/// The second register operand.
pub open spec fn operand_y(op: u16) -> int {
    (op as int / 16) % 16
}

/// The lowest four bits.
pub open spec fn operand_n(op: u16) -> int {
    op as int % 16
}

/// The address `delta` bytes past `a`, in the 12-bit address space.
pub open spec fn addr_plus(a: u16, delta: int) -> u16 {
    wrap_addr(a + delta) as u16
}

/// The registers after the register-to-register operation selected by `sub`,
/// or `None` where `sub` selects none. The bitwise operations (1, 2, 3) clear
/// the carry register. The shifts (6, E) store the shifted-out bit in the
/// carry register first and then shift register X, so that with X the carry
/// register itself the shifted flag remains.
pub open spec fn alu(regs: Seq<u8>, x: int, y: int, sub: int) -> Option<Seq<u8>> {
    let (vx, vy) = (regs[x], regs[y]);
    if sub == 0x0 {
        Some(regs.update(x, vy))
    } else if sub == 0x1 {
        Some(regs.update(x, vx | vy).update(CARRY_REGISTER as int, 0))
    } else if sub == 0x2 {
        Some(regs.update(x, vx & vy).update(CARRY_REGISTER as int, 0))
    } else if sub == 0x3 {
        Some(regs.update(x, vx ^ vy).update(CARRY_REGISTER as int, 0))
    } else if sub == 0x4 {
        Some(regs.update(x, ((vx + vy) % 256) as u8).update(
            CARRY_REGISTER as int,
            if vx + vy > 255 { 1u8 } else { 0u8 },
        ))
    } else if sub == 0x5 {
        Some(regs.update(x, ((vx - vy) % 256) as u8).update(
            CARRY_REGISTER as int,
            if vx >= vy { 1u8 } else { 0u8 },
        ))
    } else if sub == 0x6 {
        let flagged = regs.update(CARRY_REGISTER as int, vx % 2);
        Some(flagged.update(x, flagged[x] / 2))
    } else if sub == 0x7 {
        Some(regs.update(x, ((vy - vx) % 256) as u8).update(
            CARRY_REGISTER as int,
            if vy >= vx { 1u8 } else { 0u8 },
        ))
    } else if sub == 0xE {
        let flagged = regs.update(CARRY_REGISTER as int, vx / 128);
        Some(flagged.update(x, ((flagged[x] * 2) % 256) as u8))
    } else {
        None
    }
}

/// The `n` bytes that a sprite of height `n` reads, starting at `index`.
pub open spec fn sprite_rows(mem: Seq<u8>, index: u16, n: int) -> Seq<u8> {
    Seq::new(n as nat, |i: int| mem[wrap_addr(index + i)])
}

/// Memory after registers `0 .. n` are stored, in order, from `index` on.
pub open spec fn store_registers(mem: Seq<u8>, index: u16, regs: Seq<u8>, n: int) -> Seq<u8>
    decreases n,
{
    if n <= 0 {
        mem
    } else {
        store_registers(mem, index, regs, n - 1).update(wrap_addr(index + n - 1), regs[n - 1])
    }
}

/// Registers after registers `0 .. n` are loaded from memory from `index` on.
pub open spec fn load_registers(mem: Seq<u8>, index: u16, regs: Seq<u8>, n: int) -> Seq<u8> {
    Seq::new(regs.len(), |i: int| if i < n { mem[wrap_addr(index + i)] } else { regs[i] })
}

/// The error for an instruction word `op` without a meaning, met in state `s`.
pub open spec fn undefined(s: CpuState, op: u16) -> CpuError {
    CpuError::UndefinedInstruction { opcode: op, program_counter: s.program_counter }
}

/// The state after executing `op` in state `s`, with `keys` held down and
/// `random` as the random byte, or the fatal error that `op` meets.
pub open spec fn step(s: CpuState, op: u16, keys: Seq<bool>, random: u8) -> Result<CpuState, CpuError> {
    let next = addr_plus(s.program_counter, 2);
    let skip = addr_plus(s.program_counter, 4);
    let x = operand_x(op);
    let y = operand_y(op);
    let nn = operand_nn(op);
    let nnn = operand_nnn(op);
    let (vx, vy) = (s.registers[x], s.registers[y]);
    let f = family(op);
    if f == 0x0 {
        if nnn == 0x0E0 {
            Ok(CpuState { screen: Seq::new(SCREEN_PIXELS as nat, |i: int| false), program_counter: next, ..s })
        } else if nnn == 0x0EE {
            if s.stack.len() == 0 {
                Err(CpuError::StackUnderflow { opcode: op, program_counter: s.program_counter })
            } else {
                Ok(CpuState { program_counter: s.stack.last(), stack: s.stack.drop_last(), ..s })
            }
        } else {
            Err(undefined(s, op))
        }
    } else if f == 0x1 {
        Ok(CpuState { program_counter: nnn, ..s })
    } else if f == 0x2 {
        if s.stack.len() >= STACK_SIZE {
            Err(CpuError::StackOverflow { opcode: op, program_counter: s.program_counter })
        } else {
            Ok(CpuState { program_counter: nnn, stack: s.stack.push(next), ..s })
        }
    } else if f == 0x3 {
        Ok(CpuState { program_counter: if vx == nn { skip } else { next }, ..s })
    } else if f == 0x4 {
        Ok(CpuState { program_counter: if vx != nn { skip } else { next }, ..s })
    } else if f == 0x5 {
        Ok(CpuState { program_counter: if vx == vy { skip } else { next }, ..s })
    } else if f == 0x6 {
        Ok(CpuState { registers: s.registers.update(x, nn), program_counter: next, ..s })
    } else if f == 0x7 {
        Ok(CpuState { registers: s.registers.update(x, ((vx + nn) % 256) as u8), program_counter: next, ..s })
    } else if f == 0x8 {
        match alu(s.registers, x, y, operand_n(op)) {
            Some(regs) => Ok(CpuState { registers: regs, program_counter: next, ..s }),
            None => Err(undefined(s, op)),
        }
    } else if f == 0x9 {
        Ok(CpuState { program_counter: if vx != vy { skip } else { next }, ..s })
    } else if f == 0xA {
        Ok(CpuState { index: nnn, program_counter: next, ..s })
    } else if f == 0xB {
        Ok(CpuState { program_counter: addr_plus(nnn, s.registers[0] as int), ..s })
    } else if f == 0xC {
        Ok(CpuState { registers: s.registers.update(x, random & nn), program_counter: next, ..s })
    } else if f == 0xD {
        let rows = sprite_rows(s.memory, s.index, operand_n(op));
        Ok(CpuState {
            screen: drawn(s.screen, vx as int, vy as int, rows),
            registers: s.registers.update(
                CARRY_REGISTER as int,
                if collides(s.screen, vx as int, vy as int, rows) { 1u8 } else { 0u8 },
            ),
            program_counter: next,
            ..s
        })
    } else if f == 0xE {
        if nn == 0x9E {
            Ok(CpuState { program_counter: if key_down(keys, vx as int) { skip } else { next }, ..s })
        } else if nn == 0xA1 {
            Ok(CpuState { program_counter: if !key_down(keys, vx as int) { skip } else { next }, ..s })
        } else {
            Err(undefined(s, op))
        }
    } else {
        step_misc(s, op, keys)
    }
}

/// The `F` family: timers, key wait, index arithmetic and register transfer.
/// The key wait (`FX0A`) waits for a press and then a release: while a key is
/// down it is latched and the program counter stays; once no key is down, a
/// latched key goes to register X and the program counter moves on.
pub open spec fn step_misc(s: CpuState, op: u16, keys: Seq<bool>) -> Result<CpuState, CpuError> {
    let next = addr_plus(s.program_counter, 2);
    let x = operand_x(op);
    let vx = s.registers[x];
    let nn = operand_nn(op);
    if nn == 0x07 {
        Ok(CpuState { registers: s.registers.update(x, s.delay_timer), program_counter: next, ..s })
    } else if nn == 0x0A {
        match pressed_key(keys) {
            Some(k) => Ok(CpuState { key_latch: Some(k), ..s }),
            None => match s.key_latch {
                Some(k) => Ok(CpuState {
                    registers: s.registers.update(x, k),
                    key_latch: None,
                    program_counter: next,
                    ..s
                }),
                None => Ok(s),
            },
        }
    } else if nn == 0x15 {
        Ok(CpuState { delay_timer: vx, program_counter: next, ..s })
    } else if nn == 0x18 {
        Ok(CpuState { sound_timer: vx, program_counter: next, ..s })
    } else if nn == 0x1E {
        Ok(CpuState { index: addr_plus(s.index, vx as int), program_counter: next, ..s })
    } else if nn == 0x29 {
        Ok(CpuState { index: (5 * vx) as u16, program_counter: next, ..s })
    } else if nn == 0x33 {
        Ok(CpuState {
            memory: s.memory.update(wrap_addr(s.index as int), vx / 100)
                .update(wrap_addr(s.index + 1), (vx % 100) / 10)
                .update(wrap_addr(s.index + 2), vx % 10),
            program_counter: next,
            ..s
        })
    } else if nn == 0x55 {
        Ok(CpuState {
            memory: store_registers(s.memory, s.index, s.registers, x + 1),
            program_counter: next,
            ..s
        })
    } else if nn == 0x65 {
        Ok(CpuState {
            registers: load_registers(s.memory, s.index, s.registers, x + 1),
            program_counter: next,
            ..s
        })
    } else {
        Err(undefined(s, op))
    }
}

/// The word at the program counter.
pub open spec fn fetch(s: CpuState) -> u16 {
    word_at(s.memory, s.program_counter as int)
}

/// The state after one 60 Hz tick: both timers count down, stopping at 0.
pub open spec fn tick(s: CpuState) -> CpuState {
    CpuState {
        delay_timer: if s.delay_timer > 0 { (s.delay_timer - 1) as u8 } else { 0 },
        sound_timer: if s.sound_timer > 0 { (s.sound_timer - 1) as u8 } else { 0 },
        ..s
    }
}

/// Whether a call that returned `r` and left `after` behind did what `expected` says:
/// the new state on success; on a fatal error, that error and no change at all.
pub open spec fn stepped(
    before: CpuState,
    after: CpuState,
    r: Result<(), CpuError>,
    expected: Result<CpuState, CpuError>,
) -> bool {
    match expected {
        Ok(s) => r is Ok && after == s,
        Err(e) => r == Err::<(), CpuError>(e) && after == before,
    }
}

/// The state after `n` consecutive 60 Hz ticks.
pub open spec fn after_ticks(s: CpuState, n: nat) -> CpuState
    decreases n,
{
    if n == 0 {
        s
    } else {
        tick(after_ticks(s, (n - 1) as nat))
    }
}

/// Ticks count the delay timer down by one each until it reaches 0, where it
/// stays: after `n` ticks it holds `d - n`, or 0 once `n >= d`.
pub proof fn lemma_delay_timer_countdown(s: CpuState, n: nat)
    ensures
        after_ticks(s, n).delay_timer == (if n >= s.delay_timer { 0 } else { s.delay_timer - n }),
    decreases n,
{
    if n > 0 {
        lemma_delay_timer_countdown(s, (n - 1) as nat);
    }
}

/// The operands of the instruction word with family `f`, registers `x` and
/// `y`, and low nibble `n`.
proof fn lemma_decode_xy(f: u16, x: u16, y: u16, n: u16)
    requires
        f < 16,
        x < 16,
        y < 16,
        n < 16,
    ensures
        ({
            let op = (f * 4096 + x * 256 + y * 16 + n) as u16;
            &&& family(op) == f
            &&& operand_x(op) == x
            &&& operand_y(op) == y
            &&& operand_n(op) == n
        }),
{
    let op = (f * 4096 + x * 256 + y * 16 + n) as u16;
    assert(op / 4096 == f && (op / 256) % 16 == x && (op / 16) % 16 == y && op % 16 == n) by (bit_vector)
        requires
            f < 16,
            x < 16,
            y < 16,
            n < 16,
            op == f * 4096 + x * 256 + y * 16 + n,
    ;
}

/// The add-with-carry instruction `8XY4`, for every pair of register values
/// `a` (in X) and `b` (in Y): X receives `(a + b) mod 256` and the carry
/// register 1 exactly when `a + b > 255`. X must not be the carry register
/// itself, whose result the carry overwrites.
pub proof fn lemma_add_with_carry(s: CpuState, x: u16, y: u16, keys: Seq<bool>, random: u8)
    requires
        state_wf(s),
        x < CARRY_REGISTER,
        y < NUM_REGISTERS,
    ensures
        ({
            let (a, b) = (s.registers[x as int], s.registers[y as int]);
            let op = (0x8004 + x * 256 + y * 16) as u16;
            step(s, op, keys, random) matches Ok(t)
                && t.registers[x as int] == (a + b) % 256
                && (t.registers[CARRY_REGISTER as int] == 1 <==> a + b > 255)
                && t.registers[CARRY_REGISTER as int] <= 1
        }),
{
    let op = (0x8004 + x * 256 + y * 16) as u16;
    lemma_decode_xy(0x8, x, y, 4);
    let regs = alu(s.registers, x as int, y as int, 4).unwrap();
    assert(step(s, op, keys, random) == Ok::<CpuState, CpuError>(
        CpuState { registers: regs, program_counter: addr_plus(s.program_counter, 2), ..s },
    ));
}

/// The subtract-with-borrow instruction `8XY5`, for every pair of register
/// values `a` (in X) and `b` (in Y): X receives `(a - b) mod 256` and the carry
/// register 1 exactly when `a >= b`, that is when no borrow occurs. X must not
/// be the carry register itself, whose result the carry overwrites.
pub proof fn lemma_subtract_with_borrow(s: CpuState, x: u16, y: u16, keys: Seq<bool>, random: u8)
    requires
        state_wf(s),
        x < CARRY_REGISTER,
        y < NUM_REGISTERS,
    ensures
        ({
            let (a, b) = (s.registers[x as int], s.registers[y as int]);
            let op = (0x8005 + x * 256 + y * 16) as u16;
            step(s, op, keys, random) matches Ok(t)
                && t.registers[x as int] == (a - b) % 256
                && (t.registers[CARRY_REGISTER as int] == 1 <==> a >= b)
                && t.registers[CARRY_REGISTER as int] <= 1
        }),
{
    let op = (0x8005 + x * 256 + y * 16) as u16;
    lemma_decode_xy(0x8, x, y, 5);
    let regs = alu(s.registers, x as int, y as int, 5).unwrap();
    assert(step(s, op, keys, random) == Ok::<CpuState, CpuError>(
        CpuState { registers: regs, program_counter: addr_plus(s.program_counter, 2), ..s },
    ));
}

/// The interpreter: registers, timers, call stack, memory and screen.
pub struct Cpu {
    mmu: Chip8Mmu,
    screen: FrameBuffer,
    registers: Vec<u8>,
    index: u16,
    program_counter: u16,
    delay_timer: u8,
    sound_timer: u8,
    stack: Vec<u16>,
    key_latch: Option<u8>,
}

impl View for Cpu {
    type V = CpuState;

    closed spec fn view(&self) -> CpuState {
        CpuState {
            memory: self.mmu@,
            screen: self.screen@,
            registers: self.registers@,
            index: self.index,
            program_counter: self.program_counter,
            delay_timer: self.delay_timer,
            sound_timer: self.sound_timer,
            stack: self.stack@,
            key_latch: self.key_latch,
        }
    }
}

impl Cpu {
    pub open spec fn wf(&self) -> bool {
        state_wf(self@)
    }

    /// Whether the screen changed since it was last marked clean.
    pub closed spec fn screen_changed(&self) -> bool {
        self.screen.changed()
    }

    /// A machine that runs the program in `mmu` from `START_ADDRESS`, with
    /// clear registers, timers and screen, and no active call.
    pub fn new(mmu: Chip8Mmu) -> (r: Cpu)
        requires
            mmu.wf(),
        ensures
            r.wf(),
            r@.memory == mmu@,
            r@.screen == Seq::new(SCREEN_PIXELS as nat, |i: int| false),
            r@.registers == Seq::new(NUM_REGISTERS as nat, |i: int| 0u8),
            r@.index == 0,
            r@.program_counter == START_ADDRESS,
            r@.delay_timer == 0,
            r@.sound_timer == 0,
            r@.stack.len() == 0,
            r@.key_latch is None,
    {
        let screen = FrameBuffer::new();
        let mut registers: Vec<u8> = Vec::new();
        while registers.len() < NUM_REGISTERS
            invariant
                registers@.len() <= NUM_REGISTERS,
                forall|i: int| 0 <= i < registers@.len() ==> registers@[i] == 0,
            decreases NUM_REGISTERS - registers@.len(),
        {
            registers.push(0);
        }
        let r = Cpu {
            mmu,
            screen,
            registers,
            index: 0,
            program_counter: START_ADDRESS,
            delay_timer: 0,
            sound_timer: 0,
            stack: Vec::new(),
            key_latch: None,
        };
        assert(r@.screen =~= Seq::new(SCREEN_PIXELS as nat, |i: int| false));
        assert(r@.registers =~= Seq::new(NUM_REGISTERS as nat, |i: int| 0u8));
        r
    }

    /// One 60 Hz tick: counts both timers down (stopping at 0) and says
    /// whether the tone should sound, which it does while the sound timer was
    /// above 0.
    pub fn run_60hz_cycle(&mut self) -> (r: AudioCommand)
        requires
            old(self).wf(),
        ensures
            final(self).wf(),
            final(self)@ == tick(old(self)@),
            r == (if old(self)@.sound_timer > 0 { AudioCommand::Play } else { AudioCommand::Pause }),
    {
        let r = if self.sound_timer > 0 {
            self.sound_timer = self.sound_timer - 1;
            AudioCommand::Play
        } else {
            AudioCommand::Pause
        };
        if self.delay_timer > 0 {
            self.delay_timer = self.delay_timer - 1;
        }
        r
    }

    pub fn register(&self, x: usize) -> (r: u8)
        requires
            self.wf(),
            x < NUM_REGISTERS,
        ensures
            r == self@.registers[x as int],
    {
        self.registers[x]
    }

    pub fn set_register(&mut self, x: usize, value: u8)
        requires
            old(self).wf(),
            x < NUM_REGISTERS,
        ensures
            final(self).wf(),
            final(self)@ == (CpuState { registers: old(self)@.registers.update(x as int, value), ..old(self)@ }),
    {
        self.registers.set(x, value);
    }

    pub fn index(&self) -> (r: u16)
        ensures
            r == self@.index,
    {
        self.index
    }

    /// Sets the index register; the address is reduced to 12 bits.
    pub fn set_index(&mut self, address: u16)
        requires
            old(self).wf(),
        ensures
            final(self).wf(),
            final(self)@ == (CpuState { index: wrap_addr(address as int) as u16, ..old(self)@ }),
    {
        self.index = address % MEM_SIZE as u16;
    }

    pub fn program_counter(&self) -> (r: u16)
        ensures
            r == self@.program_counter,
    {
        self.program_counter
    }

    pub fn delay_timer(&self) -> (r: u8)
        ensures
            r == self@.delay_timer,
    {
        self.delay_timer
    }

    pub fn sound_timer(&self) -> (r: u8)
        ensures
            r == self@.sound_timer,
    {
        self.sound_timer
    }

    /// The return addresses of the active calls, the innermost last.
    pub fn call_stack(&self) -> (r: &[u16])
        ensures
            r@ == self@.stack,
    {
        self.stack.as_slice()
    }

    pub fn memory(&self) -> (r: &Chip8Mmu)
        ensures
            r@ == self@.memory,
    {
        &self.mmu
    }

    pub fn screen(&self) -> (r: &FrameBuffer)
        ensures
            r@ == self@.screen,
            r.changed() == self.screen_changed(),
    {
        &self.screen
    }

    /// Records that the screen's current contents have been shown.
    pub fn mark_screen_clean(&mut self)
        requires
            old(self).wf(),
        ensures
            final(self).wf(),
            final(self)@ == old(self)@,
            !final(self).screen_changed(),
    {
        self.screen.mark_clean();
    }
}

impl Cpu {
    /// Moves the program counter past the current instruction, or past the
    /// next one too when `skip` holds.
    fn advance(&mut self, skip: bool)
        requires
            old(self).wf(),
        ensures
            final(self).wf(),
            final(self)@ == (CpuState {
                program_counter: addr_plus(old(self)@.program_counter, if skip { 4 } else { 2 }),
                ..old(self)@
            }),
    {
        let delta: u16 = if skip { 2 * OPCODE_SIZE } else { OPCODE_SIZE };
        self.program_counter = (self.program_counter + delta) % MEM_SIZE as u16;
    }

    fn split_xnn(opcode: u16) -> (r: (usize, u8))
        ensures
            r.0 == operand_x(opcode),
            r.1 == operand_nn(opcode),
    {
        (((opcode / 256) % 16) as usize, (opcode % 256) as u8)
    }

    fn split_xyn(opcode: u16) -> (r: (usize, usize, u8))
        ensures
            r.0 == operand_x(opcode),
            r.1 == operand_y(opcode),
            r.2 == operand_n(opcode),
    {
        (((opcode / 256) % 16) as usize, ((opcode / 16) % 16) as usize, (opcode % 16) as u8)
    }

    fn undefined_instruction(&self, opcode: u16) -> (e: CpuError)
        ensures
            e == undefined(self@, opcode),
    {
        CpuError::UndefinedInstruction { opcode, program_counter: self.program_counter }
    }

    /// Clear the screen, or return from a subroutine.
    fn opcode_0(&mut self, opcode: u16, keys: &Keypad, random: u8) -> (r: Result<(), CpuError>)
        requires
            old(self).wf(),
            family(opcode) == 0x0,
        ensures
            final(self).wf(),
            stepped(old(self)@, final(self)@, r, step(old(self)@, opcode, keys@, random)),
    {
        let nnn = opcode % 4096;
        if nnn == 0x0E0 {
            self.screen.blank_screen();
            self.advance(false);
            assert(self@.screen =~= Seq::new(SCREEN_PIXELS as nat, |i: int| false));
            Ok(())
        } else if nnn == 0x0EE {
            match self.stack.pop() {
                Some(address) => {
                    self.program_counter = address;
                    Ok(())
                },
                None => Err(CpuError::StackUnderflow { opcode, program_counter: self.program_counter }),
            }
        } else {
            Err(self.undefined_instruction(opcode))
        }
    }

    /// Jump.
    fn opcode_1(&mut self, opcode: u16, keys: &Keypad, random: u8) -> (r: Result<(), CpuError>)
        requires
            old(self).wf(),
            family(opcode) == 0x1,
        ensures
            final(self).wf(),
            stepped(old(self)@, final(self)@, r, step(old(self)@, opcode, keys@, random)),
    {
        self.program_counter = opcode % 4096;
        Ok(())
    }

    /// Call a subroutine.
    fn opcode_2(&mut self, opcode: u16, keys: &Keypad, random: u8) -> (r: Result<(), CpuError>)
        requires
            old(self).wf(),
            family(opcode) == 0x2,
        ensures
            final(self).wf(),
            stepped(old(self)@, final(self)@, r, step(old(self)@, opcode, keys@, random)),
    {
        if self.stack.len() >= STACK_SIZE {
            return Err(CpuError::StackOverflow { opcode, program_counter: self.program_counter });
        }
        self.stack.push((self.program_counter + OPCODE_SIZE) % MEM_SIZE as u16);
        self.program_counter = opcode % 4096;
        Ok(())
    }

    /// Skip if a register equals an immediate.
    fn opcode_3(&mut self, opcode: u16, keys: &Keypad, random: u8) -> (r: Result<(), CpuError>)
        requires
            old(self).wf(),
            family(opcode) == 0x3,
        ensures
            final(self).wf(),
            stepped(old(self)@, final(self)@, r, step(old(self)@, opcode, keys@, random)),
    {
        let (x, nn) = Self::split_xnn(opcode);
        let skip = self.registers[x] == nn;
        self.advance(skip);
        Ok(())
    }

    /// Skip if a register differs from an immediate.
    fn opcode_4(&mut self, opcode: u16, keys: &Keypad, random: u8) -> (r: Result<(), CpuError>)
        requires
            old(self).wf(),
            family(opcode) == 0x4,
        ensures
            final(self).wf(),
            stepped(old(self)@, final(self)@, r, step(old(self)@, opcode, keys@, random)),
    {
        let (x, nn) = Self::split_xnn(opcode);
        let skip = self.registers[x] != nn;
        self.advance(skip);
        Ok(())
    }

    /// Skip if two registers are equal.
    fn opcode_5(&mut self, opcode: u16, keys: &Keypad, random: u8) -> (r: Result<(), CpuError>)
        requires
            old(self).wf(),
            family(opcode) == 0x5,
        ensures
            final(self).wf(),
            stepped(old(self)@, final(self)@, r, step(old(self)@, opcode, keys@, random)),
    {
        let (x, y, _) = Self::split_xyn(opcode);
        let skip = self.registers[x] == self.registers[y];
        self.advance(skip);
        Ok(())
    }

    /// Load an immediate.
    fn opcode_6(&mut self, opcode: u16, keys: &Keypad, random: u8) -> (r: Result<(), CpuError>)
        requires
            old(self).wf(),
            family(opcode) == 0x6,
        ensures
            final(self).wf(),
            stepped(old(self)@, final(self)@, r, step(old(self)@, opcode, keys@, random)),
    {
        let (x, nn) = Self::split_xnn(opcode);
        self.registers.set(x, nn);
        self.advance(false);
        Ok(())
    }

    /// Add an immediate, wrapping; the carry register is left alone.
    fn opcode_7(&mut self, opcode: u16, keys: &Keypad, random: u8) -> (r: Result<(), CpuError>)
        requires
            old(self).wf(),
            family(opcode) == 0x7,
        ensures
            final(self).wf(),
            stepped(old(self)@, final(self)@, r, step(old(self)@, opcode, keys@, random)),
    {
        let (x, nn) = Self::split_xnn(opcode);
        let sum = self.registers[x] as u16 + nn as u16;
        self.registers.set(x, (sum % 256) as u8);
        self.advance(false);
        Ok(())
    }
}

impl Cpu {
    /// Register-to-register arithmetic and logic.
    fn opcode_8(&mut self, opcode: u16, keys: &Keypad, random: u8) -> (r: Result<(), CpuError>)
        requires
            old(self).wf(),
            family(opcode) == 0x8,
        ensures
            final(self).wf(),
            stepped(old(self)@, final(self)@, r, step(old(self)@, opcode, keys@, random)),
    {
        let (x, y, n) = Self::split_xyn(opcode);
        if !apply_alu(&mut self.registers, x, y, n) {
            return Err(self.undefined_instruction(opcode));
        }
        self.advance(false);
        Ok(())
    }

    /// Skip if two registers differ.
    fn opcode_9(&mut self, opcode: u16, keys: &Keypad, random: u8) -> (r: Result<(), CpuError>)
        requires
            old(self).wf(),
            family(opcode) == 0x9,
        ensures
            final(self).wf(),
            stepped(old(self)@, final(self)@, r, step(old(self)@, opcode, keys@, random)),
    {
        let (x, y, _) = Self::split_xyn(opcode);
        let skip = self.registers[x] != self.registers[y];
        self.advance(skip);
        Ok(())
    }

    /// Set the index register.
    fn opcode_a(&mut self, opcode: u16, keys: &Keypad, random: u8) -> (r: Result<(), CpuError>)
        requires
            old(self).wf(),
            family(opcode) == 0xA,
        ensures
            final(self).wf(),
            stepped(old(self)@, final(self)@, r, step(old(self)@, opcode, keys@, random)),
    {
        self.index = opcode % 4096;
        self.advance(false);
        Ok(())
    }

    /// Jump to an address plus register 0.
    fn opcode_b(&mut self, opcode: u16, keys: &Keypad, random: u8) -> (r: Result<(), CpuError>)
        requires
            old(self).wf(),
            family(opcode) == 0xB,
        ensures
            final(self).wf(),
            stepped(old(self)@, final(self)@, r, step(old(self)@, opcode, keys@, random)),
    {
        self.program_counter = (opcode % 4096 + self.registers[0] as u16) % MEM_SIZE as u16;
        Ok(())
    }

    /// A random byte masked by an immediate.
    fn opcode_c(&mut self, opcode: u16, keys: &Keypad, random: u8) -> (r: Result<(), CpuError>)
        requires
            old(self).wf(),
            family(opcode) == 0xC,
        ensures
            final(self).wf(),
            stepped(old(self)@, final(self)@, r, step(old(self)@, opcode, keys@, random)),
    {
        let (x, nn) = Self::split_xnn(opcode);
        self.registers.set(x, random & nn);
        self.advance(false);
        Ok(())
    }

    /// Draw a sprite; the carry register records a collision.
    fn opcode_d(&mut self, opcode: u16, keys: &Keypad, random: u8) -> (r: Result<(), CpuError>)
        requires
            old(self).wf(),
            family(opcode) == 0xD,
        ensures
            final(self).wf(),
            stepped(old(self)@, final(self)@, r, step(old(self)@, opcode, keys@, random)),
    {
        let (x, y, n) = Self::split_xyn(opcode);
        let mut rows: Vec<u8> = Vec::new();
        let mut i: u16 = 0;
        while i < n as u16
            invariant
                self.wf(),
                self@ == old(self)@,
                i <= n,
                n < 16,
                rows@ == sprite_rows(self@.memory, self@.index, i as int),
            decreases n - i,
        {
            rows.push(self.mmu.read_u8(self.index + i));
            i += 1;
            assert(rows@ =~= sprite_rows(self@.memory, self@.index, i as int));
        }
        let collision = self.screen.draw(self.registers[x], self.registers[y], rows.as_slice());
        self.registers.set(CARRY_REGISTER, if collision { 1 } else { 0 });
        self.advance(false);
        Ok(())
    }

    /// Skip on the state of the key named by a register.
    fn opcode_e(&mut self, opcode: u16, keys: &Keypad, random: u8) -> (r: Result<(), CpuError>)
        requires
            old(self).wf(),
            keys.wf(),
            family(opcode) == 0xE,
        ensures
            final(self).wf(),
            stepped(old(self)@, final(self)@, r, step(old(self)@, opcode, keys@, random)),
    {
        let (x, nn) = Self::split_xnn(opcode);
        let pressed = keys.is_key_pressed(self.registers[x]);
        if nn == 0x9E {
            self.advance(pressed);
            Ok(())
        } else if nn == 0xA1 {
            self.advance(!pressed);
            Ok(())
        } else {
            Err(self.undefined_instruction(opcode))
        }
    }
}

impl Cpu {
    /// Timers, key wait, index arithmetic and register transfer.
    fn opcode_f(&mut self, opcode: u16, keys: &Keypad, random: u8) -> (r: Result<(), CpuError>)
        requires
            old(self).wf(),
            keys.wf(),
            family(opcode) == 0xF,
        ensures
            final(self).wf(),
            stepped(old(self)@, final(self)@, r, step(old(self)@, opcode, keys@, random)),
    {
        let (x, nn) = Self::split_xnn(opcode);
        let vx = self.registers[x];
        if nn == 0x07 {
            self.registers.set(x, self.delay_timer);
        } else if nn == 0x0A {
            // Wait for a key to be pressed and then released; until then the
            // program counter stays on this instruction.
            match keys.get_pressed_key() {
                Some(key) => {
                    self.key_latch = Some(key);
                    return Ok(());
                },
                None => match self.key_latch {
                    Some(key) => {
                        self.registers.set(x, key);
                        self.key_latch = None;
                    },
                    None => {
                        return Ok(());
                    },
                },
            }
        } else if nn == 0x15 {
            self.delay_timer = vx;
        } else if nn == 0x18 {
            self.sound_timer = vx;
        } else if nn == 0x1E {
            self.index = (self.index + vx as u16) % MEM_SIZE as u16;
        } else if nn == 0x29 {
            self.index = FONT_SPRITE_HEIGHT as u16 * vx as u16;
        } else if nn == 0x33 {
            self.mmu.write_u8(self.index, vx / 100);
            self.mmu.write_u8(self.index + 1, (vx % 100) / 10);
            self.mmu.write_u8(self.index + 2, vx % 10);
        } else if nn == 0x55 {
            let mut i: usize = 0;
            while i <= x
                invariant
                    self.wf(),
                    x < NUM_REGISTERS,
                    i <= x + 1,
                    self@ == (CpuState {
                        memory: store_registers(old(self)@.memory, old(self)@.index, old(self)@.registers, i as int),
                        ..old(self)@
                    }),
                decreases x + 1 - i,
            {
                self.mmu.write_u8(self.index + i as u16, self.registers[i]);
                i += 1;
            }
        } else if nn == 0x65 {
            let mut i: usize = 0;
            assert(self@.registers =~= load_registers(self@.memory, self@.index, self@.registers, 0));
            while i <= x
                invariant
                    self.wf(),
                    x < NUM_REGISTERS,
                    i <= x + 1,
                    self@ == (CpuState {
                        registers: load_registers(old(self)@.memory, old(self)@.index, old(self)@.registers, i as int),
                        ..old(self)@
                    }),
                decreases x + 1 - i,
            {
                let value = self.mmu.read_u8(self.index + i as u16);
                self.registers.set(i, value);
                i += 1;
                assert(self@.registers =~= load_registers(old(self)@.memory, old(self)@.index, old(self)@.registers, i as int));
            }
        } else {
            return Err(self.undefined_instruction(opcode));
        }
        self.advance(false);
        Ok(())
    }

    /// Executes `opcode` as if it had been fetched from the program counter,
    /// with `keys` held down and `random` as the random byte that the masked
    /// random instruction uses. A fatal error leaves the machine unchanged.
    pub fn exec_opcode(&mut self, opcode: u16, keys: &Keypad, random: u8) -> (r: Result<(), CpuError>)
        requires
            old(self).wf(),
            keys.wf(),
        ensures
            final(self).wf(),
            stepped(old(self)@, final(self)@, r, step(old(self)@, opcode, keys@, random)),
    {
        let f = opcode / 4096;
        if f == 0x0 {
            self.opcode_0(opcode, keys, random)
        } else if f == 0x1 {
            self.opcode_1(opcode, keys, random)
        } else if f == 0x2 {
            self.opcode_2(opcode, keys, random)
        } else if f == 0x3 {
            self.opcode_3(opcode, keys, random)
        } else if f == 0x4 {
            self.opcode_4(opcode, keys, random)
        } else if f == 0x5 {
            self.opcode_5(opcode, keys, random)
        } else if f == 0x6 {
            self.opcode_6(opcode, keys, random)
        } else if f == 0x7 {
            self.opcode_7(opcode, keys, random)
        } else if f == 0x8 {
            self.opcode_8(opcode, keys, random)
        } else if f == 0x9 {
            self.opcode_9(opcode, keys, random)
        } else if f == 0xA {
            self.opcode_a(opcode, keys, random)
        } else if f == 0xB {
            self.opcode_b(opcode, keys, random)
        } else if f == 0xC {
            self.opcode_c(opcode, keys, random)
        } else if f == 0xD {
            self.opcode_d(opcode, keys, random)
        } else if f == 0xE {
            self.opcode_e(opcode, keys, random)
        } else {
            self.opcode_f(opcode, keys, random)
        }
    }

    /// Fetches the instruction at the program counter and executes it with
    /// `keys` held down. The random byte comes from the system's generator, so
    /// the outcome is that of `step` for some random byte.
    pub fn run_cycle(&mut self, keys: &Keypad) -> (r: Result<(), CpuError>)
        requires
            old(self).wf(),
            keys.wf(),
        ensures
            final(self).wf(),
            exists|random: u8| stepped(old(self)@, final(self)@, r, #[trigger] step(old(self)@, fetch(old(self)@), keys@, random)),
    {
        let opcode = self.mmu.read_u16(self.program_counter);
        let random = if opcode / 4096 == 0xC { random_byte() } else { 0 };
        let r = self.exec_opcode(opcode, keys, random);
        assert(stepped(old(self)@, self@, r, step(old(self)@, fetch(old(self)@), keys@, random)));
        r
    }
}

/// Applies the register operation selected by `sub` to registers `x` and `y`;
/// returns false, changing nothing, where `sub` selects none.
fn apply_alu(registers: &mut Vec<u8>, x: usize, y: usize, sub: u8) -> (ok: bool)
    requires
        old(registers)@.len() == NUM_REGISTERS,
        x < NUM_REGISTERS,
        y < NUM_REGISTERS,
    ensures
        final(registers)@.len() == NUM_REGISTERS,
        match alu(old(registers)@, x as int, y as int, sub as int) {
            Some(regs) => ok && final(registers)@ == regs,
            None => !ok && final(registers)@ == old(registers)@,
        },
{
    let vx = registers[x];
    let vy = registers[y];
    if sub == 0x0 {
        registers.set(x, vy);
    } else if sub == 0x1 {
        registers.set(x, vx | vy);
        registers.set(CARRY_REGISTER, 0);
    } else if sub == 0x2 {
        registers.set(x, vx & vy);
        registers.set(CARRY_REGISTER, 0);
    } else if sub == 0x3 {
        registers.set(x, vx ^ vy);
        registers.set(CARRY_REGISTER, 0);
    } else if sub == 0x4 {
        let sum = vx as u16 + vy as u16;
        registers.set(x, (sum % 256) as u8);
        registers.set(CARRY_REGISTER, if sum > 255 { 1 } else { 0 });
    } else if sub == 0x5 {
        registers.set(x, ((vx as u16 + 256 - vy as u16) % 256) as u8);
        registers.set(CARRY_REGISTER, if vx >= vy { 1 } else { 0 });
    } else if sub == 0x6 {
        registers.set(CARRY_REGISTER, vx % 2);
        let v = registers[x];
        registers.set(x, v / 2);
    } else if sub == 0x7 {
        registers.set(x, ((vy as u16 + 256 - vx as u16) % 256) as u8);
        registers.set(CARRY_REGISTER, if vy >= vx { 1 } else { 0 });
    } else if sub == 0xE {
        registers.set(CARRY_REGISTER, vx / 128);
        let v = registers[x];
        registers.set(x, ((v as u16 * 2) % 256) as u8);
    } else {
        return false;
    }
    true
}

/// Relies on fastrand::u8 over the full range `..`: it returns some byte and
/// does not panic on that range.
#[verifier::external_body]
fn random_byte() -> (r: u8) {
    fastrand::u8(..)
}

} // verus!
