use vstd::prelude::*;

verus! {

/// Total number of addressable bytes.
pub const MEM_SIZE: usize = 4096;

/// Address of the first program byte.
pub const PROGRAM_START: usize = 0x200;

/// Largest program image that fits between `PROGRAM_START` and the end of memory.
pub const MAX_PROGRAM_SIZE: usize = 3584;

/// Number of bytes in each font glyph.
pub const FONT_SPRITE_HEIGHT: u8 = 5;

/// Reduces an address to the 12-bit address space.
pub open spec fn wrap_addr(a: int) -> int {
    a % (MEM_SIZE as int)
}

/// The word formed by the byte at `addr` (high) and the one after it (low).
pub open spec fn word_at(mem: Seq<u8>, addr: int) -> u16 {
    (mem[wrap_addr(addr)] as int * 256 + mem[wrap_addr(addr + 1)] as int) as u16
}

/// Memory after storing `w` at `addr`, high byte first.
pub open spec fn with_word(mem: Seq<u8>, addr: int, w: u16) -> Seq<u8> {
    mem.update(wrap_addr(addr), (w / 256) as u8).update(wrap_addr(addr + 1), (w % 256) as u8)
}

/// The glyph table preloaded at address 0: glyph `g` occupies bytes `5 * g .. 5 * g + 5`.
pub open spec fn font_glyphs() -> Seq<u8> {
    seq![
        0xF0u8, 0x90u8, 0x90u8, 0x90u8, 0xF0u8, // 0
        0x20u8, 0x60u8, 0x20u8, 0x20u8, 0x70u8, // 1
        0xF0u8, 0x10u8, 0xF0u8, 0x80u8, 0xF0u8, // 2
        0xF0u8, 0x10u8, 0xF0u8, 0x10u8, 0xF0u8, // 3
        0x90u8, 0x90u8, 0xF0u8, 0x10u8, 0x10u8, // 4
        0xF0u8, 0x80u8, 0xF0u8, 0x10u8, 0xF0u8, // 5
        0xF0u8, 0x80u8, 0xF0u8, 0x90u8, 0xF0u8, // 6
        0xF0u8, 0x10u8, 0x20u8, 0x40u8, 0x40u8, // 7
        0xF0u8, 0x90u8, 0xF0u8, 0x90u8, 0xF0u8, // 8
        0xF0u8, 0x90u8, 0xF0u8, 0x10u8, 0xF0u8, // 9
        0xF0u8, 0x90u8, 0xF0u8, 0x90u8, 0x90u8, // A
        0xE0u8, 0x90u8, 0xE0u8, 0x90u8, 0xE0u8, // B
        0xF0u8, 0x80u8, 0x80u8, 0x80u8, 0xF0u8, // C
        0xE0u8, 0x90u8, 0x90u8, 0x90u8, 0xE0u8, // D
        0xF0u8, 0x80u8, 0xF0u8, 0x80u8, 0xF0u8, // E
        0xF0u8, 0x80u8, 0xF0u8, 0x80u8, 0x80u8, // F
    ]
}

/// A fresh copy of the glyph table.
pub fn font_set() -> (r: Vec<u8>)
    ensures
        r@ == font_glyphs(),
{
    vec![
        0xF0u8, 0x90u8, 0x90u8, 0x90u8, 0xF0u8, // 0
        0x20u8, 0x60u8, 0x20u8, 0x20u8, 0x70u8, // 1
        0xF0u8, 0x10u8, 0xF0u8, 0x80u8, 0xF0u8, // 2
        0xF0u8, 0x10u8, 0xF0u8, 0x10u8, 0xF0u8, // 3
        0x90u8, 0x90u8, 0xF0u8, 0x10u8, 0x10u8, // 4
        0xF0u8, 0x80u8, 0xF0u8, 0x10u8, 0xF0u8, // 5
        0xF0u8, 0x80u8, 0xF0u8, 0x90u8, 0xF0u8, // 6
        0xF0u8, 0x10u8, 0x20u8, 0x40u8, 0x40u8, // 7
        0xF0u8, 0x90u8, 0xF0u8, 0x90u8, 0xF0u8, // 8
        0xF0u8, 0x90u8, 0xF0u8, 0x10u8, 0xF0u8, // 9
        0xF0u8, 0x90u8, 0xF0u8, 0x90u8, 0x90u8, // A
        0xE0u8, 0x90u8, 0xE0u8, 0x90u8, 0xE0u8, // B
        0xF0u8, 0x80u8, 0x80u8, 0x80u8, 0xF0u8, // C
        0xE0u8, 0x90u8, 0x90u8, 0x90u8, 0xE0u8, // D
        0xF0u8, 0x80u8, 0xF0u8, 0x80u8, 0xF0u8, // E
        0xF0u8, 0x80u8, 0xF0u8, 0x80u8, 0x80u8, // F
    ]
}

pub struct Chip8Mmu {
    memory: Vec<u8>,
}

impl View for Chip8Mmu {
    type V = Seq<u8>;

    closed spec fn view(&self) -> Seq<u8> {
        self.memory@
    }
}

/// Reading a word back from the address it was just written to gives the same
/// word, at every address (the last one wraps to address 0).
pub proof fn lemma_word_round_trip(mem: Seq<u8>, addr: u16, w: u16)
    requires
        mem.len() == MEM_SIZE,
    ensures
        word_at(with_word(mem, addr as int, w), addr as int) == w,
{
    let m = with_word(mem, addr as int, w);
    assert(wrap_addr(addr as int) != wrap_addr(addr + 1));
    assert(m[wrap_addr(addr as int)] == (w / 256) as u8);
    assert(m[wrap_addr(addr + 1)] == (w % 256) as u8);
}

/// Why a program image could not be loaded.
#[derive(Debug, Clone, Copy, PartialEq, Eq, Structural)]
pub enum LoadError {
    /// The image holds `len` bytes, more than the `MAX_PROGRAM_SIZE` that fit.
    ProgramTooLarge { len: usize },
}

impl Chip8Mmu {
    pub open spec fn wf(&self) -> bool {
        self@.len() == MEM_SIZE
    }

    /// Zeroed memory with the glyph table at address 0.
    pub fn new() -> (r: Chip8Mmu)
        ensures
            r.wf(),
            r@.subrange(0, 80) == font_glyphs(),
            forall|a: int| 80 <= a < MEM_SIZE ==> r@[a] == 0,
    {
        let mut memory = font_set();
        while memory.len() < MEM_SIZE
            invariant
                80 <= memory@.len() <= MEM_SIZE,
                memory@.subrange(0, 80) == font_glyphs(),
                forall|a: int| 80 <= a < memory@.len() ==> memory@[a] == 0,
            decreases MEM_SIZE - memory@.len(),
        {
            memory.push(0);
        }
        Chip8Mmu { memory }
    }

    /// All of memory, address 0 first.
    pub fn as_slice(&self) -> (r: &[u8])
        ensures
            r@ == self@,
    {
        self.memory.as_slice()
    }

    pub fn read_u8(&self, address: u16) -> (r: u8)
        requires
            self.wf(),
        ensures
            r == self@[wrap_addr(address as int)],
    {
        self.memory[address as usize % MEM_SIZE]
    }

    /// Reads the big-endian word at `address`; the low byte comes from the next
    /// address, wrapping past the end of memory.
    pub fn read_u16(&self, address: u16) -> (r: u16)
        requires
            self.wf(),
        ensures
            r == word_at(self@, address as int),
    {
        let hi = self.memory[address as usize % MEM_SIZE];
        let lo = self.memory[(address as usize + 1) % MEM_SIZE];
        hi as u16 * 256 + lo as u16
    }

    pub fn write_u8(&mut self, address: u16, data: u8)
        requires
            old(self).wf(),
        ensures
            final(self).wf(),
            final(self)@ == old(self)@.update(wrap_addr(address as int), data),
    {
        self.memory.set(address as usize % MEM_SIZE, data);
    }

    /// Stores `data` big-endian at `address`, the low byte at the next address
    /// (wrapping past the end of memory).
    pub fn write_u16(&mut self, address: u16, data: u16)
        requires
            old(self).wf(),
        ensures
            final(self).wf(),
            final(self)@ == with_word(old(self)@, address as int, data),
    {
        self.memory.set(address as usize % MEM_SIZE, (data / 256) as u8);
        self.memory.set((address as usize + 1) % MEM_SIZE, (data % 256) as u8);
    }

    /// Copies `program` to `PROGRAM_START`. An image longer than
    /// `MAX_PROGRAM_SIZE` is refused and memory is left as it was.
    pub fn load_program(&mut self, program: &[u8]) -> (r: Result<(), LoadError>)
        requires
            old(self).wf(),
        ensures
            final(self).wf(),
            r is Ok <==> program@.len() <= MAX_PROGRAM_SIZE,
            r is Err ==> r == Err::<(), LoadError>(LoadError::ProgramTooLarge { len: program@.len() as usize })
                && final(self)@ == old(self)@,
            r is Ok ==> final(self)@ == old(self)@.subrange(0, PROGRAM_START as int) + program@
                + old(self)@.subrange(PROGRAM_START + program@.len(), MEM_SIZE as int),
    {
        if program.len() > MAX_PROGRAM_SIZE {
            return Err(LoadError::ProgramTooLarge { len: program.len() });
        }
        let mut i: usize = 0;
        while i < program.len()
            invariant
                self.wf(),
                i <= program@.len() <= MAX_PROGRAM_SIZE,
                forall|a: int| 0 <= a < MEM_SIZE && !(PROGRAM_START <= a < PROGRAM_START + i)
                    ==> self@[a] == old(self)@[a],
                forall|k: int| 0 <= k < i ==> self@[PROGRAM_START + k] == program@[k],
            decreases program@.len() - i,
        {
            self.memory.set(PROGRAM_START + i, program[i]);
            i += 1;
        }
        assert(self@ =~= old(self)@.subrange(0, PROGRAM_START as int) + program@
            + old(self)@.subrange(PROGRAM_START + program@.len(), MEM_SIZE as int));
        Ok(())
    }
}

} // verus!
