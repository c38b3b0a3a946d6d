use crate::error::Chip8Error;
use vstd::prelude::*;

verus! {

/// Number of addressable bytes: addresses `0x000..=0xFFF`.
pub const MEMORY_SIZE: usize = 4096;

/// Flat, bounds-checked, byte-addressable store.
pub struct Memory {
    memory_map: [u8; 4096],
}

impl View for Memory {
    type V = Seq<u8>;

    closed spec fn view(&self) -> Seq<u8> {
        self.memory_map@
    }
}

impl Memory {
    /// Zero-filled memory.
    pub fn new() -> (m: Self)
        ensures
            m@.len() == MEMORY_SIZE,
            forall|i: int| 0 <= i < MEMORY_SIZE ==> m@[i] == 0u8,
    {
        Memory { memory_map: [0u8; 4096] }
    }

    /// The view always covers the whole address space.
    pub proof fn lemma_len(&self)
        ensures
            self@.len() == MEMORY_SIZE,
    {
    }

    /// The byte at `addr`, or `OutOfBoundsAccess` past the end of memory.
    pub fn read(&self, addr: u16) -> (r: Result<u8, Chip8Error>)
        ensures
            (addr as int) < MEMORY_SIZE ==> r == Ok::<u8, Chip8Error>(self@[addr as int]),
            (addr as int) >= MEMORY_SIZE ==> r == Err::<u8, Chip8Error>(
                Chip8Error::OutOfBoundsAccess,
            ),
    {
        if (addr as usize) < MEMORY_SIZE {
            Ok(self.memory_map[addr as usize])
        } else {
            Err(Chip8Error::OutOfBoundsAccess)
        }
    }

    /// Stores `value` at `addr`; past the end of memory nothing changes and
    /// `OutOfBoundsAccess` is returned.
    pub fn write(&mut self, addr: u16, value: u8) -> (r: Result<(), Chip8Error>)
        ensures
            (addr as int) < MEMORY_SIZE ==> r is Ok && final(self)@ == old(self)@.update(
                addr as int,
                value,
            ),
            (addr as int) >= MEMORY_SIZE ==> r == Err::<(), Chip8Error>(
                Chip8Error::OutOfBoundsAccess,
            ) && final(self)@ == old(self)@,
    {
        if (addr as usize) < MEMORY_SIZE {
            self.memory_map[addr as usize] = value;
            Ok(())
        } else {
            Err(Chip8Error::OutOfBoundsAccess)
        }
    }

    /// Copies `program` into memory starting at `origin`. A program that
    /// would run past the end of memory is refused with
    /// `InvalidProgramLoad`, and nothing is written.
    pub fn load(&mut self, program: &[u8], origin: u16) -> (r: Result<(), Chip8Error>)
        ensures
            origin + program@.len() <= MEMORY_SIZE ==> r is Ok && final(self)@ == loaded(
                old(self)@,
                program@,
                origin as int,
            ),
            origin + program@.len() > MEMORY_SIZE ==> r == Err::<(), Chip8Error>(
                Chip8Error::InvalidProgramLoad,
            ) && final(self)@ == old(self)@,
    {
        if origin as usize > MEMORY_SIZE || program.len() > MEMORY_SIZE - origin as usize {
            return Err(Chip8Error::InvalidProgramLoad);
        }
        let ghost before = self@;
        let n = program.len();
        let mut i: usize = 0;
        while i < n
            invariant
                n == program@.len(),
                origin + n <= MEMORY_SIZE,
                i <= n,
                before.len() == MEMORY_SIZE,
                self@ =~= loaded(before, program@.subrange(0, i as int), origin as int),
            decreases n - i,
        {
            let addr = origin as usize + i;
            self.memory_map[addr] = program[i];
            i = i + 1;
            assert(self@ =~= loaded(before, program@.subrange(0, i as int), origin as int));
        }
        assert(program@.subrange(0, n as int) =~= program@);
        Ok(())
    }
}

/// Memory `m` with `program` copied in from address `origin` on.
pub open spec fn loaded(m: Seq<u8>, program: Seq<u8>, origin: int) -> Seq<u8> {
    Seq::new(
        m.len(),
        |i: int| if origin <= i < origin + program.len() { program[i - origin] } else { m[i] },
    )
}

} // verus!
