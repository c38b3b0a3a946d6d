use crate::display::{collides, drawn, C8Display, DISPLAY_SIZE};
use crate::error::Chip8Error;
use crate::instruction::{decode_spec, Instruction};
use crate::memory::{Memory, MEMORY_SIZE};
use vstd::prelude::*;

verus! {

/// Address at which programs are loaded and execution starts.
pub const PROGRAM_ORIGIN: u16 = 0x600;

/// Maximum number of pending subroutine return addresses.
pub const STACK_DEPTH: usize = 16;

/// Number of bytes in one font glyph; glyph `k` lives at `5 * k`.
pub const FONT_GLYPH_SIZE: u16 = 5;

/// What a tick did, when it did not fail.
#[derive(Debug, Clone, Copy, PartialEq, Eq, Structural)]
pub enum TickStatus {
    /// One instruction ran to completion.
    Executed,
    /// The word does not encode an instruction; it was skipped as a no-op.
    UnknownInstruction(u16),
    /// The CPU waits for a key press (`FX0A`); no instruction ran.
    AwaitingKey,
}

/// The mathematical state of the machine.
#[verifier::ext_equal]
pub struct CpuState {
    pub registers: Seq<u8>,
    pub pc: u16,
    pub index: u16,
    pub memory: Seq<u8>,
    pub display: Seq<u8>,
    pub stack: Seq<u16>,
    pub delay: u8,
    pub sound: u8,
    pub keys: Seq<bool>,
    /// The register that receives the next key press, while `FX0A` waits.
    pub waiting: Option<u8>,
}

/// Sizes of the state's parts and the bound on the return stack.
pub open spec fn state_wf(s: CpuState) -> bool {
    &&& s.registers.len() == 16
    &&& s.memory.len() == MEMORY_SIZE
    &&& s.display.len() == DISPLAY_SIZE
    &&& s.stack.len() <= STACK_DEPTH
    &&& s.keys.len() == 16
    &&& s.waiting is Some ==> s.waiting->0 < 16
}

/// `pc + k`, wrapping at 16 bits.
pub open spec fn pc_plus(pc: u16, k: int) -> u16 {
    ((pc + k) % 65536) as u16
}

/// The state with the program counter moved past the instruction.
pub open spec fn advanced(s: CpuState) -> CpuState {
    CpuState { pc: pc_plus(s.pc, 2), ..s }
}

/// The state with the program counter moved past the instruction, and past
/// the next one too when `skip` holds.
pub open spec fn skipped_if(s: CpuState, skip: bool) -> CpuState {
    CpuState { pc: pc_plus(s.pc, if skip { 4 } else { 2 }), ..s }
}

/// The state with register `x` set to `v`.
pub open spec fn with_reg(s: CpuState, x: u8, v: u8) -> CpuState {
    CpuState { registers: s.registers.update(x as int, v), ..s }
}

/// An ALU result: `Vx := v`, then `VF := flag`, then advance.
pub open spec fn alu(s: CpuState, x: u8, v: u8, flag: u8) -> CpuState {
    advanced(with_reg(with_reg(s, x, v), 15, flag))
}

/// Whether key number `k` is held down; there are keys `0..16` only.
pub open spec fn key_down(s: CpuState, k: u8) -> bool {
    k < 16 && s.keys[k as int]
}

/// The sprite that `DXYN` draws: `n` bytes from `I`.
pub open spec fn sprite_at(s: CpuState, n: u8) -> Seq<u8> {
    s.memory.subrange(s.index as int, s.index + n)
}

/// Memory with `V0..=Vx` stored from `I` on.
pub open spec fn stored_regs(s: CpuState, x: u8) -> Seq<u8> {
    Seq::new(
        s.memory.len(),
        |i: int| if s.index <= i <= s.index + x { s.registers[i - s.index] } else { s.memory[i] },
    )
}

/// Registers with `V0..=Vx` loaded from `I` on.
pub open spec fn loaded_regs(s: CpuState, x: u8) -> Seq<u8> {
    Seq::new(
        s.registers.len(),
        |i: int| if i <= x { s.memory[s.index + i] } else { s.registers[i] },
    )
}

/// The effect of executing `ins` in state `s`, where `rnd` is the random
/// byte that `CXNN` uses: the next state and status, or a fatal error (the
/// state is then left as it was).
pub open spec fn step(s: CpuState, ins: Instruction, rnd: u8) -> Result<
    (CpuState, TickStatus),
    Chip8Error,
> {
    let v = s.registers;
    let ok = |t: CpuState| Ok::<(CpuState, TickStatus), Chip8Error>((t, TickStatus::Executed));
    match ins {
        Instruction::ClearScreen => ok(
            advanced(CpuState { display: Seq::new(DISPLAY_SIZE as nat, |i: int| 0u8), ..s }),
        ),
        Instruction::Return => if s.stack.len() == 0 {
            Err(Chip8Error::StackUnderflow)
        } else {
            ok(CpuState { pc: s.stack.last(), stack: s.stack.drop_last(), ..s })
        },
        Instruction::Jump(a) => ok(CpuState { pc: a, ..s }),
        Instruction::Call(a) => if s.stack.len() >= STACK_DEPTH {
            Err(Chip8Error::StackOverflow)
        } else {
            ok(CpuState { pc: a, stack: s.stack.push(pc_plus(s.pc, 2)), ..s })
        },
        Instruction::SkipEqImm(x, nn) => ok(skipped_if(s, v[x as int] == nn)),
        Instruction::SkipNeImm(x, nn) => ok(skipped_if(s, v[x as int] != nn)),
        Instruction::SkipEqReg(x, y) => ok(skipped_if(s, v[x as int] == v[y as int])),
        Instruction::SkipNeReg(x, y) => ok(skipped_if(s, v[x as int] != v[y as int])),
        Instruction::SetImm(x, nn) => ok(advanced(with_reg(s, x, nn))),
        Instruction::AddImm(x, nn) => ok(advanced(with_reg(s, x, ((v[x as int] + nn) % 256) as u8))),
        Instruction::Mov(x, y) => ok(advanced(with_reg(s, x, v[y as int]))),
        Instruction::Or(x, y) => ok(advanced(with_reg(s, x, v[x as int] | v[y as int]))),
        Instruction::And(x, y) => ok(advanced(with_reg(s, x, v[x as int] & v[y as int]))),
        Instruction::Xor(x, y) => ok(advanced(with_reg(s, x, v[x as int] ^ v[y as int]))),
        Instruction::AddReg(x, y) => {
            let sum = v[x as int] + v[y as int];
            ok(alu(s, x, (sum % 256) as u8, if sum > 255 { 1 } else { 0 }))
        },
        Instruction::SubReg(x, y) => ok(
            alu(
                s,
                x,
                ((v[x as int] - v[y as int] + 256) % 256) as u8,
                if v[x as int] >= v[y as int] { 1 } else { 0 },
            ),
        ),
        Instruction::SubNeg(x, y) => ok(
            alu(
                s,
                x,
                ((v[y as int] - v[x as int] + 256) % 256) as u8,
                if v[y as int] >= v[x as int] { 1 } else { 0 },
            ),
        ),
        Instruction::ShiftRight(x, y) => ok(
            alu(s, x, (v[y as int] / 2) as u8, (v[y as int] % 2) as u8),
        ),
        Instruction::ShiftLeft(x, y) => ok(
            alu(s, x, ((v[y as int] * 2) % 256) as u8, (v[y as int] / 128) as u8),
        ),
        Instruction::SetIndex(a) => ok(advanced(CpuState { index: a, ..s })),
        Instruction::JumpOffset(a) => ok(CpuState { pc: (a + v[0]) as u16, ..s }),
        Instruction::Random(x, nn) => ok(advanced(with_reg(s, x, rnd & nn))),
        Instruction::Draw(x, y, n) => if s.index + n > MEMORY_SIZE {
            Err(Chip8Error::OutOfBoundsAccess)
        } else {
            let sprite = sprite_at(s, n);
            let hit = collides(s.display, sprite, v[x as int] as int, v[y as int] as int);
            ok(
                advanced(
                    with_reg(
                        CpuState {
                            display: drawn(s.display, sprite, v[x as int] as int, v[y as int] as int),
                            ..s
                        },
                        15,
                        if hit { 1 } else { 0 },
                    ),
                ),
            )
        },
        Instruction::SkipKey(x) => ok(skipped_if(s, key_down(s, v[x as int]))),
        Instruction::SkipNotKey(x) => ok(skipped_if(s, !key_down(s, v[x as int]))),
        Instruction::GetDelay(x) => ok(advanced(with_reg(s, x, s.delay))),
        Instruction::SetDelay(x) => ok(advanced(CpuState { delay: v[x as int], ..s })),
        Instruction::SetSound(x) => ok(advanced(CpuState { sound: v[x as int], ..s })),
        Instruction::WaitKey(x) => Ok(
            (CpuState { waiting: Some(x), ..s }, TickStatus::AwaitingKey),
        ),
        Instruction::AddIndex(x) => ok(
            advanced(CpuState { index: ((s.index + v[x as int]) % 65536) as u16, ..s }),
        ),
        Instruction::FontChar(x) => ok(
            advanced(CpuState { index: (5 * (v[x as int] % 16)) as u16, ..s }),
        ),
        Instruction::Bcd(x) => if s.index + 3 > MEMORY_SIZE {
            Err(Chip8Error::OutOfBoundsAccess)
        } else {
            let b = v[x as int];
            let i = s.index as int;
            ok(
                advanced(
                    CpuState {
                        memory: s.memory.update(i, b / 100).update(i + 1, (b / 10) % 10).update(
                            i + 2,
                            b % 10,
                        ),
                        ..s
                    },
                ),
            )
        },
        Instruction::StoreRegs(x) => if s.index + x + 1 > MEMORY_SIZE {
            Err(Chip8Error::OutOfBoundsAccess)
        } else {
            ok(advanced(CpuState { memory: stored_regs(s, x), ..s }))
        },
        Instruction::LoadRegs(x) => if s.index + x + 1 > MEMORY_SIZE {
            Err(Chip8Error::OutOfBoundsAccess)
        } else {
            ok(advanced(CpuState { registers: loaded_regs(s, x), ..s }))
        },
        Instruction::Unknown(w) => Ok((advanced(s), TickStatus::UnknownInstruction(w))),
    }
}

/// The state after key `key` is reported pressed or released. Keys past
/// `0xF` do not exist and change nothing. A press while `FX0A` waits stores
/// the key in the waiting register and completes that instruction.
pub open spec fn key_event(s: CpuState, key: u8, pressed: bool) -> CpuState {
    if key >= 16 {
        s
    } else {
        let s1 = CpuState { keys: s.keys.update(key as int, pressed), ..s };
        if pressed && s.waiting is Some {
            advanced(CpuState { waiting: None, ..with_reg(s1, s.waiting->0, key) })
        } else {
            s1
        }
    }
}

/// A timer one 60 Hz period later: it counts down to zero and stays there.
pub open spec fn timer_after(t: u8) -> u8 {
    if t > 0 {
        (t - 1) as u8
    } else {
        0
    }
}

/// The big-endian word at the program counter.
pub open spec fn fetched(s: CpuState) -> u16 {
    (s.memory[s.pc as int] * 256 + s.memory[s.pc + 1]) as u16
}

/// The effect of one tick: nothing while a key is awaited; otherwise fetch
/// the word at `PC` (both bytes must lie in memory) and execute it.
pub open spec fn tick_spec(s: CpuState, rnd: u8) -> Result<(CpuState, TickStatus), Chip8Error> {
    if s.waiting is Some {
        Ok((s, TickStatus::AwaitingKey))
    } else if s.pc + 1 >= MEMORY_SIZE {
        Err(Chip8Error::OutOfBoundsAccess)
    } else {
        step(s, decode_spec(fetched(s)), rnd)
    }
}

/// The call returned `r` and left the state `after`, as `expected` says
/// starting from `before`.
pub open spec fn follows(
    before: CpuState,
    expected: Result<(CpuState, TickStatus), Chip8Error>,
    after: CpuState,
    r: Result<TickStatus, Chip8Error>,
) -> bool {
    match expected {
        Ok((t, status)) => r == Ok::<TickStatus, Chip8Error>(status) && after == t,
        Err(e) => r == Err::<TickStatus, Chip8Error>(e) && after == before,
    }
}

/// Relies on `rand::random::<u8>` (the thread-local generator): any byte
/// may come back.
#[verifier::external_body]
fn random_byte() -> (r: u8) {
    rand::random::<u8>()
}

/// The processor: registers, program counter, index register, return
/// stack, timers and key state, and the memory and display it owns.
pub struct CPU {
    pub registers: [u8; 16],
    pub pc: u16,
    pub memory: Memory,
    index: u16,
    display: C8Display,
    stack: Vec<u16>,
    delay_timer: u8,
    sound_timer: u8,
    keys: [bool; 16],
    waiting: Option<u8>,
}

impl View for CPU {
    type V = CpuState;

    closed spec fn view(&self) -> CpuState {
        CpuState {
            registers: self.registers@,
            pc: self.pc,
            index: self.index,
            memory: self.memory@,
            display: self.display.display_array@,
            stack: self.stack@,
            delay: self.delay_timer,
            sound: self.sound_timer,
            keys: self.keys@,
            waiting: self.waiting,
        }
    }
}

impl CPU {
    /// The state invariant.
    pub open spec fn wf(&self) -> bool {
        state_wf(self@)
    }

    /// A machine at reset: zeroed registers, memory, display and timers,
    /// an empty stack, no key held, and `PC` at the program origin.
    pub fn new() -> (c: Self)
        ensures
            c.wf(),
            c@.pc == PROGRAM_ORIGIN,
            c@.index == 0,
            c@.stack.len() == 0,
            c@.delay == 0,
            c@.sound == 0,
            c@.waiting is None,
            forall|i: int| 0 <= i < 16 ==> c@.registers[i] == 0u8 && !c@.keys[i],
            forall|i: int| 0 <= i < MEMORY_SIZE ==> c@.memory[i] == 0u8,
            forall|i: int| 0 <= i < DISPLAY_SIZE ==> c@.display[i] == 0u8,
    {
        let c = CPU {
            registers: [0u8; 16],
            pc: PROGRAM_ORIGIN,
            memory: Memory::new(),
            index: 0,
            display: C8Display::new(),
            stack: Vec::new(),
            delay_timer: 0,
            sound_timer: 0,
            keys: [false; 16],
            waiting: None,
        };
        c
    }

    /// Replaces all sixteen registers at once.
    pub fn load_register_file(&mut self, register_file: [u8; 16])
        requires
            old(self).wf(),
        ensures
            final(self).wf(),
            final(self)@ == (CpuState { registers: register_file@, ..old(self)@ }),
    {
        self.registers = register_file;
    }

    fn advance(&mut self)
        ensures
            *final(self) == (CPU { pc: final(self).pc, ..*old(self) }),
            final(self).pc == pc_plus(old(self).pc, 2),
    {
        self.pc = self.pc.wrapping_add(2);
    }

    fn skip_if(&mut self, skip: bool)
        ensures
            *final(self) == (CPU { pc: final(self).pc, ..*old(self) }),
            final(self).pc == pc_plus(old(self).pc, if skip { 4 } else { 2 }),
    {
        self.pc = self.pc.wrapping_add(if skip { 4 } else { 2 });
    }

    /// Executes one decoded instruction; `rnd` is the byte that `CXNN`
    /// masks. On a fatal error nothing changes.
    pub fn execute(&mut self, ins: Instruction, rnd: u8) -> (r: Result<TickStatus, Chip8Error>)
        requires
            old(self).wf(),
            ins.wf(),
        ensures
            final(self).wf(),
            follows(old(self)@, step(old(self)@, ins, rnd), final(self)@, r),
    {
        match ins {
            Instruction::Draw(x, y, n) => self.draw(x, y, n),
            Instruction::Bcd(x) => self.store_bcd(x),
            Instruction::StoreRegs(x) => self.store_registers(x),
            Instruction::LoadRegs(x) => self.load_registers(x),
            Instruction::WaitKey(x) => {
                self.waiting = Some(x);
                Ok(TickStatus::AwaitingKey)
            },
            Instruction::Unknown(w) => {
                self.advance();
                Ok(TickStatus::UnknownInstruction(w))
            },
            Instruction::ClearScreen
            | Instruction::Return
            | Instruction::Jump(..)
            | Instruction::Call(..)
            | Instruction::JumpOffset(..)
            => self.execute_flow(ins, rnd),
            Instruction::SkipEqImm(..)
            | Instruction::SkipNeImm(..)
            | Instruction::SkipEqReg(..)
            | Instruction::SkipNeReg(..)
            | Instruction::SkipKey(..)
            | Instruction::SkipNotKey(..)
            => self.execute_skip(ins, rnd),
            Instruction::Mov(..)
            | Instruction::Or(..)
            | Instruction::And(..)
            | Instruction::Xor(..)
            | Instruction::AddReg(..)
            | Instruction::SubReg(..)
            | Instruction::SubNeg(..)
            | Instruction::ShiftRight(..)
            | Instruction::ShiftLeft(..)
            => self.execute_alu(ins, rnd),
            Instruction::SetImm(..)
            | Instruction::AddImm(..)
            | Instruction::SetIndex(..)
            | Instruction::Random(..)
            | Instruction::GetDelay(..)
            | Instruction::SetDelay(..)
            | Instruction::SetSound(..)
            | Instruction::AddIndex(..)
            | Instruction::FontChar(..)
            => self.execute_load(ins, rnd),
        }
    }

    /// Control transfer and screen clearing.
    #[verifier::rlimit(50)]
    fn execute_flow(&mut self, ins: Instruction, rnd: u8) -> (r: Result<TickStatus, Chip8Error>)
        requires
            old(self).wf(),
            ins.wf(),
            ins is ClearScreen || ins is Return || ins is Jump || ins is Call || ins is JumpOffset,
        ensures
            final(self).wf(),
            follows(old(self)@, step(old(self)@, ins, rnd), final(self)@, r),
    {
        proof {
            self.memory.lemma_len();
        }
        match ins {
            Instruction::ClearScreen => {
                self.display.clear_screen();
                self.advance();
                assert(self@.display =~= Seq::new(DISPLAY_SIZE as nat, |i: int| 0u8));
            },
            Instruction::Return => {
                if self.stack.len() == 0 {
                    return Err(Chip8Error::StackUnderflow);
                }
                let a = self.stack.pop().unwrap();
                self.pc = a;
            },
            Instruction::Jump(a) => {
                self.pc = a;
            },
            Instruction::Call(a) => {
                if self.stack.len() >= STACK_DEPTH {
                    return Err(Chip8Error::StackOverflow);
                }
                self.stack.push(self.pc.wrapping_add(2));
                self.pc = a;
            },
            Instruction::JumpOffset(a) => {
                self.pc = a + self.registers[0] as u16;
            },
            _ => {},
        }
        Ok(TickStatus::Executed)
    }

    /// Conditional skips.
    #[verifier::rlimit(50)]
    fn execute_skip(&mut self, ins: Instruction, rnd: u8) -> (r: Result<TickStatus, Chip8Error>)
        requires
            old(self).wf(),
            ins.wf(),
            ins is SkipEqImm || ins is SkipNeImm || ins is SkipEqReg || ins is SkipNeReg || ins is SkipKey || ins is SkipNotKey,
        ensures
            final(self).wf(),
            follows(old(self)@, step(old(self)@, ins, rnd), final(self)@, r),
    {
        proof {
            self.memory.lemma_len();
        }
        match ins {
            Instruction::SkipEqImm(x, nn) => {
                let c = self.registers[x as usize] == nn;
                self.skip_if(c);
            },
            Instruction::SkipNeImm(x, nn) => {
                let c = self.registers[x as usize] != nn;
                self.skip_if(c);
            },
            Instruction::SkipEqReg(x, y) => {
                let c = self.registers[x as usize] == self.registers[y as usize];
                self.skip_if(c);
            },
            Instruction::SkipNeReg(x, y) => {
                let c = self.registers[x as usize] != self.registers[y as usize];
                self.skip_if(c);
            },
            Instruction::SkipKey(x) => {
                let k = self.registers[x as usize];
                let c = k < 16 && self.keys[k as usize];
                self.skip_if(c);
            },
            Instruction::SkipNotKey(x) => {
                let k = self.registers[x as usize];
                let c = !(k < 16 && self.keys[k as usize]);
                self.skip_if(c);
            },
            _ => {},
        }
        Ok(TickStatus::Executed)
    }

    /// The `8XY_` register arithmetic and logic family.
    #[verifier::rlimit(50)]
    fn execute_alu(&mut self, ins: Instruction, rnd: u8) -> (r: Result<TickStatus, Chip8Error>)
        requires
            old(self).wf(),
            ins.wf(),
            ins is Mov || ins is Or || ins is And || ins is Xor || ins is AddReg || ins is SubReg || ins is SubNeg || ins is ShiftRight || ins is ShiftLeft,
        ensures
            final(self).wf(),
            follows(old(self)@, step(old(self)@, ins, rnd), final(self)@, r),
    {
        proof {
            self.memory.lemma_len();
        }
        match ins {
            Instruction::Mov(x, y) => {
                self.registers[x as usize] = self.registers[y as usize];
                self.advance();
            },
            Instruction::Or(x, y) => {
                self.registers[x as usize] = self.registers[x as usize] | self.registers[y as usize];
                self.advance();
            },
            Instruction::And(x, y) => {
                self.registers[x as usize] = self.registers[x as usize] & self.registers[y as usize];
                self.advance();
            },
            Instruction::Xor(x, y) => {
                self.registers[x as usize] = self.registers[x as usize] ^ self.registers[y as usize];
                self.advance();
            },
            Instruction::AddReg(x, y) => {
                let a = self.registers[x as usize];
                let b = self.registers[y as usize];
                let flag: u8 = if a as u16 + b as u16 > 255 { 1 } else { 0 };
                self.registers[x as usize] = a.wrapping_add(b);
                self.registers[15] = flag;
                self.advance();
            },
            Instruction::SubReg(x, y) => {
                let a = self.registers[x as usize];
                let b = self.registers[y as usize];
                let flag: u8 = if a >= b { 1 } else { 0 };
                self.registers[x as usize] = a.wrapping_sub(b);
                self.registers[15] = flag;
                self.advance();
            },
            Instruction::SubNeg(x, y) => {
                let a = self.registers[x as usize];
                let b = self.registers[y as usize];
                let flag: u8 = if b >= a { 1 } else { 0 };
                self.registers[x as usize] = b.wrapping_sub(a);
                self.registers[15] = flag;
                self.advance();
            },
            Instruction::ShiftRight(x, y) => {
                let b = self.registers[y as usize];
                self.registers[x as usize] = b / 2;
                self.registers[15] = b % 2;
                self.advance();
            },
            Instruction::ShiftLeft(x, y) => {
                let b = self.registers[y as usize];
                self.registers[x as usize] = ((b as u16 * 2) % 256) as u8;
                self.registers[15] = b / 128;
                self.advance();
            },
            _ => {},
        }
        Ok(TickStatus::Executed)
    }

    /// Instructions that set one register, the index register or a timer.
    #[verifier::rlimit(50)]
    fn execute_load(&mut self, ins: Instruction, rnd: u8) -> (r: Result<TickStatus, Chip8Error>)
        requires
            old(self).wf(),
            ins.wf(),
            ins is SetImm || ins is AddImm || ins is SetIndex || ins is Random || ins is GetDelay || ins is SetDelay || ins is SetSound || ins is AddIndex || ins is FontChar,
        ensures
            final(self).wf(),
            follows(old(self)@, step(old(self)@, ins, rnd), final(self)@, r),
    {
        proof {
            self.memory.lemma_len();
        }
        match ins {
            Instruction::SetImm(x, nn) => {
                self.registers[x as usize] = nn;
                self.advance();
            },
            Instruction::AddImm(x, nn) => {
                self.registers[x as usize] = self.registers[x as usize].wrapping_add(nn);
                self.advance();
            },
            Instruction::SetIndex(a) => {
                self.index = a;
                self.advance();
            },
            Instruction::Random(x, nn) => {
                self.registers[x as usize] = rnd & nn;
                self.advance();
            },
            Instruction::GetDelay(x) => {
                self.registers[x as usize] = self.delay_timer;
                self.advance();
            },
            Instruction::SetDelay(x) => {
                self.delay_timer = self.registers[x as usize];
                self.advance();
            },
            Instruction::SetSound(x) => {
                self.sound_timer = self.registers[x as usize];
                self.advance();
            },
            Instruction::AddIndex(x) => {
                self.index = self.index.wrapping_add(self.registers[x as usize] as u16);
                self.advance();
            },
            Instruction::FontChar(x) => {
                self.index = FONT_GLYPH_SIZE * (self.registers[x as usize] % 16) as u16;
                self.advance();
            },
            _ => {},
        }
        Ok(TickStatus::Executed)
    }

    fn draw(&mut self, x: u8, y: u8, n: u8) -> (r: Result<TickStatus, Chip8Error>)
        requires
            old(self).wf(),
            x < 16,
            y < 16,
            n < 16,
        ensures
            final(self).wf(),
            follows(old(self)@, step(old(self)@, Instruction::Draw(x, y, n), 0), final(self)@, r),
    {
        proof {
            self.memory.lemma_len();
        }
        if self.index as usize + n as usize > MEMORY_SIZE {
            return Err(Chip8Error::OutOfBoundsAccess);
        }
        let mut sprite: Vec<u8> = Vec::new();
        let mut i: u16 = 0;
        while i < n as u16
            invariant
                self.wf(),
                i <= n,
                self.index + n <= MEMORY_SIZE,
                sprite@ == self@.memory.subrange(self.index as int, self.index + i),
            decreases n - i,
        {
            match self.memory.read(self.index + i) {
                Ok(b) => sprite.push(b),
                Err(e) => return Err(e),
            }
            i = i + 1;
        }
        let vx = self.registers[x as usize];
        let vy = self.registers[y as usize];
        let hit = self.display.draw_sprite(&sprite, vx, vy);
        self.registers[15] = if hit {
            1
        } else {
            0
        };
        self.advance();
        Ok(TickStatus::Executed)
    }

    fn store_bcd(&mut self, x: u8) -> (r: Result<TickStatus, Chip8Error>)
        requires
            old(self).wf(),
            x < 16,
        ensures
            final(self).wf(),
            follows(old(self)@, step(old(self)@, Instruction::Bcd(x), 0), final(self)@, r),
    {
        proof {
            self.memory.lemma_len();
        }
        if self.index as usize + 3 > MEMORY_SIZE {
            return Err(Chip8Error::OutOfBoundsAccess);
        }
        let b = self.registers[x as usize];
        let i = self.index;
        let _ = self.memory.write(i, b / 100);
        let _ = self.memory.write(i + 1, (b / 10) % 10);
        let _ = self.memory.write(i + 2, b % 10);
        self.advance();
        Ok(TickStatus::Executed)
    }

    fn store_registers(&mut self, x: u8) -> (r: Result<TickStatus, Chip8Error>)
        requires
            old(self).wf(),
            x < 16,
        ensures
            final(self).wf(),
            follows(old(self)@, step(old(self)@, Instruction::StoreRegs(x), 0), final(self)@, r),
    {
        proof {
            self.memory.lemma_len();
        }
        if self.index as usize + x as usize + 1 > MEMORY_SIZE {
            return Err(Chip8Error::OutOfBoundsAccess);
        }
        let ghost s0 = self@;
        let mut i: u16 = 0;
        while i <= x as u16
            invariant
                s0.registers.len() == 16,
                s0.memory.len() == MEMORY_SIZE,
                x < 16,
                i <= x + 1,
                s0.index + x + 1 <= MEMORY_SIZE,
                self@ == (CpuState { memory: self@.memory, ..s0 }),
                self@.memory =~= Seq::new(
                    s0.memory.len(),
                    |j: int|
                        if s0.index <= j < s0.index + i {
                            s0.registers[j - s0.index]
                        } else {
                            s0.memory[j]
                        },
                ),
            decreases x + 1 - i,
        {
            proof {
                self.memory.lemma_len();
            }
            let _ = self.memory.write(self.index + i, self.registers[i as usize]);
            i = i + 1;
        }
        assert(self@.memory =~= stored_regs(s0, x));
        self.advance();
        Ok(TickStatus::Executed)
    }

    fn load_registers(&mut self, x: u8) -> (r: Result<TickStatus, Chip8Error>)
        requires
            old(self).wf(),
            x < 16,
        ensures
            final(self).wf(),
            follows(old(self)@, step(old(self)@, Instruction::LoadRegs(x), 0), final(self)@, r),
    {
        proof {
            self.memory.lemma_len();
        }
        if self.index as usize + x as usize + 1 > MEMORY_SIZE {
            return Err(Chip8Error::OutOfBoundsAccess);
        }
        let ghost s0 = self@;
        let mut i: u16 = 0;
        while i <= x as u16
            invariant
                s0.registers.len() == 16,
                s0.memory.len() == MEMORY_SIZE,
                x < 16,
                i <= x + 1,
                s0.index + x + 1 <= MEMORY_SIZE,
                self@ == (CpuState { registers: self@.registers, ..s0 }),
                self@.registers =~= Seq::new(
                    16,
                    |j: int| if j < i { s0.memory[s0.index + j] } else { s0.registers[j] },
                ),
            decreases x + 1 - i,
        {
            match self.memory.read(self.index + i) {
                Ok(b) => {
                    self.registers[i as usize] = b;
                },
                Err(e) => {
                    return Err(e);
                },
            }
            i = i + 1;
        }
        assert(self@.registers =~= loaded_regs(s0, x));
        self.advance();
        Ok(TickStatus::Executed)
    }

    /// One fetch/decode/execute cycle, with `rnd` as the byte that a `CXNN`
    /// instruction masks. While a key is awaited nothing happens.
    pub fn tick_with_random(&mut self, rnd: u8) -> (r: Result<TickStatus, Chip8Error>)
        requires
            old(self).wf(),
        ensures
            final(self).wf(),
            follows(old(self)@, tick_spec(old(self)@, rnd), final(self)@, r),
    {
        proof {
            self.memory.lemma_len();
        }
        if self.waiting.is_some() {
            return Ok(TickStatus::AwaitingKey);
        }
        if self.pc as usize + 1 >= MEMORY_SIZE {
            return Err(Chip8Error::OutOfBoundsAccess);
        }
        let hi = match self.memory.read(self.pc) {
            Ok(b) => b,
            Err(e) => return Err(e),
        };
        let lo = match self.memory.read(self.pc + 1) {
            Ok(b) => b,
            Err(e) => return Err(e),
        };
        let word: u16 = hi as u16 * 256 + lo as u16;
        let ins = Instruction::decode(word);
        self.execute(ins, rnd)
    }

    /// One fetch/decode/execute cycle. A `CXNN` instruction masks a byte
    /// drawn from the thread-local random generator; the outcome is the
    /// one `tick_spec` gives for some byte.
    pub fn tick(&mut self) -> (r: Result<TickStatus, Chip8Error>)
        requires
            old(self).wf(),
        ensures
            final(self).wf(),
            exists|b: u8| follows(old(self)@, #[trigger] tick_spec(old(self)@, b), final(self)@, r),
    {
        let rnd = random_byte();
        let r = self.tick_with_random(rnd);
        assert(follows(old(self)@, tick_spec(old(self)@, rnd), self@, r));
        r
    }

    /// Records that key `key` went down (`pressed`) or up.
    pub fn set_key(&mut self, key: u8, pressed: bool)
        requires
            old(self).wf(),
        ensures
            final(self).wf(),
            final(self)@ == key_event(old(self)@, key, pressed),
    {
        if key >= 16 {
            return;
        }
        self.keys[key as usize] = pressed;
        if pressed {
            if let Some(x) = self.waiting {
                self.registers[x as usize] = key;
                self.waiting = None;
                self.advance();
            }
        }
    }

    /// Counts both timers down by one, stopping at zero; the host calls this
    /// at 60 Hz.
    pub fn decrement_timers(&mut self)
        requires
            old(self).wf(),
        ensures
            final(self).wf(),
            final(self)@ == (CpuState {
                delay: timer_after(old(self)@.delay),
                sound: timer_after(old(self)@.sound),
                ..old(self)@
            }),
    {
        if self.delay_timer > 0 {
            self.delay_timer = self.delay_timer - 1;
        }
        if self.sound_timer > 0 {
            self.sound_timer = self.sound_timer - 1;
        }
    }

    /// The delay timer.
    pub fn delay_timer(&self) -> (r: u8)
        ensures
            r == self@.delay,
    {
        self.delay_timer
    }

    /// The sound timer; a tone plays while it is non-zero.
    pub fn sound_timer(&self) -> (r: u8)
        ensures
            r == self@.sound,
    {
        self.sound_timer
    }

    /// The index register `I`.
    pub fn index(&self) -> (r: u16)
        ensures
            r == self@.index,
    {
        self.index
    }

    /// Number of pending subroutine returns.
    pub fn stack_depth(&self) -> (r: usize)
        ensures
            r == self@.stack.len(),
    {
        self.stack.len()
    }

    /// The register that the next key press goes to, while `FX0A` waits.
    pub fn awaiting_key(&self) -> (r: Option<u8>)
        ensures
            r == self@.waiting,
    {
        self.waiting
    }

    /// The framebuffer, for a renderer.
    pub fn display(&self) -> (r: &C8Display)
        ensures
            r.display_array@ == self@.display,
    {
        &self.display
    }
}

} // verus!
