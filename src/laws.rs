//! Properties of the machine that relate several operations, proved over
//! the models that the operations' contracts use.
use crate::error::Chip8Error;
use crate::cpu::{
    pc_plus, state_wf, step, tick_spec, fetched, CpuState, TickStatus, STACK_DEPTH,
};
use crate::display::{collides, covers, drawn, toggled, DISPLAY_SIZE};
use crate::instruction::{decode_spec, family, Instruction};
use crate::memory::MEMORY_SIZE;
use vstd::prelude::*;

verus! {

/// A byte written to an address in range is the byte read back from it,
/// and every other address keeps its byte.
pub proof fn lemma_write_then_read(mem: Seq<u8>, addr: u16, v: u8, other: int)
    requires
        mem.len() == MEMORY_SIZE,
        addr < MEMORY_SIZE,
        0 <= other < MEMORY_SIZE,
        other != addr,
    ensures
        mem.update(addr as int, v)[addr as int] == v,
        mem.update(addr as int, v)[other] == mem[other],
{
}

/// `7XNN`, `8XY4`, `8XY5` and `8XY7` always succeed and leave `Vx` equal to
/// the sum or difference modulo 256 (for the register ops, unless `X` is
/// the flag register itself, which then receives the flag).
#[verifier::rlimit(50)]
pub proof fn lemma_arithmetic_wraps(s: CpuState, x: u8, y: u8, nn: u8, rnd: u8)
    requires
        state_wf(s),
        x < 16,
        y < 16,
    ensures
        step(s, Instruction::AddImm(x, nn), rnd) is Ok,
        step(s, Instruction::AddImm(x, nn), rnd)->Ok_0.0.registers[x as int] == (s.registers[x as int]
            + nn) % 256,
        step(s, Instruction::AddReg(x, y), rnd) is Ok,
        step(s, Instruction::SubReg(x, y), rnd) is Ok,
        step(s, Instruction::SubNeg(x, y), rnd) is Ok,
        x != 15 ==> step(s, Instruction::AddReg(x, y), rnd)->Ok_0.0.registers[x as int] == (
        s.registers[x as int] + s.registers[y as int]) % 256,
        x != 15 ==> step(s, Instruction::SubReg(x, y), rnd)->Ok_0.0.registers[x as int] == (
        s.registers[x as int] - s.registers[y as int]) % 256,
        x != 15 ==> step(s, Instruction::SubNeg(x, y), rnd)->Ok_0.0.registers[x as int] == (
        s.registers[y as int] - s.registers[x as int]) % 256,
{
    let a = s.registers[x as int] as int;
    let b = s.registers[y as int] as int;
    vstd::arithmetic::div_mod::lemma_mod_add_multiples_vanish(a - b, 256);
    vstd::arithmetic::div_mod::lemma_mod_add_multiples_vanish(b - a, 256);
    let add = step(s, Instruction::AddReg(x, y), rnd)->Ok_0.0;
    let sub = step(s, Instruction::SubReg(x, y), rnd)->Ok_0.0;
    let neg = step(s, Instruction::SubNeg(x, y), rnd)->Ok_0.0;
    if x != 15 {
        assert(add.registers[x as int] == (a + b) % 256);
        assert(sub.registers[x as int] == (a - b + 256) % 256);
        assert(neg.registers[x as int] == (b - a + 256) % 256);
    }
}

/// A `1NNN` word at `PC` moves `PC` to `NNN` and changes nothing else: no
/// further advance is applied.
pub proof fn lemma_jump_is_exact(s: CpuState, rnd: u8)
    requires
        state_wf(s),
        s.waiting is None,
        s.pc + 1 < MEMORY_SIZE,
        family(fetched(s)) == 1,
    ensures
        tick_spec(s, rnd) == Ok::<(CpuState, TickStatus), Chip8Error>(
            (CpuState { pc: fetched(s) % 4096, ..s }, TickStatus::Executed),
        ),
{
}

/// Calling a subroutine whose first word is `00EE` and ticking once more
/// returns to the word after the call, with the stack as it was.
pub proof fn lemma_call_then_return(s: CpuState, r1: u8, r2: u8)
    requires
        state_wf(s),
        s.waiting is None,
        s.pc + 1 < MEMORY_SIZE,
        s.stack.len() < STACK_DEPTH,
        family(fetched(s)) == 2,
        fetched(s) % 4096 + 1 < MEMORY_SIZE,
        s.memory[(fetched(s) % 4096) as int] == 0x00,
        s.memory[fetched(s) % 4096 + 1] == 0xEE,
    ensures
        tick_spec(s, r1) is Ok,
        tick_spec(s, r1)->Ok_0.0.pc == fetched(s) % 4096,
        tick_spec(tick_spec(s, r1)->Ok_0.0, r2) is Ok,
        tick_spec(tick_spec(s, r1)->Ok_0.0, r2)->Ok_0.0.pc == s.pc + 2,
        tick_spec(tick_spec(s, r1)->Ok_0.0, r2)->Ok_0.0.stack == s.stack,
{
    let s1 = tick_spec(s, r1)->Ok_0.0;
    assert(fetched(s1) == 0x00EE);
    assert(s1.stack.drop_last() =~= s.stack);
}

/// A skip instruction at `PC` moves `PC` forward by exactly 4 when it
/// skips and by exactly 2 when it does not, and changes nothing else.
pub proof fn lemma_skip_offsets(s: CpuState, rnd: u8)
    requires
        state_wf(s),
        s.waiting is None,
        s.pc + 1 < MEMORY_SIZE,
        ({
            let ins = decode_spec(fetched(s));
            ins is SkipEqImm || ins is SkipNeImm || ins is SkipEqReg || ins is SkipNeReg
                || ins is SkipKey || ins is SkipNotKey
        }),
    ensures
        tick_spec(s, rnd) is Ok,
        tick_spec(s, rnd)->Ok_0.0.pc == s.pc + 2 || tick_spec(s, rnd)->Ok_0.0.pc == s.pc + 4,
        tick_spec(s, rnd)->Ok_0.0 == (CpuState { pc: tick_spec(s, rnd)->Ok_0.0.pc, ..s }),
{
    let ins = decode_spec(fetched(s));
    assert(pc_plus(s.pc, 2) == s.pc + 2 && pc_plus(s.pc, 4) == s.pc + 4);
    assert(tick_spec(s, rnd) == step(s, ins, rnd));
    match ins {
        Instruction::SkipEqImm(x, nn) => {},
        Instruction::SkipNeImm(x, nn) => {},
        Instruction::SkipEqReg(x, y) => {},
        Instruction::SkipNeReg(x, y) => {},
        Instruction::SkipKey(x) => {},
        Instruction::SkipNotKey(x) => {},
        _ => {},
    }
}

/// XOR-drawing the same sprite twice at the same place restores a 0/1
/// framebuffer; the second drawing collides exactly when the sprite covers
/// a pixel that was dark before the first.
pub proof fn lemma_draw_twice_restores(d: Seq<u8>, sprite: Seq<u8>, x0: int, y0: int)
    requires
        d.len() == DISPLAY_SIZE,
        forall|i: int| 0 <= i < d.len() ==> #[trigger] d[i] <= 1,
    ensures
        drawn(drawn(d, sprite, x0, y0), sprite, x0, y0) == d,
        collides(drawn(d, sprite, x0, y0), sprite, x0, y0) == exists|p: int|
            0 <= p < d.len() && covers(sprite, x0, y0, p) && #[trigger] d[p] == 0,
{
    assert forall|i: int| 0 <= i < d.len() implies toggled(toggled(d[i], 1), 1) == d[i] by {}
    assert(drawn(drawn(d, sprite, x0, y0), sprite, x0, y0) =~= d);
    let d1 = drawn(d, sprite, x0, y0);
    if collides(d1, sprite, x0, y0) {
        let p = choose|p: int| 0 <= p < d1.len() && covers(sprite, x0, y0, p) && d1[p] != 0;
        assert(d[p] == 0);
    }
    if exists|p: int| 0 <= p < d.len() && covers(sprite, x0, y0, p) && #[trigger] d[p] == 0 {
        let p = choose|p: int| 0 <= p < d.len() && covers(sprite, x0, y0, p) && #[trigger] d[p] == 0;
        assert(d1[p] != 0);
    }
}

/// Executing the same `DXYN` twice in a row (with neither `X` nor `Y` the
/// flag register, so that the first flag does not move the second sprite)
/// leaves a 0/1 screen as it was and sets `VF` to 1 on the second draw,
/// provided the sprite covers at least one pixel that was dark.
pub proof fn lemma_draw_twice(s: CpuState, x: u8, y: u8, n: u8, r1: u8, r2: u8)
    requires
        state_wf(s),
        forall|i: int| 0 <= i < DISPLAY_SIZE ==> #[trigger] s.display[i] <= 1,
        x < 15,
        y < 15,
        n < 16,
        s.index + n <= MEMORY_SIZE,
        exists|p: int|
            0 <= p < DISPLAY_SIZE && covers(
                s.memory.subrange(s.index as int, s.index + n),
                s.registers[x as int] as int,
                s.registers[y as int] as int,
                p,
            ) && #[trigger] s.display[p] == 0,
    ensures
        step(s, Instruction::Draw(x, y, n), r1) is Ok,
        step(step(s, Instruction::Draw(x, y, n), r1)->Ok_0.0, Instruction::Draw(x, y, n), r2) is Ok,
        step(step(s, Instruction::Draw(x, y, n), r1)->Ok_0.0, Instruction::Draw(x, y, n), r2)->Ok_0.0.display
            == s.display,
        step(step(s, Instruction::Draw(x, y, n), r1)->Ok_0.0, Instruction::Draw(x, y, n), r2)->Ok_0.0.registers[15]
            == 1,
{
    let sprite = s.memory.subrange(s.index as int, s.index + n);
    let x0 = s.registers[x as int] as int;
    let y0 = s.registers[y as int] as int;
    lemma_draw_twice_restores(s.display, sprite, x0, y0);
    let s1 = step(s, Instruction::Draw(x, y, n), r1)->Ok_0.0;
    assert(s1.registers[x as int] == s.registers[x as int]);
    assert(s1.registers[y as int] == s.registers[y as int]);
}

} // verus!
