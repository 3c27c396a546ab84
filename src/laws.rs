use vstd::prelude::*;
use vstd::arithmetic::div_mod::lemma_fundamental_div_mod_converse;
use crate::display::{bit_on_cell, collides, drawn, lemma_bits};
use crate::engine::{abs_diff, execute, next, opcode_at, pc_in_program};
use crate::machine::{ChipError, MachineState, StepResult, SCHIP8_NUM_PIXELS};
use crate::opcode::{decoded, Instruction};

verus! {

/// The opcode `a x y n` (one nibble each) splits back into its nibbles.
pub proof fn lemma_nibbles(op: u16, a: int, x: int, y: int, n: int)
    requires
        0 <= a < 16,
        0 <= x < 16,
        0 <= y < 16,
        0 <= n < 16,
        op == a * 4096 + x * 256 + y * 16 + n,
    ensures
        op / 4096 == a,
        (op / 256) % 16 == x,
        (op / 16) % 16 == y,
        op % 16 == n,
        op % 256 == y * 16 + n,
        op % 4096 == x * 256 + y * 16 + n,
{
    lemma_fundamental_div_mod_converse(op as int, 4096, a, x * 256 + y * 16 + n);
    lemma_fundamental_div_mod_converse(op as int, 256, a * 16 + x, y * 16 + n);
    lemma_fundamental_div_mod_converse(op as int / 256, 16, a, x);
    lemma_fundamental_div_mod_converse(op as int, 16, a * 256 + x * 16 + y, n);
    lemma_fundamental_div_mod_converse(op as int / 16, 16, a * 16 + x, y);
}

/// `6XNN` leaves NN in VX, for every register X.
pub proof fn law_load_immediate(m: MachineState, x: u8, nn: u8, key: Option<u8>, rnd: u8)
    requires
        m.wf(),
        pc_in_program(m),
        x < 16,
        opcode_at(m) == 0x6000 + 256 * x + nn,
    ensures
        next(m, key, rnd).0 == Ok::<StepResult, ChipError>(
            if m.pc + 3 < 4096 { StepResult::Continue } else { StepResult::Halted },
        ),
        next(m, key, rnd).1.v[x as int] == nn,
{
    lemma_nibbles(opcode_at(m), 6, x as int, nn as int / 16, nn as int % 16);
    assert(decoded(opcode_at(m)) == Instruction::LoadImm(x, nn));
}

/// `8XY4` sets VF to 1 exactly when VX + VY reaches 256; VX (unless it is VF
/// itself, which the flag overwrites) becomes the sum modulo 256.
pub proof fn law_add_carry(m: MachineState, x: u8, y: u8, key: Option<u8>, rnd: u8)
    requires
        m.wf(),
        pc_in_program(m),
        x < 16,
        y < 16,
        opcode_at(m) == 0x8004 + 256 * x + 16 * y,
    ensures
        next(m, key, rnd).0 == Ok::<StepResult, ChipError>(
            if m.pc + 3 < 4096 { StepResult::Continue } else { StepResult::Halted },
        ),
        next(m, key, rnd).1.v[15] == 1 <==> m.v[x as int] + m.v[y as int] >= 256,
        next(m, key, rnd).1.v[15] == 0 <==> m.v[x as int] + m.v[y as int] < 256,
        x != 15 ==> next(m, key, rnd).1.v[x as int] == (m.v[x as int] + m.v[y as int]) % 256,
{
    lemma_nibbles(opcode_at(m), 8, x as int, y as int, 4);
    assert(decoded(opcode_at(m)) == Instruction::AddReg(x, y));
}

/// `8XY5` stores |VX - VY| in VX (unless X is F) and sets VF to 1 exactly when
/// VY <= VX, that is when no borrow occurs.
pub proof fn law_sub_borrow(m: MachineState, x: u8, y: u8, key: Option<u8>, rnd: u8)
    requires
        m.wf(),
        pc_in_program(m),
        x < 16,
        y < 16,
        opcode_at(m) == 0x8005 + 256 * x + 16 * y,
    ensures
        next(m, key, rnd).0 == Ok::<StepResult, ChipError>(
            if m.pc + 3 < 4096 { StepResult::Continue } else { StepResult::Halted },
        ),
        next(m, key, rnd).1.v[15] == 1 <==> m.v[x as int] >= m.v[y as int],
        next(m, key, rnd).1.v[15] == 0 <==> m.v[x as int] < m.v[y as int],
        x != 15 ==> next(m, key, rnd).1.v[x as int] == abs_diff(m.v[x as int], m.v[y as int]),
        abs_diff(m.v[x as int], m.v[y as int]) as int == if m.v[x as int] >= m.v[y as int] {
            m.v[x as int] - m.v[y as int]
        } else {
            m.v[y as int] - m.v[x as int]
        },
{
    lemma_nibbles(opcode_at(m), 8, x as int, y as int, 5);
    assert(decoded(opcode_at(m)) == Instruction::Sub(x, y));
}

/// `8XY7` stores |VY - VX| in VX (unless X is F) and sets VF to 1 exactly when
/// VX <= VY, that is when no borrow occurs.
pub proof fn law_sub_reverse_borrow(m: MachineState, x: u8, y: u8, key: Option<u8>, rnd: u8)
    requires
        m.wf(),
        pc_in_program(m),
        x < 16,
        y < 16,
        opcode_at(m) == 0x8007 + 256 * x + 16 * y,
    ensures
        next(m, key, rnd).0 == Ok::<StepResult, ChipError>(
            if m.pc + 3 < 4096 { StepResult::Continue } else { StepResult::Halted },
        ),
        next(m, key, rnd).1.v[15] == 1 <==> m.v[y as int] >= m.v[x as int],
        next(m, key, rnd).1.v[15] == 0 <==> m.v[y as int] < m.v[x as int],
        x != 15 ==> next(m, key, rnd).1.v[x as int] == abs_diff(m.v[y as int], m.v[x as int]),
        abs_diff(m.v[y as int], m.v[x as int]) as int == if m.v[y as int] >= m.v[x as int] {
            m.v[y as int] - m.v[x as int]
        } else {
            m.v[x as int] - m.v[y as int]
        },
{
    lemma_nibbles(opcode_at(m), 8, x as int, y as int, 7);
    assert(decoded(opcode_at(m)) == Instruction::SubRev(x, y));
}

/// Drawing the same sprite twice in a row, with coordinate registers other than
/// VF, gives back the framebuffer from before the first draw; VF then reports
/// the collisions of the second draw only.
pub proof fn law_draw_twice(m: MachineState, x: u8, y: u8, n: u8)
    requires
        m.wf(),
        x < 15,
        y < 15,
        n < 16,
    ensures
        drawn(drawn(m, x, y, n), x, y, n).screen == m.screen,
        drawn(drawn(m, x, y, n), x, y, n).v[15] == if collides(
            drawn(m, x, y, n).screen,
            m.screen,
        ) {
            1u8
        } else {
            0u8
        },
{
    let m1 = drawn(m, x, y, n);
    let m2 = drawn(m1, x, y, n);
    let x0 = m.v[x as int] as int % m.width as int;
    let y0 = m.v[y as int] as int % m.height as int;
    assert(m1.v[x as int] == m.v[x as int]);
    assert(m1.v[y as int] == m.v[y as int]);
    assert forall|i: int| 0 <= i < SCHIP8_NUM_PIXELS implies m2.screen[i] == m.screen[i] by {
        lemma_bits(m.screen[i], bit_on_cell(m, n, x0, y0, i));
        assert(bit_on_cell(m1, n, x0, y0, i) == bit_on_cell(m, n, x0, y0, i));
    }
    assert(m2.screen =~= m.screen);
}

/// `00E0` zeroes every framebuffer cell, in either display mode.
pub proof fn law_clear_screen(m: MachineState, key: Option<u8>, rnd: u8)
    requires
        m.wf(),
        pc_in_program(m),
        opcode_at(m) == 0x00E0,
    ensures
        next(m, key, rnd).0 == Ok::<StepResult, ChipError>(
            if m.pc + 3 < 4096 { StepResult::Continue } else { StepResult::Halted },
        ),
        forall|i: int| 0 <= i < SCHIP8_NUM_PIXELS ==> #[trigger] next(m, key, rnd).1.screen[i] == 0,
{
    assert(decoded(opcode_at(m)) == Instruction::ClearScreen);
}

/// `FX0A` without a key changes nothing, so the same instruction runs again on
/// the next step; with key `k` it stores `k` in VX and moves on.
pub proof fn law_wait_key(m: MachineState, x: u8, k: u8, rnd: u8)
    requires
        m.wf(),
        pc_in_program(m),
        x < 16,
        k < 16,
        opcode_at(m) == 0xF00A + 256 * x,
    ensures
        next(m, None, rnd) == (Ok::<StepResult, ChipError>(StepResult::Continue), m),
        next(m, Some(k), rnd).1.v[x as int] == k,
        next(m, Some(k), rnd).1.pc == m.pc + 2,
{
    lemma_nibbles(opcode_at(m), 15, x as int, 0, 10);
    assert(decoded(opcode_at(m)) == Instruction::WaitKey(x));
}

proof fn lemma_split_address(t: int)
    requires
        0 <= t < 4096,
    ensures
        t == (t / 256) * 256 + ((t / 16) % 16) * 16 + t % 16,
        0 <= t / 256 < 16,
        0 <= (t / 16) % 16 < 16,
        0 <= t % 16 < 16,
{
    vstd::arithmetic::div_mod::lemma_fundamental_div_mod(t, 256);
    vstd::arithmetic::div_mod::lemma_fundamental_div_mod(t % 256, 16);
    vstd::arithmetic::div_mod::lemma_fundamental_div_mod(t, 16);
    vstd::arithmetic::div_mod::lemma_fundamental_div_mod(t / 16, 16);
    assert((t % 256) / 16 == (t / 16) % 16) by {
        lemma_fundamental_div_mod_converse(t, 16, (t / 256) * 16 + (t % 256) / 16, (t % 256) % 16);
        lemma_fundamental_div_mod_converse(t / 16, 16, t / 256, (t % 256) / 16);
    }
}

proof fn lemma_call_step(m: MachineState, target: u16, key: Option<u8>, rnd: u8)
    requires
        m.wf(),
        pc_in_program(m),
        m.sp < 48,
        0x200 <= target < 0xFFF,
        opcode_at(m) == 0x2000 + target,
    ensures
        next(m, key, rnd) == (
            Ok::<StepResult, ChipError>(StepResult::Continue),
            MachineState {
                stack: m.stack.update(m.sp as int, (m.pc + 2) as usize),
                sp: (m.sp + 1) as usize,
                pc: target as usize,
                ..m
            },
        ),
{
    let op = opcode_at(m);
    lemma_split_address(target as int);
    lemma_nibbles(op, 2, target as int / 256, (target as int / 16) % 16, target as int % 16);
    assert(op / 4096 == 2);
    assert(op % 4096 == target);
    assert(decoded(op) == Instruction::Call(target));
    assert(execute(m, Instruction::Call(target), key, rnd).0 == Ok::<StepResult, ChipError>(
        StepResult::Continue,
    ));
}

proof fn lemma_return_step(m: MachineState, key: Option<u8>, rnd: u8)
    requires
        m.wf(),
        pc_in_program(m),
        m.sp > 0,
        opcode_at(m) == 0x00EE,
    ensures
        next(m, key, rnd).1 == (MachineState { sp: (m.sp - 1) as usize, pc: m.stack[m.sp - 1], ..m }),
        next(m, key, rnd).0 == Ok::<StepResult, ChipError>(
            if pc_in_program(next(m, key, rnd).1) { StepResult::Continue } else { StepResult::Halted },
        ),
{
    lemma_nibbles(opcode_at(m), 0, 0, 14, 14);
    assert(decoded(opcode_at(m)) == Instruction::Return);
}

/// A `2NNN` call followed by the `00EE` at NNN returns to the instruction after
/// the call, with the stack as deep as before.
pub proof fn law_call_return(m: MachineState, target: u16, key: Option<u8>, rnd: u8)
    requires
        m.wf(),
        pc_in_program(m),
        m.sp < 48,
        0x200 <= target < 0xFFF,
        opcode_at(m) == 0x2000 + target,
        m.memory[target as int] == 0x00,
        m.memory[target + 1] == 0xEE,
    ensures
        next(m, key, rnd).0 == Ok::<StepResult, ChipError>(StepResult::Continue),
        next(next(m, key, rnd).1, key, rnd).0 == Ok::<StepResult, ChipError>(
            if m.pc + 3 < 4096 { StepResult::Continue } else { StepResult::Halted },
        ),
        next(next(m, key, rnd).1, key, rnd).1.pc == m.pc + 2,
        next(next(m, key, rnd).1, key, rnd).1.sp == m.sp,
{
    lemma_call_step(m, target, key, rnd);
    let m1 = next(m, key, rnd).1;
    assert(m1.stack.len() == 48);
    assert(m1.wf());
    assert(opcode_at(m1) == 0x00EE);
    lemma_return_step(m1, key, rnd);
}

/// `00FF` switches to 128x64 and keeps the framebuffer as it was; the cells that
/// become visible hold 0.
pub proof fn law_extended_mode(m: MachineState, key: Option<u8>, rnd: u8)
    requires
        m.wf(),
        pc_in_program(m),
        opcode_at(m) == 0x00FF,
    ensures
        next(m, key, rnd).0 == Ok::<StepResult, ChipError>(
            if m.pc + 3 < 4096 { StepResult::Continue } else { StepResult::Halted },
        ),
        next(m, key, rnd).1.width == 128,
        next(m, key, rnd).1.height == 64,
        next(m, key, rnd).1.screen == m.screen,
        forall|i: int|
            m.visible() <= i < SCHIP8_NUM_PIXELS ==> #[trigger] next(m, key, rnd).1.screen[i] == 0,
{
    assert(decoded(opcode_at(m)) == Instruction::HighRes);
}

/// `00FE` switches to 64x32, keeps the cells that stay visible and zeroes the rest.
pub proof fn law_standard_mode(m: MachineState, key: Option<u8>, rnd: u8)
    requires
        m.wf(),
        pc_in_program(m),
        opcode_at(m) == 0x00FE,
    ensures
        next(m, key, rnd).0 == Ok::<StepResult, ChipError>(
            if m.pc + 3 < 4096 { StepResult::Continue } else { StepResult::Halted },
        ),
        next(m, key, rnd).1.width == 64,
        next(m, key, rnd).1.height == 32,
        forall|i: int| 0 <= i < 2048 ==> #[trigger] next(m, key, rnd).1.screen[i] == m.screen[i],
        forall|i: int| 2048 <= i < SCHIP8_NUM_PIXELS ==> #[trigger] next(m, key, rnd).1.screen[i] == 0,
{
    assert(decoded(opcode_at(m)) == Instruction::LowRes);
}

} // verus!
