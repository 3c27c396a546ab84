use vstd::prelude::*;
use vstd::arithmetic::div_mod::lemma_fundamental_div_mod_converse;
use crate::display::{
    cleared, drawn, high_res, low_res, scrolled_down, scrolled_left, scrolled_right,
};
use crate::machine::{ChipError, MachineState, SChip8, StepResult, MEMORY_SIZE, PROGRAM_START,
    STACK_SIZE};
use crate::opcode::{changes_display, decode, decoded, operands_in_range, touches_display, Instruction};

verus! {

/// The state with the program counter moved past the current instruction.
pub open spec fn advance(m: MachineState) -> MachineState {
    MachineState { pc: (m.pc + 2) as usize, ..m }
}

/// The state with the program counter moved past the current instruction,
/// and past the next one too when `cond` holds.
pub open spec fn skip_if(m: MachineState, cond: bool) -> MachineState {
    MachineState { pc: (m.pc + if cond { 4int } else { 2int }) as usize, ..m }
}

/// The state with new register contents, moved past the current instruction.
pub open spec fn with_regs(m: MachineState, v: Seq<u8>) -> MachineState {
    advance(MachineState { v, ..m })
}

/// Whether key `k` exists and is held down.
pub open spec fn key_down(m: MachineState, k: u8) -> bool {
    k < 16 && m.keys[k as int]
}

/// `|a - b|`.
pub open spec fn abs_diff(a: u8, b: u8) -> u8 {
    if a >= b { (a - b) as u8 } else { (b - a) as u8 }
}

/// Memory address `k` bytes past I, wrapping at the end of memory.
pub open spec fn addr(m: MachineState, k: int) -> int {
    (m.ar + k) % (MEMORY_SIZE as int)
}

/// How far memory address `a` lies past I, counting round the end of memory.
pub open spec fn offset_from_i(m: MachineState, a: int) -> int {
    (a - m.ar) % (MEMORY_SIZE as int)
}

/// Memory after `FX33` with `val`: hundreds, tens and units at I, I+1, I+2.
pub open spec fn bcd_written(m: MachineState, val: u8) -> Seq<u8> {
    m.memory.update(addr(m, 0), val / 100).update(addr(m, 1), (val / 10) % 10).update(
        addr(m, 2),
        val % 10,
    )
}

/// Memory after `FX55`: V0..=VX at I onwards.
pub open spec fn stored(m: MachineState, x: u8) -> Seq<u8> {
    Seq::new(
        MEMORY_SIZE as nat,
        |a: int|
            if offset_from_i(m, a) <= x {
                m.v[offset_from_i(m, a)]
            } else {
                m.memory[a]
            },
    )
}

/// Registers after `FX65`: V0..=VX from I onwards.
pub open spec fn loaded(m: MachineState, x: u8) -> Seq<u8> {
    Seq::new(16, |k: int| if k <= x { m.memory[addr(m, k)] } else { m.v[k] })
}

/// RPL flags after `FX75`: V0..=VX copied in.
pub open spec fn saved_flags(m: MachineState, x: u8) -> Seq<u8> {
    Seq::new(8, |k: int| if k <= x { m.v[k] } else { m.rpl[k] })
}

/// Registers after `FX85`: V0..=VX copied from the RPL flags.
pub open spec fn restored_flags(m: MachineState, x: u8) -> Seq<u8> {
    Seq::new(16, |k: int| if k <= x { m.rpl[k] } else { m.v[k] })
}

/// The outcome and the next state when `ins` executes on `m`. `key` is the key
/// pressed for a pending `FX0A` (only a value below 16 counts), `rnd` the
/// random byte for `CXNN`. Errors and `00FD` leave the state unchanged.
pub open spec fn execute(m: MachineState, ins: Instruction, key: Option<u8>, rnd: u8) -> (
    Result<StepResult, ChipError>,
    MachineState,
) {
    let cont = Ok(StepResult::Continue);
    let v = m.v;
    match ins {
        Instruction::ScrollDown(n) => (
            cont,
            advance(MachineState { screen: scrolled_down(m, n as int), ..m }),
        ),
        Instruction::ClearScreen => (cont, advance(MachineState { screen: cleared(), ..m })),
        Instruction::Return => if m.sp == 0 {
            (Err(ChipError::StackUnderflow), m)
        } else {
            (
                cont,
                MachineState { sp: (m.sp - 1) as usize, pc: m.stack[m.sp - 1], ..m },
            )
        },
        Instruction::ScrollRight => (
            cont,
            advance(MachineState { screen: scrolled_right(m), ..m }),
        ),
        Instruction::ScrollLeft => (cont, advance(MachineState { screen: scrolled_left(m), ..m })),
        Instruction::Exit => (Ok(StepResult::Halted), m),
        Instruction::LowRes => (cont, advance(low_res(m))),
        Instruction::HighRes => (cont, advance(high_res(m))),
        Instruction::Jump(a) => (cont, MachineState { pc: a as usize, ..m }),
        Instruction::Call(a) => if m.sp >= STACK_SIZE {
            (Err(ChipError::StackOverflow), m)
        } else {
            (
                cont,
                MachineState {
                    stack: m.stack.update(m.sp as int, (m.pc + 2) as usize),
                    sp: (m.sp + 1) as usize,
                    pc: a as usize,
                    ..m
                },
            )
        },
        Instruction::SkipEqImm(x, nn) => (cont, skip_if(m, v[x as int] == nn)),
        Instruction::SkipNeImm(x, nn) => (cont, skip_if(m, v[x as int] != nn)),
        Instruction::SkipEqReg(x, y) => (cont, skip_if(m, v[x as int] == v[y as int])),
        Instruction::LoadImm(x, nn) => (cont, with_regs(m, v.update(x as int, nn))),
        Instruction::AddImm(x, nn) => (
            cont,
            with_regs(m, v.update(x as int, ((v[x as int] + nn) % 256) as u8)),
        ),
        Instruction::Move(x, y) => (cont, with_regs(m, v.update(x as int, v[y as int]))),
        Instruction::Or(x, y) => (cont, with_regs(m, v.update(x as int, v[x as int] | v[y as int]))),
        Instruction::And(x, y) => (
            cont,
            with_regs(m, v.update(x as int, v[x as int] & v[y as int])),
        ),
        Instruction::Xor(x, y) => (
            cont,
            with_regs(m, v.update(x as int, v[x as int] ^ v[y as int])),
        ),
        Instruction::AddReg(x, y) => {
            let sum = v[x as int] + v[y as int];
            (
                cont,
                with_regs(
                    m,
                    v.update(x as int, (sum % 256) as u8).update(
                        15,
                        if sum >= 256 { 1u8 } else { 0u8 },
                    ),
                ),
            )
        },
        Instruction::Sub(x, y) => (
            cont,
            with_regs(
                m,
                v.update(x as int, abs_diff(v[x as int], v[y as int])).update(
                    15,
                    if v[x as int] >= v[y as int] { 1u8 } else { 0u8 },
                ),
            ),
        ),
        Instruction::ShiftRight(x, _) => (
            cont,
            with_regs(m, v.update(x as int, v[x as int] / 2).update(15, v[x as int] % 2)),
        ),
        Instruction::SubRev(x, y) => (
            cont,
            with_regs(
                m,
                v.update(x as int, abs_diff(v[y as int], v[x as int])).update(
                    15,
                    if v[y as int] >= v[x as int] { 1u8 } else { 0u8 },
                ),
            ),
        ),
        Instruction::ShiftLeft(x, _) => (
            cont,
            with_regs(
                m,
                v.update(x as int, ((v[x as int] * 2) % 256) as u8).update(15, v[x as int] / 128),
            ),
        ),
        Instruction::SkipNeReg(x, y) => (cont, skip_if(m, v[x as int] != v[y as int])),
        Instruction::LoadI(a) => (cont, advance(MachineState { ar: a, ..m })),
        Instruction::JumpV0(a) => (cont, MachineState { pc: (a + v[0]) as usize, ..m }),
        Instruction::Random(x, nn) => (cont, with_regs(m, v.update(x as int, rnd & nn))),
        Instruction::Draw(x, y, n) => (cont, advance(drawn(m, x, y, n))),
        Instruction::SkipKey(x) => (cont, skip_if(m, key_down(m, v[x as int]))),
        Instruction::SkipNotKey(x) => (cont, skip_if(m, !key_down(m, v[x as int]))),
        Instruction::GetDelay(x) => (cont, with_regs(m, v.update(x as int, m.dt))),
        Instruction::WaitKey(x) => match key {
            Some(k) if k < 16 => (cont, with_regs(m, v.update(x as int, k))),
            _ => (cont, m),
        },
        Instruction::SetDelay(x) => (cont, advance(MachineState { dt: v[x as int], ..m })),
        Instruction::SetSound(x) => (cont, advance(MachineState { st: v[x as int], ..m })),
        Instruction::AddI(x) => {
            let sum = m.ar + v[x as int];
            (
                cont,
                advance(
                    MachineState {
                        ar: (sum % 4096) as u16,
                        v: v.update(15, if sum > 0xFFF { 1u8 } else { 0u8 }),
                        ..m
                    },
                ),
            )
        },
        Instruction::FontChar(x) => (
            cont,
            advance(MachineState { ar: (v[x as int] * 5) as u16, ..m }),
        ),
        Instruction::BigFontChar(x) => (
            cont,
            advance(MachineState { ar: (80 + v[x as int] * 10) as u16, ..m }),
        ),
        Instruction::Bcd(x) => (
            cont,
            advance(MachineState { memory: bcd_written(m, v[x as int]), ..m }),
        ),
        Instruction::Store(x) => (cont, advance(MachineState { memory: stored(m, x), ..m })),
        Instruction::Load(x) => (cont, with_regs(m, loaded(m, x))),
        Instruction::SaveFlags(x) => (
            cont,
            advance(MachineState { rpl: saved_flags(m, x), ..m }),
        ),
        Instruction::RestoreFlags(x) => (cont, with_regs(m, restored_flags(m, x))),
        Instruction::Unknown(op) => (Err(ChipError::UnknownInstruction(op)), m),
    }
}

/// The program counter points at a whole instruction inside the program area.
pub open spec fn pc_in_program(m: MachineState) -> bool {
    PROGRAM_START <= m.pc && m.pc + 1 < MEMORY_SIZE
}

/// The big-endian opcode at the program counter.
pub open spec fn opcode_at(m: MachineState) -> u16 {
    (m.memory[m.pc as int] * 256 + m.memory[m.pc + 1]) as u16
}

/// One step of the machine: halt when the program counter is outside the
/// program area, otherwise execute the instruction it points at. An
/// instruction that would go on with the program counter outside the program
/// area halts instead, with that state.
pub open spec fn next(m: MachineState, key: Option<u8>, rnd: u8) -> (
    Result<StepResult, ChipError>,
    MachineState,
) {
    if !pc_in_program(m) {
        (Ok(StepResult::Halted), m)
    } else {
        let e = execute(m, decoded(opcode_at(m)), key, rnd);
        if e.0 == Ok::<StepResult, ChipError>(StepResult::Continue) && !pc_in_program(e.1) {
            (Ok(StepResult::Halted), e.1)
        } else {
            e
        }
    }
}

/// What `run` reports for the outcome of a step: `Ok(true)` to go on,
/// `Ok(false)` after a clean halt, and the error itself on a fatal error.
pub open spec fn run_result(res: Result<StepResult, ChipError>) -> Result<bool, ChipError> {
    match res {
        Ok(s) => Ok(s == StepResult::Continue),
        Err(e) => Err(e),
    }
}

proof fn lemma_wrap(ar: int, k: int)
    requires
        0 <= ar < 4096,
        0 <= k < 4096,
    ensures
        (ar + k) % 4096 == if ar + k < 4096 { ar + k } else { ar + k - 4096 },
{
    if ar + k < 4096 {
        lemma_fundamental_div_mod_converse(ar + k, 4096, 0, ar + k);
    } else {
        lemma_fundamental_div_mod_converse(ar + k, 4096, 1, ar + k - 4096);
    }
}

proof fn lemma_offset(a: int, ar: int)
    requires
        0 <= ar < 4096,
        0 <= a < 4096,
    ensures
        (a - ar) % 4096 == if a >= ar { a - ar } else { a - ar + 4096 },
{
    if a >= ar {
        lemma_fundamental_div_mod_converse(a - ar, 4096, 0, a - ar);
    } else {
        lemma_fundamental_div_mod_converse(a - ar, 4096, -1, a - ar + 4096);
    }
}

} // verus!

verus! {

/// Instructions that reposition the program counter, touch the stack or the
/// display, or stop the machine.
pub open spec fn is_control(ins: Instruction) -> bool {
    match ins {
        Instruction::ScrollDown(_) | Instruction::ClearScreen | Instruction::Return
        | Instruction::ScrollRight | Instruction::ScrollLeft | Instruction::Exit
        | Instruction::LowRes | Instruction::HighRes | Instruction::Jump(_) | Instruction::Call(_)
        | Instruction::JumpV0(_) | Instruction::Draw(_, _, _) | Instruction::Unknown(_) => true,
        _ => false,
    }
}

/// Conditional skips.
pub open spec fn is_skip(ins: Instruction) -> bool {
    match ins {
        Instruction::SkipEqImm(_, _) | Instruction::SkipNeImm(_, _) | Instruction::SkipEqReg(_, _)
        | Instruction::SkipNeReg(_, _) | Instruction::SkipKey(_) | Instruction::SkipNotKey(_) => true,
        _ => false,
    }
}

/// Register arithmetic and logic.
pub open spec fn is_alu(ins: Instruction) -> bool {
    match ins {
        Instruction::LoadImm(_, _) | Instruction::AddImm(_, _) | Instruction::Move(_, _)
        | Instruction::Or(_, _) | Instruction::And(_, _) | Instruction::Xor(_, _)
        | Instruction::AddReg(_, _) | Instruction::Sub(_, _) | Instruction::ShiftRight(_, _)
        | Instruction::SubRev(_, _) | Instruction::ShiftLeft(_, _) | Instruction::Random(_, _) => true,
        _ => false,
    }
}

impl SChip8 {
    fn exec_control(&mut self, ins: Instruction) -> (r: Result<StepResult, ChipError>)
        requires
            old(self).wf(),
            pc_in_program(old(self)@),
            operands_in_range(ins),
            is_control(ins),
        ensures
            r == execute(old(self)@, ins, None, 0).0,
            final(self)@ == execute(old(self)@, ins, None, 0).1,
            final(self).wf(),
    {
        let ghost m = self@;
        match ins {
            Instruction::ScrollDown(n) => {
                self.scroll_down(n);
                self.pc = self.pc + 2;
            },
            Instruction::ClearScreen => {
                self.clear_screen();
                self.pc = self.pc + 2;
            },
            Instruction::Return => {
                if self.sp == 0 {
                    return Err(ChipError::StackUnderflow);
                }
                self.sp = self.sp - 1;
                self.pc = self.stack[self.sp];
            },
            Instruction::ScrollRight => {
                self.scroll_right();
                self.pc = self.pc + 2;
            },
            Instruction::ScrollLeft => {
                self.scroll_left();
                self.pc = self.pc + 2;
            },
            Instruction::Exit => {
                return Ok(StepResult::Halted);
            },
            Instruction::LowRes => {
                self.disable_extended();
                self.pc = self.pc + 2;
            },
            Instruction::HighRes => {
                self.enable_extended();
                self.pc = self.pc + 2;
            },
            Instruction::Jump(a) => {
                self.pc = a as usize;
            },
            Instruction::Call(a) => {
                if self.sp >= STACK_SIZE {
                    return Err(ChipError::StackOverflow);
                }
                self.stack[self.sp] = self.pc + 2;
                self.sp = self.sp + 1;
                self.pc = a as usize;
            },
            Instruction::JumpV0(a) => {
                self.pc = a as usize + self.v[0] as usize;
            },
            Instruction::Draw(x, y, n) => {
                self.render(x, y, n);
                self.pc = self.pc + 2;
            },
            Instruction::Unknown(op) => {
                return Err(ChipError::UnknownInstruction(op));
            },
            _ => {},
        }
        assert(self@ =~= execute(m, ins, None, 0).1);
        Ok(StepResult::Continue)
    }

    fn exec_skip(&mut self, ins: Instruction)
        requires
            old(self).wf(),
            pc_in_program(old(self)@),
            operands_in_range(ins),
            is_skip(ins),
        ensures
            execute(old(self)@, ins, None, 0).0 == Ok::<StepResult, ChipError>(StepResult::Continue),
            final(self)@ == execute(old(self)@, ins, None, 0).1,
            final(self).wf(),
    {
        let ghost m = self@;
        let cond: bool = match ins {
            Instruction::SkipEqImm(x, nn) => self.v[x as usize] == nn,
            Instruction::SkipNeImm(x, nn) => self.v[x as usize] != nn,
            Instruction::SkipEqReg(x, y) => self.v[x as usize] == self.v[y as usize],
            Instruction::SkipNeReg(x, y) => self.v[x as usize] != self.v[y as usize],
            Instruction::SkipKey(x) => {
                let k: u8 = self.v[x as usize];
                k < 16 && self.key_pad[k as usize]
            },
            Instruction::SkipNotKey(x) => {
                let k: u8 = self.v[x as usize];
                !(k < 16 && self.key_pad[k as usize])
            },
            _ => false,
        };
        if cond {
            self.pc = self.pc + 4;
        } else {
            self.pc = self.pc + 2;
        }
        assert(self@ =~= execute(m, ins, None, 0).1);
    }

    fn exec_alu(&mut self, ins: Instruction, rnd: u8)
        requires
            old(self).wf(),
            pc_in_program(old(self)@),
            operands_in_range(ins),
            is_alu(ins),
        ensures
            execute(old(self)@, ins, None, rnd).0 == Ok::<StepResult, ChipError>(StepResult::Continue),
            final(self)@ == execute(old(self)@, ins, None, rnd).1,
            final(self).wf(),
    {
        let ghost m = self@;
        match ins {
            Instruction::LoadImm(x, nn) => {
                self.v[x as usize] = nn;
            },
            Instruction::AddImm(x, nn) => {
                let sum: u16 = self.v[x as usize] as u16 + nn as u16;
                self.v[x as usize] = (sum % 256) as u8;
            },
            Instruction::Move(x, y) => {
                self.v[x as usize] = self.v[y as usize];
            },
            Instruction::Or(x, y) => {
                self.v[x as usize] = self.v[x as usize] | self.v[y as usize];
            },
            Instruction::And(x, y) => {
                self.v[x as usize] = self.v[x as usize] & self.v[y as usize];
            },
            Instruction::Xor(x, y) => {
                self.v[x as usize] = self.v[x as usize] ^ self.v[y as usize];
            },
            Instruction::AddReg(x, y) => {
                let sum: u16 = self.v[x as usize] as u16 + self.v[y as usize] as u16;
                self.v[x as usize] = (sum % 256) as u8;
                self.v[15] = if sum >= 256 { 1 } else { 0 };
            },
            Instruction::Sub(x, y) => {
                let a: u8 = self.v[x as usize];
                let b: u8 = self.v[y as usize];
                if a >= b {
                    self.v[x as usize] = a - b;
                    self.v[15] = 1;
                } else {
                    self.v[x as usize] = b - a;
                    self.v[15] = 0;
                }
            },
            Instruction::ShiftRight(x, _) => {
                let a: u8 = self.v[x as usize];
                self.v[x as usize] = a / 2;
                self.v[15] = a % 2;
            },
            Instruction::SubRev(x, y) => {
                let a: u8 = self.v[x as usize];
                let b: u8 = self.v[y as usize];
                if b >= a {
                    self.v[x as usize] = b - a;
                    self.v[15] = 1;
                } else {
                    self.v[x as usize] = a - b;
                    self.v[15] = 0;
                }
            },
            Instruction::ShiftLeft(x, _) => {
                let a: u8 = self.v[x as usize];
                self.v[x as usize] = ((a as u16 * 2) % 256) as u8;
                self.v[15] = a / 128;
            },
            Instruction::Random(x, nn) => {
                self.v[x as usize] = rnd & nn;
            },
            _ => {},
        }
        self.pc = self.pc + 2;
        assert(self@ =~= execute(m, ins, None, rnd).1);
    }
}

} // verus!

verus! {

impl SChip8 {
    fn exec_misc(&mut self, ins: Instruction, key: Option<u8>)
        requires
            old(self).wf(),
            pc_in_program(old(self)@),
            operands_in_range(ins),
            !is_control(ins),
            !is_skip(ins),
            !is_alu(ins),
        ensures
            execute(old(self)@, ins, key, 0).0 == Ok::<StepResult, ChipError>(StepResult::Continue),
            final(self)@ == execute(old(self)@, ins, key, 0).1,
            final(self).wf(),
    {
        let ghost m = self@;
        match ins {
            Instruction::LoadI(a) => {
                self.ar = a;
            },
            Instruction::GetDelay(x) => {
                self.v[x as usize] = self.dt;
            },
            Instruction::WaitKey(x) => {
                match key {
                    Some(k) => {
                        if k < 16 {
                            self.v[x as usize] = k;
                        } else {
                            assert(self@ =~= execute(m, ins, key, 0).1);
                            return;
                        }
                    },
                    None => {
                        assert(self@ =~= execute(m, ins, key, 0).1);
                        return;
                    },
                }
            },
            Instruction::SetDelay(x) => {
                self.dt = self.v[x as usize];
            },
            Instruction::SetSound(x) => {
                self.st = self.v[x as usize];
            },
            Instruction::AddI(x) => {
                let sum: u16 = self.ar + self.v[x as usize] as u16;
                self.ar = sum % 4096;
                self.v[15] = if sum > 0xFFF { 1 } else { 0 };
            },
            Instruction::FontChar(x) => {
                self.ar = self.v[x as usize] as u16 * 5;
            },
            Instruction::BigFontChar(x) => {
                self.ar = 80 + self.v[x as usize] as u16 * 10;
            },
            Instruction::Bcd(x) => {
                let val: u8 = self.v[x as usize];
                let ar: usize = self.ar as usize;
                self.ram[ar % MEMORY_SIZE] = val / 100;
                self.ram[(ar + 1) % MEMORY_SIZE] = (val / 10) % 10;
                self.ram[(ar + 2) % MEMORY_SIZE] = val % 10;
            },
            Instruction::Store(x) => {
                self.store_registers(x);
            },
            Instruction::Load(x) => {
                self.load_registers(x);
            },
            Instruction::SaveFlags(x) => {
                let mut k: usize = 0;
                while k <= x as usize
                    invariant
                        x < 8,
                        k <= x + 1,
                        self@ == (MachineState { rpl: self@.rpl, ..m }),
                        self.r@.len() == 8,
                        forall|j: int| 0 <= j < 8 ==> #[trigger] self.r@[j] == if j < k { m.v[j] } else { m.rpl[j] },
                    decreases x + 1 - k,
                {
                    self.r[k] = self.v[k];
                    k += 1;
                }
                assert(self.r@ =~= saved_flags(m, x));
            },
            Instruction::RestoreFlags(x) => {
                let mut k: usize = 0;
                while k <= x as usize
                    invariant
                        x < 8,
                        k <= x + 1,
                        self@ == (MachineState { v: self@.v, ..m }),
                        self.v@.len() == 16,
                        forall|j: int| 0 <= j < 16 ==> #[trigger] self.v@[j] == if j < k { m.rpl[j] } else { m.v[j] },
                    decreases x + 1 - k,
                {
                    self.v[k] = self.r[k];
                    k += 1;
                }
                assert(self.v@ =~= restored_flags(m, x));
            },
            _ => {},
        }
        self.pc = self.pc + 2;
        assert(self@ =~= execute(m, ins, key, 0).1);
    }

    fn store_registers(&mut self, x: u8)
        requires
            old(self).wf(),
            x < 16,
        ensures
            final(self)@ == (MachineState { memory: stored(old(self)@, x), ..old(self)@ }),
            final(self).wf(),
    {
        let ghost m = self@;
        let ar: usize = self.ar as usize;
        let mut k: usize = 0;
        while k <= x as usize
            invariant
                x < 16,
                k <= x + 1,
                ar == m.ar,
                m.wf(),
                self@ == (MachineState { memory: self@.memory, ..m }),
                self.ram@.len() == MEMORY_SIZE,
                forall|a: int|
                    0 <= a < MEMORY_SIZE ==> #[trigger] self.ram@[a] == if offset_from_i(m, a) < k {
                        m.v[offset_from_i(m, a)]
                    } else {
                        m.memory[a]
                    },
            decreases x + 1 - k,
        {
            let p: usize = (ar + k) % MEMORY_SIZE;
            proof {
                lemma_wrap(ar as int, k as int);
                lemma_offset(p as int, ar as int);
                assert forall|a: int| 0 <= a < MEMORY_SIZE implies (offset_from_i(m, a) == k <==> a == p) by {
                    lemma_offset(a, ar as int);
                }
            }
            self.ram[p] = self.v[k];
            k += 1;
        }
        proof {
            assert forall|a: int| 0 <= a < MEMORY_SIZE implies 0 <= #[trigger] offset_from_i(m, a) < MEMORY_SIZE by {
                lemma_offset(a, ar as int);
            }
        }
        assert(self.ram@ =~= stored(m, x));
        assert(self@ =~= (MachineState { memory: stored(m, x), ..m }));
    }

    fn load_registers(&mut self, x: u8)
        requires
            old(self).wf(),
            x < 16,
        ensures
            final(self)@ == (MachineState { v: loaded(old(self)@, x), ..old(self)@ }),
            final(self).wf(),
    {
        let ghost m = self@;
        let ar: usize = self.ar as usize;
        let mut k: usize = 0;
        while k <= x as usize
            invariant
                x < 16,
                k <= x + 1,
                ar == m.ar,
                m.wf(),
                self@ == (MachineState { v: self@.v, ..m }),
                self.v@.len() == 16,
                forall|j: int|
                    0 <= j < 16 ==> #[trigger] self.v@[j] == if j < k {
                        m.memory[addr(m, j)]
                    } else {
                        m.v[j]
                    },
            decreases x + 1 - k,
        {
            self.v[k] = self.ram[(ar + k) % MEMORY_SIZE];
            k += 1;
        }
        assert(self.v@ =~= loaded(m, x));
        assert(self@ =~= (MachineState { v: loaded(m, x), ..m }));
    }
}

} // verus!

verus! {

/// Relies on `rand::random::<u8>`: a byte drawn from the thread-local
/// generator. Any byte may come back.
#[verifier::external_body]
fn random_byte() -> (r: u8) {
    rand::random::<u8>()
}

/// The pending key in the form `run` takes it: a value below 16 is a key,
/// anything else means no key.
pub open spec fn key_of(key: usize) -> Option<u8> {
    if key < 16 { Some(key as u8) } else { None }
}

impl SChip8 {
    /// Executes one decoded instruction. `key` answers a pending `FX0A`,
    /// `rnd` is the random byte for `CXNN`.
    pub fn execute_instruction(&mut self, ins: Instruction, key: Option<u8>, rnd: u8) -> (r: Result<StepResult, ChipError>)
        requires
            old(self).wf(),
            pc_in_program(old(self)@),
            operands_in_range(ins),
        ensures
            r == execute(old(self)@, ins, key, rnd).0,
            final(self)@ == execute(old(self)@, ins, key, rnd).1,
            final(self).wf(),
    {
        if is_control_instruction(&ins) {
            self.exec_control(ins)
        } else if is_skip_instruction(&ins) {
            self.exec_skip(ins);
            Ok(StepResult::Continue)
        } else if is_alu_instruction(&ins) {
            self.exec_alu(ins, rnd);
            Ok(StepResult::Continue)
        } else {
            self.exec_misc(ins, key);
            Ok(StepResult::Continue)
        }
    }

    /// The big-endian opcode at the program counter.
    pub fn fetch(&self) -> (op: u16)
        requires
            self.wf(),
            pc_in_program(self@),
        ensures
            op == opcode_at(self@),
    {
        self.ram[self.pc] as u16 * 256 + self.ram[self.pc + 1] as u16
    }

    /// Whether the program counter points at a whole instruction inside the
    /// program area.
    pub fn pc_ok(&self) -> (r: bool)
        ensures
            r == pc_in_program(self@),
    {
        self.pc >= PROGRAM_START && self.pc < MEMORY_SIZE - 1
    }

    /// One step with the random byte for `CXNN` given: halts when the program
    /// counter is outside the program area, otherwise decodes and executes the
    /// instruction there, and halts if that leaves the program counter outside
    /// the program area.
    pub fn step_with(&mut self, key: Option<u8>, random: u8) -> (r: Result<StepResult, ChipError>)
        requires
            old(self).wf(),
        ensures
            r == next(old(self)@, key, random).0,
            final(self)@ == next(old(self)@, key, random).1,
            r == Ok::<StepResult, ChipError>(StepResult::Continue) ==> pc_in_program(final(self)@),
            final(self).wf(),
    {
        if !self.pc_ok() {
            return Ok(StepResult::Halted);
        }
        let op: u16 = self.fetch();
        let ins: Instruction = decode(op);
        let r = self.execute_instruction(ins, key, random);
        match r {
            Ok(StepResult::Continue) => {
                if self.pc_ok() {
                    r
                } else {
                    Ok(StepResult::Halted)
                }
            },
            _ => r,
        }
    }

    /// One step; a `CXNN` instruction draws its random byte from the system
    /// generator.
    pub fn step(&mut self, key: Option<u8>) -> (r: Result<StepResult, ChipError>)
        requires
            old(self).wf(),
        ensures
            exists|b: u8|
                r == #[trigger] next(old(self)@, key, b).0 && final(self)@ == next(old(self)@, key, b).1,
            r == Ok::<StepResult, ChipError>(StepResult::Continue) ==> pc_in_program(final(self)@),
            final(self).wf(),
    {
        let mut b: u8 = 0;
        if self.pc_ok() {
            match decode(self.fetch()) {
                Instruction::Random(_, _) => {
                    b = random_byte();
                },
                _ => {},
            }
        }
        self.step_with(key, b)
    }

    /// Runs one instruction for a driver loop. `key` below 16 is the key that
    /// answers a pending `FX0A`; any other value means no key. Returns
    /// `Ok(true)` when the machine goes on, `Ok(false)` after `00FD` or when
    /// the program counter left the program area, and the error on a fatal
    /// error. Sets `redraw` when the instruction changed the display and the
    /// machine goes on.
    pub fn run(&mut self, key: usize, redraw: &mut bool) -> (r: Result<bool, ChipError>)
        requires
            old(self).wf(),
        ensures
            exists|b: u8|
                r == run_result(#[trigger] next(old(self)@, key_of(key), b).0) && final(self)@
                    == next(old(self)@, key_of(key), b).1,
            r == Ok::<bool, ChipError>(true) ==> pc_in_program(final(self)@),
            *final(redraw) == (*old(redraw) || (r == Ok::<bool, ChipError>(true) && touches_display(
                decoded(opcode_at(old(self)@)),
            ))),
            final(self).wf(),
    {
        let k: Option<u8> = if key < 16 { Some(key as u8) } else { None };
        let shows: bool = if self.pc_ok() {
            let op: u16 = self.fetch();
            changes_display(&decode(op))
        } else {
            false
        };
        match self.step(k) {
            Ok(StepResult::Continue) => {
                if shows {
                    *redraw = true;
                }
                Ok(true)
            },
            Ok(StepResult::Halted) => Ok(false),
            Err(e) => Err(e),
        }
    }
}

fn is_control_instruction(ins: &Instruction) -> (r: bool)
    ensures
        r == is_control(*ins),
{
    match ins {
        Instruction::ScrollDown(_) | Instruction::ClearScreen | Instruction::Return
        | Instruction::ScrollRight | Instruction::ScrollLeft | Instruction::Exit
        | Instruction::LowRes | Instruction::HighRes | Instruction::Jump(_) | Instruction::Call(_)
        | Instruction::JumpV0(_) | Instruction::Draw(_, _, _) | Instruction::Unknown(_) => true,
        _ => false,
    }
}

fn is_skip_instruction(ins: &Instruction) -> (r: bool)
    ensures
        r == is_skip(*ins),
{
    match ins {
        Instruction::SkipEqImm(_, _) | Instruction::SkipNeImm(_, _) | Instruction::SkipEqReg(_, _)
        | Instruction::SkipNeReg(_, _) | Instruction::SkipKey(_) | Instruction::SkipNotKey(_) => true,
        _ => false,
    }
}

fn is_alu_instruction(ins: &Instruction) -> (r: bool)
    ensures
        r == is_alu(*ins),
{
    match ins {
        Instruction::LoadImm(_, _) | Instruction::AddImm(_, _) | Instruction::Move(_, _)
        | Instruction::Or(_, _) | Instruction::And(_, _) | Instruction::Xor(_, _)
        | Instruction::AddReg(_, _) | Instruction::Sub(_, _) | Instruction::ShiftRight(_, _)
        | Instruction::SubRev(_, _) | Instruction::ShiftLeft(_, _) | Instruction::Random(_, _) => true,
        _ => false,
    }
}

} // verus!
