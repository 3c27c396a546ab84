use vstd::prelude::*;

verus! {

/// Width of the standard display.
pub const CHIP8_SCREEN_WIDTH: usize = 64;
/// Height of the standard display.
pub const CHIP8_SCREEN_HEIGHT: usize = 32;
/// Width of the extended display.
pub const SCHIP8_SCREEN_WIDTH: usize = 128;
/// Height of the extended display.
pub const SCHIP8_SCREEN_HEIGHT: usize = 64;
/// Cells in the framebuffer, sized for the extended display.
pub const SCHIP8_NUM_PIXELS: usize = 8192;
/// Bytes of addressable memory.
pub const MEMORY_SIZE: usize = 4096;
/// Address at which programs are loaded and execution starts.
pub const PROGRAM_START: usize = 512;
/// Largest program image that fits between `PROGRAM_START` and the end of memory.
pub const MAX_PROGRAM_SIZE: usize = 3584;
/// Depth of the call stack.
pub const STACK_SIZE: usize = 48;
/// Address of the large (8x10) font in memory.
pub const BIG_FONT_START: usize = 80;

/// The 4x5 hexadecimal font, five bytes per glyph.
pub const CHIP8_FONT: [u8; 80] = [
    0xF0, 0x90, 0x90, 0x90, 0xF0, 0x20, 0x60, 0x20, 0x20, 0x70, 0xF0, 0x10, 0xF0, 0x80, 0xF0, 0xF0,
    0x10, 0xF0, 0x10, 0xF0, 0x90, 0x90, 0xF0, 0x10, 0x10, 0xF0, 0x80, 0xF0, 0x10, 0xF0, 0xF0, 0x80,
    0xF0, 0x90, 0xF0, 0xF0, 0x10, 0x20, 0x40, 0x40, 0xF0, 0x90, 0xF0, 0x90, 0xF0, 0xF0, 0x90, 0xF0,
    0x10, 0xF0, 0xF0, 0x90, 0xF0, 0x90, 0x90, 0xE0, 0x90, 0xE0, 0x90, 0xE0, 0xF0, 0x80, 0x80, 0x80,
    0xF0, 0xE0, 0x90, 0x90, 0x90, 0xE0, 0xF0, 0x80, 0xF0, 0x80, 0xF0, 0xF0, 0x80, 0xF0, 0x80, 0x80,
];

/// The 8x10 decimal font used by the extended instruction set, ten bytes per glyph.
pub const SCHIP8_FONT: [u8; 100] = [
    0x3C, 0x7E, 0xE7, 0xC3, 0xC3, 0xC3, 0xC3, 0xE7, 0x7E, 0x3C, 0x18, 0x38, 0x58, 0x18, 0x18, 0x18,
    0x18, 0x18, 0x18, 0x3C, 0x3E, 0x7F, 0xC3, 0x06, 0x0C, 0x18, 0x30, 0x60, 0xFF, 0xFF, 0x3C, 0x7E,
    0xC3, 0x03, 0x0E, 0x0E, 0x03, 0xC3, 0x7E, 0x3C, 0x06, 0x0E, 0x1E, 0x36, 0x66, 0xC6, 0xFF, 0xFF,
    0x06, 0x06, 0xFF, 0xFF, 0xC0, 0xC0, 0xFC, 0xFE, 0x03, 0xC3, 0x7E, 0x3C, 0x3E, 0x7C, 0xC0, 0xC0,
    0xFC, 0xFE, 0xC3, 0xC3, 0x7E, 0x3C, 0xFF, 0xFF, 0x03, 0x06, 0x0C, 0x18, 0x30, 0x60, 0x60, 0x60,
    0x3C, 0x7E, 0xC3, 0xC3, 0x7E, 0x7E, 0xC3, 0xC3, 0x7E, 0x3C, 0x3C, 0x7E, 0xC3, 0xC3, 0x7F, 0x3F,
    0x03, 0x03, 0x3E, 0x7C,
];

/// The whole interpreter state as mathematical values.
#[verifier::ext_equal]
pub struct MachineState {
    pub memory: Seq<u8>,
    pub pc: usize,
    pub ar: u16,
    pub sp: usize,
    pub rpl: Seq<u8>,
    pub v: Seq<u8>,
    pub dt: u8,
    pub st: u8,
    pub stack: Seq<usize>,
    pub screen: Seq<u8>,
    pub width: usize,
    pub height: usize,
    pub extended: bool,
    pub keys: Seq<bool>,
}

impl MachineState {
    /// Number of cells the current display mode shows.
    pub open spec fn visible(self) -> int {
        self.width * self.height
    }

    /// The display dimensions agree with the mode flag.
    pub open spec fn mode_consistent(self) -> bool {
        if self.extended {
            self.width == SCHIP8_SCREEN_WIDTH && self.height == SCHIP8_SCREEN_HEIGHT
        } else {
            self.width == CHIP8_SCREEN_WIDTH && self.height == CHIP8_SCREEN_HEIGHT
        }
    }

    /// Every framebuffer cell holds 0 or 1, and cells past the visible area hold 0.
    pub open spec fn screen_ok(self) -> bool {
        &&& self.screen.len() == SCHIP8_NUM_PIXELS
        &&& forall|i: int| 0 <= i < SCHIP8_NUM_PIXELS ==> #[trigger] self.screen[i] <= 1
        &&& forall|i: int| self.visible() <= i < SCHIP8_NUM_PIXELS ==> #[trigger] self.screen[i] == 0
    }

    /// The visible area of either display mode fits in the framebuffer.
    pub proof fn lemma_visible(self)
        requires
            self.mode_consistent(),
        ensures
            self.visible() == if self.extended { 8192int } else { 2048int },
            self.visible() <= SCHIP8_NUM_PIXELS,
            self.width >= 64,
            self.height >= 32,
    {
        let w = self.width as int;
        let h = self.height as int;
        if self.extended {
            assert(w * h == 8192) by (nonlinear_arith)
                requires
                    w == 128 && h == 64,
            ;
        } else {
            assert(w * h == 2048) by (nonlinear_arith)
                requires
                    w == 64 && h == 32,
            ;
        }
    }

    /// The invariant the interpreter keeps between instructions.
    pub open spec fn wf(self) -> bool {
        &&& self.memory.len() == MEMORY_SIZE
        &&& self.rpl.len() == 8
        &&& self.v.len() == 16
        &&& self.stack.len() == STACK_SIZE
        &&& self.keys.len() == 16
        &&& self.ar < 4096
        &&& self.sp <= STACK_SIZE
        &&& self.mode_consistent()
        &&& self.screen_ok()
    }
}

/// Memory right after loading `program`: both fonts, then the program at
/// `PROGRAM_START`, zero everywhere else.
pub open spec fn initial_memory(program: Seq<u8>) -> Seq<u8> {
    Seq::new(
        MEMORY_SIZE as nat,
        |a: int|
            if a < 80 {
                CHIP8_FONT@[a]
            } else if a < 180 {
                SCHIP8_FONT@[a - 80]
            } else if PROGRAM_START <= a < PROGRAM_START + program.len() {
                program[a - PROGRAM_START]
            } else {
                0u8
            },
    )
}

/// The state of a freshly loaded machine.
pub open spec fn initial_state(program: Seq<u8>) -> MachineState {
    MachineState {
        memory: initial_memory(program),
        pc: PROGRAM_START,
        ar: 0,
        sp: 0,
        rpl: Seq::new(8, |i: int| 0u8),
        v: Seq::new(16, |i: int| 0u8),
        dt: 0,
        st: 0,
        stack: Seq::new(STACK_SIZE as nat, |i: int| 0usize),
        screen: Seq::new(SCHIP8_NUM_PIXELS as nat, |i: int| 0u8),
        width: CHIP8_SCREEN_WIDTH,
        height: CHIP8_SCREEN_HEIGHT,
        extended: false,
        keys: Seq::new(16, |i: int| false),
    }
}

/// A Super-CHIP-8 machine: memory, registers, stack, timers, keypad and display.
pub struct SChip8 {
    /// Address of the next instruction.
    pub pc: usize,
    /// Address register I.
    pub ar: u16,
    /// Number of return addresses on the stack.
    pub sp: usize,
    /// RPL user flags.
    pub r: [u8; 8],
    /// General registers V0..VF; VF doubles as the flag register.
    pub v: [u8; 16],
    /// Delay timer.
    pub dt: u8,
    /// Sound timer.
    pub st: u8,
    /// Return addresses, filled from index 0 upwards.
    pub stack: [usize; 48],
    /// Memory.
    pub ram: [u8; 4096],
    /// Framebuffer, row-major with a stride of `screen_width`, one cell per pixel.
    pub screen: [u8; 8192],
    /// Width of the current display mode.
    pub screen_width: usize,
    /// Height of the current display mode.
    pub screen_height: usize,
    /// Whether the extended (128x64) display is on.
    pub extended_screen: bool,
    /// Which of the sixteen keys are held down.
    pub key_pad: [bool; 16],
}

impl View for SChip8 {
    type V = MachineState;

    open spec fn view(&self) -> MachineState {
        MachineState {
            memory: self.ram@,
            pc: self.pc,
            ar: self.ar,
            sp: self.sp,
            rpl: self.r@,
            v: self.v@,
            dt: self.dt,
            st: self.st,
            stack: self.stack@,
            screen: self.screen@,
            width: self.screen_width,
            height: self.screen_height,
            extended: self.extended_screen,
            keys: self.key_pad@,
        }
    }
}

/// Why the machine could not be loaded or could not go on.
#[derive(PartialEq, Eq, Structural, Clone, Copy, Debug)]
pub enum ChipError {
    /// The program image does not fit in memory.
    ProgramTooLarge,
    /// The opcode is not part of the instruction set.
    UnknownInstruction(u16),
    /// A call found the stack full.
    StackOverflow,
    /// A return found the stack empty.
    StackUnderflow,
}

/// What the driver should do after a step.
#[derive(PartialEq, Eq, Structural, Clone, Copy, Debug)]
pub enum StepResult {
    /// Keep stepping.
    Continue,
    /// The program ended normally.
    Halted,
}

impl SChip8 {
    /// The interpreter invariant on this machine.
    pub open spec fn wf(&self) -> bool {
        self@.wf()
    }

    /// Loads `program` at `PROGRAM_START`, with both fonts in low memory and
    /// everything else zero.
    pub fn new(program: Vec<u8>) -> (m: SChip8)
        requires
            program.len() <= MAX_PROGRAM_SIZE,
        ensures
            m@ == initial_state(program@),
            m.wf(),
    {
        let mut ram: [u8; 4096] = [0; 4096];
        let small: [u8; 80] = CHIP8_FONT;
        let big: [u8; 100] = SCHIP8_FONT;
        let mut i: usize = 0;
        while i < 80
            invariant
                i <= 80,
                small@ == CHIP8_FONT@,
                forall|a: int| 0 <= a < i ==> ram@[a] == CHIP8_FONT@[a],
                forall|a: int| i <= a < MEMORY_SIZE ==> ram@[a] == 0,
            decreases 80 - i,
        {
            ram[i] = small[i];
            i += 1;
        }
        let mut i: usize = 0;
        while i < 100
            invariant
                i <= 100,
                big@ == SCHIP8_FONT@,
                forall|a: int| 0 <= a < 80 ==> ram@[a] == CHIP8_FONT@[a],
                forall|a: int| 80 <= a < 80 + i ==> ram@[a] == SCHIP8_FONT@[a - 80],
                forall|a: int| 80 + i <= a < MEMORY_SIZE ==> ram@[a] == 0,
            decreases 100 - i,
        {
            ram[BIG_FONT_START + i] = big[i];
            i += 1;
        }
        let mut i: usize = 0;
        while i < program.len()
            invariant
                i <= program.len() <= MAX_PROGRAM_SIZE,
                forall|a: int| 0 <= a < 80 ==> ram@[a] == CHIP8_FONT@[a],
                forall|a: int| 80 <= a < 180 ==> ram@[a] == SCHIP8_FONT@[a - 80],
                forall|a: int| 180 <= a < PROGRAM_START ==> ram@[a] == 0,
                forall|a: int| PROGRAM_START <= a < PROGRAM_START + i ==> ram@[a] == program@[a - PROGRAM_START],
                forall|a: int| PROGRAM_START + i <= a < MEMORY_SIZE ==> ram@[a] == 0,
            decreases program.len() - i,
        {
            ram[PROGRAM_START + i] = program[i];
            i += 1;
        }
        assert(ram@ =~= initial_memory(program@));
        let m = SChip8 {
            pc: PROGRAM_START,
            ar: 0,
            sp: 0,
            r: [0; 8],
            v: [0; 16],
            dt: 0,
            st: 0,
            stack: [0; 48],
            ram,
            screen: [0; 8192],
            screen_width: CHIP8_SCREEN_WIDTH,
            screen_height: CHIP8_SCREEN_HEIGHT,
            extended_screen: false,
            key_pad: [false; 16],
        };
        assert(m.r@ =~= initial_state(program@).rpl);
        assert(m.v@ =~= initial_state(program@).v);
        assert(m.stack@ =~= initial_state(program@).stack);
        assert(m.screen@ =~= initial_state(program@).screen);
        assert(m.key_pad@ =~= initial_state(program@).keys);
        assert(m@ =~= initial_state(program@));
        m
    }

    /// Loads `program`, refusing an image that does not fit in memory.
    pub fn load(program: Vec<u8>) -> (r: Result<SChip8, ChipError>)
        ensures
            program.len() > MAX_PROGRAM_SIZE <==> r == Err::<SChip8, ChipError>(ChipError::ProgramTooLarge),
            r is Ok <==> program.len() <= MAX_PROGRAM_SIZE,
            r is Ok ==> r->Ok_0@ == initial_state(program@) && r->Ok_0.wf(),
    {
        if program.len() > MAX_PROGRAM_SIZE {
            Err(ChipError::ProgramTooLarge)
        } else {
            Ok(SChip8::new(program))
        }
    }
}


impl SChip8 {
    /// Records key `key` as held down or released.
    pub fn set_key(&mut self, key: u8, pressed: bool)
        requires
            old(self).wf(),
            key < 16,
        ensures
            final(self)@ == (MachineState { keys: old(self)@.keys.update(key as int, pressed), ..old(self)@ }),
            final(self).wf(),
    {
        self.key_pad[key as usize] = pressed;
        assert(self@ =~= (MachineState { keys: old(self)@.keys.update(key as int, pressed), ..old(self)@ }));
    }

    /// One 60 Hz tick: each timer that is above zero goes down by one.
    pub fn tick_timers(&mut self)
        requires
            old(self).wf(),
        ensures
            final(self)@ == (MachineState {
                dt: if old(self).dt > 0 { (old(self).dt - 1) as u8 } else { 0 },
                st: if old(self).st > 0 { (old(self).st - 1) as u8 } else { 0 },
                ..old(self)@
            }),
            final(self).wf(),
    {
        if self.dt > 0 {
            self.dt = self.dt - 1;
        }
        if self.st > 0 {
            self.st = self.st - 1;
        }
    }

    /// The delay and sound timers.
    pub fn timers(&self) -> (r: (u8, u8))
        ensures
            r == (self.dt, self.st),
    {
        (self.dt, self.st)
    }

    /// The width and height of the current display mode and the framebuffer;
    /// only its first `width * height` cells are shown.
    pub fn framebuffer(&self) -> (r: (usize, usize, &[u8]))
        ensures
            r.0 == self.screen_width,
            r.1 == self.screen_height,
            r.2@ == self.screen@,
    {
        (self.screen_width, self.screen_height, self.screen.as_slice())
    }

    /// Register `V[i]`.
    pub fn register(&self, i: usize) -> (r: u8)
        requires
            i < 16,
        ensures
            r == self.v@[i as int],
    {
        self.v[i]
    }

    /// The address of the next instruction.
    pub fn program_counter(&self) -> (r: usize)
        ensures
            r == self.pc,
    {
        self.pc
    }

    /// How many return addresses are on the stack.
    pub fn stack_pointer(&self) -> (r: usize)
        ensures
            r == self.sp,
    {
        self.sp
    }

    /// The address register I.
    pub fn address_register(&self) -> (r: u16)
        ensures
            r == self.ar,
    {
        self.ar
    }

    /// The memory byte at `addr`.
    pub fn memory_at(&self, addr: usize) -> (r: u8)
        requires
            addr < MEMORY_SIZE,
        ensures
            r == self.ram@[addr as int],
    {
        self.ram[addr]
    }
}

} // verus!
