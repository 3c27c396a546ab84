use vstd::prelude::*;
use vstd::arithmetic::div_mod::{
    lemma_fundamental_div_mod, lemma_fundamental_div_mod_converse, lemma_mod_pos_bound,
};
use crate::machine::{MachineState, SChip8, SCHIP8_NUM_PIXELS, MEMORY_SIZE};

verus! {

/// Whether the `DXYN` sprite with row count `n` is the 16x16 extended sprite.
pub open spec fn wide_sprite(m: MachineState, n: u8) -> bool {
    n == 0 && m.extended
}

/// Rows in the sprite that `DXYN` draws with row count `n`.
pub open spec fn sprite_rows(m: MachineState, n: u8) -> int {
    if wide_sprite(m, n) { 16 } else { n as int }
}

/// Columns in the sprite that `DXYN` draws with row count `n`.
pub open spec fn sprite_cols(m: MachineState, n: u8) -> int {
    if wide_sprite(m, n) { 16 } else { 8 }
}

/// Bit `c` (0 = leftmost) of sprite row `r`, read from memory at `ar`; a wide
/// row is two consecutive bytes. Addresses wrap at the end of memory.
pub open spec fn sprite_bit(memory: Seq<u8>, ar: u16, wide: bool, r: int, c: int) -> u8 {
    let offset = if wide { 2 * r + c / 8 } else { r };
    let byte = memory[(ar + offset) % (MEMORY_SIZE as int)];
    (byte >> ((7 - c % 8) as u32)) & 1u8
}

/// Whether framebuffer cell `i`, on a display `w` cells wide, lies under a sprite
/// of `rows` x `cols` placed at column `x0`, row `y0`.
pub open spec fn under_sprite(i: int, w: int, x0: int, y0: int, rows: int, cols: int) -> bool {
    &&& 0 <= i / w - y0 < rows
    &&& 0 <= i % w - x0 < cols
}

/// The sprite bit that lands on framebuffer cell `i` when the `DXYN` sprite
/// is placed at column `x0`, row `y0`.
pub open spec fn bit_on_cell(m: MachineState, n: u8, x0: int, y0: int, i: int) -> u8 {
    let w = m.width as int;
    sprite_bit(m.memory, m.ar, wide_sprite(m, n), i / w - y0, i % w - x0)
}

/// The framebuffer after XOR-ing the `DXYN` sprite in at column `x0`, row `y0`.
/// Cells off the right or bottom edge are clipped.
pub open spec fn blitted(m: MachineState, x0: int, y0: int, n: u8) -> Seq<u8> {
    Seq::new(
        SCHIP8_NUM_PIXELS as nat,
        |i: int|
            if i < m.visible() && under_sprite(
                i,
                m.width as int,
                x0,
                y0,
                sprite_rows(m, n),
                sprite_cols(m, n),
            ) {
                m.screen[i] ^ bit_on_cell(m, n, x0, y0, i)
            } else {
                m.screen[i]
            },
    )
}

/// Some cell went from set to unset between `before` and `after`.
pub open spec fn collides(before: Seq<u8>, after: Seq<u8>) -> bool {
    exists|i: int| 0 <= i < SCHIP8_NUM_PIXELS && before[i] == 1 && #[trigger] after[i] == 0
}

/// The state after `DXYN` with registers `x`, `y` and row count `n`: the sprite is
/// drawn at (VX mod width, VY mod height) and VF reports a collision.
pub open spec fn drawn(m: MachineState, x: u8, y: u8, n: u8) -> MachineState {
    let x0 = m.v[x as int] as int % m.width as int;
    let y0 = m.v[y as int] as int % m.height as int;
    let s = blitted(m, x0, y0, n);
    MachineState {
        screen: s,
        v: m.v.update(15, if collides(m.screen, s) { 1u8 } else { 0u8 }),
        ..m
    }
}

/// The framebuffer after `00E0`.
pub open spec fn cleared() -> Seq<u8> {
    Seq::new(SCHIP8_NUM_PIXELS as nat, |i: int| 0u8)
}

/// The framebuffer after `00CN`: the visible area moves down by `n` rows and
/// zeroes fill the rows at the top.
pub open spec fn scrolled_down(m: MachineState, n: int) -> Seq<u8> {
    let off = n * m.width;
    Seq::new(
        SCHIP8_NUM_PIXELS as nat,
        |i: int|
            if i < m.visible() {
                if i >= off { m.screen[i - off] } else { 0u8 }
            } else {
                m.screen[i]
            },
    )
}

/// The framebuffer after `00FB`: each visible row moves right by four cells
/// and zeroes fill its four leftmost cells.
pub open spec fn scrolled_right(m: MachineState) -> Seq<u8> {
    Seq::new(
        SCHIP8_NUM_PIXELS as nat,
        |i: int|
            if i < m.visible() {
                if i % (m.width as int) >= 4 { m.screen[i - 4] } else { 0u8 }
            } else {
                m.screen[i]
            },
    )
}

/// The framebuffer after `00FC`: each visible row moves left by four cells
/// and zeroes fill its four rightmost cells.
pub open spec fn scrolled_left(m: MachineState) -> Seq<u8> {
    Seq::new(
        SCHIP8_NUM_PIXELS as nat,
        |i: int|
            if i < m.visible() {
                if i % (m.width as int) + 4 < m.width { m.screen[i + 4] } else { 0u8 }
            } else {
                m.screen[i]
            },
    )
}

/// The state after `00FF`: the extended display, framebuffer untouched.
pub open spec fn high_res(m: MachineState) -> MachineState {
    MachineState { extended: true, width: 128, height: 64, ..m }
}

/// The state after `00FE`: the standard display; cells that are no longer
/// visible are zeroed, the others are untouched.
pub open spec fn low_res(m: MachineState) -> MachineState {
    MachineState {
        extended: false,
        width: 64,
        height: 32,
        screen: Seq::new(
            SCHIP8_NUM_PIXELS as nat,
            |i: int| if i < 2048 { m.screen[i] } else { 0u8 },
        ),
        ..m
    }
}

/// Cell `i` has been drawn once the blit has finished rows before `r` and the
/// first `c` columns of row `r`.
spec fn done_before(i: int, w: int, x0: int, y0: int, cols: int, r: int, c: int) -> bool {
    let rr = i / w - y0;
    let cc = i % w - x0;
    &&& 0 <= cc < cols
    &&& 0 <= rr
    &&& (rr < r || (rr == r && cc < c))
}

proof fn lemma_cell(i: int, w: int, h: int)
    requires
        0 < w,
        0 < h,
        0 <= i < w * h,
    ensures
        i == w * (i / w) + i % w,
        0 <= i % w < w,
        0 <= i / w < h,
{
    lemma_fundamental_div_mod(i, w);
    lemma_mod_pos_bound(i, w);
    let q = i / w;
    let r = i % w;
    assert(0 <= q < h) by (nonlinear_arith)
        requires
            i == w * q + r,
            0 <= r < w,
            0 <= i < w * h,
            0 < w,
    ;
}

proof fn lemma_sprite_bit(memory: Seq<u8>, ar: u16, wide: bool, r: int, c: int)
    ensures
        sprite_bit(memory, ar, wide, r, c) <= 1,
{
    let offset = if wide { 2 * r + c / 8 } else { r };
    let byte = memory[(ar + offset) % (MEMORY_SIZE as int)];
    let s = (7 - c % 8) as u32;
    assert((byte >> s) & 1u8 <= 1) by (bit_vector);
}

pub(crate) proof fn lemma_bits(a: u8, b: u8)
    ensures
        b & 1u8 <= 1,
        a <= 1 && b <= 1 ==> a ^ b <= 1,
        a <= 1 && b <= 1 ==> (a == 1 && (a ^ b) == 0 <==> a == 1 && b == 1),
        (a ^ b) ^ b == a,
{
    assert(b & 1u8 <= 1) by (bit_vector);
    assert(a <= 1 && b <= 1 ==> a ^ b <= 1) by (bit_vector);
    assert(a <= 1 && b <= 1 ==> (a == 1 && (a ^ b) == 0 <==> a == 1 && b == 1)) by (bit_vector);
    assert((a ^ b) ^ b == a) by (bit_vector);
}

impl SChip8 {
    /// `DXYN`: XORs the sprite at I into the framebuffer at (VX, VY), both
    /// taken modulo the display size, and sets VF to 1 exactly when some cell
    /// went from set to unset. Row count 0 in extended mode draws a 16x16 sprite.
    pub fn render(&mut self, x: u8, y: u8, c: u8)
        requires
            old(self).wf(),
            x < 16,
            y < 16,
            c < 16,
        ensures
            final(self)@ == drawn(old(self)@, x, y, c),
            final(self).wf(),
    {
        let ghost m = self@;
        let w: usize = self.screen_width;
        let h: usize = self.screen_height;
        let x0: usize = (self.v[x as usize] as usize) % w;
        let y0: usize = (self.v[y as usize] as usize) % h;
        let wide: bool = c == 0 && self.extended_screen;
        let rows: usize = if wide { 16 } else { c as usize };
        let cols: usize = if wide { 16 } else { 8 };
        let row_end: usize = if rows < h - y0 { rows } else { h - y0 };
        let col_end: usize = if cols < w - x0 { cols } else { w - x0 };
        let ar: usize = self.ar as usize;
        let ghost old_screen = m.screen;
        proof {
            assert(w * h <= SCHIP8_NUM_PIXELS) by {
                if m.extended {
                    assert(w == 128 && h == 64);
                    assert(w * h == 8192) by (nonlinear_arith)
                        requires
                            w == 128 && h == 64,
                    ;
                } else {
                    assert(w == 64 && h == 32);
                    assert(w * h == 2048) by (nonlinear_arith)
                        requires
                            w == 64 && h == 32,
                    ;
                }
            }
        }
        let mut collided: bool = false;
        let mut r: usize = 0;
        while r < row_end
            invariant
                m == old(self)@,
                old_screen == m.screen,
                self@ == (MachineState { screen: self@.screen, ..m }),
                w == m.width,
                h == m.height,
                w * h <= SCHIP8_NUM_PIXELS,
                m.wf(),
                x0 < w,
                y0 < h,
                row_end <= rows,
                row_end <= h - y0,
                row_end == rows || row_end == h - y0,
                col_end <= cols,
                col_end <= w - x0,
                col_end == cols || col_end == w - x0,
                cols == sprite_cols(m, c),
                rows == sprite_rows(m, c),
                wide == wide_sprite(m, c),
                ar == m.ar,
                r <= row_end,
                forall|i: int|
                    0 <= i < SCHIP8_NUM_PIXELS ==> #[trigger] self.screen@[i] == if i < m.visible()
                        && done_before(i, w as int, x0 as int, y0 as int, cols as int, r as int, 0) {
                        old_screen[i] ^ bit_on_cell(m, c, x0 as int, y0 as int, i)
                    } else {
                        old_screen[i]
                    },
                collided == collides(old_screen, self.screen@),
            decreases row_end - r,
        {
            let yy: usize = y0 + r;
            let mut cc: usize = 0;
            while cc < col_end
                invariant
                    m == old(self)@,
                    old_screen == m.screen,
                    self@ == (MachineState { screen: self@.screen, ..m }),
                    w == m.width,
                    h == m.height,
                    w * h <= SCHIP8_NUM_PIXELS,
                    m.wf(),
                    x0 < w,
                    y0 < h,
                    r < row_end,
                    yy == y0 + r,
                    row_end <= rows,
                    row_end <= h - y0,
                    row_end == rows || row_end == h - y0,
                    col_end <= cols,
                    col_end <= w - x0,
                    col_end == cols || col_end == w - x0,
                    cols == sprite_cols(m, c),
                    rows == sprite_rows(m, c),
                    wide == wide_sprite(m, c),
                    ar == m.ar,
                    cc <= col_end,
                    forall|i: int|
                        0 <= i < SCHIP8_NUM_PIXELS ==> #[trigger] self.screen@[i] == if i
                            < m.visible() && done_before(
                            i,
                            w as int,
                            x0 as int,
                            y0 as int,
                            cols as int,
                            r as int,
                            cc as int,
                        ) {
                            old_screen[i] ^ bit_on_cell(m, c, x0 as int, y0 as int, i)
                        } else {
                            old_screen[i]
                        },
                    collided == collides(old_screen, self.screen@),
                decreases col_end - cc,
            {
                let xx: usize = x0 + cc;
                let offset: usize = if wide { 2 * r + cc / 8 } else { r };
                let byte: u8 = self.ram[(ar + offset) % MEMORY_SIZE];
                let bit: u8 = (byte >> ((7 - cc % 8) as u32)) & 1u8;
                assert(yy * w + xx < w * h) by (nonlinear_arith)
                    requires
                        yy < h,
                        xx < w,
                ;
                assert(w * h <= SCHIP8_NUM_PIXELS);
                let idx: usize = yy * w + xx;
                proof {
                    lemma_fundamental_div_mod_converse(idx as int, w as int, yy as int, xx as int);
                    assert(bit == bit_on_cell(m, c, x0 as int, y0 as int, idx as int));
                    assert(idx < m.visible());
                }
                let before: u8 = self.screen[idx];
                proof {
                    lemma_bits(before, bit);
                    assert(before == old_screen[idx as int]);
                    assert(before <= 1);
                    lemma_sprite_bit(m.memory, m.ar, wide, r as int, cc as int);
                }
                let ghost cur = self.screen@;
                if before == 1 && bit == 1 {
                    collided = true;
                }
                self.screen[idx] = before ^ bit;
                proof {
                    assert forall|i: int|
                        0 <= i < m.visible() && i != idx implies done_before(
                        i,
                        w as int,
                        x0 as int,
                        y0 as int,
                        cols as int,
                        r as int,
                        cc + 1,
                    ) == done_before(
                        i,
                        w as int,
                        x0 as int,
                        y0 as int,
                        cols as int,
                        r as int,
                        cc as int,
                    ) by {
                        lemma_cell(i, w as int, h as int);
                        let q = i / w as int;
                        let rem = i % w as int;
                        if q - y0 == r && rem - x0 == cc {
                            assert(i == yy * w + xx) by (nonlinear_arith)
                                requires
                                    i == w * q + rem,
                                    q == yy,
                                    rem == xx,
                            ;
                        }
                    }
                    if collided {
                        if !(before == 1 && bit == 1) {
                            let j = choose|j: int|
                                0 <= j < SCHIP8_NUM_PIXELS && old_screen[j] == 1 && #[trigger] cur[j]
                                    == 0;
                            assert(j != idx);
                            assert(self.screen@[j] == 0);
                        } else {
                            assert(self.screen@[idx as int] == 0);
                        }
                    } else {
                        assert forall|j: int|
                            0 <= j < SCHIP8_NUM_PIXELS && old_screen[j] == 1 implies #[trigger] self.screen@[j]
                            != 0 by {
                            if j != idx {
                                assert(!(old_screen[j] == 1 && cur[j] == 0));
                                assert(cur[j] != 0);
                            }
                        }
                    }
                }
                cc += 1;
            }
            proof {
                assert forall|i: int| 0 <= i < m.visible() implies done_before(
                    i,
                    w as int,
                    x0 as int,
                    y0 as int,
                    cols as int,
                    r as int,
                    col_end as int,
                ) == done_before(i, w as int, x0 as int, y0 as int, cols as int, r + 1, 0) by {
                    lemma_cell(i, w as int, h as int);
                }
            }
            r += 1;
        }
        proof {
            assert forall|i: int| 0 <= i < m.visible() implies done_before(
                i,
                w as int,
                x0 as int,
                y0 as int,
                cols as int,
                row_end as int,
                0,
            ) == under_sprite(i, w as int, x0 as int, y0 as int, rows as int, cols as int) by {
                lemma_cell(i, w as int, h as int);
            }
            assert(self.screen@ =~= blitted(m, x0 as int, y0 as int, c));
        }
        let flag: u8 = if collided { 1 } else { 0 };
        self.v[15] = flag;
        proof {
            assert(self@ =~= drawn(m, x, y, c));
            assert forall|i: int| 0 <= i < SCHIP8_NUM_PIXELS implies #[trigger] self.screen@[i] <= 1 by {
                lemma_bits(old_screen[i], bit_on_cell(m, c, x0 as int, y0 as int, i));
                lemma_sprite_bit(m.memory, m.ar, wide, i / w as int - y0, i % w as int - x0);
            }
        }
    }
}


proof fn lemma_row_bounds(i: int, w: int, h: int)
    requires
        0 < w,
        0 < h,
        0 <= i < w * h,
    ensures
        i % w <= i,
        i % w + 4 < w ==> i + 4 < w * h,
{
    lemma_cell(i, w, h);
    let q = i / w;
    let rem = i % w;
    assert(rem <= i) by (nonlinear_arith)
        requires
            i == w * q + rem,
            0 <= q,
            0 < w,
    ;
    if rem + 4 < w {
        assert(i + 4 < w * h) by (nonlinear_arith)
            requires
                i == w * q + rem,
                rem + 4 < w,
                0 <= q < h,
                0 < w,
        ;
    }
}

impl SChip8 {
    /// `00E0`: zeroes every framebuffer cell.
    pub fn clear_screen(&mut self)
        requires
            old(self).wf(),
        ensures
            final(self)@ == (MachineState { screen: cleared(), ..old(self)@ }),
            final(self).wf(),
    {
        self.screen = [0; 8192];
        assert(self.screen@ =~= cleared());
    }

    /// `00CN`: moves the visible picture down by `n` rows, zero-filling the top.
    pub fn scroll_down(&mut self, n: u8)
        requires
            old(self).wf(),
            n < 16,
        ensures
            final(self)@ == (MachineState { screen: scrolled_down(old(self)@, n as int), ..old(self)@ }),
            final(self).wf(),
    {
        let ghost m = self@;
        proof {
            m.lemma_visible();
        }
        let num: usize = self.screen_width * self.screen_height;
        let off: usize = (n as usize) * self.screen_width;
        let mut out: [u8; 8192] = [0; 8192];
        let mut i: usize = 0;
        while i < num
            invariant
                m == self@,
                m.wf(),
                num == m.visible(),
                num <= SCHIP8_NUM_PIXELS,
                off == n * m.width,
                i <= num,
                forall|j: int| 0 <= j < i ==> #[trigger] out@[j] == if j >= off { m.screen[j - off] } else { 0u8 },
                forall|j: int| i <= j < SCHIP8_NUM_PIXELS ==> #[trigger] out@[j] == 0,
            decreases num - i,
        {
            if i >= off {
                out[i] = self.screen[i - off];
            }
            i += 1;
        }
        self.screen = out;
        assert(self.screen@ =~= scrolled_down(m, n as int));
        assert(self@ =~= (MachineState { screen: scrolled_down(m, n as int), ..m }));
    }

    /// `00FB`: moves each visible row right by four cells, zero-filling its left end.
    pub fn scroll_right(&mut self)
        requires
            old(self).wf(),
        ensures
            final(self)@ == (MachineState { screen: scrolled_right(old(self)@), ..old(self)@ }),
            final(self).wf(),
    {
        let ghost m = self@;
        proof {
            m.lemma_visible();
        }
        let w: usize = self.screen_width;
        let num: usize = self.screen_width * self.screen_height;
        let mut out: [u8; 8192] = [0; 8192];
        let mut i: usize = 0;
        while i < num
            invariant
                m == self@,
                m.wf(),
                w == m.width,
                num == m.visible(),
                num <= SCHIP8_NUM_PIXELS,
                i <= num,
                forall|j: int|
                    0 <= j < i ==> #[trigger] out@[j] == if j % (w as int) >= 4 {
                        m.screen[j - 4]
                    } else {
                        0u8
                    },
                forall|j: int| i <= j < SCHIP8_NUM_PIXELS ==> #[trigger] out@[j] == 0,
            decreases num - i,
        {
            proof {
                lemma_row_bounds(i as int, w as int, m.height as int);
            }
            if i % w >= 4 {
                out[i] = self.screen[i - 4];
            }
            i += 1;
        }
        self.screen = out;
        assert(self.screen@ =~= scrolled_right(m));
        assert(self@ =~= (MachineState { screen: scrolled_right(m), ..m }));
    }

    /// `00FC`: moves each visible row left by four cells, zero-filling its right end.
    pub fn scroll_left(&mut self)
        requires
            old(self).wf(),
        ensures
            final(self)@ == (MachineState { screen: scrolled_left(old(self)@), ..old(self)@ }),
            final(self).wf(),
    {
        let ghost m = self@;
        proof {
            m.lemma_visible();
        }
        let w: usize = self.screen_width;
        let num: usize = self.screen_width * self.screen_height;
        let mut out: [u8; 8192] = [0; 8192];
        let mut i: usize = 0;
        while i < num
            invariant
                m == self@,
                m.wf(),
                w == m.width,
                num == m.visible(),
                num <= SCHIP8_NUM_PIXELS,
                i <= num,
                forall|j: int|
                    0 <= j < i ==> #[trigger] out@[j] == if j % (w as int) + 4 < w {
                        m.screen[j + 4]
                    } else {
                        0u8
                    },
                forall|j: int| i <= j < SCHIP8_NUM_PIXELS ==> #[trigger] out@[j] == 0,
            decreases num - i,
        {
            proof {
                lemma_row_bounds(i as int, w as int, m.height as int);
            }
            if i % w + 4 < w {
                out[i] = self.screen[i + 4];
            }
            i += 1;
        }
        self.screen = out;
        assert(self.screen@ =~= scrolled_left(m));
        assert(self@ =~= (MachineState { screen: scrolled_left(m), ..m }));
    }

    /// `00FF`: switches to the 128x64 display; the framebuffer is untouched, and
    /// the cells that become visible already hold 0.
    pub fn enable_extended(&mut self)
        requires
            old(self).wf(),
        ensures
            final(self)@ == high_res(old(self)@),
            final(self).wf(),
    {
        proof {
            self@.lemma_visible();
        }
        self.extended_screen = true;
        self.screen_width = 128;
        self.screen_height = 64;
        proof {
            self@.lemma_visible();
        }
    }

    /// `00FE`: switches to the 64x32 display and zeroes the cells that are no
    /// longer visible.
    pub fn disable_extended(&mut self)
        requires
            old(self).wf(),
        ensures
            final(self)@ == low_res(old(self)@),
            final(self).wf(),
    {
        let ghost m = self@;
        let mut i: usize = 2048;
        while i < 8192
            invariant
                2048 <= i <= 8192,
                self@ == (MachineState { screen: self@.screen, ..m }),
                forall|j: int| 0 <= j < 2048 ==> #[trigger] self.screen@[j] == m.screen[j],
                forall|j: int| 2048 <= j < i ==> #[trigger] self.screen@[j] == 0,
                forall|j: int| i <= j < SCHIP8_NUM_PIXELS ==> #[trigger] self.screen@[j] == m.screen[j],
            decreases 8192 - i,
        {
            self.screen[i] = 0;
            i += 1;
        }
        self.extended_screen = false;
        self.screen_width = 64;
        self.screen_height = 32;
        assert(self.screen@ =~= low_res(m).screen);
        assert(self@ =~= low_res(m));
        proof {
            self@.lemma_visible();
        }
    }
}

} // verus!
