use vstd::prelude::*;

use crate::{
    Addr, Chip8Error, FRAME_BUFFER_HEIGHT, FRAME_BUFFER_LENGTH, INDEX_REGISTER_MAX, MEMORY_SIZE,
    PROGRAM_START,
};

verus! {

/// Countdown timer that programs read and set.
pub struct DelayTimer {
    value: u8,
}

impl View for DelayTimer {
    type V = u8;

    closed spec fn view(&self) -> u8 {
        self.value
    }
}

impl DelayTimer {
    /// A timer at zero.
    pub fn new() -> (r: DelayTimer)
        ensures
            r@ == 0,
    {
        DelayTimer { value: 0 }
    }

    /// Counts down by one, stopping at zero; never fails.
    pub fn decrease(&mut self) -> (r: Result<(), Chip8Error>)
        ensures
            r is Ok,
            final(self)@ == if old(self)@ == 0 { 0 } else { (old(self)@ - 1) as u8 },
    {
        if self.value != 0 {
            self.value = self.value - 1;
        }
        Ok(())
    }

    /// Current value; never fails.
    pub fn get(&self) -> (r: Result<u8, Chip8Error>)
        ensures
            r == Ok::<u8, Chip8Error>(self@),
    {
        Ok(self.value)
    }

    /// Sets the value; never fails.
    pub fn set(&mut self, value: u8) -> (r: Result<(), Chip8Error>)
        ensures
            r is Ok,
            final(self)@ == value,
    {
        self.value = value;
        Ok(())
    }
}

/// Countdown timer that sounds a tone while it is above zero.
pub struct SoundTimer {
    value: u8,
}

impl View for SoundTimer {
    type V = u8;

    closed spec fn view(&self) -> u8 {
        self.value
    }
}

impl SoundTimer {
    /// A silent timer.
    pub fn new() -> (r: SoundTimer)
        ensures
            r@ == 0,
    {
        SoundTimer { value: 0 }
    }

    /// Counts down by one, stopping at zero; never fails.
    pub fn decrease(&mut self) -> (r: Result<(), Chip8Error>)
        ensures
            r is Ok,
            final(self)@ == if old(self)@ == 0 { 0 } else { (old(self)@ - 1) as u8 },
    {
        if self.value != 0 {
            self.value = self.value - 1;
        }
        Ok(())
    }

    /// Whether the tone is on.
    pub fn sound(&self) -> (r: bool)
        ensures
            r == (self@ > 0),
    {
        self.value > 0
    }

    /// Current value; never fails.
    pub fn get(&self) -> (r: Result<u8, Chip8Error>)
        ensures
            r == Ok::<u8, Chip8Error>(self@),
    {
        Ok(self.value)
    }

    /// Sets the value; never fails.
    pub fn set(&mut self, value: u8) -> (r: Result<(), Chip8Error>)
        ensures
            r is Ok,
            final(self)@ == value,
    {
        self.value = value;
        Ok(())
    }
}

/// Address of the next instruction; always inside memory.
pub struct ProgramCounter {
    register: Addr,
}

impl ProgramCounter {
    #[verifier::type_invariant]
    spec fn inside_memory(self) -> bool {
        self.register < MEMORY_SIZE
    }
}

impl View for ProgramCounter {
    type V = Addr;

    closed spec fn view(&self) -> Addr {
        self.register
    }
}

impl ProgramCounter {
    /// A counter at the load address.
    pub fn new() -> (r: ProgramCounter)
        ensures
            r@ == PROGRAM_START,
    {
        ProgramCounter { register: PROGRAM_START }
    }

    /// Advances by one instruction (two bytes); fails, and stays, where that would leave memory.
    pub fn incr(&mut self) -> (r: Result<(), Chip8Error>)
        ensures
            old(self)@ + 2 < MEMORY_SIZE ==> r is Ok && final(self)@ == old(self)@ + 2,
            old(self)@ + 2 >= MEMORY_SIZE ==> r == Err::<(), Chip8Error>(
                Chip8Error::ProgramCounterOverflow,
            ) && final(self)@ == old(self)@,
    {
        proof {
            use_type_invariant(&*self);
        }
        if self.register >= MEMORY_SIZE - 2 {
            return Err(Chip8Error::ProgramCounterOverflow);
        }
        self.register = self.register + 2;
        Ok(())
    }

    /// Jumps to `addr`; fails, and stays, where `addr` is outside memory.
    pub fn change(&mut self, addr: Addr) -> (r: Result<(), Chip8Error>)
        ensures
            addr < MEMORY_SIZE ==> r is Ok && final(self)@ == addr,
            addr >= MEMORY_SIZE ==> r == Err::<(), Chip8Error>(
                Chip8Error::ProgramCounterOutOfMemory,
            ) && final(self)@ == old(self)@,
    {
        if addr >= MEMORY_SIZE {
            return Err(Chip8Error::ProgramCounterOutOfMemory);
        }
        self.register = addr;
        Ok(())
    }

    /// Current address.
    pub fn get(&self) -> (r: Addr)
        ensures
            r == self@,
            r < MEMORY_SIZE,
    {
        proof {
            use_type_invariant(self);
        }
        self.register
    }
}

/// The 16-bit address register I.
pub struct IndexRegister {
    value: Addr,
}

impl IndexRegister {
    #[verifier::type_invariant]
    spec fn fits_sixteen_bits(self) -> bool {
        self.value <= INDEX_REGISTER_MAX
    }
}

impl View for IndexRegister {
    type V = Addr;

    closed spec fn view(&self) -> Addr {
        self.value
    }
}

impl IndexRegister {
    /// A register at zero.
    pub fn new() -> (r: IndexRegister)
        ensures
            r@ == 0,
    {
        IndexRegister { value: 0 }
    }

    /// Sets the value; fails, and stays, where it does not fit in 16 bits.
    pub fn set(&mut self, value: Addr) -> (r: Result<(), Chip8Error>)
        ensures
            value <= INDEX_REGISTER_MAX ==> r is Ok && final(self)@ == value,
            value > INDEX_REGISTER_MAX ==> r == Err::<(), Chip8Error>(Chip8Error::IndexOutOfRange)
                && final(self)@ == old(self)@,
    {
        if value > INDEX_REGISTER_MAX {
            return Err(Chip8Error::IndexOutOfRange);
        }
        self.value = value;
        Ok(())
    }

    /// Current value; never fails.
    pub fn get(&self) -> (r: Result<Addr, Chip8Error>)
        ensures
            r == Ok::<Addr, Chip8Error>(self@),
            self@ <= INDEX_REGISTER_MAX,
    {
        proof {
            use_type_invariant(self);
        }
        Ok(self.value)
    }
}

/// The monochrome display: 32 rows of 64 pixels, stored eight pixels per
/// byte with the leftmost pixel in the most significant bit.
pub struct FrameBuffer {
    buffer: [[u8; FRAME_BUFFER_LENGTH]; FRAME_BUFFER_HEIGHT],
}

/// Width of the display in pixels.
pub open spec fn frame_width() -> int {
    FRAME_BUFFER_LENGTH as int * 8
}

/// Whether pixel `k` (0 = leftmost) of a packed byte is on.
pub open spec fn bit_on(byte: u8, k: int) -> bool {
    (byte >> ((7 - k) as u8)) & 1u8 == 1u8
}

impl View for FrameBuffer {
    /// Rows of pixels, `true` for a lit pixel: `self@[y][x]`.
    type V = Seq<Seq<bool>>;

    closed spec fn view(&self) -> Seq<Seq<bool>> {
        Seq::new(
            FRAME_BUFFER_HEIGHT as nat,
            |y: int| Seq::new(frame_width() as nat, |x: int| bit_on(self.buffer@[y]@[x / 8], x % 8)),
        )
    }
}

/// A frame with every pixel off.
pub open spec fn blank_frame() -> Seq<Seq<bool>> {
    Seq::new(FRAME_BUFFER_HEIGHT as nat, |y: int| Seq::new(frame_width() as nat, |x: int| false))
}

/// Distance from `origin` forward to `p` on a wrapping axis of length `size`,
/// for `p` and `origin` on that axis.
pub open spec fn wrap_offset(p: int, origin: int, size: int) -> int {
    if p >= origin {
        p - origin
    } else {
        p + size - origin
    }
}

/// Whether a sprite (one byte per row) placed with its top-left corner at
/// `(x0, y0)`, wrapping at the display edges, has a lit pixel at `(px, py)`.
pub open spec fn sprite_covers(sprite: Seq<u8>, x0: int, y0: int, px: int, py: int) -> bool {
    let r = wrap_offset(py, y0, FRAME_BUFFER_HEIGHT as int);
    let c = wrap_offset(px, x0, frame_width());
    r < sprite.len() && c < 8 && bit_on(sprite[r], c)
}

/// The frame after XOR-drawing a sprite at `(x0, y0)`.
pub open spec fn drawn(frame: Seq<Seq<bool>>, sprite: Seq<u8>, x0: int, y0: int) -> Seq<Seq<bool>> {
    Seq::new(
        FRAME_BUFFER_HEIGHT as nat,
        |py: int|
            Seq::new(
                frame_width() as nat,
                |px: int| frame[py][px] != sprite_covers(sprite, x0, y0, px, py),
            ),
    )
}

/// Whether drawing a sprite at `(x0, y0)` turns off some lit pixel.
pub open spec fn collides(frame: Seq<Seq<bool>>, sprite: Seq<u8>, x0: int, y0: int) -> bool {
    exists|px: int, py: int|
        0 <= px < frame_width() && 0 <= py < FRAME_BUFFER_HEIGHT && #[trigger] frame[py][px]
            && sprite_covers(sprite, x0, y0, px, py)
}

proof fn lemma_zero_byte(k: u8)
    by (bit_vector)
    requires
        k < 8,
    ensures
        (0u8 >> ((7 - k) as u8)) & 1u8 != 1u8,
{
}

proof fn lemma_toggle(b: u8, k: u8, j: u8)
    by (bit_vector)
    requires
        k < 8,
        j < 8,
    ensures
        (((b ^ (0x80u8 >> k)) >> ((7 - j) as u8)) & 1u8 == 1u8) == ((((b >> ((7 - j) as u8)) & 1u8)
            == 1u8) != (j == k)),
{
}

impl FrameBuffer {
    /// The frame always has its full size.
    pub proof fn lemma_view_dims(&self)
        ensures
            self@.len() == FRAME_BUFFER_HEIGHT,
            forall|y: int| 0 <= y < FRAME_BUFFER_HEIGHT ==> #[trigger] self@[y].len() == frame_width(),
    {
    }

    /// A blank frame.
    pub fn new() -> (r: FrameBuffer)
        ensures
            r@ == blank_frame(),
    {
        let r = FrameBuffer { buffer: [[0; FRAME_BUFFER_LENGTH]; FRAME_BUFFER_HEIGHT] };
        proof {
            assert forall|y: int, x: int| 0 <= y < FRAME_BUFFER_HEIGHT && 0 <= x < frame_width()
                implies !#[trigger] bit_on(r.buffer@[y]@[x / 8], x % 8) by {
                lemma_zero_byte((x % 8) as u8);
            }
        }
        assert(r@ =~~= blank_frame());
        r
    }

    /// Turns every pixel off.
    pub fn clear(&mut self)
        ensures
            final(self)@ == blank_frame(),
    {
        *self = FrameBuffer::new();
    }

    /// The packed rows, for display.
    pub fn rows(&self) -> (r: &[[u8; FRAME_BUFFER_LENGTH]; FRAME_BUFFER_HEIGHT])
        ensures
            forall|y: int, x: int|
                0 <= y < FRAME_BUFFER_HEIGHT && 0 <= x < frame_width() ==> self@[y][x]
                    == bit_on(r@[y]@[x / 8], x % 8),
    {
        &self.buffer
    }

    /// Whether the pixel at column `x`, row `y` is lit.
    pub fn pixel(&self, x: usize, y: usize) -> (r: bool)
        requires
            x < frame_width(),
            y < FRAME_BUFFER_HEIGHT,
        ensures
            r == self@[y as int][x as int],
    {
        let byte = self.buffer[y][x / 8];
        (byte >> (7 - (x % 8) as u8)) & 1 == 1
    }

    /// Flips the pixel at column `x`, row `y`; returns whether it was lit before.
    fn toggle(&mut self, x: usize, y: usize) -> (was_on: bool)
        requires
            x < frame_width(),
            y < FRAME_BUFFER_HEIGHT,
        ensures
            was_on == old(self)@[y as int][x as int],
            final(self)@ == old(self)@.update(
                y as int,
                old(self)@[y as int].update(x as int, !old(self)@[y as int][x as int]),
            ),
    {
        let b = x / 8;
        let k = (x % 8) as u8;
        let mut row = self.buffer[y];
        let byte = row[b];
        let was_on = (byte >> (7 - k)) & 1 == 1;
        row[b] = byte ^ (0x80u8 >> k);
        self.buffer[y] = row;
        proof {
            let ghost old_view = old(self)@;
            assert forall|px: int| 0 <= px < frame_width() implies #[trigger] self@[y as int][px]
                == (old_view[y as int][px] != (px == x)) by {
                if px / 8 == b as int {
                    lemma_toggle(byte, k, (px % 8) as u8);
                }
            }
            assert(self@ =~~= old_view.update(
                y as int,
                old_view[y as int].update(x as int, !old_view[y as int][x as int]),
            ));
        }
        was_on
    }
}

impl FrameBuffer {
    /// XOR-draws `sprite`, one byte per row, with its top-left corner at
    /// `(x0, y0)`, wrapping at the edges; returns whether a lit pixel was
    /// turned off.
    pub fn draw_sprite(&mut self, x0: usize, y0: usize, sprite: &[u8]) -> (collision: bool)
        requires
            x0 < frame_width(),
            y0 < FRAME_BUFFER_HEIGHT,
            sprite@.len() <= FRAME_BUFFER_HEIGHT,
        ensures
            final(self)@ == drawn(old(self)@, sprite@, x0 as int, y0 as int),
            collision == collides(old(self)@, sprite@, x0 as int, y0 as int),
    {
        let ghost frame0 = self@;
        let ghost h = FRAME_BUFFER_HEIGHT as int;
        let ghost w = frame_width();
        let mut collision = false;
        let mut r: usize = 0;
        while r < sprite.len()
            invariant
                r <= sprite@.len() <= FRAME_BUFFER_HEIGHT,
                x0 < frame_width(),
                y0 < FRAME_BUFFER_HEIGHT,
                h == FRAME_BUFFER_HEIGHT,
                w == frame_width(),
                frame0.len() == h,
                forall|py: int| 0 <= py < h ==> #[trigger] frame0[py].len() == w,
                self@.len() == h,
                forall|py: int| 0 <= py < h ==> #[trigger] self@[py].len() == w,
                forall|px: int, py: int|
                    0 <= px < w && 0 <= py < h ==> #[trigger] self@[py][px] == (frame0[py][px] != (
                    sprite_covers(sprite@, x0 as int, y0 as int, px, py) && wrap_offset(
                        py,
                        y0 as int,
                        h,
                    ) < r)),
                collision ==> exists|px: int, py: int|
                    0 <= px < w && 0 <= py < h && #[trigger] frame0[py][px] && sprite_covers(
                        sprite@,
                        x0 as int,
                        y0 as int,
                        px,
                        py,
                    ),
                !collision ==> forall|px: int, py: int|
                    0 <= px < w && 0 <= py < h && sprite_covers(
                        sprite@,
                        x0 as int,
                        y0 as int,
                        px,
                        py,
                    ) && wrap_offset(py, y0 as int, h) < r ==> !#[trigger] frame0[py][px],
            decreases sprite@.len() - r,
        {
            let py = if y0 + r < FRAME_BUFFER_HEIGHT {
                y0 + r
            } else {
                y0 + r - FRAME_BUFFER_HEIGHT
            };
            assert(wrap_offset(py as int, y0 as int, h) == r);
            let byte = sprite[r];
            let mut c: usize = 0;
            while c < 8
                invariant
                    r < sprite@.len() <= FRAME_BUFFER_HEIGHT,
                    c <= 8,
                    x0 < frame_width(),
                    y0 < FRAME_BUFFER_HEIGHT,
                    h == FRAME_BUFFER_HEIGHT,
                    w == frame_width(),
                    py < h,
                    wrap_offset(py as int, y0 as int, h) == r,
                    byte == sprite@[r as int],
                    frame0.len() == h,
                    forall|py: int| 0 <= py < h ==> #[trigger] frame0[py].len() == w,
                    self@.len() == h,
                    forall|py: int| 0 <= py < h ==> #[trigger] self@[py].len() == w,
                    forall|px: int, qy: int|
                        0 <= px < w && 0 <= qy < h ==> #[trigger] self@[qy][px] == (frame0[qy][px]
                            != (sprite_covers(sprite@, x0 as int, y0 as int, px, qy) && (
                        wrap_offset(qy, y0 as int, h) < r || (wrap_offset(qy, y0 as int, h) == r
                            && wrap_offset(px, x0 as int, w) < c)))),
                    collision ==> exists|px: int, qy: int|
                        0 <= px < w && 0 <= qy < h && #[trigger] frame0[qy][px] && sprite_covers(
                            sprite@,
                            x0 as int,
                            y0 as int,
                            px,
                            qy,
                        ),
                    !collision ==> forall|px: int, qy: int|
                        0 <= px < w && 0 <= qy < h && sprite_covers(
                            sprite@,
                            x0 as int,
                            y0 as int,
                            px,
                            qy,
                        ) && (wrap_offset(qy, y0 as int, h) < r || (wrap_offset(qy, y0 as int, h)
                            == r && wrap_offset(px, x0 as int, w) < c))
                            ==> !#[trigger] frame0[qy][px],
                decreases 8 - c,
            {
                let px = if x0 + c < FRAME_BUFFER_LENGTH * 8 {
                    x0 + c
                } else {
                    x0 + c - FRAME_BUFFER_LENGTH * 8
                };
                assert(wrap_offset(px as int, x0 as int, w) == c);
                let lit = (byte >> (7 - c as u8)) & 1 == 1;
                assert(lit == bit_on(byte, c as int));
                assert(lit == sprite_covers(sprite@, x0 as int, y0 as int, px as int, py as int));
                if lit {
                    let was_on = self.toggle(px, py);
                    if was_on {
                        collision = true;
                        assert(frame0[py as int][px as int]);
                    }
                }
                c = c + 1;
            }
            r = r + 1;
        }
        assert(self@ =~~= drawn(frame0, sprite@, x0 as int, y0 as int));
        collision
    }
}

} // verus!
