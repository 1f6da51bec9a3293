use vstd::prelude::*;

pub mod image;

verus! {

/// Width of the LCD frame buffer, in pixels.
pub const BUFFER_WIDTH: u8 = 144;

/// Height of the LCD frame buffer, in pixels.
pub const BUFFER_HEIGHT: u8 = 168;

/// Bytes in the frame buffer: one bit per pixel.
pub const BUFFER_SIZE: usize = 144 * 168 / 8;

/// Bytes in one display line of the frame buffer.
pub const BYTES_PER_LINE: usize = 144 / 8;

/// One monochrome LCD pixel state: `On` draws (the LCD shows black),
/// `Off` clears the pixel back to the background.
#[derive(Clone, Copy, PartialEq, Eq, Structural, Debug)]
pub enum BinaryColor {
    Off,
    On,
}

impl BinaryColor {
    /// Whether this color draws.
    pub fn is_on(self) -> (b: bool)
        ensures
            b == (self is On),
    {
        match self {
            BinaryColor::On => true,
            BinaryColor::Off => false,
        }
    }
}

/// A drawable element; rendering issues the host draw calls for it.
pub trait Widget {
    fn render(&self);
}

/// Where a stroke sits relative to a primitive's outline.
#[derive(Clone, Copy, PartialEq, Eq, Structural, Debug)]
pub enum StrokeAlign {
    Inside,
    Center,
    Outside,
}

/// Encodes an optional drawing color for the host draw calls: absent,
/// off, on.
pub fn color_to_wasm(color: Option<BinaryColor>) -> (v: u32)
    ensures
        color is None ==> v == 0,
        color == Some(BinaryColor::Off) ==> v == 1,
        color == Some(BinaryColor::On) ==> v == 2,
        v <= 2,
{
    match color {
        None => 0,
        Some(BinaryColor::Off) => 1,
        Some(BinaryColor::On) => 2,
    }
}

/// Encodes a stroke alignment for the host draw calls.
pub fn stroke_align_to_wasm(align: StrokeAlign) -> (v: u32)
    ensures
        align is Inside ==> v == 0,
        align is Center ==> v == 1,
        align is Outside ==> v == 2,
        v <= 2,
{
    match align {
        StrokeAlign::Inside => 0,
        StrokeAlign::Center => 1,
        StrokeAlign::Outside => 2,
    }
}

/// Byte index inside the frame buffer that holds pixel (x, y).
pub open spec fn spec_pixel_index(x: int, y: int) -> int {
    (x + 144 * y) / 8
}

/// Bit position of pixel (x, y) inside its byte.
pub open spec fn spec_pixel_bit(x: int) -> int {
    x % 8
}

/// Whether pixel (x, y) is drawn: its bit is cleared.  The buffer starts
/// all ones, and a cleared bit shows black on the LCD.
pub open spec fn spec_pixel_on(bytes: Seq<u8>, x: int, y: int) -> bool {
    (bytes[spec_pixel_index(x, y)] >> (spec_pixel_bit(x) as u8)) & 1 == 0
}

/// The flat pixel index splits into a line base and an offset inside the
/// line, which keeps it inside the buffer.
pub proof fn lemma_pixel_index_decompose(x: int, y: int)
    requires
        0 <= x < 144,
        0 <= y < 168,
    ensures
        spec_pixel_index(x, y) == 18 * y + x / 8,
        0 <= x / 8 < 18,
        0 <= spec_pixel_index(x, y) < 3024,
{
    vstd::arithmetic::div_mod::lemma_fundamental_div_mod(x, 8);
    assert(x + 144 * y == (18 * y + x / 8) * 8 + x % 8);
    vstd::arithmetic::div_mod::lemma_fundamental_div_mod_converse(
        x + 144 * y,
        8,
        18 * y + x / 8,
        x % 8,
    );
}

/// Two distinct in-range pixels never share both byte and bit position.
pub proof fn lemma_pixel_addr_injective(x1: int, y1: int, x2: int, y2: int)
    requires
        0 <= x1 < 144,
        0 <= y1 < 168,
        0 <= x2 < 144,
        0 <= y2 < 168,
        spec_pixel_index(x1, y1) == spec_pixel_index(x2, y2),
        spec_pixel_bit(x1) == spec_pixel_bit(x2),
    ensures
        x1 == x2,
        y1 == y2,
{
    lemma_pixel_index_decompose(x1, y1);
    lemma_pixel_index_decompose(x2, y2);
    let idx = spec_pixel_index(x1, y1);
    vstd::arithmetic::div_mod::lemma_fundamental_div_mod_converse(idx, 18, y1, x1 / 8);
    vstd::arithmetic::div_mod::lemma_fundamental_div_mod_converse(idx, 18, y2, x2 / 8);
    vstd::arithmetic::div_mod::lemma_fundamental_div_mod(x1, 8);
    vstd::arithmetic::div_mod::lemma_fundamental_div_mod(x2, 8);
}

proof fn lemma_clear_bit_self(b: u8, k: u8)
    requires
        k < 8,
    ensures
        ((b & !(1u8 << k)) >> k) & 1 == 0,
{
    assert(k < 8 ==> ((b & !(1u8 << k)) >> k) & 1 == 0) by (bit_vector);
}

proof fn lemma_set_bit_self(b: u8, k: u8)
    requires
        k < 8,
    ensures
        ((b | (1u8 << k)) >> k) & 1 == 1,
{
    assert(k < 8 ==> ((b | (1u8 << k)) >> k) & 1 == 1) by (bit_vector);
}

proof fn lemma_clear_bit_other(b: u8, k: u8, j: u8)
    requires
        k < 8,
        j < 8,
        j != k,
    ensures
        ((b & !(1u8 << k)) >> j) & 1 == (b >> j) & 1,
{
    assert(k < 8 && j < 8 && j != k ==> ((b & !(1u8 << k)) >> j) & 1 == (b >> j) & 1)
        by (bit_vector);
}

proof fn lemma_set_bit_other(b: u8, k: u8, j: u8)
    requires
        k < 8,
        j < 8,
        j != k,
    ensures
        ((b | (1u8 << k)) >> j) & 1 == (b >> j) & 1,
{
    assert(k < 8 && j < 8 && j != k ==> ((b | (1u8 << k)) >> j) & 1 == (b >> j) & 1)
        by (bit_vector);
}

/// Mathematical snapshot of a widget buffer: its bytes, the dirty-line
/// window, and whether a full display clear is pending.
#[verifier::ext_equal]
pub ghost struct WidgetBufferView {
    pub bytes: Seq<u8>,
    pub min_changed: u8,
    pub max_changed: u8,
    pub clear: bool,
}

/// What setting one pixel does to a buffer: out-of-range coordinates are
/// ignored; in range, the pixel's bit is cleared (drawn) or set, the
/// dirty-line window grows to cover line `y`, and any pending full clear
/// is cancelled.
pub open spec fn spec_set_pixel(v: WidgetBufferView, x: int, y: int, on: bool) -> WidgetBufferView {
    if 0 <= x < 144 && 0 <= y < 168 {
        let idx = spec_pixel_index(x, y);
        let k = spec_pixel_bit(x) as u8;
        let b = v.bytes[idx];
        let grown = if v.max_changed >= y + 1 {
            v.max_changed as int
        } else {
            y + 1
        };
        WidgetBufferView {
            bytes: v.bytes.update(
                idx,
                if on {
                    b & !(1u8 << k)
                } else {
                    b | (1u8 << k)
                },
            ),
            min_changed: if v.min_changed <= y {
                v.min_changed
            } else {
                y as u8
            },
            max_changed: if grown <= 168 {
                grown as u8
            } else {
                168u8
            },
            clear: false,
        }
    } else {
        v
    }
}

/// Law: after setting a pixel, reading that pixel back gives exactly the
/// color written, and every other in-range pixel is untouched.
pub proof fn lemma_set_pixel_reads_back(v: WidgetBufferView, x: int, y: int, on: bool)
    requires
        v.bytes.len() == 3024,
        0 <= x < 144,
        0 <= y < 168,
    ensures
        spec_pixel_on(spec_set_pixel(v, x, y, on).bytes, x, y) == on,
        forall|x2: int, y2: int|
            0 <= x2 < 144 && 0 <= y2 < 168 && !(x2 == x && y2 == y)
                ==> #[trigger] spec_pixel_on(spec_set_pixel(v, x, y, on).bytes, x2, y2)
                == spec_pixel_on(v.bytes, x2, y2),
{
    let idx = spec_pixel_index(x, y);
    let k = spec_pixel_bit(x) as u8;
    let b = v.bytes[idx];
    let w = spec_set_pixel(v, x, y, on);
    lemma_pixel_index_decompose(x, y);
    if on {
        lemma_clear_bit_self(b, k);
    } else {
        lemma_set_bit_self(b, k);
    }
    assert forall|x2: int, y2: int|
        0 <= x2 < 144 && 0 <= y2 < 168 && !(x2 == x && y2 == y) implies #[trigger] spec_pixel_on(
        w.bytes,
        x2,
        y2,
    ) == spec_pixel_on(v.bytes, x2, y2) by {
        lemma_pixel_index_decompose(x2, y2);
        let idx2 = spec_pixel_index(x2, y2);
        let k2 = spec_pixel_bit(x2) as u8;
        if idx2 == idx {
            if k2 == k {
                lemma_pixel_addr_injective(x2, y2, x, y);
                assert(false);
            } else {
                if on {
                    lemma_clear_bit_other(b, k, k2);
                } else {
                    lemma_set_bit_other(b, k, k2);
                }
            }
        }
    }
}

/// The in-memory 1-bit frame buffer, with tracking of which display lines
/// changed since the host last refreshed the screen.
#[derive(Debug)]
pub struct WidgetBuffer {
    buf: Vec<u8>,
    min_changed: u8,
    max_changed: u8,
    clear: bool,
}

impl View for WidgetBuffer {
    type V = WidgetBufferView;

    closed spec fn view(&self) -> WidgetBufferView {
        WidgetBufferView {
            bytes: self.buf@,
            min_changed: self.min_changed,
            max_changed: self.max_changed,
            clear: self.clear,
        }
    }
}

impl WidgetBuffer {
    pub open spec fn wf(self) -> bool {
        self@.bytes.len() == BUFFER_SIZE
    }

    /// A fresh buffer: every pixel off (all bits set), no dirty lines, no
    /// pending clear.
    pub fn new() -> (w: WidgetBuffer)
        ensures
            w.wf(),
            forall|i: int| 0 <= i < BUFFER_SIZE ==> w@.bytes[i] == 0xff,
            w@.min_changed == BUFFER_HEIGHT,
            w@.max_changed == 0,
            w@.clear == false,
    {
        let mut buf: Vec<u8> = Vec::new();
        let mut i: usize = 0;
        while i < BUFFER_SIZE
            invariant
                i <= BUFFER_SIZE,
                buf@.len() == i,
                forall|j: int| 0 <= j < i ==> buf@[j] == 0xff,
            decreases BUFFER_SIZE - i,
        {
            buf.push(0xff);
            i = i + 1;
        }
        WidgetBuffer { buf, min_changed: BUFFER_HEIGHT, max_changed: 0, clear: false }
    }

    /// Overwrites every byte of the buffer and marks every line dirty.
    pub fn fill(&mut self, byte: u8)
        requires
            old(self).wf(),
        ensures
            final(self).wf(),
            forall|i: int| 0 <= i < BUFFER_SIZE ==> final(self)@.bytes[i] == byte,
            final(self)@.min_changed == 0,
            final(self)@.max_changed == BUFFER_HEIGHT,
            final(self)@.clear == old(self)@.clear,
    {
        let mut i: usize = 0;
        while i < BUFFER_SIZE
            invariant
                self.wf(),
                i <= BUFFER_SIZE,
                forall|j: int| 0 <= j < i ==> self@.bytes[j] == byte,
                self@.clear == old(self)@.clear,
            decreases BUFFER_SIZE - i,
        {
            self.buf[i] = byte;
            i = i + 1;
        }
        self.min_changed = 0;
        self.max_changed = BUFFER_HEIGHT;
    }

    /// Resets every pixel to off and records that the host should clear
    /// the whole display instead of redrawing lines.
    pub fn clear(&mut self)
        requires
            old(self).wf(),
        ensures
            final(self).wf(),
            forall|i: int| 0 <= i < BUFFER_SIZE ==> final(self)@.bytes[i] == 0xff,
            final(self)@.min_changed == BUFFER_HEIGHT,
            final(self)@.max_changed == 0,
            final(self)@.clear == true,
    {
        self.fill(0xff);
        self.min_changed = BUFFER_HEIGHT;
        self.max_changed = 0;
        self.clear = true;
    }

    /// Sets one pixel from unsigned in-buffer coordinates; coordinates
    /// off the display are ignored.
    pub fn set_pixel_internal(&mut self, x: u8, y: u8, color: BinaryColor)
        requires
            old(self).wf(),
        ensures
            final(self).wf(),
            final(self)@ == spec_set_pixel(old(self)@, x as int, y as int, color is On),
    {
        if x < BUFFER_WIDTH && y < BUFFER_HEIGHT {
            let r = Self::get_index_and_bit(x, y);
            let index = r.0;
            let bitk: u8 = r.1 as u8;
            let mask: u8 = 1u8 << bitk;
            let old_b = self.buf[index];
            let new_b = if color.is_on() {
                old_b & !mask
            } else {
                old_b | mask
            };
            self.buf[index] = new_b;
            if y < self.min_changed {
                self.min_changed = y;
            }
            let y1 = y + 1;
            if y1 > self.max_changed {
                self.max_changed = y1;
            }
            if self.max_changed > BUFFER_HEIGHT {
                self.max_changed = BUFFER_HEIGHT;
            }
            self.clear = false;
            proof {
                assert(self@ =~= spec_set_pixel(old(self)@, x as int, y as int, color is On));
            }
        }
    }

    /// Sets one pixel from signed drawing coordinates, as primitive
    /// rasterization produces them; anything off the display is ignored.
    pub fn set_pixel(&mut self, x: i32, y: i32, color: BinaryColor)
        requires
            old(self).wf(),
        ensures
            final(self).wf(),
            final(self)@ == spec_set_pixel(old(self)@, x as int, y as int, color is On),
    {
        if x >= 0 && x < BUFFER_WIDTH as i32 && y >= 0 && y < BUFFER_HEIGHT as i32 {
            self.set_pixel_internal(x as u8, y as u8, color);
        }
    }

    /// Flat byte index and bit position of pixel (x, y).
    pub fn get_index_and_bit(x: u8, y: u8) -> (r: (usize, usize))
        ensures
            r.0 == spec_pixel_index(x as int, y as int),
            r.1 == spec_pixel_bit(x as int),
            r.1 < 8,
            x < BUFFER_WIDTH && y < BUFFER_HEIGHT ==> r.0 < BUFFER_SIZE,
    {
        let flat: u32 = x as u32 + 144u32 * (y as u32);
        let index: usize = (flat >> 3) as usize;
        let bit: usize = (x & 7) as usize;
        proof {
            assert(flat >> 3 == flat / 8) by (bit_vector);
            assert((x & 7) == x % 8) by (bit_vector);
            if x < 144 && y < 168 {
                lemma_pixel_index_decompose(x as int, y as int);
            }
        }
        (index, bit)
    }

    /// Replaces this buffer's contents and dirty tracking with a copy of
    /// another buffer's.
    pub fn copy_from_buffer(&mut self, other: &WidgetBuffer)
        ensures
            final(self)@ == other@,
    {
        self.buf.clear();
        let mut i: usize = 0;
        while i < other.buf.len()
            invariant
                i <= other.buf@.len(),
                self.buf@.len() == i,
                forall|j: int| 0 <= j < i ==> self.buf@[j] == other.buf@[j],
            decreases other.buf@.len() - i,
        {
            let b = other.buf[i];
            self.buf.push(b);
            i = i + 1;
        }
        self.min_changed = other.min_changed;
        self.max_changed = other.max_changed;
        self.clear = other.clear;
        proof {
            assert(self@ =~= other@);
        }
    }

    /// One display line of the buffer: its 18 bytes.
    pub fn get_line(&self, n: usize) -> (line: &[u8])
        requires
            self.wf(),
            n < BUFFER_HEIGHT as usize,
        ensures
            line@ == self@.bytes.subrange(18 * n as int, 18 * n as int + 18),
    {
        let idx = n * BYTES_PER_LINE;
        vstd::slice::slice_subrange(self.buf.as_slice(), idx, idx + BYTES_PER_LINE)
    }

    /// Overwrites one display line with the given 18 bytes.  (A verified
    /// function cannot hand out a mutable sub-borrow of the buffer, so
    /// the write path takes the new line contents instead.)
    pub fn set_line(&mut self, n: usize, line: &[u8])
        requires
            old(self).wf(),
            n < BUFFER_HEIGHT as usize,
            line@.len() == BYTES_PER_LINE,
        ensures
            final(self).wf(),
            forall|i: int|
                0 <= i < BUFFER_SIZE ==> final(self)@.bytes[i] == if 18 * n <= i < 18 * n + 18 {
                    line@[i - 18 * n]
                } else {
                    old(self)@.bytes[i]
                },
            final(self)@.min_changed == old(self)@.min_changed,
            final(self)@.max_changed == old(self)@.max_changed,
            final(self)@.clear == old(self)@.clear,
    {
        let base = n * BYTES_PER_LINE;
        let mut j: usize = 0;
        while j < BYTES_PER_LINE
            invariant
                self.wf(),
                j <= BYTES_PER_LINE,
                base == 18 * n,
                n < 168,
                line@.len() == BYTES_PER_LINE,
                self@.min_changed == old(self)@.min_changed,
                self@.max_changed == old(self)@.max_changed,
                self@.clear == old(self)@.clear,
                forall|i: int|
                    0 <= i < BUFFER_SIZE ==> self@.bytes[i] == if 18 * n <= i < 18 * n + j {
                        line@[i - 18 * n]
                    } else {
                        old(self)@.bytes[i]
                    },
            decreases BYTES_PER_LINE - j,
        {
            self.buf[base + j] = line[j];
            j = j + 1;
        }
    }

    /// Records that the host refreshed the display: no dirty lines, no
    /// pending clear.
    pub fn refreshed(&mut self)
        ensures
            final(self)@.bytes == old(self)@.bytes,
            final(self)@.min_changed == BUFFER_HEIGHT,
            final(self)@.max_changed == 0,
            final(self)@.clear == false,
    {
        self.min_changed = BUFFER_HEIGHT;
        self.max_changed = 0;
        self.clear = false;
    }

    /// Whether any line changed since the last refresh.
    pub fn needs_refresh(&self) -> (b: bool)
        ensures
            b == (self@.min_changed != BUFFER_HEIGHT && self@.max_changed != 0),
    {
        self.min_changed != BUFFER_HEIGHT && self.max_changed != 0
    }

    /// Whether a full display clear is pending.
    pub fn needs_clear(&self) -> (b: bool)
        ensures
            b == self@.clear,
    {
        self.clear
    }
}

} // verus!
