//! Byte-by-byte decoder for the raster protocol: a strip decoder turning one
//! data byte into a six-entry vertical bitmask, sub-parsers for the header and
//! color commands, and the top-level state machine that owns the palette,
//! the cursor and the pixel buffer.

use vstd::prelude::*;

verus! {

/// Data bytes carry a bias: the low six bits of `byte - 0x3F` select the six
/// pixel rows of the current band, least significant bit topmost.
pub open spec fn strip_bit(byte: u8, i: int) -> bool
    recommends
        0x3f <= byte,
        0 <= i < 6,
{
    ((byte - 0x3f) as u8) & (1u8 << (i as u8)) != 0
}

/// Decode one data byte into the vertical bitmask it selects: entry `i` is
/// bit `i` of `byte - 0x3F`, and tells whether pixel row `i` of the current
/// band receives the active color.
pub fn decode_strip(byte: u8) -> (strip: [bool; 6])
    requires
        0x3f <= byte,
    ensures
        forall|i: int| 0 <= i < 6 ==> strip[i] == strip_bit(byte, i),
{
    let shifted = byte - 63;
    let a = (shifted & 1) > 0;
    let b = (shifted & 2) > 0;
    let c = (shifted & 4) > 0;
    let d = (shifted & 8) > 0;
    let e = (shifted & 16) > 0;
    let f = (shifted & 32) > 0;
    proof {
        assert(1u8 << 0u8 == 1 && 1u8 << 1u8 == 2 && 1u8 << 2u8 == 4 && 1u8 << 3u8 == 8 && 1u8
            << 4u8 == 16 && 1u8 << 5u8 == 32) by (bit_vector);
    }
    [a, b, c, d, e, f]
}

/// Two data bytes of the visible range with the same bitmask are the same
/// byte: the strip mapping is injective over `0x3F..=0x7E`.
pub proof fn lemma_strip_injective(b1: u8, b2: u8)
    requires
        0x3f <= b1 <= 0x7e,
        0x3f <= b2 <= 0x7e,
        forall|i: int| 0 <= i < 6 ==> strip_bit(b1, i) == strip_bit(b2, i),
    ensures
        b1 == b2,
{
    let x = (b1 - 0x3f) as u8;
    let y = (b2 - 0x3f) as u8;
    assert(strip_bit(b1, 0) == strip_bit(b2, 0));
    assert(strip_bit(b1, 1) == strip_bit(b2, 1));
    assert(strip_bit(b1, 2) == strip_bit(b2, 2));
    assert(strip_bit(b1, 3) == strip_bit(b2, 3));
    assert(strip_bit(b1, 4) == strip_bit(b2, 4));
    assert(strip_bit(b1, 5) == strip_bit(b2, 5));
    assert(x == y) by (bit_vector)
        requires
            x < 64,
            y < 64,
            (x & (1u8 << 0u8) != 0) == (y & (1u8 << 0u8) != 0),
            (x & (1u8 << 1u8) != 0) == (y & (1u8 << 1u8) != 0),
            (x & (1u8 << 2u8) != 0) == (y & (1u8 << 2u8) != 0),
            (x & (1u8 << 3u8) != 0) == (y & (1u8 << 3u8) != 0),
            (x & (1u8 << 4u8) != 0) == (y & (1u8 << 4u8) != 0),
            (x & (1u8 << 5u8) != 0) == (y & (1u8 << 5u8) != 0),
    ;
}

/// Every six-bit value is the bitmask of exactly one byte of the visible
/// range, namely `0x3F + m`: together with injectivity, the strip mapping is
/// a bijection between `0x3F..=0x7E` and the six-bit masks.
pub proof fn lemma_strip_complete(m: u8)
    requires
        m < 64,
    ensures
        forall|i: int|
            0 <= i < 6 ==> #[trigger] strip_bit((0x3f + m) as u8, i) == (m & (1u8 << (i as u8))
                != 0),
{
    assert forall|i: int| 0 <= i < 6 implies #[trigger] strip_bit((0x3f + m) as u8, i) == (m & (1u8
        << (i as u8)) != 0) by {
        let j = i as u8;
        assert((((0x3f + m) as u8 - 0x3f) as u8) & (1u8 << j) == m & (1u8 << j)) by (bit_vector)
            requires
                m < 64,
        ;
    }
}

// ---------------------------------------------------------------------------
// Decimal accumulation
// ---------------------------------------------------------------------------

/// One step of decimal accumulation on a machine word: append the digit byte
/// `d` to `v`. Once one more digit would overflow the word, the value stays
/// as it is, so a run of digits can never make the decoder fail.
pub open spec fn spec_push_digit(v: usize, d: u8) -> usize
    recommends
        0x30 <= d <= 0x39,
{
    if v <= (usize::MAX - 9) / 10 {
        (v * 10 + (d - 0x30)) as usize
    } else {
        v
    }
}

/// Exec counterpart of [`spec_push_digit`].
#[verifier::when_used_as_spec(spec_push_digit)]
pub fn push_digit(v: usize, d: u8) -> (r: usize)
    requires
        0x30 <= d <= 0x39,
    ensures
        r == spec_push_digit(v, d),
{
    if v <= (usize::MAX - 9) / 10 {
        proof {
            vstd::arithmetic::div_mod::lemma_fundamental_div_mod((usize::MAX - 9) as int, 10);
        }
        v * 10 + ((d - 0x30) as usize)
    } else {
        v
    }
}

/// Decimal accumulation on a color component, with the same stall-on-overflow
/// rule as [`spec_push_digit`]. Components on the protocol's 0..=100 scale
/// never reach the stall.
pub open spec fn spec_push_digit_u8(v: u8, d: u8) -> u8
    recommends
        0x30 <= d <= 0x39,
{
    if v <= (255 - 9) / 10 {
        (v * 10 + (d - 0x30)) as u8
    } else {
        v
    }
}

/// Exec counterpart of [`spec_push_digit_u8`].
#[verifier::when_used_as_spec(spec_push_digit_u8)]
pub fn push_digit_u8(v: u8, d: u8) -> (r: u8)
    requires
        0x30 <= d <= 0x39,
    ensures
        r == spec_push_digit_u8(v, d),
{
    if v <= (255 - 9) / 10 {
        v * 10 + (d - 0x30)
    } else {
        v
    }
}

// ---------------------------------------------------------------------------
// Header sub-parser
// ---------------------------------------------------------------------------

/// States of the header sub-parser. Any byte that does not fit the grammar of
/// the current state forces `Done`: the header degrades gracefully instead of
/// erroring.
#[derive(Copy, Clone, Debug, PartialEq, Eq, Structural)]
pub enum HeaderParserState {
    /// Waiting for the raster-attributes introducer `"`.
    AwaitIntroducer,
    /// Reading the aspect-ratio numerator.
    AspectNumerator,
    /// Reading the aspect-ratio denominator.
    AspectDenominator,
    /// Accumulating the declared width in pixels.
    HorizontalExtent,
    /// Accumulating the declared height in pixels.
    VerticalExtent,
    /// The header is over; the byte that ended it still awaits dispatch.
    Done,
}

/// Sub-parser for the raster-attributes header: aspect ratio (informational)
/// and the declared raster extent.
///
/// The aspect fields keep only the single most recent digit, while the two
/// extents accumulate decimally; the protocol's aspect fields are single
/// digits in practice, and nothing downstream reads them.
#[derive(Copy, Clone, Debug, PartialEq, Eq, Structural)]
pub struct HeaderParser {
    /// Aspect-ratio numerator; single digit, informational only.
    pub aspect_numerator: usize,
    /// Aspect-ratio denominator; single digit, informational only.
    pub aspect_denominator: usize,
    /// Declared raster width in pixels.
    pub xsize: usize,
    /// Declared raster height in pixels.
    pub ysize: usize,
    /// Current state of the header grammar.
    pub state: HeaderParserState,
}

/// The header grammar's transition on one byte.
pub open spec fn header_step(h: HeaderParser, byte: u8) -> HeaderParser {
    match h.state {
        HeaderParserState::AwaitIntroducer => if byte == 0x22 {  // '"'
            HeaderParser { state: HeaderParserState::AspectNumerator, ..h }
        } else {
            HeaderParser { state: HeaderParserState::Done, ..h }
        },
        HeaderParserState::AspectNumerator => if 0x30 <= byte && byte <= 0x39 {
            HeaderParser { aspect_numerator: (byte - 0x30) as usize, ..h }
        } else if byte == 0x3b {  // ';'
            HeaderParser { state: HeaderParserState::AspectDenominator, ..h }
        } else {
            HeaderParser { state: HeaderParserState::Done, ..h }
        },
        HeaderParserState::AspectDenominator => if 0x30 <= byte && byte <= 0x39 {
            HeaderParser { aspect_denominator: (byte - 0x30) as usize, ..h }
        } else if byte == 0x3b {
            HeaderParser { state: HeaderParserState::HorizontalExtent, ..h }
        } else {
            HeaderParser { state: HeaderParserState::Done, ..h }
        },
        HeaderParserState::HorizontalExtent => if 0x30 <= byte && byte <= 0x39 {
            HeaderParser { xsize: spec_push_digit(h.xsize, byte), ..h }
        } else if byte == 0x3b {
            HeaderParser { state: HeaderParserState::VerticalExtent, ..h }
        } else {
            HeaderParser { state: HeaderParserState::Done, ..h }
        },
        HeaderParserState::VerticalExtent => if 0x30 <= byte && byte <= 0x39 {
            HeaderParser { ysize: spec_push_digit(h.ysize, byte), ..h }
        } else {
            HeaderParser { state: HeaderParserState::Done, ..h }
        },
        HeaderParserState::Done => HeaderParser { state: HeaderParserState::Done, ..h },
    }
}

/// The value of a fresh header parser.
pub open spec fn header_init() -> HeaderParser {
    HeaderParser {
        aspect_numerator: 2,
        aspect_denominator: 1,
        xsize: 0,
        ysize: 0,
        state: HeaderParserState::AwaitIntroducer,
    }
}

impl HeaderParser {
    /// A fresh header parser: default 2:1 aspect, no extent yet, waiting for
    /// the introducer.
    pub fn new() -> (h: HeaderParser)
        ensures
            h == header_init(),
    {
        HeaderParser {
            aspect_numerator: 2,
            aspect_denominator: 1,
            xsize: 0,
            ysize: 0,
            state: HeaderParserState::AwaitIntroducer,
        }
    }

    /// Feed one byte to the header grammar.
    pub fn put(&mut self, byte: u8)
        ensures
            *final(self) == header_step(*old(self), byte),
    {
        match self.state {
            HeaderParserState::AwaitIntroducer => {
                if byte == 0x22 {
                    self.state = HeaderParserState::AspectNumerator;
                } else {
                    self.state = HeaderParserState::Done;
                }
            },
            HeaderParserState::AspectNumerator => {
                if 0x30 <= byte && byte <= 0x39 {
                    self.aspect_numerator = (byte - 0x30) as usize;
                } else if byte == 0x3b {
                    self.state = HeaderParserState::AspectDenominator;
                } else {
                    self.state = HeaderParserState::Done;
                }
            },
            HeaderParserState::AspectDenominator => {
                if 0x30 <= byte && byte <= 0x39 {
                    self.aspect_denominator = (byte - 0x30) as usize;
                } else if byte == 0x3b {
                    self.state = HeaderParserState::HorizontalExtent;
                } else {
                    self.state = HeaderParserState::Done;
                }
            },
            HeaderParserState::HorizontalExtent => {
                if 0x30 <= byte && byte <= 0x39 {
                    self.xsize = push_digit(self.xsize, byte);
                } else if byte == 0x3b {
                    self.state = HeaderParserState::VerticalExtent;
                } else {
                    self.state = HeaderParserState::Done;
                }
            },
            HeaderParserState::VerticalExtent => {
                if 0x30 <= byte && byte <= 0x39 {
                    self.ysize = push_digit(self.ysize, byte);
                } else {
                    self.state = HeaderParserState::Done;
                }
            },
            HeaderParserState::Done => {
                self.state = HeaderParserState::Done;
            },
        }
    }
}

// ---------------------------------------------------------------------------
// Color sub-parser
// ---------------------------------------------------------------------------

/// States and terminal outcomes of the color-command grammar. The three
/// terminal variants are the tagged result the owning decoder acts on.
#[derive(Copy, Clone, Debug, PartialEq, Eq, Structural)]
pub enum ColorParserState {
    /// Accumulating the palette slot number.
    Slot,
    /// Reading the color-space selector (tracked, never acted on).
    ColorSpace,
    /// Accumulating the red component on the 0..=100 scale.
    Red,
    /// Accumulating the green component on the 0..=100 scale.
    Green,
    /// Accumulating the blue component on the 0..=100 scale.
    Blue,
    /// Terminal: a complete definition, already rescaled to 0..=255.
    NewColor(u8, u8, u8),
    /// Terminal: select an existing palette slot as active.
    SetSlot(usize),
    /// Terminal: the bytes fit no rule of the grammar.
    Invalid,
}

/// Sub-parser for the color-definition command: a slot number, optionally
/// followed by `;colorspace;red;green;blue` on a 0..=100 scale.
#[derive(Copy, Clone, Debug)]
pub struct ColorParser {
    /// Accumulated palette slot number.
    pub slot: usize,
    /// Accumulated components, on the 0..=100 scale until the command ends.
    pub rgb: (u8, u8, u8),
    /// Whether the HLS color space was selected (tracked, never acted on).
    pub hls: bool,
    /// Current state of the color grammar.
    pub state: ColorParserState,
}

/// Rescale one component from the protocol's 0..=100 scale to 0..=255 with
/// truncating integer arithmetic; an out-of-scale component is truncated to
/// the low byte, as the two's-complement arithmetic of the accumulator gives.
pub open spec fn spec_scale_component(v: u8) -> u8 {
    ((v * 255 / 100) % 256) as u8
}

/// Exec counterpart of [`spec_scale_component`].
#[verifier::when_used_as_spec(spec_scale_component)]
pub fn scale_component(v: u8) -> (r: u8)
    ensures
        r == spec_scale_component(v),
{
    let scaled: u32 = (v as u32) * 255 / 100;
    (scaled % 256) as u8
}

/// The color grammar's transition on one byte.
pub open spec fn color_step(c: ColorParser, byte: u8) -> ColorParser {
    match c.state {
        ColorParserState::Slot => if 0x30 <= byte && byte <= 0x39 {
            ColorParser { slot: spec_push_digit(c.slot, byte), ..c }
        } else if byte == 0x3b {  // ';'
            ColorParser { state: ColorParserState::ColorSpace, ..c }
        } else {
            ColorParser { state: ColorParserState::SetSlot(c.slot), ..c }
        },
        ColorParserState::ColorSpace => if 0x30 <= byte && byte <= 0x39 {
            ColorParser { hls: false, ..c }
        } else if byte == 0x3b {
            ColorParser { state: ColorParserState::Red, ..c }
        } else {
            ColorParser { state: ColorParserState::Invalid, ..c }
        },
        ColorParserState::Red => if 0x30 <= byte && byte <= 0x39 {
            ColorParser { rgb: (spec_push_digit_u8(c.rgb.0, byte), c.rgb.1, c.rgb.2), ..c }
        } else if byte == 0x3b {
            ColorParser { state: ColorParserState::Green, ..c }
        } else {
            ColorParser { state: ColorParserState::Invalid, ..c }
        },
        ColorParserState::Green => if 0x30 <= byte && byte <= 0x39 {
            ColorParser { rgb: (c.rgb.0, spec_push_digit_u8(c.rgb.1, byte), c.rgb.2), ..c }
        } else if byte == 0x3b {
            ColorParser { state: ColorParserState::Blue, ..c }
        } else {
            ColorParser { state: ColorParserState::Invalid, ..c }
        },
        ColorParserState::Blue => if 0x30 <= byte && byte <= 0x39 {
            ColorParser { rgb: (c.rgb.0, c.rgb.1, spec_push_digit_u8(c.rgb.2, byte)), ..c }
        } else {
            let scaled = (
                spec_scale_component(c.rgb.0),
                spec_scale_component(c.rgb.1),
                spec_scale_component(c.rgb.2),
            );
            ColorParser {
                rgb: scaled,
                state: ColorParserState::NewColor(scaled.0, scaled.1, scaled.2),
                ..c
            }
        },
        _ => ColorParser { state: ColorParserState::Invalid, ..c },
    }
}

/// The value of a fresh color parser.
pub open spec fn color_init() -> ColorParser {
    ColorParser { slot: 0, rgb: (0, 0, 0), hls: false, state: ColorParserState::Slot }
}

impl ColorParser {
    /// A fresh color parser, at the start of the slot number.
    pub fn new() -> (c: ColorParser)
        ensures
            c == color_init(),
    {
        ColorParser { slot: 0, rgb: (0, 0, 0), hls: false, state: ColorParserState::Slot }
    }

    /// Feed one byte to the color grammar; the returned state is the tagged
    /// outcome the owning decoder dispatches on.
    pub fn put(&mut self, byte: u8) -> (outcome: ColorParserState)
        ensures
            *final(self) == color_step(*old(self), byte),
            outcome == final(self).state,
    {
        match self.state {
            ColorParserState::Slot => {
                if 0x30 <= byte && byte <= 0x39 {
                    self.slot = push_digit(self.slot, byte);
                } else if byte == 0x3b {
                    self.state = ColorParserState::ColorSpace;
                } else {
                    self.state = ColorParserState::SetSlot(self.slot);
                }
            },
            ColorParserState::ColorSpace => {
                if 0x30 <= byte && byte <= 0x39 {
                    self.hls = false;
                } else if byte == 0x3b {
                    self.state = ColorParserState::Red;
                } else {
                    self.state = ColorParserState::Invalid;
                }
            },
            ColorParserState::Red => {
                if 0x30 <= byte && byte <= 0x39 {
                    self.rgb.0 = push_digit_u8(self.rgb.0, byte);
                } else if byte == 0x3b {
                    self.state = ColorParserState::Green;
                } else {
                    self.state = ColorParserState::Invalid;
                }
            },
            ColorParserState::Green => {
                if 0x30 <= byte && byte <= 0x39 {
                    self.rgb.1 = push_digit_u8(self.rgb.1, byte);
                } else if byte == 0x3b {
                    self.state = ColorParserState::Blue;
                } else {
                    self.state = ColorParserState::Invalid;
                }
            },
            ColorParserState::Blue => {
                if 0x30 <= byte && byte <= 0x39 {
                    self.rgb.2 = push_digit_u8(self.rgb.2, byte);
                } else {
                    let r = scale_component(self.rgb.0);
                    let g = scale_component(self.rgb.1);
                    let b = scale_component(self.rgb.2);
                    self.rgb = (r, g, b);
                    self.state = ColorParserState::NewColor(r, g, b);
                }
            },
            _ => {
                self.state = ColorParserState::Invalid;
            },
        }
        self.state
    }
}

// ---------------------------------------------------------------------------
// Colors and pixels
// ---------------------------------------------------------------------------

/// One palette entry: an RGB color with 8-bit components.
#[derive(Copy, Clone, Debug, PartialEq, Eq, Structural)]
pub struct Color {
    /// Red component.
    pub r: u8,
    /// Green component.
    pub g: u8,
    /// Blue component.
    pub b: u8,
}

impl Default for Color {
    /// The default palette entry is black: slots read before being defined
    /// yield (0, 0, 0).
    fn default() -> (c: Color)
        ensures
            c == (Color { r: 0, g: 0, b: 0 }),
    {
        Color { r: 0, g: 0, b: 0 }
    }
}

/// The component of `c` selected by channel index `ch` (0 red, 1 green,
/// 2 blue).
pub open spec fn color_channel(c: Color, ch: int) -> u8 {
    if ch == 0 {
        c.r
    } else if ch == 1 {
        c.g
    } else {
        c.b
    }
}

impl Color {
    /// A color from its three components.
    pub fn new(r: u8, g: u8, b: u8) -> (c: Color)
        ensures
            c == (Color { r, g, b }),
    {
        Color { r, g, b }
    }

    /// Overwrite a pixel's three bytes with this color.
    pub fn paint_pixel(&self, pixel: &mut Pixel)
        ensures
            final(pixel).rgb[0] == self.r,
            final(pixel).rgb[1] == self.g,
            final(pixel).rgb[2] == self.b,
    {
        pixel.rgb[0] = self.r;
        pixel.rgb[1] = self.g;
        pixel.rgb[2] = self.b;
    }
}

/// One pixel's three bytes, in RGB order.
#[derive(Copy, Clone, Debug)]
pub struct Pixel {
    /// The pixel's bytes: red, green, blue.
    pub rgb: [u8; 3],
}

impl Pixel {
    /// A pixel from its three bytes.
    pub fn new(rgb: [u8; 3]) -> (p: Pixel)
        ensures
            p.rgb == rgb,
    {
        Pixel { rgb }
    }
}

// ---------------------------------------------------------------------------
// Painting one vertical strip
// ---------------------------------------------------------------------------

/// Whether pixel `p` is hit when the strip of `byte` is painted at column
/// `xpos` under band top `ypos`, counting only the first `rows` rows of the
/// band. Pixel `p` of row `j` sits at `(ypos + j) * xsize + xpos`, written
/// here with the product expanded.
pub open spec fn paint_target(xsize: int, xpos: int, ypos: int, byte: u8, p: int, rows: int) -> bool {
    exists|j: int|
        0 <= j < rows && strip_bit(byte, j) && p == ypos * xsize + j * xsize + xpos
}

/// The pixel buffer after painting the first `rows` rows of the strip of
/// `byte` with `c`: every complete RGB triplet whose pixel is a target takes
/// the color's bytes, every other byte is untouched. Targets beyond the
/// buffer's complete triplets are skipped, never an error.
pub open spec fn spec_paint_rows(
    rgb: Seq<u8>,
    xsize: int,
    xpos: int,
    ypos: int,
    byte: u8,
    c: Color,
    rows: int,
) -> Seq<u8> {
    Seq::new(
        rgb.len(),
        |k: int|
            if k / 3 < rgb.len() / 3 && paint_target(xsize, xpos, ypos, byte, k / 3, rows) {
                color_channel(c, k % 3)
            } else {
                rgb[k]
            },
    )
}

/// The pixel buffer after painting the whole six-row strip of `byte`.
pub open spec fn spec_paint(
    rgb: Seq<u8>,
    xsize: int,
    xpos: int,
    ypos: int,
    byte: u8,
    c: Color,
) -> Seq<u8> {
    spec_paint_rows(rgb, xsize, xpos, ypos, byte, c, 6)
}

/// The index of row `j` of the strip at `(xpos, ypos)` in a buffer strided by
/// `xsize`, or `None` when the index exceeds the machine word (such a target
/// lies past any buffer and is skipped).
fn pixel_index(ypos: usize, j: usize, xsize: usize, xpos: usize) -> (r: Option<usize>)
    ensures
        match r {
            Some(p) => p == ypos * xsize + j * xsize + xpos,
            None => ypos * xsize + j * xsize + xpos > usize::MAX,
        },
{
    match ypos.checked_mul(xsize) {
        Some(base) => match j.checked_mul(xsize) {
            Some(off) => match base.checked_add(off) {
                Some(s) => s.checked_add(xpos),
                None => None,
            },
            None => None,
        },
        None => None,
    }
}

/// Addressing of one vertical strip of the raster: the column `xpos`, the
/// band top `ypos`, and the row stride `xsize`, naming up to six pixels of
/// the buffer without borrowing it.
#[derive(Copy, Clone, Debug, PartialEq, Eq, Structural)]
pub struct Sixel {
    /// Column of the strip.
    pub xpos: usize,
    /// Top row of the strip's band.
    pub ypos: usize,
    /// Row stride of the buffer, the raster width.
    pub xsize: usize,
}

impl Sixel {
    /// A strip address from its column, band top and stride.
    pub fn new(xpos: usize, ypos: usize, xsize: usize) -> (s: Sixel)
        ensures
            s == (Sixel { xpos, ypos, xsize }),
    {
        Sixel { xpos, ypos, xsize }
    }

    /// Paint the strip of `byte` into `rgb` with `color`: each of the six
    /// band rows whose bit is set gets its pixel overwritten, rows whose
    /// pixel lies beyond the buffer are skipped.
    pub fn paint(&self, byte: u8, color: Color, rgb: &mut Vec<u8>)
        requires
            0x3f <= byte,
        ensures
            final(rgb)@ == spec_paint(
                old(rgb)@,
                self.xsize as int,
                self.xpos as int,
                self.ypos as int,
                byte,
                color,
            ),
    {
        let strip = decode_strip(byte);
        let npix = rgb.len() / 3;
        let ghost rgb0 = rgb@;
        let ghost xs = self.xsize as int;
        let ghost xp = self.xpos as int;
        let ghost yp = self.ypos as int;
        let mut j: usize = 0;
        while j < 6
            invariant
                j <= 6,
                0x3f <= byte,
                rgb@.len() == rgb0.len(),
                rgb0.len() <= usize::MAX,
                npix == rgb0.len() as int / 3,
                forall|i: int| 0 <= i < 6 ==> strip[i] == strip_bit(byte, i),
                rgb@ == spec_paint_rows(rgb0, xs, xp, yp, byte, color, j as int),
                xs == self.xsize && xp == self.xpos && yp == self.ypos,
            decreases 6 - j,
        {
            let ghost prev = rgb@;
            let ghost jj = j as int;
            if strip[j] {
                if let Some(p) = pixel_index(self.ypos, j, self.xsize, self.xpos) {
                    if p < npix {
                        proof {
                            vstd::arithmetic::div_mod::lemma_fundamental_div_mod(
                                rgb0.len() as int,
                                3,
                            );
                            vstd::arithmetic::div_mod::lemma_mod_bound(rgb0.len() as int, 3);
                            assert(3 * (p as int) + 2 < rgb@.len());
                        }
                        let idx = 3 * p;
                        let mut pixel = Pixel::new([rgb[idx], rgb[idx + 1], rgb[idx + 2]]);
                        color.paint_pixel(&mut pixel);
                        rgb[idx] = pixel.rgb[0];
                        rgb[idx + 1] = pixel.rgb[1];
                        rgb[idx + 2] = pixel.rgb[2];
                        proof {
                            lemma_paint_row_written(rgb0, prev, rgb@, xs, xp, yp, byte, color, jj, p as int);
                        }
                    } else {
                        proof {
                            lemma_paint_row_skipped(rgb0, rgb@, xs, xp, yp, byte, color, jj, npix as int);
                        }
                    }
                } else {
                    proof {
                        lemma_paint_row_skipped(rgb0, rgb@, xs, xp, yp, byte, color, jj, npix as int);
                    }
                }
            } else {
                proof {
                    lemma_paint_row_unset(rgb0, rgb@, xs, xp, yp, byte, color, jj);
                }
            }
            j += 1;
        }
    }
}

/// After the strip's first `j` rows are painted, writing the triplet of
/// in-bounds target pixel `p` of row `j` yields the first `j + 1` rows
/// painted.
proof fn lemma_paint_row_written(
    rgb0: Seq<u8>,
    prev: Seq<u8>,
    cur: Seq<u8>,
    xs: int,
    xp: int,
    yp: int,
    byte: u8,
    c: Color,
    j: int,
    p: int,
)
    requires
        0 <= j < 6,
        strip_bit(byte, j),
        p == yp * xs + j * xs + xp,
        0 <= p < rgb0.len() / 3,
        prev == spec_paint_rows(rgb0, xs, xp, yp, byte, c, j),
        cur == prev.update(3 * p, c.r).update(3 * p + 1, c.g).update(3 * p + 2, c.b),
    ensures
        cur == spec_paint_rows(rgb0, xs, xp, yp, byte, c, j + 1),
{
    let len = rgb0.len() as int;
    assert forall|k: int| 0 <= k < len implies cur[k] == spec_paint_rows(
        rgb0,
        xs,
        xp,
        yp,
        byte,
        c,
        j + 1,
    )[k] by {
        vstd::arithmetic::div_mod::lemma_fundamental_div_mod(k, 3);
        let pk = k / 3;
        let ch = k % 3;
        if pk == p {
            assert(k == 3 * p + ch);
            assert(paint_target(xs, xp, yp, byte, pk, j + 1));
            assert(cur[k] == color_channel(c, ch));
        } else {
            assert(cur[k] == prev[k]);
            assert(paint_target(xs, xp, yp, byte, pk, j + 1) == paint_target(
                xs,
                xp,
                yp,
                byte,
                pk,
                j,
            )) by {
                if paint_target(xs, xp, yp, byte, pk, j + 1) {
                    let w = choose|w: int|
                        0 <= w < j + 1 && strip_bit(byte, w) && pk == yp * xs + w * xs + xp;
                    if w == j {
                        assert(pk == p);
                    } else {
                        assert(paint_target(xs, xp, yp, byte, pk, j));
                    }
                }
            }
        }
    }
    assert(cur =~= spec_paint_rows(rgb0, xs, xp, yp, byte, c, j + 1));
}

/// A target pixel that lies at or beyond the buffer's complete triplets is
/// skipped: painting row `j` changes nothing.
proof fn lemma_paint_row_skipped(
    rgb0: Seq<u8>,
    cur: Seq<u8>,
    xs: int,
    xp: int,
    yp: int,
    byte: u8,
    c: Color,
    j: int,
    npix: int,
)
    requires
        0 <= j < 6,
        npix == rgb0.len() / 3,
        yp * xs + j * xs + xp >= npix,
        cur == spec_paint_rows(rgb0, xs, xp, yp, byte, c, j),
    ensures
        cur == spec_paint_rows(rgb0, xs, xp, yp, byte, c, j + 1),
{
    let len = rgb0.len() as int;
    let p = yp * xs + j * xs + xp;
    assert forall|k: int| 0 <= k < len implies spec_paint_rows(rgb0, xs, xp, yp, byte, c, j)[k]
        == spec_paint_rows(rgb0, xs, xp, yp, byte, c, j + 1)[k] by {
        vstd::arithmetic::div_mod::lemma_fundamental_div_mod(k, 3);
        let pk = k / 3;
        if pk < len / 3 {
            assert(paint_target(xs, xp, yp, byte, pk, j + 1) == paint_target(
                xs,
                xp,
                yp,
                byte,
                pk,
                j,
            )) by {
                if paint_target(xs, xp, yp, byte, pk, j + 1) {
                    let w = choose|w: int|
                        0 <= w < j + 1 && strip_bit(byte, w) && pk == yp * xs + w * xs + xp;
                    if w == j {
                        assert(pk == p);
                        assert(false);
                    } else {
                        assert(paint_target(xs, xp, yp, byte, pk, j));
                    }
                }
            }
        }
    }
    assert(spec_paint_rows(rgb0, xs, xp, yp, byte, c, j) =~= spec_paint_rows(
        rgb0,
        xs,
        xp,
        yp,
        byte,
        c,
        j + 1,
    ));
}

/// A row whose bit is unset paints nothing: the first `j + 1` rows painted
/// equal the first `j`.
proof fn lemma_paint_row_unset(
    rgb0: Seq<u8>,
    cur: Seq<u8>,
    xs: int,
    xp: int,
    yp: int,
    byte: u8,
    c: Color,
    j: int,
)
    requires
        0 <= j < 6,
        !strip_bit(byte, j),
        cur == spec_paint_rows(rgb0, xs, xp, yp, byte, c, j),
    ensures
        cur == spec_paint_rows(rgb0, xs, xp, yp, byte, c, j + 1),
{
    let len = rgb0.len() as int;
    assert forall|k: int| 0 <= k < len implies spec_paint_rows(rgb0, xs, xp, yp, byte, c, j)[k]
        == spec_paint_rows(rgb0, xs, xp, yp, byte, c, j + 1)[k] by {
        let pk = k / 3;
        assert(paint_target(xs, xp, yp, byte, pk, j + 1) == paint_target(
            xs,
            xp,
            yp,
            byte,
            pk,
            j,
        )) by {
            if paint_target(xs, xp, yp, byte, pk, j + 1) {
                let w = choose|w: int|
                    0 <= w < j + 1 && strip_bit(byte, w) && pk == yp * xs + w * xs + xp;
                assert(w != j);
                assert(paint_target(xs, xp, yp, byte, pk, j));
            }
        }
    }
    assert(spec_paint_rows(rgb0, xs, xp, yp, byte, c, j) =~= spec_paint_rows(
        rgb0,
        xs,
        xp,
        yp,
        byte,
        c,
        j + 1,
    ));
}

// ---------------------------------------------------------------------------
// Top-level decoder
// ---------------------------------------------------------------------------

/// Dispatch state of the top-level decoder: either plain command dispatch, or
/// delegation to a sub-parser, or accumulation of a repeat count.
#[derive(Copy, Clone, Debug)]
pub enum SixelParserState {
    /// Plain command dispatch.
    Default,
    /// Bytes go to the header sub-parser until it is done.
    Header(HeaderParser),
    /// Bytes go to the color sub-parser until a terminal outcome.
    ColorParser(ColorParser),
    /// Digit bytes accumulate the repeat multiplier.
    Repeat,
}

/// The mathematical state of a [`SixelDecoder`]: the buffer and palette as
/// sequences, beside the dispatch state, the active slot, the cursor, the
/// declared extent and the pending repeat multiplier.
pub ghost struct DecoderV {
    /// The pixel buffer, row-major RGB bytes.
    pub rgb: Seq<u8>,
    /// The palette, indexed by slot.
    pub colors: Seq<Color>,
    /// The dispatch state.
    pub parser: SixelParserState,
    /// The active palette slot.
    pub color: usize,
    /// Cursor column.
    pub xpos: usize,
    /// Cursor row, the top of the current band.
    pub ypos: usize,
    /// Declared raster width.
    pub xsize: usize,
    /// Declared raster height.
    pub ysize: usize,
    /// Repeat multiplier for the next drawing byte.
    pub repeat: usize,
}

/// The palette grown with default black entries until `slot` is a valid
/// index; a palette already covering `slot` is unchanged.
pub open spec fn extend_colors(colors: Seq<Color>, slot: int) -> Seq<Color> {
    if slot < colors.len() {
        colors
    } else {
        colors + Seq::new((slot + 1 - colors.len()) as nat, |i: int| Color { r: 0, g: 0, b: 0 })
    }
}

/// A buffer resized to `n` bytes: the old prefix kept, new bytes zero.
pub open spec fn resize_seq(s: Seq<u8>, n: usize) -> Seq<u8> {
    Seq::new(
        n as nat,
        |k: int|
            if k < s.len() {
                s[k]
            } else {
                0u8
            },
    )
}

/// The byte length of the pixel buffer a raster of `x` by `y` pixels needs:
/// three bytes per pixel, held to the machine word.
pub open spec fn spec_buffer_len(x: usize, y: usize) -> usize {
    if x * y * 3 <= usize::MAX {
        (x * y * 3) as usize
    } else {
        usize::MAX
    }
}

/// The buffer and cursor column after `n` strips of `byte` are painted at
/// consecutive columns starting at `xpos`; the column advance is held to the
/// machine word.
pub open spec fn paint_run(
    rgb: Seq<u8>,
    xsize: usize,
    xpos: usize,
    ypos: usize,
    byte: u8,
    c: Color,
    n: nat,
) -> (Seq<u8>, usize)
    decreases n,
{
    if n == 0 {
        (rgb, xpos)
    } else {
        let r1 = spec_paint(rgb, xsize as int, xpos as int, ypos as int, byte, c);
        paint_run(r1, xsize, xpos.saturating_add(1), ypos, byte, c, (n - 1) as nat)
    }
}

/// Painting `n + 1` strips is painting `n`, then one more at the column the
/// run has reached.
proof fn lemma_paint_run_snoc(
    rgb: Seq<u8>,
    xsize: usize,
    xpos: usize,
    ypos: usize,
    byte: u8,
    c: Color,
    n: nat,
)
    ensures
        ({
            let prev = paint_run(rgb, xsize, xpos, ypos, byte, c, n);
            paint_run(rgb, xsize, xpos, ypos, byte, c, n + 1) == (
                spec_paint(prev.0, xsize as int, prev.1 as int, ypos as int, byte, c),
                prev.1.saturating_add(1),
            )
        }),
    decreases n,
{
    let r1 = spec_paint(rgb, xsize as int, xpos as int, ypos as int, byte, c);
    if n == 0 {
        assert(paint_run(rgb, xsize, xpos, ypos, byte, c, 0) == (rgb, xpos));
        assert(paint_run(r1, xsize, xpos.saturating_add(1), ypos, byte, c, 0) == (
            r1,
            xpos.saturating_add(1),
        ));
    } else {
        lemma_paint_run_snoc(r1, xsize, xpos.saturating_add(1), ypos, byte, c, (n - 1) as nat);
    }
}

/// The effect of one drawing byte: the defensive clamp when the cursor sits
/// exactly at the declared width, the palette grown to the active slot, a run
/// of `max(repeat, 1)` painted strips, and the repeat multiplier cleared.
pub open spec fn draw_step(d: DecoderV, byte: u8) -> DecoderV
    recommends
        0x3f <= byte <= 0x7e,
{
    let d0 = if d.xpos == d.xsize {
        DecoderV { xpos: 0, parser: SixelParserState::Default, ..d }
    } else {
        d
    };
    let colors1 = extend_colors(d0.colors, d0.color as int);
    let c = colors1[d0.color as int];
    let n = if d0.repeat > 1 {
        d0.repeat
    } else {
        1usize
    };
    let pr = paint_run(d0.rgb, d0.xsize, d0.xpos, d0.ypos, byte, c, n as nat);
    DecoderV {
        rgb: pr.0,
        colors: colors1,
        xpos: pr.1,
        repeat: 0,
        parser: SixelParserState::Default,
        ..d0
    }
}

/// Plain command dispatch, reached in the `Default` state and for non-digit
/// bytes in the `Repeat` state: introducers open a sub-parser, the two cursor
/// commands move the cursor, drawing bytes paint, anything else is ignored.
pub open spec fn dispatch_spec(d: DecoderV, byte: u8) -> DecoderV {
    if byte == 0x22 {  // '"'
        DecoderV { parser: SixelParserState::Header(header_init()), ..d }
    } else if byte == 0x23 {  // '#'
        DecoderV { parser: SixelParserState::ColorParser(color_init()), ..d }
    } else if byte == 0x21 {  // '!'
        DecoderV { parser: SixelParserState::Repeat, ..d }
    } else if byte == 0x2d {  // '-': band advance
        DecoderV { xpos: 0, ypos: d.ypos.saturating_add(6), ..d }
    } else if byte == 0x24 {  // '$': same-band return
        DecoderV { xpos: 0, ..d }
    } else if 0x3f <= byte && byte <= 0x7e {
        draw_step(d, byte)
    } else {
        d
    }
}

/// One dispatch step of the decoder on one byte. The second component tells
/// whether a sub-parse ended on this byte, whose effect is applied and whose
/// triggering byte must then be dispatched once more.
pub open spec fn step_spec(d: DecoderV, byte: u8) -> (DecoderV, bool) {
    match d.parser {
        SixelParserState::ColorParser(cp) => {
            let cp2 = color_step(cp, byte);
            match cp2.state {
                ColorParserState::NewColor(r, g, b) => (
                    DecoderV {
                        colors: d.colors.push(Color { r, g, b }),
                        parser: SixelParserState::Default,
                        ..d
                    },
                    true,
                ),
                ColorParserState::SetSlot(n) => (
                    DecoderV { color: n, parser: SixelParserState::Default, ..d },
                    true,
                ),
                ColorParserState::Invalid => (
                    DecoderV { parser: SixelParserState::Default, ..d },
                    true,
                ),
                _ => (DecoderV { parser: SixelParserState::ColorParser(cp2), ..d }, false),
            }
        },
        SixelParserState::Header(hp) => {
            let hp2 = header_step(hp, byte);
            if hp2.state == HeaderParserState::Done {
                (
                    DecoderV {
                        xsize: hp2.xsize,
                        ysize: hp2.ysize,
                        rgb: resize_seq(d.rgb, spec_buffer_len(hp2.xsize, hp2.ysize)),
                        parser: SixelParserState::Default,
                        ..d
                    },
                    true,
                )
            } else {
                (DecoderV { parser: SixelParserState::Header(hp2), ..d }, false)
            }
        },
        SixelParserState::Repeat => {
            if 0x30 <= byte && byte <= 0x39 {
                (DecoderV { repeat: spec_push_digit(d.repeat, byte), ..d }, false)
            } else {
                (dispatch_spec(d, byte), false)
            }
        },
        SixelParserState::Default => (dispatch_spec(d, byte), false),
    }
}

/// The decoder's transition on one byte: one dispatch step, and a second one
/// on the same byte when the first ended a sub-parse.
pub open spec fn put_spec(d: DecoderV, byte: u8) -> DecoderV {
    let s1 = step_spec(d, byte);
    if s1.1 {
        step_spec(s1.0, byte).0
    } else {
        s1.0
    }
}

/// The value of a fresh decoder: everything empty, a header expected first.
pub open spec fn decoder_init() -> DecoderV {
    DecoderV {
        rgb: Seq::empty(),
        colors: Seq::empty(),
        parser: SixelParserState::Header(header_init()),
        color: 0,
        xpos: 0,
        ypos: 0,
        xsize: 0,
        ysize: 0,
        repeat: 0,
    }
}

/// The top-level decoder: owns the palette, the cursor, the repeat counter
/// and the pixel buffer, and advances on one byte at a time.
pub struct SixelDecoder {
    /// The pixel buffer, row-major RGB bytes.
    pub rgb: Vec<u8>,
    /// The palette, indexed by slot.
    pub colors: Vec<Color>,
    /// The dispatch state.
    pub parser: SixelParserState,
    /// The active palette slot.
    pub color: usize,
    /// Cursor column.
    pub xpos: usize,
    /// Cursor row, the top of the current band.
    pub ypos: usize,
    /// Declared raster width.
    pub xsize: usize,
    /// Declared raster height.
    pub ysize: usize,
    /// Repeat multiplier for the next drawing byte.
    pub repeat: usize,
}

impl View for SixelDecoder {
    type V = DecoderV;

    open spec fn view(&self) -> DecoderV {
        DecoderV {
            rgb: self.rgb@,
            colors: self.colors@,
            parser: self.parser,
            color: self.color,
            xpos: self.xpos,
            ypos: self.ypos,
            xsize: self.xsize,
            ysize: self.ysize,
            repeat: self.repeat,
        }
    }
}

impl SixelDecoder {
    /// A fresh decoder, expecting the header first.
    pub fn new() -> (d: SixelDecoder)
        ensures
            d@ == decoder_init(),
    {
        SixelDecoder {
            rgb: Vec::new(),
            colors: Vec::with_capacity(256),
            parser: SixelParserState::Header(HeaderParser::new()),
            color: 0,
            xpos: 0,
            ypos: 0,
            xsize: 0,
            ysize: 0,
            repeat: 0,
        }
    }

    /// The active palette color, growing the palette with black entries
    /// until the active slot exists.
    pub fn current_color(&mut self) -> (c: Color)
        ensures
            final(self)@ == (DecoderV {
                colors: extend_colors(old(self)@.colors, old(self)@.color as int),
                ..old(self)@
            }),
            c == extend_colors(old(self)@.colors, old(self)@.color as int)[old(self)@.color as int],
    {
        let ghost colors0 = self.colors@;
        while self.colors.len() <= self.color
            invariant
                colors0.len() <= self.colors@.len(),
                forall|i: int| 0 <= i < colors0.len() ==> self.colors@[i] == colors0[i],
                forall|i: int|
                    colors0.len() <= i < self.colors@.len() ==> self.colors@[i] == (Color {
                        r: 0,
                        g: 0,
                        b: 0,
                    }),
                self.colors@.len() <= colors0.len() || self.colors@.len() <= self.color + 1,
                self.rgb@ == old(self).rgb@,
                self.parser == old(self).parser,
                self.color == old(self).color,
                self.xpos == old(self).xpos,
                self.ypos == old(self).ypos,
                self.xsize == old(self).xsize,
                self.ysize == old(self).ysize,
                self.repeat == old(self).repeat,
            decreases self.color + 1 - self.colors.len(),
        {
            self.colors.push(Color::default());
        }
        proof {
            assert(self.colors@ =~= extend_colors(colors0, self.color as int));
        }
        self.colors[self.color]
    }

    /// The strip address the next drawing byte paints at: the cursor column
    /// and band top, strided by the declared width.
    pub fn current_sixel(&self) -> (s: Sixel)
        ensures
            s == (Sixel { xpos: self.xpos, ypos: self.ypos, xsize: self.xsize }),
    {
        Sixel { xpos: self.xpos, ypos: self.ypos, xsize: self.xsize }
    }

    /// Give up the decoder and keep its pixel buffer.
    pub fn into_rgb(self) -> (rgb: Vec<u8>)
        ensures
            rgb@ == self@.rgb,
    {
        self.rgb
    }

    /// Resize the pixel buffer to `n` bytes, keeping the old prefix and
    /// zeroing new bytes.
    fn resize_rgb(&mut self, n: usize)
        ensures
            final(self)@ == (DecoderV { rgb: resize_seq(old(self)@.rgb, n), ..old(self)@ }),
    {
        let ghost rgb0 = self.rgb@;
        self.rgb.truncate(n);
        while self.rgb.len() < n
            invariant
                self.rgb@.len() <= n,
                self.rgb@.len() >= rgb0.len() || self.rgb@.len() >= n,
                forall|i: int| 0 <= i < self.rgb@.len() ==> self.rgb@[i] == resize_seq(rgb0, n)[i],
                self.colors@ == old(self).colors@,
                self.parser == old(self).parser,
                self.color == old(self).color,
                self.xpos == old(self).xpos,
                self.ypos == old(self).ypos,
                self.xsize == old(self).xsize,
                self.ysize == old(self).ysize,
                self.repeat == old(self).repeat,
            decreases n - self.rgb.len(),
        {
            self.rgb.push(0);
        }
        proof {
            assert(self.rgb@ =~= resize_seq(rgb0, n));
        }
    }

    /// Execute one drawing byte: clamp, resolve the active color, paint the
    /// run, clear the repeat multiplier.
    fn draw(&mut self, byte: u8)
        requires
            0x3f <= byte <= 0x7e,
        ensures
            final(self)@ == draw_step(old(self)@, byte),
    {
        if self.xpos == self.xsize {
            self.xpos = 0;
            self.parser = SixelParserState::Default;
        }
        let color = self.current_color();
        let ghost dc = self@;
        let six = self.current_sixel();
        six.paint(byte, color, &mut self.rgb);
        self.xpos = self.xpos.saturating_add(1);
        proof {
            assert(paint_run(dc.rgb, dc.xsize, dc.xpos, dc.ypos, byte, color, 0) == (
                dc.rgb,
                dc.xpos,
            ));
            lemma_paint_run_snoc(dc.rgb, dc.xsize, dc.xpos, dc.ypos, byte, color, 0);
        }
        if self.repeat > 1 {
            let mut i: usize = 1;
            while i < self.repeat
                invariant
                    1 <= i <= self.repeat,
                    0x3f <= byte <= 0x7e,
                    self.rgb@ == paint_run(
                        dc.rgb,
                        dc.xsize,
                        dc.xpos,
                        dc.ypos,
                        byte,
                        color,
                        i as nat,
                    ).0,
                    self.xpos == paint_run(
                        dc.rgb,
                        dc.xsize,
                        dc.xpos,
                        dc.ypos,
                        byte,
                        color,
                        i as nat,
                    ).1,
                    self.colors@ == dc.colors,
                    self.parser == dc.parser,
                    self.color == dc.color,
                    self.ypos == dc.ypos,
                    self.xsize == dc.xsize,
                    self.ysize == dc.ysize,
                    self.repeat == dc.repeat,
                decreases self.repeat - i,
            {
                let s = self.current_sixel();
                s.paint(byte, color, &mut self.rgb);
                self.xpos = self.xpos.saturating_add(1);
                proof {
                    lemma_paint_run_snoc(dc.rgb, dc.xsize, dc.xpos, dc.ypos, byte, color, i as nat);
                }
                i += 1;
            }
        }
        self.repeat = 0;
        self.parser = SixelParserState::Default;
    }

    /// Plain command dispatch on one byte.
    fn dispatch(&mut self, byte: u8)
        ensures
            final(self)@ == dispatch_spec(old(self)@, byte),
    {
        if byte == 0x22 {
            self.parser = SixelParserState::Header(HeaderParser::new());
        } else if byte == 0x23 {
            self.parser = SixelParserState::ColorParser(ColorParser::new());
        } else if byte == 0x21 {
            self.parser = SixelParserState::Repeat;
        } else if byte == 0x2d {
            self.xpos = 0;
            self.ypos = self.ypos.saturating_add(6);
        } else if byte == 0x24 {
            self.xpos = 0;
        } else if 0x3f <= byte && byte <= 0x7e {
            self.draw(byte);
        }
    }

    /// One dispatch step; the result tells whether a sub-parse ended and the
    /// byte must be dispatched once more.
    fn step(&mut self, byte: u8) -> (again: bool)
        ensures
            final(self)@ == step_spec(old(self)@, byte).0,
            again == step_spec(old(self)@, byte).1,
    {
        match self.parser {
            SixelParserState::ColorParser(mut cp) => {
                let outcome = cp.put(byte);
                match outcome {
                    ColorParserState::NewColor(r, g, b) => {
                        self.colors.push(Color::new(r, g, b));
                        self.parser = SixelParserState::Default;
                        true
                    },
                    ColorParserState::SetSlot(n) => {
                        self.color = n;
                        self.parser = SixelParserState::Default;
                        true
                    },
                    ColorParserState::Invalid => {
                        self.parser = SixelParserState::Default;
                        true
                    },
                    _ => {
                        self.parser = SixelParserState::ColorParser(cp);
                        false
                    },
                }
            },
            SixelParserState::Header(mut hp) => {
                hp.put(byte);
                match hp.state {
                    HeaderParserState::Done => {
                        self.xsize = hp.xsize;
                        self.ysize = hp.ysize;
                        let n = match self.xsize.checked_mul(self.ysize) {
                            Some(p) => match p.checked_mul(3) {
                                Some(q) => q,
                                None => usize::MAX,
                            },
                            None => usize::MAX,
                        };
                        proof {
                            if hp.xsize as int * hp.ysize as int > usize::MAX {
                                assert(hp.xsize as int * hp.ysize as int * 3 > usize::MAX)
                                    by (nonlinear_arith)
                                    requires
                                        hp.xsize as int * hp.ysize as int > usize::MAX,
                                ;
                            }
                        }
                        self.resize_rgb(n);
                        self.parser = SixelParserState::Default;
                        true
                    },
                    _ => {
                        self.parser = SixelParserState::Header(hp);
                        false
                    },
                }
            },
            SixelParserState::Repeat => {
                if 0x30 <= byte && byte <= 0x39 {
                    self.repeat = push_digit(self.repeat, byte);
                    false
                } else {
                    self.dispatch(byte);
                    false
                }
            },
            SixelParserState::Default => {
                self.dispatch(byte);
                false
            },
        }
    }

    /// Feed one byte to the decoder. A byte that ends a sub-parse is
    /// dispatched a second time, so one byte makes at most two dispatch
    /// steps; no byte is ever an error.
    pub fn put(&mut self, byte: u8)
        ensures
            final(self)@ == put_spec(old(self)@, byte),
    {
        let again = self.step(byte);
        if again {
            let _terminal = self.step(byte);
        }
    }
}

// ---------------------------------------------------------------------------
// Laws of the decoder
// ---------------------------------------------------------------------------

/// Painting a run never changes the buffer's length.
proof fn lemma_paint_run_len(
    rgb: Seq<u8>,
    xsize: usize,
    xpos: usize,
    ypos: usize,
    byte: u8,
    c: Color,
    n: nat,
)
    ensures
        paint_run(rgb, xsize, xpos, ypos, byte, c, n).0.len() == rgb.len(),
    decreases n,
{
    if n > 0 {
        let r1 = spec_paint(rgb, xsize as int, xpos as int, ypos as int, byte, c);
        lemma_paint_run_len(r1, xsize, xpos.saturating_add(1), ypos, byte, c, (n - 1) as nat);
    }
}

/// A run of `n` strips advances the cursor column by `n`, held to the
/// machine word.
proof fn lemma_paint_run_xpos(
    rgb: Seq<u8>,
    xsize: usize,
    xpos: usize,
    ypos: usize,
    byte: u8,
    c: Color,
    n: nat,
)
    ensures
        paint_run(rgb, xsize, xpos, ypos, byte, c, n).1 as int == if xpos + n <= usize::MAX {
            xpos + n
        } else {
            usize::MAX as int
        },
    decreases n,
{
    if n > 0 {
        let r1 = spec_paint(rgb, xsize as int, xpos as int, ypos as int, byte, c);
        lemma_paint_run_xpos(r1, xsize, xpos.saturating_add(1), ypos, byte, c, (n - 1) as nat);
    }
}

/// A decoder state is well formed when the pixel buffer holds exactly three
/// bytes per declared pixel, the allocation the header promised.
pub open spec fn decoder_wf(d: DecoderV) -> bool {
    d.rgb.len() == spec_buffer_len(d.xsize, d.ysize)
}

/// A fresh decoder is well formed.
pub proof fn lemma_init_wf()
    ensures
        decoder_wf(decoder_init()),
{
}

/// Law: every byte preserves well-formedness — once allocated by the header,
/// the buffer's length equals the declared extent times three at all times,
/// whatever the input.
pub proof fn lemma_put_preserves_wf(d: DecoderV, byte: u8)
    requires
        decoder_wf(d),
    ensures
        decoder_wf(put_spec(d, byte)),
{
    lemma_step_preserves_wf(d, byte);
    let s1 = step_spec(d, byte);
    if s1.1 {
        lemma_step_preserves_wf(s1.0, byte);
    }
}

/// One dispatch step preserves well-formedness.
proof fn lemma_step_preserves_wf(d: DecoderV, byte: u8)
    requires
        decoder_wf(d),
    ensures
        decoder_wf(step_spec(d, byte).0),
{
    match d.parser {
        SixelParserState::ColorParser(_) => {
        },
        SixelParserState::Header(_) => {
        },
        _ => {
            lemma_dispatch_preserves_wf(d, byte);
        },
    }
}

/// Plain dispatch preserves well-formedness; painting never resizes the
/// buffer.
proof fn lemma_dispatch_preserves_wf(d: DecoderV, byte: u8)
    requires
        decoder_wf(d),
    ensures
        decoder_wf(dispatch_spec(d, byte)),
{
    if 0x3f <= byte && byte <= 0x7e {
        let d0 = if d.xpos == d.xsize {
            DecoderV { xpos: 0, parser: SixelParserState::Default, ..d }
        } else {
            d
        };
        let colors1 = extend_colors(d0.colors, d0.color as int);
        let c = colors1[d0.color as int];
        let n = if d0.repeat > 1 {
            d0.repeat
        } else {
            1usize
        };
        lemma_paint_run_len(d0.rgb, d0.xsize, d0.xpos, d0.ypos, byte, c, n as nat);
    }
}

/// Law: re-dispatch is bounded. A step that ends a sub-parse leaves the
/// decoder in plain dispatch, and a plain dispatch step never asks for
/// another: one byte makes at most two dispatch steps, so the explicit
/// second step in [`SixelDecoder::put`] suffices and no recursion is needed.
pub proof fn lemma_redispatch_bounded(d: DecoderV, byte: u8)
    ensures
        step_spec(d, byte).1 ==> !step_spec(step_spec(d, byte).0, byte).1,
{
}

/// Law: a band-advance byte leaves the cursor at column 0 with the band top
/// moved down exactly 6 rows (held to the machine word), from every decoder
/// state: the byte first ends any open sub-parse, whose fallback transitions
/// are all terminal on it, and is then dispatched again.
pub proof fn lemma_band_advance(d: DecoderV)
    ensures
        put_spec(d, 0x2d).xpos == 0,
        put_spec(d, 0x2d).ypos == d.ypos.saturating_add(6),
{
}

/// Law: a same-band-return byte leaves the cursor at column 0 and the band
/// top untouched, from every decoder state.
pub proof fn lemma_same_band_return(d: DecoderV)
    ensures
        put_spec(d, 0x24).xpos == 0,
        put_spec(d, 0x24).ypos == d.ypos,
{
}

/// Law: a drawing byte consumes the repeat multiplier. From plain dispatch
/// or repeat accumulation, the decoder returns to `Default` with the
/// multiplier reset to 0 whatever its value was, and the cursor advanced by
/// one column per painted strip: `max(repeat, 1)` columns, from 0 when the
/// defensive clamp fired, held to the machine word.
pub proof fn lemma_repeat_consumed(d: DecoderV, byte: u8)
    requires
        0x3f <= byte <= 0x7e,
        d.parser == SixelParserState::Default || d.parser == SixelParserState::Repeat,
    ensures
        put_spec(d, byte).repeat == 0,
        put_spec(d, byte).parser == SixelParserState::Default,
        ({
            let x0: int = if d.xpos == d.xsize {
                0
            } else {
                d.xpos as int
            };
            let n: int = if d.repeat > 1 {
                d.repeat as int
            } else {
                1
            };
            put_spec(d, byte).xpos as int == if x0 + n <= usize::MAX {
                x0 + n
            } else {
                usize::MAX as int
            }
        }),
{
    let d0 = if d.xpos == d.xsize {
        DecoderV { xpos: 0, parser: SixelParserState::Default, ..d }
    } else {
        d
    };
    let colors1 = extend_colors(d0.colors, d0.color as int);
    let c = colors1[d0.color as int];
    let n = if d0.repeat > 1 {
        d0.repeat
    } else {
        1usize
    };
    lemma_paint_run_xpos(d0.rgb, d0.xsize, d0.xpos, d0.ypos, byte, c, n as nat);
}

} // verus!
