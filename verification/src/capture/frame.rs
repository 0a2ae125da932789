//! Turning one mapped readback into the bytes that a consumer receives.
use crate::capture::format::{align_copy_bytes_per_row, TextureFormat};
use vstd::prelude::*;

verus! {

/// What a captured frame holds per pixel.
#[derive(Clone, Copy, Debug, PartialEq, Eq, Structural)]
pub enum CapturedFrameKind {
    Rgb8,
    Depth32F,
    R32Uint,
}

/// Byte order of a 4-byte color texel as it sits in the readback buffer.
#[derive(Clone, Copy, Debug, PartialEq, Eq, Structural)]
pub enum ColorOrder {
    Rgba,
    Bgra,
}

/// How mapped readback bytes become the bytes handlers receive.
#[derive(Clone, Copy, Debug, PartialEq, Eq, Structural)]
pub enum FrameEncoding {
    /// 4-byte color texels packed down to tight RGB triples.
    Rgb8 { source: ColorOrder },
    /// Rows passed through verbatim, minus the row padding that the copy requires.
    Raw,
}

/// Everything needed to turn one mapped readback into a frame, resolved once per frame instead of
/// per pixel. Constructing one is also the check that a texture format can produce the requested
/// frame kind at all.
#[derive(Clone, Copy, Debug, PartialEq, Eq, Structural)]
pub struct FrameLayout {
    pub encoding: FrameEncoding,
    /// Meaningful bytes per source row, ignoring copy alignment padding.
    pub row_bytes: usize,
    pub padded_row_bytes: usize,
    pub output_row_bytes: usize,
    pub height: u32,
}

/// Where in a texel the output channel `channel` (red, green, blue) sits.
pub open spec fn texel_channel(order: ColorOrder, channel: int) -> int {
    match order {
        ColorOrder::Rgba => channel,
        ColorOrder::Bgra => 2 - channel,
    }
}

/// The byte order of the texels of `format`, where they can be packed to RGB.
pub open spec fn color_order(format: TextureFormat) -> Option<ColorOrder> {
    match format {
        TextureFormat::Rgba8UnormSrgb | TextureFormat::Rgba8Unorm => Some(ColorOrder::Rgba),
        TextureFormat::Bgra8UnormSrgb | TextureFormat::Bgra8Unorm => Some(ColorOrder::Bgra),
        _ => None,
    }
}

/// The layout of a `width` by `height` frame of the given kind, if the format can produce one.
pub open spec fn frame_layout(
    kind: CapturedFrameKind,
    format: TextureFormat,
    width: u32,
    height: u32,
) -> Option<FrameLayout> {
    let row_bytes = width * format.copy_size_spec()->0;
    let padded = crate::capture::format::aligned_row(row_bytes);
    match kind {
        CapturedFrameKind::Rgb8 => match color_order(format) {
            Some(source) => Some(
                FrameLayout {
                    encoding: FrameEncoding::Rgb8 { source },
                    row_bytes: row_bytes as usize,
                    padded_row_bytes: padded as usize,
                    output_row_bytes: (width * 3) as usize,
                    height,
                },
            ),
            None => None,
        },
        CapturedFrameKind::Depth32F | CapturedFrameKind::R32Uint => Some(
            FrameLayout {
                encoding: FrameEncoding::Raw,
                row_bytes: row_bytes as usize,
                padded_row_bytes: padded as usize,
                output_row_bytes: row_bytes as usize,
                height,
            },
        ),
    }
}

impl FrameLayout {
    /// The position in the mapped range that byte `k` of the frame comes from. There is none for a
    /// byte outside the whole rows of the output, below the last row of the layout, or past the
    /// end of the mapped range.
    pub open spec fn source_index(self, mapped_len: int, out_len: int, k: int) -> Option<int> {
        let row = k / (self.output_row_bytes as int);
        let column = k % (self.output_row_bytes as int);
        let start = row * self.padded_row_bytes;
        if row >= self.height || (row + 1) * self.output_row_bytes > out_len {
            None
        } else {
            match self.encoding {
                FrameEncoding::Raw => if column < self.row_bytes && column < self.padded_row_bytes
                    && start + column < mapped_len {
                    Some(start + column)
                } else {
                    None
                },
                FrameEncoding::Rgb8 { source } => {
                    let texel = column / 3;
                    if 4 * texel + 4 <= self.row_bytes && 4 * texel + 4 <= self.padded_row_bytes
                        && start + 4 * texel + 4 <= mapped_len && 3 * texel + 3
                        <= self.output_row_bytes {
                        Some(start + 4 * texel + texel_channel(source, column % 3))
                    } else {
                        None
                    }
                },
            }
        }
    }

    /// Byte `k` of an output of which `before` was the content.
    pub open spec fn output_byte(self, mapped: Seq<u8>, before: Seq<u8>, k: int) -> u8 {
        match self.source_index(mapped.len() as int, before.len() as int, k) {
            Some(i) => mapped[i],
            None => before[k],
        }
    }

    /// Resolves the layout of a frame. `None` means that the format cannot produce the kind.
    pub fn new(kind: CapturedFrameKind, format: TextureFormat, width: u32, height: u32) -> (r: Option<
        Self,
    >)
        requires
            format.copy_size_spec() is Some,
            width * format.copy_size_spec()->0 + 255 <= usize::MAX,
        ensures
            r == frame_layout(kind, format, width, height),
            r is None <==> kind is Rgb8 && color_order(format) is None,
    {
        let pixel_size: usize = format.pixel_size();
        proof {
            assert(width * pixel_size >= width * 1) by (nonlinear_arith)
                requires
                    pixel_size >= 1,
            ;
        }
        let row_bytes: usize = width as usize * pixel_size;
        let padded_row_bytes: usize = align_copy_bytes_per_row(row_bytes);
        match kind {
            CapturedFrameKind::Rgb8 => {
                let source: ColorOrder = match format {
                    TextureFormat::Rgba8UnormSrgb | TextureFormat::Rgba8Unorm => ColorOrder::Rgba,
                    TextureFormat::Bgra8UnormSrgb | TextureFormat::Bgra8Unorm => ColorOrder::Bgra,
                    _ => return None,
                };
                Some(
                    FrameLayout {
                        encoding: FrameEncoding::Rgb8 { source },
                        row_bytes,
                        padded_row_bytes,
                        output_row_bytes: width as usize * 3,
                        height,
                    },
                )
            },
            CapturedFrameKind::Depth32F | CapturedFrameKind::R32Uint => Some(
                FrameLayout {
                    encoding: FrameEncoding::Raw,
                    row_bytes,
                    padded_row_bytes,
                    output_row_bytes: row_bytes,
                    height,
                },
            ),
        }
    }

    /// The length of a frame in bytes.
    pub fn output_len(&self) -> (r: usize)
        requires
            self.output_row_bytes * self.height <= usize::MAX,
        ensures
            r == self.output_row_bytes * self.height,
    {
        self.output_row_bytes * self.height as usize
    }

    /// Writes straight from the mapped range into `out`, which is [`Self::output_len`] long for a
    /// whole frame. The encoding is matched per row, never per pixel.
    pub fn write(&self, mapped: &[u8], out: &mut [u8])
        requires
            self.padded_row_bytes > 0,
            self.output_row_bytes > 0,
        ensures
            final(out)@.len() == old(out)@.len(),
            forall|k: int|
                0 <= k < old(out)@.len() ==> #[trigger] final(out)@[k] == self.output_byte(
                    mapped@,
                    old(out)@,
                    k,
                ),
    {
        let ghost before = out@;
        let total: usize = out.len();
        let mut row: u32 = 0;
        let mut start: usize = 0;
        let mut out_start: usize = 0;
        proof {
            assert(0 * self.padded_row_bytes == 0);
        }
        while row < self.height && start < mapped.len() && total - out_start
            >= self.output_row_bytes
            invariant
                self.padded_row_bytes > 0,
                self.output_row_bytes > 0,
                row <= self.height,
                total == out@.len() == before.len(),
                out_start == row * self.output_row_bytes,
                out_start <= total,
                start == row * self.padded_row_bytes || (start == mapped@.len() && row
                    * self.padded_row_bytes >= mapped@.len()),
                forall|k: int|
                    0 <= k < out_start ==> #[trigger] out@[k] == self.output_byte(
                        mapped@,
                        before,
                        k,
                    ),
                forall|k: int| out_start <= k < total ==> #[trigger] out@[k] == before[k],
            decreases self.height - row,
        {
            let ghost previous = out@;
            let available: usize = mapped.len() - start;
            let mut row_len: usize = if available < self.padded_row_bytes {
                available
            } else {
                self.padded_row_bytes
            };
            if self.row_bytes < row_len {
                row_len = self.row_bytes;
            }
            match self.encoding {
                FrameEncoding::Raw => {
                    let len: usize = if row_len < self.output_row_bytes {
                        row_len
                    } else {
                        self.output_row_bytes
                    };
                    copy_bytes(mapped, start, len, out, out_start);
                },
                FrameEncoding::Rgb8 { source } => {
                    let texels: usize = if row_len / 4 < self.output_row_bytes / 3 {
                        row_len / 4
                    } else {
                        self.output_row_bytes / 3
                    };
                    pack_texels(mapped, start, texels, source, out, out_start);
                },
            }
            let ghost width = self.output_row_bytes as int;
            let ghost r = row as int;
            proof {
                assert((r + 1) * width == r * width + width) by (nonlinear_arith);
                assert((r + 1) * self.padded_row_bytes == r * self.padded_row_bytes
                    + self.padded_row_bytes) by (nonlinear_arith);
                assert forall|k: int| out_start <= k < out_start + width implies #[trigger] out@[k]
                    == self.output_byte(mapped@, before, k) by {
                    let c = k - out_start;
                    lemma_row_of(k, width, r, c);
                    assert(previous[k] == before[k]);
                    match self.encoding {
                        FrameEncoding::Raw => {},
                        FrameEncoding::Rgb8 { source } => {
                            let texel = c / 3;
                            assert((c < 3 * (row_len / 4) && c < 3 * (self.output_row_bytes / 3))
                                <==> (4 * texel + 4 <= row_len && 3 * texel + 3 <= width));
                        },
                    }
                }
                assert forall|k: int| 0 <= k < out_start implies #[trigger] out@[k]
                    == self.output_byte(mapped@, before, k) by {
                    assert(previous[k] == self.output_byte(mapped@, before, k));
                }
                assert forall|k: int| out_start + width <= k < total implies #[trigger] out@[k]
                    == before[k] by {
                    assert(previous[k] == before[k]);
                }
            }
            start = if available < self.padded_row_bytes {
                mapped.len()
            } else {
                start + self.padded_row_bytes
            };
            out_start = out_start + self.output_row_bytes;
            row = row + 1;
        }
        proof {
            let width = self.output_row_bytes as int;
            assert forall|k: int| out_start <= k < total implies #[trigger] out@[k]
                == self.output_byte(mapped@, before, k) by {
                let q = k / width;
                lemma_row_reached(k, width, row as int);
                assert(q * self.padded_row_bytes >= row * self.padded_row_bytes)
                    by (nonlinear_arith)
                    requires
                        q >= row,
                        self.padded_row_bytes >= 0,
                ;
                assert((q + 1) * width >= (row + 1) * width) by (nonlinear_arith)
                    requires
                        q >= row,
                        width >= 0,
                ;
                assert((row + 1) * width == row * width + width) by (nonlinear_arith);
                assert(out@[k] == before[k]);
            }
        }
    }
}

/// Division by the row width finds row and column again.
proof fn lemma_row_of(k: int, width: int, row: int, column: int)
    requires
        width > 0,
        k == row * width + column,
        0 <= column < width,
    ensures
        k / width == row,
        k % width == column,
{
    vstd::arithmetic::div_mod::lemma_fundamental_div_mod_converse(k, width, row, column);
}

/// A byte at or past the start of a row belongs to that row or a later one.
proof fn lemma_row_reached(k: int, width: int, row: int)
    requires
        width > 0,
        row >= 0,
        k >= row * width,
    ensures
        k / width >= row,
        0 <= k % width < width,
{
    vstd::arithmetic::div_mod::lemma_div_is_ordered(row * width, k, width);
    vstd::arithmetic::div_mod::lemma_div_by_multiple(row, width);
    vstd::arithmetic::div_mod::lemma_mod_bound(k, width);
}

/// Every byte of a whole frame is written when the mapped range holds all of the padded rows, and
/// none of them is row padding or, in a color frame, an alpha byte.
pub proof fn law_whole_frame_without_padding_or_alpha(
    kind: CapturedFrameKind,
    format: TextureFormat,
    width: u32,
    height: u32,
    mapped_len: int,
    k: int,
)
    requires
        width > 0,
        format.copy_size_spec() is Some,
        width * format.copy_size_spec()->0 + 255 <= usize::MAX,
        frame_layout(kind, format, width, height) is Some,
        mapped_len >= frame_layout(kind, format, width, height)->0.padded_row_bytes * height,
        0 <= k < frame_layout(kind, format, width, height)->0.output_row_bytes * height,
    ensures
        ({
            let layout = frame_layout(kind, format, width, height)->0;
            let out_len = layout.output_row_bytes * height;
            let source = layout.source_index(mapped_len, out_len, k);
            &&& source is Some
            &&& 0 <= source->0 < mapped_len
            &&& source->0 % (layout.padded_row_bytes as int) < layout.row_bytes
            &&& layout.encoding is Rgb8 ==> (source->0 % (layout.padded_row_bytes as int)) % 4 != 3
        }),
{
    let layout = frame_layout(kind, format, width, height)->0;
    let size = format.copy_size_spec()->0 as int;
    assert(width * size >= width) by (nonlinear_arith)
        requires
            size >= 1,
            width > 0,
    ;
    let wide = layout.output_row_bytes as int;
    let padded = layout.padded_row_bytes as int;
    let out_len = wide * height;
    let row = k / wide;
    let column = k % wide;
    vstd::arithmetic::div_mod::lemma_multiply_divide_lt(k, wide, height as int);
    vstd::arithmetic::div_mod::lemma_div_pos_is_pos(k, wide);
    vstd::arithmetic::div_mod::lemma_mod_bound(k, wide);
    assert((row + 1) * wide <= out_len) by (nonlinear_arith)
        requires
            row + 1 <= height,
            wide > 0,
            out_len == wide * height,
    ;
    assert((row + 1) * padded <= padded * height) by (nonlinear_arith)
        requires
            row + 1 <= height,
            padded > 0,
    ;
    assert((row + 1) * padded == row * padded + padded) by (nonlinear_arith);
    assert(row * padded >= 0) by (nonlinear_arith)
        requires
            row >= 0,
            padded >= 0,
    ;
    let source = layout.source_index(mapped_len, out_len, k)->0;
    lemma_row_of(source, padded, row, source - row * padded);
}

/// A color frame holds red, green and blue of each texel in that order, whatever order the texture
/// has them in: byte `c` of texel `x` of row `y` comes from byte `c` of that texel where the texture
/// stores red first, and from byte `2 - c` where it stores blue first. Rows of the mapped range start
/// at multiples of 256 bytes. A texel that is not mapped, and a row that has no room, stays as it was.
pub proof fn law_color_channels_by_format(
    format: TextureFormat,
    width: u32,
    height: u32,
    mapped: Seq<u8>,
    before: Seq<u8>,
    y: int,
    x: int,
    c: int,
)
    requires
        format == TextureFormat::Rgba8Unorm || format == TextureFormat::Rgba8UnormSrgb || format
            == TextureFormat::Bgra8Unorm || format == TextureFormat::Bgra8UnormSrgb,
        4 * width + 255 <= usize::MAX,
        0 <= y < height,
        0 <= x < width,
        0 <= c < 3,
    ensures
        ({
            let layout = frame_layout(CapturedFrameKind::Rgb8, format, width, height);
            let k = y * (3 * width) + 3 * x + c;
            let byte = layout->0.output_byte(mapped, before, k);
            let texel = y * ((4 * width + 255) / 256 * 256) + 4 * x;
            let there = texel + 4 <= mapped.len() && (y + 1) * (3 * width) <= before.len();
            &&& layout is Some
            &&& there && format == TextureFormat::Rgba8Unorm ==> byte == mapped[texel + c]
            &&& there && format == TextureFormat::Rgba8UnormSrgb ==> byte == mapped[texel + c]
            &&& there && format == TextureFormat::Bgra8Unorm ==> byte == mapped[texel + 2 - c]
            &&& there && format == TextureFormat::Bgra8UnormSrgb ==> byte == mapped[texel + 2 - c]
            &&& !there ==> byte == before[k]
            &&& mapped.len() >= (4 * width + 255) / 256 * 256 * height && before.len() == 3 * width
                * height ==> there
        }),
{
    let layout = frame_layout(CapturedFrameKind::Rgb8, format, width, height)->0;
    let wide = 3 * width;
    let padded = (4 * width + 255) / 256 * 256;
    let k = y * wide + 3 * x + c;
    assert(width * 4 == 4 * width);
    assert(layout.output_row_bytes == wide);
    assert(layout.padded_row_bytes == padded);
    lemma_row_of(k, wide, y, 3 * x + c);
    lemma_row_inside(y, height as int, wide);
    lemma_row_inside(y, height as int, padded);
    assert((y + 1) * padded == y * padded + padded) by (nonlinear_arith);
}

/// A row below `height` ends no later than `height` rows do.
proof fn lemma_row_inside(row: int, height: int, wide: int)
    requires
        0 <= row < height,
        0 <= wide,
    ensures
        (row + 1) * wide <= wide * height,
        0 <= row * wide,
{
    assert((row + 1) * wide <= wide * height && 0 <= row * wide) by (nonlinear_arith)
        requires
            0 <= row < height,
            0 <= wide,
    ;
}

/// A depth or segmentation frame holds the bytes of each texture row as they are, one row after the
/// other, without what pads the rows of the mapped range to multiples of 256 bytes. A byte that is
/// not mapped, and a row that has no room, stays as it was.
pub proof fn law_raw_rows_are_kept(
    kind: CapturedFrameKind,
    format: TextureFormat,
    size: u32,
    width: u32,
    height: u32,
    mapped: Seq<u8>,
    before: Seq<u8>,
    y: int,
    column: int,
)
    requires
        kind is Depth32F || kind is R32Uint,
        format.copy_size_spec() == Some(size),
        width * size + 255 <= usize::MAX,
        0 <= y < height,
        0 <= column < width * size,
    ensures
        ({
            let layout = frame_layout(kind, format, width, height);
            let wide = width * size;
            let k = y * wide + column;
            let source = y * ((wide + 255) / 256 * 256) + column;
            let there = source < mapped.len() && (y + 1) * wide <= before.len();
            &&& layout is Some
            &&& layout->0.output_byte(mapped, before, k) == (if there {
                mapped[source]
            } else {
                before[k]
            })
            &&& mapped.len() >= (wide + 255) / 256 * 256 * height && before.len() == wide * height
                ==> there
        }),
{
    let wide = width * size;
    let padded = (wide + 255) / 256 * 256;
    lemma_row_of(y * wide + column, wide, y, column);
    lemma_row_inside(y, height as int, wide);
    lemma_row_inside(y, height as int, padded);
    assert((y + 1) * padded == y * padded + padded) by (nonlinear_arith);
}

/// Color frames come from the four formats that store eight bits of red, green, blue and alpha, and
/// from no other; frames of the other kinds from every format.
pub proof fn law_formats_of_color_frames(
    kind: CapturedFrameKind,
    format: TextureFormat,
    width: u32,
    height: u32,
)
    ensures
        frame_layout(kind, format, width, height) is Some <==> kind is Depth32F || kind is R32Uint
            || format == TextureFormat::Rgba8Unorm || format == TextureFormat::Rgba8UnormSrgb
            || format == TextureFormat::Bgra8Unorm || format == TextureFormat::Bgra8UnormSrgb,
{
}

/// What lies below the last row stays as it was.
pub proof fn law_nothing_is_written_below_the_frame(
    kind: CapturedFrameKind,
    format: TextureFormat,
    width: u32,
    height: u32,
    mapped: Seq<u8>,
    before: Seq<u8>,
    k: int,
)
    requires
        width > 0,
        format.copy_size_spec() is Some,
        width * format.copy_size_spec()->0 + 255 <= usize::MAX,
        frame_layout(kind, format, width, height) is Some,
        kind is Rgb8 ==> k >= width * 3 * height,
        kind !is Rgb8 ==> k >= width * format.copy_size_spec()->0 * height,
    ensures
        frame_layout(kind, format, width, height)->0.output_byte(mapped, before, k) == before[k],
{
    let layout = frame_layout(kind, format, width, height)->0;
    let wide = layout.output_row_bytes as int;
    let size = format.copy_size_spec()->0 as int;
    assert(width * size >= width) by (nonlinear_arith)
        requires
            size >= 1,
            width > 0,
    ;
    assert(wide * height == height * wide) by (nonlinear_arith);
    lemma_row_reached(k, wide, height as int);
}

/// Copies `len` bytes from one place to another.
pub fn copy_bytes(src: &[u8], src_start: usize, len: usize, out: &mut [u8], out_start: usize)
    requires
        src_start + len <= src@.len(),
        out_start + len <= old(out)@.len(),
    ensures
        final(out)@.len() == old(out)@.len(),
        forall|k: int|
            0 <= k < old(out)@.len() ==> #[trigger] final(out)@[k] == (if out_start <= k
                < out_start + len {
                src@[src_start + (k - out_start)]
            } else {
                old(out)@[k]
            }),
{
    let ghost before = out@;
    let total: usize = out.len();
    let mut i: usize = 0;
    while i < len
        invariant
            i <= len,
            src_start + len <= src.len(),
            out_start + len <= total,
            total == out@.len() == before.len(),
            forall|k: int|
                0 <= k < out@.len() ==> #[trigger] out@[k] == (if out_start <= k < out_start + i {
                    src@[src_start + (k - out_start)]
                } else {
                    before[k]
                }),
        decreases len - i,
    {
        out[out_start + i] = src[src_start + i];
        i = i + 1;
    }
}

/// Packs 4-byte texels down to RGB triples.
fn pack_texels(
    src: &[u8],
    src_start: usize,
    texels: usize,
    order: ColorOrder,
    out: &mut [u8],
    out_start: usize,
)
    requires
        src_start + 4 * texels <= src@.len(),
        out_start + 3 * texels <= old(out)@.len(),
    ensures
        final(out)@.len() == old(out)@.len(),
        forall|k: int|
            0 <= k < old(out)@.len() ==> #[trigger] final(out)@[k] == (if out_start <= k
                < out_start + 3 * texels {
                src@[src_start + 4 * ((k - out_start) / 3) + texel_channel(
                    order,
                    (k - out_start) % 3,
                )]
            } else {
                old(out)@[k]
            }),
{
    let ghost before = out@;
    let total: usize = out.len();
    let mut i: usize = 0;
    while i < texels
        invariant
            i <= texels,
            src_start + 4 * texels <= src.len(),
            out_start + 3 * texels <= total,
            total == out@.len() == before.len(),
            forall|k: int|
                0 <= k < out@.len() ==> #[trigger] out@[k] == (if out_start <= k < out_start + 3
                    * i {
                    src@[src_start + 4 * ((k - out_start) / 3) + texel_channel(
                        order,
                        (k - out_start) % 3,
                    )]
                } else {
                    before[k]
                }),
        decreases texels - i,
    {
        let from: usize = src_start + 4 * i;
        let to: usize = out_start + 3 * i;
        let (red, green, blue): (u8, u8, u8) = match order {
            ColorOrder::Rgba => (src[from], src[from + 1], src[from + 2]),
            ColorOrder::Bgra => (src[from + 2], src[from + 1], src[from]),
        };
        out[to] = red;
        out[to + 1] = green;
        out[to + 2] = blue;
        i = i + 1;
    }
}

} // verus!
