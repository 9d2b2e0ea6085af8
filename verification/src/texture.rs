//! The colourful test pattern that is laid on the debug sphere.

use vstd::prelude::*;
use vstd::arithmetic::div_mod::{
    lemma_mod_add_multiples_vanish, lemma_mod_bound, lemma_mod_twice, lemma_small_mod,
    lemma_sub_mod_noop,
};

verus! {

/// Texels along each side of the debug texture.
pub const TEXTURE_SIZE: usize = 8;

/// Bytes in one texel (RGBA, 8 bits per channel).
pub const BYTES_PER_TEXEL: usize = 4;

/// Bytes in one row of the debug texture, which is also the palette's length.
pub const ROW_BYTES: usize = 32;

/// Bytes in the whole debug texture.
pub const TEXTURE_BYTES: usize = 256;

/// The eight RGBA colours of the first row of the pattern.
#[verifier::opaque]
pub open spec fn spec_palette() -> Seq<u8> {
    seq![
        255u8, 102, 159, 255, 255, 159, 102, 255, 236, 255, 102, 255, 121, 255, 102, 255, 102,
        255, 198, 255, 102, 198, 255, 255, 121, 102, 255, 255, 236, 102, 255, 255,
    ]
}

/// `s` rotated right by `k` places: the element at `i` comes from `(i - k) mod len`.
pub open spec fn rotated_right(s: Seq<u8>, k: int) -> Seq<u8> {
    Seq::new(s.len(), |i: int| s[(i - k) % (s.len() as int)])
}

/// Byte `i` of row `y` of the pattern: the palette rotated right by one texel per row.
pub open spec fn spec_texture_byte(y: int, i: int) -> u8 {
    spec_palette()[(i - BYTES_PER_TEXEL * y) % (ROW_BYTES as int)]
}

/// The whole pattern, row after row.
pub open spec fn spec_texture_data() -> Seq<u8> {
    Seq::new(
        TEXTURE_BYTES as nat,
        |j: int| spec_texture_byte(j / (ROW_BYTES as int), j % (ROW_BYTES as int)),
    )
}

/// How many dimensions an image has.
#[derive(Debug, Clone, Copy, PartialEq, Eq, Structural)]
pub enum ImageDimension {
    D1,
    D2,
    D3,
}

/// How the bytes of a texel are read.
#[derive(Debug, Clone, Copy, PartialEq, Eq, Structural)]
pub enum TexelFormat {
    /// Red, green, blue, alpha, 8 bits each, linear.
    Rgba8Unorm,
    /// Red, green, blue, alpha, 8 bits each, colour channels in sRGB.
    Rgba8UnormSrgb,
}

/// The debug texture: its size, dimension, texel format and bytes.
pub struct DebugTexture {
    pub width: u32,
    pub height: u32,
    pub depth_or_array_layers: u32,
    pub dimension: ImageDimension,
    pub format: TexelFormat,
    pub data: Vec<u8>,
}

/// The palette of the first row.
pub fn debug_palette() -> (p: Vec<u8>)
    ensures
        p@ == spec_palette(),
{
    let p: Vec<u8> = vec![
        255, 102, 159, 255, 255, 159, 102, 255, 236, 255, 102, 255, 121, 255, 102, 255, 102,
        255, 198, 255, 102, 198, 255, 255, 121, 102, 255, 255, 236, 102, 255, 255,
    ];
    reveal(spec_palette);
    assert(p@ =~= spec_palette());
    p
}

/// Rotates `v` right by `k` places, as a slice's `rotate_right` does.
pub fn rotate_right(v: &mut Vec<u8>, k: usize)
    requires
        k <= old(v).len(),
    ensures
        final(v)@ == rotated_right(old(v)@, k as int),
{
    let n = v.len();
    let mut out: Vec<u8> = Vec::new();
    for i in 0..n
        invariant
            n == v.len(),
            k <= n,
            out@.len() == i,
            forall|j: int| 0 <= j < i ==> #[trigger] out@[j] == v@[(j - k) % (n as int)],
    {
        let src = if i >= k { i - k } else { n - (k - i) };
        proof {
            if i >= k {
                lemma_small_mod((i - k) as nat, n as nat);
            } else {
                lemma_small_mod((i + n - k) as nat, n as nat);
                lemma_mod_add_multiples_vanish(i - k, n as int);
            }
        }
        out.push(v[src]);
    }
    assert(out@ =~= rotated_right(v@, k as int));
    *v = out;
}

/// The palette holds one row of the pattern.
pub proof fn lemma_palette_len()
    ensures
        spec_palette().len() == ROW_BYTES,
{
    reveal(spec_palette);
}

/// Rotating by nothing leaves a sequence as it is.
pub proof fn lemma_rotate_zero(s: Seq<u8>)
    requires
        s.len() > 0,
    ensures
        rotated_right(s, 0) == s,
{
    assert forall|i: int| 0 <= i < s.len() implies #[trigger] rotated_right(s, 0)[i] == s[i] by {
        lemma_small_mod(i as nat, s.len());
    }
    assert(rotated_right(s, 0) =~= s);
}

/// Two rotations in a row make one rotation by the sum.
pub proof fn lemma_rotate_compose(s: Seq<u8>, a: int, b: int)
    requires
        s.len() > 0,
    ensures
        rotated_right(rotated_right(s, a), b) == rotated_right(s, a + b),
{
    let n = s.len() as int;
    assert forall|i: int| 0 <= i < n implies #[trigger] rotated_right(rotated_right(s, a), b)[i]
        == rotated_right(s, a + b)[i] by {
        let x = i - b;
        lemma_mod_bound(x, n);
        lemma_sub_mod_noop(x % n, a, n);
        lemma_sub_mod_noop(x, a, n);
        lemma_mod_twice(x, n);
        assert(x - a == i - (a + b));
    }
    assert(rotated_right(rotated_right(s, a), b) =~= rotated_right(s, a + b));
}

/// The bytes of the test pattern: row `y` is the palette rotated right by `y` texels.
pub fn uv_debug_texture_data() -> (data: Vec<u8>)
    ensures
        data@ == spec_texture_data(),
{
    let mut palette = debug_palette();
    let mut data: Vec<u8> = Vec::new();
    proof {
        lemma_palette_len();
        lemma_rotate_zero(spec_palette());
    }
    for y in 0..TEXTURE_SIZE
        invariant
            palette@ == rotated_right(spec_palette(), BYTES_PER_TEXEL * y),
            data@.len() == ROW_BYTES * y,
            forall|j: int| 0 <= j < ROW_BYTES * y ==> #[trigger] data@[j] == spec_texture_data()[j],
    {
        proof {
            lemma_palette_len();
        }
        for i in 0..ROW_BYTES
            invariant
                0 <= y < 8,
                palette@.len() == ROW_BYTES,
                palette@ == rotated_right(spec_palette(), BYTES_PER_TEXEL * y),
                data@.len() == ROW_BYTES * y + i,
                forall|j: int|
                    0 <= j < ROW_BYTES * y + i ==> #[trigger] data@[j] == spec_texture_data()[j],
        {
            proof {
                let j = 32 * y + i;
                assert(j / 32 == y && j % 32 == i);
                assert(spec_texture_data()[j] == palette@[i as int]);
            }
            data.push(palette[i]);
        }
        rotate_right(&mut palette, BYTES_PER_TEXEL);
        proof {
            lemma_rotate_compose(spec_palette(), BYTES_PER_TEXEL * y, BYTES_PER_TEXEL as int);
        }
    }
    assert(data@ =~= spec_texture_data());
    data
}

/// The debug texture: a 2D image of 8 by 8 RGBA8 sRGB texels, one layer,
/// holding the test pattern.
pub fn uv_debug_texture() -> (t: DebugTexture)
    ensures
        t.width == TEXTURE_SIZE,
        t.height == TEXTURE_SIZE,
        t.depth_or_array_layers == 1,
        t.dimension == ImageDimension::D2,
        t.format == TexelFormat::Rgba8UnormSrgb,
        t.data@ == spec_texture_data(),
        t.data@.len() == t.width * t.height * BYTES_PER_TEXEL,
{
    let data = uv_debug_texture_data();
    DebugTexture {
        width: 8,
        height: 8,
        depth_or_array_layers: 1,
        dimension: ImageDimension::D2,
        format: TexelFormat::Rgba8UnormSrgb,
        data,
    }
}

/// Every texel of the pattern is fully opaque: its alpha byte is 255.
pub proof fn lemma_texture_opaque()
    ensures
        forall|t: int|
            0 <= t < (TEXTURE_SIZE * TEXTURE_SIZE) as int ==> #[trigger] spec_texture_data()[
                BYTES_PER_TEXEL * t + 3] == 255u8,
{
    assert forall|t: int| 0 <= t < 64 implies #[trigger] spec_texture_data()[4 * t + 3]
        == 255u8 by {
        let j = 4 * t + 3;
        let y = j / 32;
        let i = j % 32;
        let k = (i - 4 * y) % 32;
        assert(i % 4 == 3);
        assert(k % 4 == 3 && 0 <= k < 32);
        reveal(spec_palette);
        assert(spec_palette()[k] == 255u8);
    }
}

/// The first row of the pattern is the palette.
pub proof fn lemma_texture_first_row()
    ensures
        forall|i: int| 0 <= i < ROW_BYTES ==> #[trigger] spec_texture_data()[i] == spec_palette()[i],
{
    assert forall|i: int| 0 <= i < 32 implies #[trigger] spec_texture_data()[i]
        == spec_palette()[i] by {
        assert(i / 32 == 0 && i % 32 == i);
        assert((i - 0) % 32 == i);
    }
}

/// Each row of the pattern is the row above it rotated right by one texel.
pub proof fn lemma_texture_rows_rotate()
    ensures
        forall|y: int, i: int|
            1 <= y < TEXTURE_SIZE && 0 <= i < ROW_BYTES ==> #[trigger] spec_texture_data()[
                ROW_BYTES * y + i] == spec_texture_data()[ROW_BYTES * (y - 1) + (i
                - BYTES_PER_TEXEL) % (ROW_BYTES as int)],
{
    assert forall|y: int, i: int| 1 <= y < 8 && 0 <= i < 32 implies #[trigger] spec_texture_data()[
        32 * y + i] == spec_texture_data()[32 * (y - 1) + (i - 4) % 32] by {
        let j1 = 32 * y + i;
        let i2 = (i - 4) % 32;
        let j2 = 32 * (y - 1) + i2;
        assert(0 <= i2 < 32);
        assert(j1 / 32 == y && j1 % 32 == i);
        assert(j2 / 32 == y - 1 && j2 % 32 == i2);
        assert((i2 - 4 * (y - 1)) % 32 == (i - 4 * y) % 32);
    }
}

} // verus!
