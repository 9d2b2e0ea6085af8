use multiplayer_fps::texture::{
    debug_palette, rotate_right, ImageDimension, TexelFormat, uv_debug_texture, uv_debug_texture_data, BYTES_PER_TEXEL,
    ROW_BYTES, TEXTURE_BYTES, TEXTURE_SIZE,
};

const PALETTE: [u8; 32] = [
    255, 102, 159, 255, 255, 159, 102, 255, 236, 255, 102, 255, 121, 255, 102, 255, 102, 255,
    198, 255, 102, 198, 255, 255, 121, 102, 255, 255, 236, 102, 255, 255,
];

#[test]
fn palette_is_the_first_row_colours() {
    assert_eq!(debug_palette(), PALETTE.to_vec());
}

#[test]
fn rotate_right_matches_slice_rotation() {
    let mut v = vec![1u8, 2, 3, 4, 5];
    rotate_right(&mut v, 2);
    assert_eq!(v, vec![4, 5, 1, 2, 3]);
    let mut w = vec![1u8, 2, 3];
    rotate_right(&mut w, 0);
    assert_eq!(w, vec![1, 2, 3]);
    rotate_right(&mut w, 3);
    assert_eq!(w, vec![1, 2, 3]);
    let mut e: Vec<u8> = vec![];
    rotate_right(&mut e, 0);
    assert!(e.is_empty());
    let mut p = PALETTE.to_vec();
    let mut q = PALETTE.to_vec();
    rotate_right(&mut p, 4);
    q.rotate_right(4);
    assert_eq!(p, q);
}

fn reference_texture() -> Vec<u8> {
    let mut palette = PALETTE;
    let mut data = vec![0u8; 256];
    for y in 0..8 {
        let offset = 8 * y * 4;
        data[offset..offset + 32].copy_from_slice(&palette);
        palette.rotate_right(4);
    }
    data
}

#[test]
fn texture_data_is_the_rotating_pattern() {
    let data = uv_debug_texture_data();
    assert_eq!(data.len(), TEXTURE_BYTES);
    assert_eq!(data, reference_texture());
    assert_eq!(&data[0..32], &PALETTE[..]);
    assert_eq!(&data[32..36], &PALETTE[28..32]);
    assert_eq!(&data[36..64], &PALETTE[0..28]);
    assert_eq!(&data[224..228], &PALETTE[4..8]);
}

#[test]
fn texture_is_fully_opaque() {
    let data = uv_debug_texture_data();
    for t in 0..TEXTURE_SIZE * TEXTURE_SIZE {
        assert_eq!(data[BYTES_PER_TEXEL * t + 3], 255);
    }
}

#[test]
fn texture_rows_rotate_by_one_texel() {
    let data = uv_debug_texture_data();
    for y in 1..TEXTURE_SIZE {
        for i in 0..ROW_BYTES {
            let prev = (i + ROW_BYTES - BYTES_PER_TEXEL) % ROW_BYTES;
            assert_eq!(data[ROW_BYTES * y + i], data[ROW_BYTES * (y - 1) + prev]);
        }
    }
}

#[test]
fn debug_texture_is_eight_by_eight_rgba() {
    let t = uv_debug_texture();
    assert_eq!((t.width, t.height, t.depth_or_array_layers), (8, 8, 1));
    assert_eq!(t.dimension, ImageDimension::D2);
    assert_eq!(t.format, TexelFormat::Rgba8UnormSrgb);
    assert_eq!(t.data.len(), (t.width * t.height) as usize * BYTES_PER_TEXEL);
    assert_eq!(t.data, reference_texture());
}
