use lcdcon::pixel::{
    fourcc, format_from_fourcc, pack565, pack_rg24, pack_xr24, PixelFormat, FOURCC_RG24,
    FOURCC_XR24,
};

#[test]
fn pack565_exact_values() {
    assert_eq!(pack565(255, 255, 255), 0xFFFF);
    assert_eq!(pack565(0, 0, 0), 0);
    // Red sits in the low five bits.
    assert_eq!(pack565(248, 0, 0), 0x001F);
    // Green in the middle six.
    assert_eq!(pack565(0, 252, 0), 0x07E0);
    // Blue in the top five.
    assert_eq!(pack565(0, 0, 248), 0xF800);
}

#[test]
fn pack565_matches_formula() {
    let samples: [(u8, u8, u8); 5] = [(1, 2, 3), (127, 128, 129), (7, 3, 7), (255, 0, 255), (80, 160, 240)];
    for (r, g, b) in samples {
        let expected =
            (((b as u32) >> 3) << 11) | (((g as u32) >> 2) << 5) | ((r as u32) >> 3);
        assert_eq!(pack565(r, g, b), expected);
    }
}

#[test]
fn pack_xr24_reads_bgr_and_drops_padding() {
    // B, G, R, pad per pixel.
    let bytes: Vec<u8> = vec![248, 0, 0, 0xAA, 0, 252, 0, 0xBB];
    let words = pack_xr24(&bytes);
    assert_eq!(words, vec![0xF800, 0x07E0]);
}

#[test]
fn pack_xr24_trailing_groups() {
    // Three trailing bytes still form a pixel: only the padding byte is
    // missing.
    assert_eq!(pack_xr24(&[0, 0, 248]), vec![0x001F]);
    // One or two trailing bytes are dropped.
    assert_eq!(pack_xr24(&[1]), vec![]);
    assert_eq!(pack_xr24(&[1, 2]), vec![]);
    assert_eq!(pack_xr24(&[0, 0, 248, 0, 9, 9]), vec![0x001F]);
}

#[test]
fn pack_rg24_reads_rgb() {
    let bytes: Vec<u8> = vec![248, 0, 0, 0, 252, 0];
    let words = pack_rg24(&bytes);
    assert_eq!(words, vec![0x001F, 0x07E0]);
}

#[test]
fn pack_rg24_drops_partial_pixel() {
    assert_eq!(pack_rg24(&[248, 0]), vec![]);
    assert_eq!(pack_rg24(&[248, 0, 0, 77]), vec![0x001F]);
}

#[test]
fn both_layouts_yield_the_same_wire_word() {
    // The same colour in either source layout packs identically.
    let from_xr24 = pack_xr24(&[10, 20, 30, 0]);
    let from_rg24 = pack_rg24(&[30, 20, 10]);
    assert_eq!(from_xr24, from_rg24);
}

#[test]
fn fourcc_codes_spell_the_formats() {
    assert_eq!(fourcc(b'X', b'R', b'2', b'4'), FOURCC_XR24);
    assert_eq!(fourcc(b'R', b'G', b'2', b'4'), FOURCC_RG24);
}

#[test]
fn format_resolution_from_fourcc() {
    assert_eq!(format_from_fourcc(FOURCC_XR24), PixelFormat::Xr24);
    assert_eq!(format_from_fourcc(FOURCC_RG24), PixelFormat::Rg24);
    // Anything unrecognised is treated as the native 24-bit layout.
    assert_eq!(format_from_fourcc(0), PixelFormat::Rg24);
}
