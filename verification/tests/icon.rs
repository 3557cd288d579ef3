use wind_portable::icon::{
    app_icon_rgba, best_entry, checked_icon_rgba, or_square, solid_icon, Image, ACCENT,
};

/// An icon file with square images of the given sizes, each filled with its number.
fn icon_file(sizes: &[u32]) -> Vec<u8> {
    let mut dir = ico::IconDir::new(ico::ResourceType::Icon);
    for (i, s) in sizes.iter().enumerate() {
        let mut rgba = Vec::new();
        for _ in 0..(s * s) {
            rgba.extend_from_slice(&[i as u8, 10, 20, 255]);
        }
        let image = ico::IconImage::from_rgba_data(*s, *s, rgba);
        dir.add_entry(ico::IconDirEntry::encode_as_png(&image).unwrap());
    }
    let mut out = Vec::new();
    dir.write(&mut out).unwrap();
    out
}

#[test]
fn best_sizes() {
    assert_eq!(best_entry(&vec![], 32), None);
    assert_eq!(best_entry(&vec![48, 32, 16, 32], 32), Some(1));
    assert_eq!(best_entry(&vec![256, 48, 64, 48], 32), Some(1));
    assert_eq!(best_entry(&vec![16, 24, 8, 24], 32), Some(3));
    assert_eq!(best_entry(&vec![16, 64], 32), Some(1));
    assert_eq!(best_entry(&vec![64, 16], 32), Some(0));
}

#[test]
fn plain_square() {
    let s = solid_icon(ACCENT);
    assert_eq!(s.len(), 16 * 16 * 4);
    assert_eq!(&s[..8], &[0x4C, 0x8B, 0xF5, 255, 0x4C, 0x8B, 0xF5, 255]);
    assert_eq!(&solid_icon(0xFF010203)[1020..], &[1, 2, 3, 255]);
}

#[test]
fn image_of_an_icon_file() {
    let data = icon_file(&[48, 32, 16]);
    let image = app_icon_rgba(&data, 32);
    assert_eq!((image.width, image.height), (32, 32));
    assert_eq!(&image.rgba[..4], &[1, 10, 20, 255]);
    let large = app_icon_rgba(&data, 200);
    assert_eq!((large.width, large.rgba[0]), (48, 0));
    let small = checked_icon_rgba(&data, 8).unwrap();
    assert_eq!((small.width, small.rgba[0]), (16, 2));
}

#[test]
fn square_where_there_is_no_image() {
    let none = app_icon_rgba(&b"not an icon".to_vec(), 32);
    assert_eq!((none.width, none.height), (16, 16));
    assert_eq!(none.rgba, solid_icon(ACCENT));
    let empty = checked_icon_rgba(&icon_file(&[]), 32).unwrap();
    assert_eq!(empty.rgba, solid_icon(ACCENT));
    let kept = or_square(Some(Image { width: 1, height: 1, rgba: vec![1, 2, 3, 4] }));
    assert_eq!(kept.rgba, vec![1, 2, 3, 4]);
}

#[test]
fn short_colour_table_is_refused() {
    // One bitmap of one pixel and eight bits: header, a table of one colour, and a pixel that asks
    // for another one.
    let mut bmp: Vec<u8> = Vec::new();
    bmp.extend_from_slice(&40u32.to_le_bytes());
    bmp.extend_from_slice(&1i32.to_le_bytes());
    bmp.extend_from_slice(&2i32.to_le_bytes());
    bmp.extend_from_slice(&1u16.to_le_bytes());
    bmp.extend_from_slice(&8u16.to_le_bytes());
    bmp.extend_from_slice(&[0; 16]);
    let mut short = bmp.clone();
    short.extend_from_slice(&1u32.to_le_bytes());
    short.extend_from_slice(&[0; 4]);
    short.extend_from_slice(&[1, 2, 3, 0]);
    short.extend_from_slice(&[200, 0, 0, 0]);
    short.extend_from_slice(&[0; 4]);
    let file = |payload: &[u8]| {
        let mut f: Vec<u8> = vec![0, 0, 1, 0, 1, 0, 1, 1, 0, 0, 1, 0, 8, 0];
        f.extend_from_slice(&(payload.len() as u32).to_le_bytes());
        f.extend_from_slice(&22u32.to_le_bytes());
        f.extend_from_slice(payload);
        f
    };
    assert!(checked_icon_rgba(&file(&short), 32).is_none());

    let mut full = bmp;
    full.extend_from_slice(&0u32.to_le_bytes());
    full.extend_from_slice(&[0; 4]);
    for i in 0..256u32 {
        full.extend_from_slice(&[i as u8, 2, 3, 0]);
    }
    full.extend_from_slice(&[200, 0, 0, 0]);
    full.extend_from_slice(&[0; 4]);
    let image = checked_icon_rgba(&file(&full), 32).unwrap();
    assert_eq!(image.rgba, vec![3, 2, 200, 255]);
}
