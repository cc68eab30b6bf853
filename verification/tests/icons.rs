use onyx_launcher::icon::{
    dib_layout, dib_to_bgra, fix_missing_alpha, rows_top_down, unpremultiply, DibLayout,
};
use onyx_launcher::resource_icon::{
    build_group_icon, build_ico, decode_picture, ico_from_resampled, icon_resources, parse_ico, IcoEntry, IcoError, IconBuildError,
};

/// A two-image `.ico` file: a 16x16 and a 32x32 entry with small payloads.
fn sample_ico() -> Vec<u8> {
    let mut b = vec![0, 0, 1, 0, 2, 0];
    // entry 0: 16x16, 0 colours, 1 plane, 32 bpp, 3 bytes at offset 38
    b.extend_from_slice(&[16, 16, 0, 0, 1, 0, 32, 0, 3, 0, 0, 0, 38, 0, 0, 0]);
    // entry 1: 32x32, 0 colours, 1 plane, 32 bpp, 2 bytes at offset 41
    b.extend_from_slice(&[32, 32, 0, 0, 1, 0, 32, 0, 2, 0, 0, 0, 41, 0, 0, 0]);
    b.extend_from_slice(&[0xaa, 0xbb, 0xcc, 0xdd, 0xee]);
    b
}

#[test]
fn parse_ico_reads_every_entry() {
    let entries = parse_ico(&sample_ico()).expect("valid ico");
    assert_eq!(entries.len(), 2);
    assert_eq!((entries[0].width, entries[0].height), (16, 16));
    assert_eq!(entries[0].planes, 1);
    assert_eq!(entries[0].bit_count, 32);
    assert_eq!(entries[0].data, vec![0xaa, 0xbb, 0xcc]);
    assert_eq!((entries[1].width, entries[1].height), (32, 32));
    assert_eq!(entries[1].data, vec![0xdd, 0xee]);
}

#[test]
fn parse_ico_errors() {
    assert_eq!(parse_ico(&[0, 0, 1, 0]).err(), Some(IcoError::TooShort));
    let mut truncated_entry = sample_ico();
    truncated_entry.truncate(20);
    assert_eq!(parse_ico(&truncated_entry).err(), Some(IcoError::EntryTruncated));
    let mut truncated_image = sample_ico();
    truncated_image.truncate(40);
    assert_eq!(parse_ico(&truncated_image).err(), Some(IcoError::ImageTruncated));
    // The first entry that fails decides the error.
    let mut bad_first = sample_ico();
    bad_first[18] = 0xff; // image offset of entry 0 far past the end
    assert_eq!(parse_ico(&bad_first).err(), Some(IcoError::ImageTruncated));
    assert_eq!(parse_ico(&[0, 0, 1, 0, 0, 0]).map(|v| v.len()).ok(), Some(0));
}

#[test]
fn group_icon_layout() {
    let entries = vec![
        IcoEntry { width: 16, height: 16, color_count: 0, planes: 1, bit_count: 32, data: vec![1, 2, 3] },
        IcoEntry { width: 0, height: 0, color_count: 4, planes: 0x0102, bit_count: 8, data: vec![0; 300] },
    ];
    let g = build_group_icon(&entries);
    assert_eq!(g.len(), 6 + 2 * 14);
    assert_eq!(&g[0..6], &[0, 0, 1, 0, 2, 0]);
    assert_eq!(&g[6..20], &[16, 16, 0, 0, 1, 0, 32, 0, 3, 0, 0, 0, 1, 0]);
    assert_eq!(&g[20..34], &[0, 0, 4, 0, 2, 1, 8, 0, 44, 1, 0, 0, 2, 0]);
}

#[test]
fn icon_resources_from_ico() {
    let res = icon_resources(&sample_ico()).ok().expect("resources");
    assert_eq!(res.images.len(), 2);
    assert_eq!(res.images[0], (1, vec![0xaa, 0xbb, 0xcc]));
    assert_eq!(res.images[1], (2, vec![0xdd, 0xee]));
    assert_eq!(res.group.len(), 34);
    assert_eq!(icon_resources(&[0, 0, 1, 0, 0, 0]).err(), Some(IcoError::NoImages));
    assert_eq!(icon_resources(&[1]).err(), Some(IcoError::TooShort));
}

fn synthetic_png() -> Vec<u8> {
    let mut img = image::RgbaImage::new(64, 64);
    for (x, y, px) in img.enumerate_pixels_mut() {
        let dx = x as i32 - 32;
        let dy = y as i32 - 32;
        *px = if dx * dx + dy * dy < 28 * 28 {
            image::Rgba([80, 180, 255, 255])
        } else {
            image::Rgba([0, 0, 0, 0])
        };
    }
    let mut bytes = Vec::new();
    img.write_to(&mut std::io::Cursor::new(&mut bytes), image::ImageFormat::Png)
        .expect("encode test png");
    bytes
}

#[test]
fn build_ico_from_png_has_four_sizes() {
    let ico = build_ico(&synthetic_png()).expect("build ico");
    assert!(ico.len() > 6);
    let entries = parse_ico(&ico).ok().expect("parsable ico");
    let sizes: Vec<(u8, u8)> = entries.iter().map(|e| (e.width, e.height)).collect();
    assert_eq!(sizes, vec![(16, 16), (32, 32), (48, 48), (0, 0)]);
    // An existing icon file is passed through: building again keeps it.
    let again = build_ico(&ico).expect("rebuild");
    assert_eq!(again, ico);
    // The result can be embedded.
    let res = icon_resources(&ico).ok().expect("resources");
    assert_eq!(res.images.len(), 4);
}

#[test]
fn build_ico_rejects_garbage() {
    assert!(matches!(build_ico(b"not a picture"), Err(IconBuildError::Decode(_))));
    // A header that announces no images is no icon file, and no picture.
    assert!(matches!(build_ico(&[0, 0, 1, 0, 0, 0]), Err(IconBuildError::Decode(_))));
}

#[test]
fn ico_from_resampled_encodes_each_picture() {
    let sides = [16u32, 32, 48, 256];
    // An opaque picture per side, each in its own colour.
    let pictures: Vec<Vec<u8>> = sides
        .iter()
        .enumerate()
        .map(|(k, &s)| {
            let mut px = Vec::new();
            for _ in 0..s * s {
                px.extend_from_slice(&[40 * k as u8, 200, 10, 255]);
            }
            px
        })
        .collect();
    let ico = ico_from_resampled(&pictures);
    let entries = parse_ico(&ico).ok().expect("parsable ico");
    assert_eq!(entries.len(), 4);
    for (k, &s) in sides.iter().enumerate() {
        let side = if s > 255 { 0 } else { s as u8 };
        assert_eq!((entries[k].width, entries[k].height), (side, side));
        let image = ico::IconImage::from_rgba_data(s, s, pictures[k].clone());
        let expected = ico::IconDirEntry::encode(&image).expect("encode");
        assert_eq!(entries[k].data, expected.data().to_vec());
        assert_ne!(entries[k].data, pictures[k]);
    }
}

#[test]
fn decode_picture_gives_rgba_pixels() {
    let (w, h, rgba) = decode_picture(&synthetic_png()).expect("decodable png");
    assert_eq!((w, h), (64, 64));
    assert_eq!(rgba.len(), 64 * 64 * 4);
    // The centre of the disc is opaque (80, 180, 255); a corner is clear.
    let centre = ((32 * 64 + 32) * 4) as usize;
    assert_eq!(&rgba[centre..centre + 4], &[80, 180, 255, 255]);
    assert_eq!(rgba[3], 0);
    assert!(decode_picture(b"not a picture").is_none());
}

#[test]
fn build_ico_passes_an_icon_file_through() {
    let ico = sample_ico();
    assert_eq!(build_ico(&ico).expect("existing icon"), ico);
}

#[test]
fn ico_error_messages() {
    assert_eq!(parse_ico(&[0, 0, 1, 0, 1]).err().map(|e| e.message()), Some("ICO data too short"));
    assert_eq!(IcoError::EntryTruncated.message(), "ICO directory entry truncated");
    assert_eq!(IcoError::ImageTruncated.message(), "ICO image data truncated");
    assert_eq!(IcoError::NoImages.message(), "no images found in icon data");
}

#[test]
fn dib_layout_checks() {
    assert_eq!(dib_layout(true, true, 32, 4, -2, 16, -2), Some(DibLayout { width: 4, height: 2, stride: 16, bottom_up: false }));
    assert_eq!(dib_layout(true, true, 32, 4, 2, 16, 2), Some(DibLayout { width: 4, height: 2, stride: 16, bottom_up: true }));
    assert_eq!(dib_layout(false, true, 32, 4, 2, 16, 2), None);
    assert_eq!(dib_layout(true, false, 32, 4, 2, 16, 2), None);
    assert_eq!(dib_layout(true, true, 24, 4, 2, 16, 2), None);
    assert_eq!(dib_layout(true, true, 32, -4, 2, 16, 2), None);
    assert_eq!(dib_layout(true, true, 32, 4, 0, 16, 0), None);
}

#[test]
fn rows_are_flipped_when_bottom_up() {
    // 1 pixel wide, 2 rows, stride 8 (4 bytes of padding per row).
    let src = vec![1, 2, 3, 4, 9, 9, 9, 9, 5, 6, 7, 8, 9, 9, 9, 9];
    let up = DibLayout { width: 1, height: 2, stride: 8, bottom_up: true };
    assert_eq!(rows_top_down(&src, up), vec![5, 6, 7, 8, 1, 2, 3, 4]);
    let down = DibLayout { width: 1, height: 2, stride: 8, bottom_up: false };
    assert_eq!(rows_top_down(&src, down), vec![1, 2, 3, 4, 5, 6, 7, 8]);
}

#[test]
fn unpremultiply_values() {
    let mut px = vec![64, 32, 128, 128, 10, 20, 30, 255, 10, 20, 30, 0, 200, 200, 200, 100, 7];
    unpremultiply(&mut px);
    // (64*255 + 64) / 128 = 128, (32*255+64)/128 = 64, (128*255+64)/128 = 255
    assert_eq!(&px[0..4], &[128, 64, 255, 128]);
    assert_eq!(&px[4..8], &[10, 20, 30, 255]);
    assert_eq!(&px[8..12], &[10, 20, 30, 0]);
    // (200*255+50)/100 = 510 -> capped at 255
    assert_eq!(&px[12..16], &[255, 255, 255, 100]);
    assert_eq!(px[16], 7);
}

#[test]
fn dib_to_bgra_combines_both_steps() {
    let src = vec![64, 32, 128, 128, 1, 2, 3, 255];
    let layout = DibLayout { width: 1, height: 2, stride: 4, bottom_up: true };
    assert_eq!(dib_to_bgra(&src, layout), vec![1, 2, 3, 255, 128, 64, 255, 128]);
}

#[test]
fn missing_alpha_is_filled_in() {
    let mut px = vec![0, 0, 0, 0, 5, 0, 0, 0, 0, 0, 9, 0];
    fix_missing_alpha(&mut px);
    assert_eq!(px, vec![0, 0, 0, 0, 5, 0, 0, 255, 0, 0, 9, 255]);
    let mut with_alpha = vec![0, 0, 0, 1, 5, 0, 0, 0];
    fix_missing_alpha(&mut with_alpha);
    assert_eq!(with_alpha, vec![0, 0, 0, 1, 5, 0, 0, 0]);
}
