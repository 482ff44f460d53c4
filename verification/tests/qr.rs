use qrfs::qr::{render_payload, scan_image, select_payload, LumaImage, ScanError};

#[test]
fn scan_of_render_gives_the_payload() {
    let payload: Vec<u8> = b"Hello World!\n".to_vec();
    let image = render_payload(&payload).unwrap();
    assert!(image.is_wf());
    assert_eq!(scan_image(&image), Ok(payload));
}

#[test]
fn scan_of_render_keeps_binary_payloads() {
    let payload: Vec<u8> = (0u16..300).map(|i| (i % 256) as u8).collect();
    let image = render_payload(&payload).unwrap();
    assert_eq!(scan_image(&image), Ok(payload));
}

#[test]
fn rendered_image_is_square_with_border() {
    let image = render_payload(&b"a".to_vec()).unwrap();
    // a symbol of 21 cells, 4 cells of border on each side, 8 pixels a cell
    assert_eq!(image.width, (21 + 8) * 8);
    assert_eq!(image.height, (21 + 8) * 8);
    assert_eq!(image.pixels.len(), (image.width * image.height) as usize);
    assert_eq!(image.pixels[0], 255);
}

#[test]
fn render_rejects_too_long_payload() {
    let payload: Vec<u8> = vec![7u8; 4000];
    assert!(render_payload(&payload).is_err());
}

#[test]
fn blank_image_has_no_symbol() {
    let image = LumaImage { width: 64, height: 64, pixels: vec![255u8; 64 * 64] };
    assert_eq!(scan_image(&image), Err(ScanError::NoSymbol));
}

#[test]
fn select_payload_takes_the_last() {
    assert_eq!(select_payload(vec![Some(vec![1u8]), Some(vec![2u8, 3u8])]), Ok(vec![2u8, 3u8]));
    assert_eq!(select_payload(vec![]), Err(ScanError::NoSymbol));
    assert_eq!(select_payload(vec![Some(vec![1u8]), None]), Err(ScanError::Unreadable));
    assert_eq!(select_payload(vec![None, Some(vec![1u8])]), Err(ScanError::Unreadable));
}

#[test]
fn degenerate_images_show_no_symbol() {
    let empty = LumaImage { width: 0, height: 0, pixels: Vec::new() };
    assert_eq!(scan_image(&empty), Err(ScanError::NoSymbol));
    let dot = LumaImage { width: 1, height: 1, pixels: vec![0u8] };
    assert_eq!(scan_image(&dot), Err(ScanError::NoSymbol));
    let line = LumaImage { width: 300, height: 1, pixels: vec![0u8; 300] };
    assert_eq!(scan_image(&line), Err(ScanError::NoSymbol));
    assert!(!LumaImage { width: 2, height: 2, pixels: vec![0u8; 3] }.is_wf());
}

#[test]
fn only_images_that_can_be_counted_are_scanned() {
    assert!(LumaImage { width: 3, height: 2, pixels: vec![0u8; 6] }.is_scannable());
    assert!(!LumaImage { width: 3, height: 2, pixels: vec![0u8; 5] }.is_scannable());
    assert!(!LumaImage { width: 0x8000_0000, height: 0, pixels: Vec::new() }.is_scannable());
    assert!(LumaImage { width: 0x7fff_ffff, height: 0, pixels: Vec::new() }.is_scannable());
    assert!(render_payload(&b"some payload".to_vec()).unwrap().is_scannable());
}
