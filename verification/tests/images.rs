use flatui_lib::image_data::{
    bgra_to_rgba, clipboard_image_from_decoded, dib_from_rgba, png_data_url, png_from_bgra, png_payload,
    prepare_clipboard_image, ClipboardImageError,
};

const PNG_SIGNATURE: [u8; 8] = [137, 80, 78, 71, 13, 10, 26, 10];

fn header(w: u32, h: u32) -> Vec<u8> {
    let mut v = Vec::new();
    v.extend_from_slice(&40u32.to_le_bytes());
    v.extend_from_slice(&w.to_le_bytes());
    v.extend_from_slice(&h.to_le_bytes());
    v.extend_from_slice(&1u16.to_le_bytes());
    v.extend_from_slice(&32u16.to_le_bytes());
    v.extend_from_slice(&0u32.to_le_bytes());
    v.extend_from_slice(&(w * h * 4).to_le_bytes());
    v.extend_from_slice(&2835u32.to_le_bytes());
    v.extend_from_slice(&2835u32.to_le_bytes());
    v.extend_from_slice(&0u32.to_le_bytes());
    v.extend_from_slice(&0u32.to_le_bytes());
    v
}

#[test]
fn channel_swap_exchanges_red_and_blue() {
    let mut px = vec![1u8, 2, 3, 4, 5, 6, 7];
    bgra_to_rgba(&mut px);
    assert_eq!(px, vec![3, 2, 1, 4, 7, 6, 5]);
}

#[test]
fn channel_swap_twice_is_identity() {
    let orig = vec![9u8, 8, 7, 6, 5, 4, 3, 2];
    let mut px = orig.clone();
    bgra_to_rgba(&mut px);
    assert_ne!(px, orig);
    bgra_to_rgba(&mut px);
    assert_eq!(px, orig);
}

#[test]
fn data_url_is_prefix_and_base64() {
    assert_eq!(png_data_url(b"abc"), "data:image/png;base64,YWJj");
    assert_eq!(png_data_url(b""), "data:image/png;base64,");
    assert_eq!(png_data_url(&[0xff, 0xfe]), "data:image/png;base64,//4=");
}

#[test]
fn data_url_round_trips() {
    let bytes = vec![0u8, 1, 2, 250, 251, 252, 253];
    let url = png_data_url(&bytes);
    assert_eq!(png_payload(&url), Ok(bytes));
}

#[test]
fn payload_errors() {
    assert_eq!(
        png_payload("data:image/jpeg;base64,YWJj"),
        Err(ClipboardImageError::NotPngDataUrl)
    );
    assert_eq!(png_payload("YWJj"), Err(ClipboardImageError::NotPngDataUrl));
    assert_eq!(
        png_payload("data:image/png;base64,@@@"),
        Err(ClipboardImageError::InvalidBase64)
    );
    assert_eq!(png_payload("data:image/png;base64,YWJj"), Ok(b"abc".to_vec()));
}

#[test]
fn png_of_captured_pixels() {
    let bgra = vec![1u8, 2, 3, 4, 5, 6, 7, 8];
    let png = png_from_bgra(2, 1, bgra).expect("encodes");
    assert_eq!(&png[..8], &PNG_SIGNATURE);
    // a buffer too short for the image is refused before encoding
    assert_eq!(png_from_bgra(2, 2, vec![0u8; 8]), None);
}

#[test]
fn clipboard_image_from_screenshot_url() {
    let bgra = vec![1u8, 2, 3, 4, 5, 6, 7, 8];
    let png = png_from_bgra(2, 1, bgra).unwrap();
    let url = png_data_url(&png);
    let img = prepare_clipboard_image(&url).expect("decodes");
    assert_eq!(img.width, 2);
    assert_eq!(img.height, 1);
    assert_eq!(img.png, png);
    let mut expected = header(2, 1);
    expected.extend_from_slice(&[1, 2, 3, 255, 5, 6, 7, 255]);
    assert_eq!(img.dib, expected);
}

#[test]
fn clipboard_image_errors() {
    assert_eq!(
        prepare_clipboard_image("hello").err(),
        Some(ClipboardImageError::NotPngDataUrl)
    );
    assert_eq!(
        prepare_clipboard_image("data:image/png;base64,!!").err(),
        Some(ClipboardImageError::InvalidBase64)
    );
    assert_eq!(
        prepare_clipboard_image("data:image/png;base64,YWJj").err(),
        Some(ClipboardImageError::UndecodablePng)
    );
}

#[test]
fn dib_rows_are_bottom_up_bgr_opaque() {
    let rgba = vec![10u8, 20, 30, 40, 50, 60, 70, 80];
    let dib = dib_from_rgba(1, 2, &rgba);
    let mut expected = header(1, 2);
    expected.extend_from_slice(&[70, 60, 50, 255, 30, 20, 10, 255]);
    assert_eq!(dib, expected);
    assert_eq!(dib.len(), 40 + 8);
}

#[test]
fn clipboard_image_of_decoded_pixels() {
    let png = b"png".to_vec();
    let img = clipboard_image_from_decoded(1, 2, vec![10, 20, 30, 40, 50, 60, 70, 80], png.clone())
        .expect("fits");
    assert_eq!((img.width, img.height), (1, 2));
    assert_eq!(img.png, png);
    let mut expected = header(1, 2);
    expected.extend_from_slice(&[70, 60, 50, 255, 30, 20, 10, 255]);
    assert_eq!(img.dib, expected);
    assert_eq!(
        clipboard_image_from_decoded(0, 5, vec![], png.clone()).err(),
        Some(ClipboardImageError::EmptyImage)
    );
    assert_eq!(
        clipboard_image_from_decoded(5, 0, vec![], png.clone()).err(),
        Some(ClipboardImageError::EmptyImage)
    );
    assert_eq!(
        clipboard_image_from_decoded(65536, 8192, vec![], png).err(),
        Some(ClipboardImageError::TooLarge)
    );
}
