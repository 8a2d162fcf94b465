use tauview::classify::{check_mime, image_kind, Classification, ImageKind};

fn png_bytes() -> Vec<u8> {
    vec![0x89, 0x50, 0x4E, 0x47, 0x0D, 0x0A, 0x1A, 0x0A, 0x00, 0x00, 0x00, 0x0D]
}

fn jpeg_bytes() -> Vec<u8> {
    vec![0xFF, 0xD8, 0xFF, 0xE0, 0x00, 0x10]
}

fn gif_bytes() -> Vec<u8> {
    b"GIF89a\x01\x00\x01\x00".to_vec()
}

fn gif87_bytes() -> Vec<u8> {
    b"GIF87a\x01\x00\x01\x00".to_vec()
}

fn webp_bytes() -> Vec<u8> {
    b"RIFF\x24\x00\x00\x00WEBPVP8 ".to_vec()
}

fn ico_bytes() -> Vec<u8> {
    vec![0x00, 0x00, 0x01, 0x00, 0x01, 0x00]
}

#[test]
fn classifies_png() {
    assert_eq!(image_kind(&png_bytes()), Some(ImageKind::Png));
}

#[test]
fn classifies_jpeg() {
    assert_eq!(image_kind(&jpeg_bytes()), Some(ImageKind::Jpeg));
}

#[test]
fn classifies_both_gif_versions() {
    assert_eq!(image_kind(&gif_bytes()), Some(ImageKind::Gif));
    assert_eq!(image_kind(&gif87_bytes()), Some(ImageKind::Gif));
}

#[test]
fn classifies_webp() {
    assert_eq!(image_kind(&webp_bytes()), Some(ImageKind::Webp));
}

#[test]
fn classifies_ico() {
    assert_eq!(image_kind(&ico_bytes()), Some(ImageKind::Ico));
}

#[test]
fn plain_text_with_image_name_is_unsupported() {
    // The file may be named photo.png; only the content counts, and the
    // classifier is never even shown the name.
    let text = b"this is plain text, whatever the file is called".to_vec();
    assert_eq!(image_kind(&text), None);
    assert_eq!(check_mime(&Some(text)), Classification::Unsupported);
}

#[test]
fn empty_content_is_unsupported() {
    assert_eq!(check_mime(&Some(Vec::new())), Classification::Unsupported);
}

#[test]
fn failed_read_is_unreadable() {
    assert_eq!(check_mime(&None), Classification::Unreadable);
}

#[test]
fn truncated_signature_is_unsupported() {
    // The first PNG bytes alone are not the full eight-byte signature.
    let half = vec![0x89, 0x50, 0x4E];
    assert_eq!(check_mime(&Some(half)), Classification::Unsupported);
}

#[test]
fn riff_without_webp_form_is_unsupported() {
    let wave = b"RIFF\x24\x00\x00\x00WAVEfmt ".to_vec();
    assert_eq!(image_kind(&wave), None);
}
