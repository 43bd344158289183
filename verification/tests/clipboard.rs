use xtrans::clipboard::{encode_image, read, ClipboardImage, Content};

const PNG_SIGNATURE: [u8; 8] = [137, 80, 78, 71, 13, 10, 26, 10];

fn red_pixel() -> ClipboardImage {
    ClipboardImage {
        width: 1,
        height: 1,
        bytes: vec![255, 0, 0, 255],
    }
}

#[test]
fn image_is_encoded_as_png() {
    let png = encode_image(&red_pixel()).expect("a 1x1 image encodes");
    assert!(png.len() > 8);
    assert_eq!(&png[..8], &PNG_SIGNATURE);
    assert_ne!(png, red_pixel().bytes);
}

#[test]
fn empty_image_does_not_encode() {
    let img = ClipboardImage {
        width: 0,
        height: 0,
        bytes: vec![],
    };
    assert_eq!(encode_image(&img), None);
}

#[test]
fn image_is_preferred_over_text() {
    let mut text_read = false;
    let content = read(Some(red_pixel()), || {
        text_read = true;
        Some("text".to_string())
    });
    match content {
        Content::Image(png) => assert_eq!(&png[..8], &PNG_SIGNATURE),
        other => panic!("expected an image, got {:?}", other),
    }
    assert!(!text_read);
}

#[test]
fn text_when_no_image() {
    assert_eq!(
        read(None, || Some("hello".to_string())),
        Content::Text("hello".to_string())
    );
}

#[test]
fn text_when_image_fails_to_encode() {
    let img = ClipboardImage {
        width: 0,
        height: 3,
        bytes: vec![],
    };
    assert_eq!(
        read(Some(img), || Some("fallback".to_string())),
        Content::Text("fallback".to_string())
    );
}

#[test]
fn empty_text_is_empty_content() {
    assert_eq!(read(None, || Some(String::new())), Content::Empty);
}

#[test]
fn unreadable_clipboard_is_empty_content() {
    assert_eq!(read(None, || None), Content::Empty);
}
