use haven_desktop::dialogs::{
    clipboard_image, decode_image_payload, image_extension, prompt_answer, prompt_message,
    safe_filename, save_image_plan, Base64Error, ClipboardImage, SavePlan,
};

const RED_DOT_PNG: &str = "data:image/png;base64,iVBORw0KGgoAAAANSUhEUgAAAAEAAAABCAYAAAAfFcSJAAAADUlEQVR42mP8z8DwHwAFBQIAX8jx0gAAAABJRU5ErkJggg==";

#[test]
fn decodes_data_url_payload() {
    assert_eq!(decode_image_payload("data:text/plain;base64,aGVs\nbG8=").unwrap(), b"hello".to_vec());
    assert_eq!(decode_image_payload("  aGVsbG8=  ").unwrap(), b"hello".to_vec());
}

#[test]
fn undecodable_payload_reports_decoder_message() {
    assert_eq!(decode_image_payload("@@@@").unwrap_err(), "Invalid symbol 64, offset 0.");
    assert_eq!(decode_image_payload("aGVsbG8").unwrap_err(), "Invalid padding");
}

#[test]
fn base64_error_messages() {
    assert_eq!(Base64Error::InvalidByte(3, 42).message(), "Invalid symbol 42, offset 3.");
    assert_eq!(Base64Error::InvalidLength(5).message(), "Invalid input length: 5");
    assert_eq!(Base64Error::InvalidLastSymbol(2, 66).message(), "Invalid last symbol 66, offset 2.");
    assert_eq!(Base64Error::InvalidPadding.message(), "Invalid padding");
}

#[test]
fn safe_file_names() {
    assert_eq!(safe_filename("C:\\Users\\me\\pic ture!.png"), "picture.png");
    assert_eq!(safe_filename("../../etc/passwd"), "passwd");
    assert_eq!(safe_filename(".hidden"), "haven-image.png");
    assert_eq!(safe_filename("dir/"), "haven-image.png");
    assert_eq!(safe_filename("ünï-cödé_1.jpg"), "n-cd_1.jpg");
}

#[test]
fn image_extensions() {
    assert_eq!(image_extension("a.b.webp"), "webp");
    assert_eq!(image_extension("noext"), "noext");
}

#[test]
fn save_plan_cases() {
    assert!(matches!(save_image_plan("", None), SavePlan::NoPayload));
    match save_image_plan("@@@@", None) {
        SavePlan::Undecodable(m) => assert_eq!(m, "Invalid symbol 64, offset 0."),
        _ => panic!("expected a decoding failure"),
    }
    assert!(matches!(save_image_plan("data:,", None), SavePlan::EmptyImage));
    match save_image_plan("aGVsbG8=", Some("my photo.JPG")) {
        SavePlan::Save { bytes, name, ext } => {
            assert_eq!(bytes, b"hello".to_vec());
            assert_eq!(name, "myphoto.JPG");
            assert_eq!(ext, "JPG");
        }
        _ => panic!("expected a save"),
    }
    match save_image_plan("aGVsbG8=", None) {
        SavePlan::Save { name, ext, .. } => {
            assert_eq!(name, "haven-image.png");
            assert_eq!(ext, "png");
        }
        _ => panic!("expected a save"),
    }
}

#[test]
fn clipboard_image_cases() {
    assert!(matches!(clipboard_image(""), ClipboardImage::NoPayload));
    assert!(matches!(clipboard_image("aGVsbG8="), ClipboardImage::NotPng));
    match clipboard_image("@@@@") {
        ClipboardImage::Undecodable(m) => assert_eq!(m, "Invalid symbol 64, offset 0."),
        _ => panic!("expected a decoding failure"),
    }
    match clipboard_image(RED_DOT_PNG) {
        ClipboardImage::Image { rgba, width, height } => {
            assert_eq!(width, 1);
            assert_eq!(height, 1);
            assert_eq!(rgba.len(), 4);
        }
        _ => panic!("expected an image"),
    }
}

#[test]
fn prompt_dialog_texts() {
    assert_eq!(prompt_message("en", "Name?", ""), "Name?");
    assert_eq!(prompt_message("en", "Name?", "Bob"), "Name?\n\nDefault: Bob");
    assert_eq!(prompt_answer(true, Some("Bob".to_string())).as_deref(), Some("Bob"));
    assert_eq!(prompt_answer(true, None).as_deref(), Some(""));
    assert_eq!(prompt_answer(false, Some("Bob".to_string())), None);
}
