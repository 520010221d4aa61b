use rust_paper::config::Config;
use rust_paper::digest::calculate_sha256;
use rust_paper::errors::SyncError;
use rust_paper::formats::{detect_format, get_img_extension, ImgFormat};
use rust_paper::reply::{classify_reply, is_valid_link, read_reply, scrape_img_link};

const PNG_MAGIC: [u8; 8] = [0x89, b'P', b'N', b'G', 0x0D, 0x0A, 0x1A, 0x0A];

#[test]
fn sha256_of_known_inputs() {
    assert_eq!(
        calculate_sha256(b"abc"),
        "ba7816bf8f01cfea414140de5dae2223b00361a396177a9cb410ff61f20015ad"
    );
    assert_eq!(
        calculate_sha256(b""),
        "e3b0c44298fc1c149afbf4c8996fb92427ae41e4649b934ca495991b7852b855"
    );
}

#[test]
fn extensions_of_formats() {
    assert_eq!(get_img_extension(&ImgFormat::Png), "png");
    assert_eq!(get_img_extension(&ImgFormat::Jpeg), "jpeg");
    assert_eq!(get_img_extension(&ImgFormat::Gif), "gif");
    assert_eq!(get_img_extension(&ImgFormat::WebP), "webp");
    assert_eq!(get_img_extension(&ImgFormat::Pnm), "pnm");
    assert_eq!(get_img_extension(&ImgFormat::Tiff), "tiff");
    assert_eq!(get_img_extension(&ImgFormat::Tga), "tga");
    assert_eq!(get_img_extension(&ImgFormat::Dds), "dds");
    assert_eq!(get_img_extension(&ImgFormat::Bmp), "bmp");
    assert_eq!(get_img_extension(&ImgFormat::Ico), "ico");
    assert_eq!(get_img_extension(&ImgFormat::Hdr), "hdr");
    assert_eq!(get_img_extension(&ImgFormat::Other), "jpg");
}

#[test]
fn format_names() {
    assert_eq!(ImgFormat::from_name("WebP"), ImgFormat::WebP);
    assert_eq!(ImgFormat::from_name("Avif"), ImgFormat::Other);
    assert_eq!(ImgFormat::from_name("png"), ImgFormat::Other);
}

#[test]
fn detect_format_from_content() {
    assert_eq!(detect_format(&PNG_MAGIC), Some(ImgFormat::Png));
    assert_eq!(detect_format(&[0xFF, 0xD8, 0xFF, 0xE0]), Some(ImgFormat::Jpeg));
    assert_eq!(detect_format(b"GIF89a"), Some(ImgFormat::Gif));
    assert_eq!(detect_format(b"BM"), Some(ImgFormat::Bmp));
    assert_eq!(detect_format(b"qoif"), Some(ImgFormat::Other));
    assert_eq!(detect_format(b"hello"), None);
    assert_eq!(detect_format(b""), None);
}

#[test]
fn reply_with_link() {
    let r = read_reply(r#"{"data":{"id":"abc","path":"https://w.example/full/abc.jpg"}}"#);
    assert_eq!(r, Ok("https://w.example/full/abc.jpg".to_string()));
}

#[test]
fn reply_with_error_member() {
    let r = read_reply(r#"{"error":"Nothing here","data":{"path":"https://x/y.png"}}"#);
    assert_eq!(r, Err(SyncError::Api));
}

#[test]
fn reply_not_json() {
    assert_eq!(read_reply("<html>"), Err(SyncError::Parse));
    assert_eq!(read_reply(""), Err(SyncError::Parse));
}

#[test]
fn reply_without_path() {
    assert_eq!(read_reply(r#"{"data":{"id":"abc"}}"#), Err(SyncError::MissingLink));
    assert_eq!(read_reply(r#"{"data":{"path":7}}"#), Err(SyncError::MissingLink));
    assert_eq!(read_reply("[]"), Err(SyncError::MissingLink));
}

#[test]
fn classify_reply_cases() {
    assert_eq!(classify_reply(true, Some("u".to_string())), Err(SyncError::Api));
    assert_eq!(classify_reply(false, None), Err(SyncError::MissingLink));
    assert_eq!(classify_reply(false, Some("u".to_string())), Ok("u".to_string()));
}

#[test]
fn link_validity() {
    assert!(is_valid_link("https://w.wallhaven.cc/full/ab/wallhaven-abc.jpg"));
    assert!(!is_valid_link("not a url"));
    assert!(!is_valid_link(""));
}

#[test]
fn scrape_wallpaper_tag() {
    let page = r#"<div><img class="x" id="wallpaper" alt="w" src="https://w.example/a.png" /><img id="wallpaper" src="https://w.example/b.png"></div>"#;
    assert_eq!(scrape_img_link(page.to_string()), Ok("https://w.example/a.png".to_string()));
    assert_eq!(scrape_img_link("<img id=\"other\" src=\"x\">".to_string()), Err(SyncError::MissingLink));
}

#[test]
fn config_defaults_from_home() {
    let c = Config::with_home("/home/u");
    assert_eq!(c.save_location, "/home/u/Pictures/wall");
    assert!(c.integrity);
}
