use asset_cache::headers::{
    all_headers, bytes_contains, bytes_search, can_extract, classify, extension_of, extract_bytes,
    find_header, get_categories, mode_headers, HEADER_BYTES,
};

fn found(mode: &str, bytes: &[u8]) -> String {
    find_header(mode.to_string(), bytes.to_vec())
}

fn pairs(list: &[(&str, &str)]) -> Vec<(String, String)> {
    list.iter().map(|(a, b)| (a.to_string(), b.to_string())).collect()
}

#[test]
fn search_finds_the_first_position() {
    assert_eq!(bytes_search(b"xxabcabc".to_vec(), b"abc"), Some(2));
    assert_eq!(bytes_search(b"abc".to_vec(), b"abc"), Some(0));
    assert_eq!(bytes_search(b"xxab".to_vec(), b"ab"), Some(2));
    assert_eq!(bytes_search(b"aab".to_vec(), b"ab"), Some(1));
}

#[test]
fn search_without_a_match_finds_nothing() {
    assert_eq!(bytes_search(b"xxab".to_vec(), b"abc"), None);
    assert_eq!(bytes_search(b"ab".to_vec(), b"abc"), None);
    assert_eq!(bytes_search(Vec::new(), b"a"), None);
}

#[test]
fn empty_needle_is_not_found() {
    assert_eq!(bytes_search(b"abc".to_vec(), b""), None);
    assert_eq!(bytes_search(Vec::new(), b""), None);
    assert!(!bytes_contains(b"abc", b""));
}

#[test]
fn contains_looks_everywhere() {
    assert!(bytes_contains(b"..OggS..", b"OggS"));
    assert!(bytes_contains(b"OggS", b"OggS"));
    assert!(!bytes_contains(b"Ogg", b"OggS"));
    assert!(!bytes_contains(b"", b"OggS"));
}

#[test]
fn mp3_mark_counts_only_beside_the_media_type() {
    assert!(!bytes_contains(b"..ID3..", b"ID3"));
    assert!(!bytes_contains(b"binary/", b"ID3"));
    assert!(bytes_contains(b"binary/..ID3", b"ID3"));
    assert!(bytes_contains(b"ID3..binary/octet-stream", b"ID3"));
}

#[test]
fn headers_of_the_categories() {
    assert_eq!(mode_headers("sounds"), Some(("OggS", "ID3")));
    assert_eq!(mode_headers("images"), Some(("PNG", "WEBP")));
    assert_eq!(mode_headers("ktx-files"), Some(("KTX", "")));
    assert_eq!(mode_headers("rbxm-files"), Some(("<roblox!", "")));
    assert_eq!(mode_headers("music"), None);
    assert_eq!(mode_headers("Sounds"), None);
    assert_eq!(mode_headers(""), None);
}

#[test]
fn categories_are_listed() {
    assert_eq!(get_categories(), vec!["sounds", "images", "ktx-files", "rbxm-files"]);
    for category in get_categories() {
        assert!(mode_headers(&category).is_some());
    }
}

#[test]
fn header_is_found_for_each_category() {
    assert_eq!(found("sounds", b"http OggS data"), "OggS");
    assert_eq!(found("sounds", b"binary/ ID3 data"), "ID3");
    assert_eq!(found("images", b"\x89PNG\r\n"), "PNG");
    assert_eq!(found("images", b"RIFF\0\0\0\0WEBP"), "WEBP");
    assert_eq!(found("ktx-files", b"\xabKTX 11"), "KTX");
    assert_eq!(found("rbxm-files", b"..<roblox!.."), "<roblox!");
}

#[test]
fn first_header_of_a_category_comes_first() {
    assert_eq!(found("images", b"RIFF\0\0\0\0WEBP..PNG"), "PNG");
    assert_eq!(found("sounds", b"binary/ ID3 OggS"), "OggS");
}

#[test]
fn no_header_is_invalid() {
    assert_eq!(found("sounds", b"\x89PNG"), "INVALID");
    assert_eq!(found("sounds", b"ID3 alone"), "INVALID");
    assert_eq!(found("ktx-files", b""), "INVALID");
    assert_eq!(found("Music", b"OggS"), "INVALID");
    assert_eq!(found("", b"OggS"), "INVALID");
}

#[test]
fn bytes_before_the_file_are_cut_off() {
    assert_eq!(extract_bytes("OggS".to_string(), b"head OggS rest".to_vec()), b"OggS rest");
    assert_eq!(extract_bytes("PNG".to_string(), b"head \x89PNG rest".to_vec()), b"\x89PNG rest");
    assert_eq!(extract_bytes("KTX".to_string(), b"head \xabKTX rest".to_vec()), b"\xabKTX rest");
    assert_eq!(
        extract_bytes("WEBP".to_string(), b"head RIFF1234WEBP rest".to_vec()),
        b"RIFF1234WEBP rest"
    );
    assert_eq!(extract_bytes("<roblox!".to_string(), b"x<roblox!".to_vec()), b"<roblox!");
}

#[test]
fn bytes_without_the_header_are_kept() {
    assert_eq!(extract_bytes("OggS".to_string(), b"nothing".to_vec()), b"nothing");
    assert_eq!(extract_bytes(String::new(), b"nothing".to_vec()), b"nothing");
}

#[test]
fn file_must_start_inside_its_bytes() {
    assert!(!can_extract("PNG", &b"PNG".to_vec()));
    assert!(can_extract("PNG", &b"\x89PNG".to_vec()));
    assert!(!can_extract("WEBP", &b"1234567WEBP".to_vec()));
    assert!(can_extract("WEBP", &b"12345678WEBP".to_vec()));
    assert!(can_extract("OggS", &b"OggS".to_vec()));
    assert!(can_extract("PNG", &b"nothing".to_vec()));
}

#[test]
fn extracting_twice_changes_nothing() {
    let once = extract_bytes("WEBP".to_string(), b"head RIFF1234WEBP WEBP".to_vec());
    assert!(can_extract("WEBP", &once));
    assert_eq!(extract_bytes("WEBP".to_string(), once.clone()), once);
}

#[test]
fn extensions_of_headers() {
    assert_eq!(extension_of("OggS"), Some(".ogg"));
    assert_eq!(extension_of("ID3"), Some(".mp3"));
    assert_eq!(extension_of("PNG"), Some(".png"));
    assert_eq!(extension_of("WEBP"), Some(".webp"));
    assert_eq!(extension_of("KTX"), Some(".ktx"));
    assert_eq!(extension_of("<roblox!"), Some(".rbxm"));
    assert_eq!(extension_of("INVALID"), None);
    assert_eq!(extension_of(""), None);
}

#[test]
fn headers_come_with_their_categories() {
    let keys = vec!["images".to_string(), "other".to_string(), "ktx-files".to_string()];
    assert_eq!(
        all_headers(&keys),
        pairs(&[("PNG", "images"), ("WEBP", "images"), ("KTX", "ktx-files"), ("", "ktx-files")])
    );
    assert_eq!(all_headers(&Vec::new()), Vec::new());
}

#[test]
fn file_is_put_into_every_category_it_fits() {
    let headers = all_headers(&get_categories());
    assert_eq!(
        classify(&headers, "f", b"OggS \x89PNG RIFF0000WEBP"),
        pairs(&[("f", "sounds"), ("f", "images"), ("f", "images")])
    );
    assert_eq!(classify(&headers, "f", b"plain text"), Vec::new());
    assert_eq!(classify(&headers, "f", b"ID3"), Vec::new());
}

#[test]
fn classified_file_is_recognised_when_read_in_full() {
    let start = b"binary/ ID3".to_vec();
    let headers = all_headers(&get_categories());
    let put = classify(&headers, "f", &start);
    assert_eq!(put, pairs(&[("f", "sounds")]));
    let mut whole = start;
    whole.extend_from_slice(&[0; 5000]);
    assert_eq!(find_header(put[0].1.clone(), whole), "ID3");
}

#[test]
fn header_is_looked_for_in_the_first_bytes() {
    assert_eq!(HEADER_BYTES, 2048);
}
