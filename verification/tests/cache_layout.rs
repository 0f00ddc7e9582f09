use gifterm::cache::{cache_dir_for, cache_key, cache_size_kb, frame_file_name, hash_file};
use gifterm::paths::join_path;

#[test]
fn cache_key_of_empty_file() {
    assert_eq!(cache_key(b"", None), "e3b0c44298fc1c14");
}

#[test]
fn cache_key_with_width() {
    assert_eq!(cache_key(b"abc", Some(400)), "ba7816bf8f01cfea_w400");
    assert_eq!(cache_key(b"abc", Some(0)), "ba7816bf8f01cfea_w0");
}

#[test]
fn cache_key_widths_differ() {
    let a = cache_key(b"gif", Some(40));
    let b = cache_key(b"gif", Some(400));
    let c = cache_key(b"gif", None);
    assert_ne!(a, b);
    assert_ne!(a, c);
    assert_ne!(b, c);
    assert_eq!(c.len(), 16);
    assert!(c.chars().all(|ch| ch.is_ascii_hexdigit() && !ch.is_ascii_uppercase()));
}

#[test]
fn cache_key_depends_on_contents() {
    assert_ne!(cache_key(b"one", None), cache_key(b"two", None));
    assert_eq!(cache_key(b"one", Some(3)), cache_key(b"one", Some(3)));
}

#[test]
fn frame_file_names() {
    assert_eq!(frame_file_name(0), "0000.rgba");
    assert_eq!(frame_file_name(7), "0007.rgba");
    assert_eq!(frame_file_name(46), "0046.rgba");
    assert_eq!(frame_file_name(9999), "9999.rgba");
    assert_eq!(frame_file_name(12345), "12345.rgba");
}

#[test]
fn join_path_cases() {
    assert_eq!(join_path("/home/u", ".cache"), "/home/u/.cache");
    assert_eq!(join_path("/home/u/", ".cache"), "/home/u/.cache");
    assert_eq!(join_path("", "gifterm"), "gifterm");
    assert_eq!(join_path("/a", "/b"), "/b");
    assert_eq!(join_path("/a", ""), "/a/");
    assert_eq!(join_path("/tmp/ü", "x"), "/tmp/ü/x");
}

#[test]
fn join_path_agrees_with_pathbuf() {
    for (base, name) in [("/home/u", ".cache"), ("/home/u/", "k"), ("", "gifterm"), ("/a", "/b"), ("rel", "x")] {
        let expected = std::path::Path::new(base).join(name);
        assert_eq!(join_path(base, name), expected.to_str().unwrap());
    }
}

#[test]
fn cache_dir_prefers_xdg() {
    assert_eq!(cache_dir_for(Some("/x/cache"), Some("/home/u")), "/x/cache/gifterm");
    assert_eq!(cache_dir_for(Some(""), Some("/home/u")), "gifterm");
}

#[test]
fn cache_dir_falls_back_to_home_then_tmp() {
    assert_eq!(cache_dir_for(None, Some("/home/u")), "/home/u/.cache/gifterm");
    assert_eq!(cache_dir_for(None, None), "/tmp/.cache/gifterm");
}

#[test]
fn cache_size_in_kilobytes() {
    assert_eq!(cache_size_kb(&vec![]), 0);
    assert_eq!(cache_size_kb(&vec![vec![0u8; 1023]]), 0);
    assert_eq!(cache_size_kb(&vec![vec![0u8; 1023], vec![0u8; 1]]), 1);
    assert_eq!(cache_size_kb(&vec![vec![0u8; 4096]; 47]), 188);
}

#[test]
fn hash_file_is_digest_prefix() {
    assert_eq!(hash_file(b""), "e3b0c44298fc1c14");
    assert_eq!(hash_file(b"abc"), "ba7816bf8f01cfea");
    let h = hash_file(&vec![7u8; 20000]);
    assert_eq!(h.len(), 16);
    assert!(h.chars().all(|c| c.is_ascii_digit() || ('a'..='f').contains(&c)));
    assert_ne!(hash_file(&vec![7u8; 20000]), hash_file(&vec![7u8; 8192]));
}
