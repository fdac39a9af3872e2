use std::path::Path;
use wl_mitmproxy::path::{file_name, is_absolute, join, parent};

/// Every text of up to `len` characters out of a separator, a dot and a letter.
fn texts(len: usize) -> Vec<String> {
    let mut all = vec![String::new()];
    let mut longest = all.clone();
    for _ in 0..len {
        let mut next = Vec::new();
        for text in &longest {
            for c in ['/', '.', 'a'] {
                let mut longer = text.clone();
                longer.push(c);
                next.push(longer);
            }
        }
        all.extend(next.clone());
        longest = next;
    }
    all
}

#[test]
fn file_name_agrees_with_std() {
    for text in texts(7) {
        let expected = Path::new(&text).file_name().and_then(|name| name.to_str());
        assert_eq!(file_name(&text), expected, "{text:?}");
    }
}

#[test]
fn parent_agrees_with_std() {
    for text in texts(7) {
        let expected = Path::new(&text)
            .parent()
            .map(|path| path.to_str().unwrap().as_bytes().to_vec());
        assert_eq!(parent(text.as_bytes()), expected, "{text:?}");
    }
}

#[test]
fn absoluteness_agrees_with_std() {
    for text in texts(4) {
        assert_eq!(is_absolute(text.as_bytes()), Path::new(&text).is_absolute(), "{text:?}");
    }
}

#[test]
fn join_agrees_with_std() {
    let all = texts(4);
    for base in &all {
        for path in &all {
            let expected = Path::new(base).join(path);
            assert_eq!(
                join(base.as_bytes(), path.as_bytes()),
                expected.to_str().unwrap().as_bytes(),
                "{base:?} {path:?}"
            );
        }
    }
}

#[test]
fn bytes_that_are_no_text_are_kept() {
    assert_eq!(join(&[0xff, 0x2f, 0xfe], b"name"), [0xff, 0x2f, 0xfe, 0x2f, b'n', b'a', b'm', b'e']);
    assert_eq!(parent(&[0xff, 0x2f, 0xfe]), Some(vec![0xff]));
}

#[test]
fn file_name_of_text_beyond_ascii() {
    assert_eq!(file_name("/run/wäyland-ß/"), Some("wäyland-ß"));
    assert_eq!(file_name("é/黑风雷/."), Some("黑风雷"));
    assert_eq!(file_name("黑/.."), None);
}

#[test]
fn a_plain_name_is_an_entry_of_its_directory() {
    for directory in ["/run/user/1000", "/run/user/1000/", "/", "//", ".", "x/./"] {
        let path = join(directory.as_bytes(), b"wayland-0-proxy");
        let text = std::str::from_utf8(&path).unwrap();
        assert_eq!(file_name(text), Some("wayland-0-proxy"), "{directory:?}");
    }
    assert_eq!(
        parent(&join(b"/run/user/1000//./", b"wayland-0-proxy")),
        Some(b"/run/user/1000".to_vec())
    );
}
