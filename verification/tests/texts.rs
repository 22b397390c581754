use std::path::Path;

use tachikoma::names::{path_slug, vm_name};
use tachikoma::os_path::{path_bytes, path_text, shown};
use tachikoma::path;
use tachikoma::text::{decimal_text, is_white_space, join, signed_decimal_text, trim};

#[test]
fn decimals_as_std_writes_them() {
    for n in [0u64, 1, 9, 10, 11, 99, 100, 65535, 1_000_000, u64::MAX] {
        assert_eq!(decimal_text(n), n.to_string());
    }
    for n in [0i32, 1, -1, 10, -10, 127, i32::MAX, i32::MIN] {
        assert_eq!(signed_decimal_text(n), n.to_string());
    }
}

#[test]
fn joining_as_std_does() {
    let lists: [&[&str]; 4] = [&[], &["a"], &["a", "", "b"], &["", ""]];
    for words in lists {
        let owned: Vec<String> = words.iter().map(|w| w.to_string()).collect();
        assert_eq!(join(&owned, " "), words.join(" "));
    }
}

#[test]
fn trimming_as_std_does() {
    for text in ["", " ", "a", " a ", "\t\n a b \r\n", "\u{a0}x\u{3000}", "x\u{200b}", "\u{85}y\u{2028}"] {
        assert_eq!(trim(text), text.trim());
    }
}

#[test]
fn white_space_as_std_has_it() {
    for code in 0..0x3100u32 {
        if let Some(c) = char::from_u32(code) {
            assert_eq!(is_white_space(c), c.is_whitespace(), "{code:x}");
        }
    }
}

#[test]
fn paths_as_std_reads_them() {
    let paths = [
        "", "/", "//", "a", "/a", "a/", "a//", "/a/b", "/a/b/", "/a//b", "a/b/c", ".", "..", "/..",
        "a/..", "a/../", "a/.", "./a", "/a/.", "/a/./", "/a/./b", "a/./", "...", "/tmp/my repo",
        "./", "../", "/.", "/./", "a/.//", "././", "/a/.hidden",
    ];
    for text in paths {
        let std_path = Path::new(text);
        assert_eq!(
            path::file_name(text),
            std_path.file_name().map(|n| n.to_string_lossy().to_string()),
            "file name of {text:?}"
        );
        assert_eq!(
            path::parent(text),
            std_path.parent().map(|p| p.to_string_lossy().to_string()),
            "parent of {text:?}"
        );
        for tail in ["", "b", "/b", "b/c", ".git"] {
            assert_eq!(path::join(text, tail), std_path.join(tail).to_string_lossy(), "{text:?} {tail:?}");
        }
    }
}

#[test]
fn names_of_machines() {
    assert_eq!(vm_name("myapp", "main"), "tachikoma-myapp-main");
    assert_eq!(vm_name("myrepo", "feature/x"), "tachikoma-myrepo-feature-x");
    assert_eq!(path_slug("/a/b/c"), "-a-b-c");
}

#[test]
fn paths_of_the_host_come_back_from_their_texts() {
    let paths: [&[u8]; 6] =
        [b"", b"/home/u", "/home/caf\u{e9}".as_bytes(), b"/home/\xff", b"/\xc3\xa9/\x80/x", b"/h\xe9/"];
    for bytes in paths {
        let text = path_text(&bytes.to_vec());
        assert_eq!(path_bytes(&text), bytes);
        assert_eq!(shown(&text), String::from_utf8_lossy(bytes));
        // Joining the texts joins the paths.
        let joined = path_bytes(&path::join(&text, ".x/\u{e9}"));
        let mut expected = bytes.to_vec();
        if !bytes.is_empty() && bytes.last() != Some(&b'/') {
            expected.push(b'/');
        }
        expected.extend(".x/\u{e9}".as_bytes());
        assert_eq!(joined, expected);
    }
    assert_eq!(path_text(&b"/home/caf\xc3\xa9".to_vec()), "/home/caf\u{e9}");
    assert_eq!(path_text(&b"/a\xff".to_vec()), "/a\0pp");
    assert_eq!(path_slug(&path_text(&b"/a/\xff".to_vec())), "-a-\u{fffd}");
}
