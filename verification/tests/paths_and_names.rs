use shared_auth::names::{hex_text, FileName};
use shared_auth::path::{
    bytes_equal, components, is_absolute, is_descriptor_route, is_numeric, same_path,
};
use std::path::Path;

const PATHS: [&str; 24] = [
    "", "/", "//", ".", "./", "./a", "a", "a/", "a/.", "a/./b", "a//b", "/a", "/a/", "/a/b",
    "/a//b/", "/./a", "/a/..", "/a/../b", "../a", "a/..", "..", "/.", "/proc/1/fd/2",
    "x/proc/1/fd/2",
];

#[test]
fn components_are_those_of_the_standard_library() {
    for path in PATHS {
        let expected: Vec<Vec<u8>> = Path::new(path)
            .iter()
            .map(|part| part.as_encoded_bytes().to_vec())
            .collect();
        assert_eq!(components(path.as_bytes()), expected, "{path}");
        assert_eq!(is_absolute(path.as_bytes()), Path::new(path).is_absolute(), "{path}");
    }
}

#[test]
fn paths_are_the_same_as_for_the_standard_library() {
    for left in PATHS {
        for right in PATHS {
            assert_eq!(
                same_path(left.as_bytes(), right.as_bytes()),
                Path::new(left) == Path::new(right),
                "{left} {right}"
            );
        }
    }
}

#[test]
fn trailing_slashes_and_dots_do_not_matter() {
    assert!(same_path(b"/private/auth/", b"/private/auth"));
    assert!(same_path(b"/private/auth/.", b"/private/auth"));
    assert!(!same_path(b"/private/auth", b"/private"));
}

#[test]
fn descriptor_routes_are_numeric_and_exact() {
    for route in ["/proc/1/fd/2", "/proc/123/fd/0", "//proc/1/./fd/2/", "x/proc/1/fd/2"] {
        assert!(is_descriptor_route(route.as_bytes()), "{route}");
    }
    for route in [
        "/proc/self/fd/0",
        "/proc/1/fd/nope",
        "/proc/1/fd",
        "/proc/1/fd/2/x",
        "/proc/1/task/2",
        "/sys/1/fd/2",
        "proc/1/fd/2",
        "/proc/-1/fd/2",
        "/proc/1/fd/2a",
        "",
    ] {
        assert!(!is_descriptor_route(route.as_bytes()), "{route}");
    }
    assert!(!is_descriptor_route(b"/proc/1/fd/\xff"));
}

#[test]
fn numbers_are_digits() {
    assert!(is_numeric(b"0123456789"));
    assert!(!is_numeric(b""));
    assert!(!is_numeric(b"1/"));
    assert!(!is_numeric(b"1:"));
    assert!(bytes_equal(b"ab", b"ab"));
    assert!(!bytes_equal(b"ab", b"abc"));
    assert!(!bytes_equal(b"ab", b"ac"));
}

#[test]
fn names_are_fixed_or_hexadecimal() {
    assert_eq!(FileName::Credentials.text(), "auth.json");
    assert_eq!(FileName::Lock.text(), "auth.lock");
    for suffix in [0u64, 1, 0xabc, 0x0123_4567_89ab_cdef, u64::MAX] {
        assert_eq!(FileName::Temporary(suffix).text(), format!(".auth-{suffix:016x}.tmp"));
    }
    assert_eq!(FileName::Temporary(0x2f).text(), ".auth-000000000000002f.tmp");
    assert_eq!(hex_text(0x1234, 2), "34");
    assert_eq!(hex_text(0x1234, 0), "");
    let wide = hex_text(u64::MAX, 1_000_000);
    assert_eq!(wide.len(), 1_000_000);
    assert!(wide.ends_with("0ffffffffffffffff"));
}

#[test]
fn names_differ_and_stay_in_the_directory() {
    let names = [
        FileName::Credentials.text(),
        FileName::Lock.text(),
        FileName::Temporary(1).text(),
        FileName::Temporary(0x10).text(),
    ];
    for (i, left) in names.iter().enumerate() {
        assert!(left.len() > 2 && !left.contains('/'));
        for right in &names[i + 1..] {
            assert_ne!(left, right);
        }
    }
}
