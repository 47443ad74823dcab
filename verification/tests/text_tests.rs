use directory_spider::text::{extension_of, file_name, parent, path_is_within, u128_to_string};

#[test]
fn decimal_zero() {
    assert_eq!(u128_to_string(0), "0");
}

#[test]
fn decimal_digits() {
    assert_eq!(u128_to_string(7), "7");
    assert_eq!(u128_to_string(10), "10");
    assert_eq!(u128_to_string(1234567890123), "1234567890123");
    assert_eq!(u128_to_string(u128::MAX), u128::MAX.to_string());
}

#[test]
fn file_name_of_paths() {
    assert_eq!(file_name("/data/a.txt"), "a.txt");
    assert_eq!(file_name("C:\\dir\\b.log"), "b.log");
    assert_eq!(file_name("noslash"), "noslash");
    assert_eq!(file_name("/data/"), "");
}

#[test]
fn extension_of_names() {
    assert_eq!(extension_of("a.txt"), Some("txt".to_string()));
    assert_eq!(extension_of("archive.tar.gz"), Some("gz".to_string()));
    assert_eq!(extension_of(".bashrc"), None);
    assert_eq!(extension_of("plain"), None);
    assert_eq!(extension_of("trailing."), Some("".to_string()));
}

#[test]
fn parent_of_paths() {
    assert_eq!(parent("/data/a.txt"), Some("/data".to_string()));
    assert_eq!(parent("/a"), Some("/".to_string()));
    assert_eq!(parent("bare"), None);
    assert_eq!(parent("C:\\other\\x.txt"), Some("C:\\other".to_string()));
}

#[test]
fn containment() {
    assert!(path_is_within("/data/sub", "/data"));
    assert!(path_is_within("/data/sub/deep.txt", "/data"));
    assert!(path_is_within("/data", "/data"));
    assert!(!path_is_within("/datax", "/data"));
    assert!(!path_is_within("/other", "/data"));
    assert!(!path_is_within("/dat", "/data"));
    assert!(path_is_within("C:\\data\\x", "C:\\data"));
}
