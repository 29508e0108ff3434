use cran_proxy::shape::{has_prefix, has_suffix, is_single_segment, SLASH};

#[test]
fn prefix_of_a_text() {
    assert!(has_prefix(b"/src/contrib/x", b"/src/contrib/"));
    assert!(has_prefix(b"/src/contrib/", b"/src/contrib/"));
    assert!(has_prefix(b"abc", b""));
    assert!(has_prefix(b"", b""));
    assert!(!has_prefix(b"/src/contri", b"/src/contrib/"));
    assert!(!has_prefix(b"/src/contriB/x", b"/src/contrib/"));
    assert!(!has_prefix(b"x/src/contrib/", b"/src/contrib/"));
    assert!(!has_prefix(b"", b"a"));
}

#[test]
fn suffix_of_a_text() {
    assert!(has_suffix(b"pkg_1.0.tar.gz", b".tar.gz"));
    assert!(has_suffix(b".tar.gz", b".tar.gz"));
    assert!(has_suffix(b"abc", b""));
    assert!(has_suffix(b"", b""));
    assert!(!has_suffix(b"tar.gz", b".tar.gz"));
    assert!(!has_suffix(b"pkg_1.0.tar.gz ", b".tar.gz"));
    assert!(!has_suffix(b"pkg_1.0.tar.gZ", b".tar.gz"));
    assert!(!has_suffix(b"pkg_1.0.tar-gz", b".tar.gz"));
    assert!(!has_suffix(b"", b"z"));
}

#[test]
fn segment_after_a_position() {
    assert_eq!(SLASH, b'/');
    assert!(is_single_segment(b"/a/b", 3));
    assert!(!is_single_segment(b"/a/b", 2));
    assert!(!is_single_segment(b"/a/b", 0));
    assert!(is_single_segment(b"/a/b", 4));
    assert!(is_single_segment(b"/a/b", 400));
    assert!(is_single_segment(b"", 0));
    assert!(!is_single_segment(b"ab/", 1));
}
