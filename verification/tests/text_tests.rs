//! Runtime checks of the shared byte-text utilities.
use irust_core::text::{join_segments, slice_eq, slice_starts_with, split_segments};

#[test]
fn splitting_keeps_terminators_and_joining_restores() {
    for input in [
        b"".as_slice(),
        b"one line no newline",
        b"a\nb\n",
        b"a\n\nb",
        b"\n\n\n",
        b"trailing\n",
    ] {
        let segs = split_segments(input);
        assert_eq!(join_segments(&segs), input.to_vec());
    }
}

#[test]
fn split_segments_each_end_in_one_newline_except_the_last() {
    let segs = split_segments(b"a\nbc\nlast");
    assert_eq!(segs, vec![b"a\n".to_vec(), b"bc\n".to_vec(), b"last".to_vec()]);
}

#[test]
fn prefix_and_equality_tests() {
    assert!(slice_starts_with(b"warning: x", b"warning"));
    assert!(!slice_starts_with(b"warn", b"warning"));
    assert!(slice_starts_with(b"anything", b""));
    assert!(slice_eq(b"same", b"same"));
    assert!(!slice_eq(b"same", b"sam"));
    assert!(!slice_eq(b"same", b"samE"));
}
