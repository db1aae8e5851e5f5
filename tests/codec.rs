use riwaq_sql::codec::{frame, unframe};
use riwaq_sql::error::BoundaryError;

#[test]
fn frame_appends_one_terminator() {
    assert_eq!(frame(b"{\"op\":\"Select\"}".to_vec()).unwrap(), b"{\"op\":\"Select\"}\0".to_vec());
    assert_eq!(frame(vec![]).unwrap(), vec![0u8]);
}

#[test]
fn frame_refuses_an_embedded_terminator() {
    assert_eq!(frame(vec![1, 0, 2]), Err(BoundaryError::EmbeddedTerminator));
}

#[test]
fn unframe_reads_up_to_the_terminator() {
    let framed = frame(b"[1,2]".to_vec()).unwrap();
    assert_eq!(unframe(Some(&framed)).unwrap(), b"[1,2]".to_vec());
    assert_eq!(unframe(Some(b"ab\0cd\0")).unwrap(), b"ab".to_vec());
}

#[test]
fn unframe_failures_are_boundary_errors() {
    assert_eq!(unframe(None), Err(BoundaryError::NullBuffer));
    assert_eq!(unframe(Some(b"abc")), Err(BoundaryError::MissingTerminator));
    assert_eq!(unframe(Some(b"")), Err(BoundaryError::MissingTerminator));
}
