use davfs::fs::{DavMetaData, FsError, FsTime};
use davfs::memfs::MemMeta;

#[test]
fn etag_is_len_and_micros_in_hex() {
    // 1 s + 2000 ns = 1_000_002 us = 0xf4242; 28 = 0x1c.
    let m = MemMeta {
        len: 28,
        modified: Ok(FsTime { secs: 1, nanos: 2000 }),
        is_dir: false,
    };
    assert_eq!(m.etag(), "1c-f4242");
}

#[test]
fn etag_same_inputs_same_tag() {
    let t = FsTime { secs: 1_700_000_000, nanos: 123_456_789 };
    let a = MemMeta { len: 5, modified: Ok(t), is_dir: false };
    let b = MemMeta { len: 5, modified: Ok(t), is_dir: true };
    assert_eq!(a.etag(), b.etag());
}

#[test]
fn etag_changes_with_len() {
    let t = FsTime { secs: 10, nanos: 0 };
    let a = MemMeta { len: 5, modified: Ok(t), is_dir: false };
    let b = MemMeta { len: 6, modified: Ok(t), is_dir: false };
    assert_ne!(a.etag(), b.etag());
}

#[test]
fn etag_changes_with_time() {
    let a = MemMeta { len: 5, modified: Ok(FsTime { secs: 10, nanos: 0 }), is_dir: false };
    let b = MemMeta { len: 5, modified: Ok(FsTime { secs: 10, nanos: 1000 }), is_dir: false };
    assert_ne!(a.etag(), b.etag());
}

#[test]
fn etag_without_modified_is_len_alone() {
    let m = MemMeta { len: 42, modified: Err(FsError::NotImplemented), is_dir: false };
    assert_eq!(m.etag(), "2a");
}

#[test]
fn etag_before_epoch_is_len_alone() {
    let m = MemMeta { len: 3, modified: Ok(FsTime { secs: -5, nanos: 0 }), is_dir: false };
    assert_eq!(m.etag(), "3");
}

#[test]
fn etag_zero_len() {
    let m = MemMeta { len: 0, modified: Err(FsError::GeneralFailure), is_dir: true };
    assert_eq!(m.etag(), "0");
}
