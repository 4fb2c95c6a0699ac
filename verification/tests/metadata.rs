use davfs::fs::{BoxCloneMd, DavMetaData, FsError, FsTime};
use davfs::memfs::MemMeta;

#[test]
fn is_file_is_opposite_of_is_dir() {
    let d = MemMeta { len: 0, modified: Err(FsError::NotImplemented), is_dir: true };
    assert!(d.is_dir());
    assert!(!d.is_file());
    let f = MemMeta { len: 7, modified: Err(FsError::NotImplemented), is_dir: false };
    assert!(!f.is_dir());
    assert!(f.is_file());
}

#[test]
fn is_symlink_defaults_to_false() {
    let d = MemMeta { len: 0, modified: Err(FsError::NotImplemented), is_dir: true };
    assert!(!d.is_symlink());
    let f = MemMeta { len: 7, modified: Err(FsError::NotImplemented), is_dir: false };
    assert!(!f.is_symlink());
}

#[test]
fn optional_timestamps_default_to_not_implemented() {
    let m = MemMeta { len: 1, modified: Ok(FsTime { secs: 3, nanos: 4 }), is_dir: false };
    assert_eq!(m.accessed(), Err(FsError::NotImplemented));
    assert_eq!(m.created(), Err(FsError::NotImplemented));
    assert_eq!(m.status_changed(), Err(FsError::NotImplemented));
    assert_eq!(m.executable(), Err(FsError::NotImplemented));
}

#[test]
fn len_and_modified_report_the_snapshot() {
    let t = FsTime { secs: 3, nanos: 4 };
    let m = MemMeta { len: 9, modified: Ok(t), is_dir: false };
    assert_eq!(m.len(), 9);
    assert_eq!(m.modified(), Ok(t));
}

#[test]
fn box_clone_keeps_the_snapshot() {
    let t = FsTime { secs: 3, nanos: 4 };
    let m = MemMeta { len: 9, modified: Ok(t), is_dir: true };
    let c = m.box_clone();
    assert_eq!(c.len, 9);
    assert_eq!(c.modified, Ok(t));
    assert!(c.is_dir);
}

#[test]
fn error_description_is_one_fixed_line() {
    assert_eq!(FsError::NotFound.description(), "DavFileSystem error");
    assert_eq!(FsError::Exists.description(), "DavFileSystem error");
}
