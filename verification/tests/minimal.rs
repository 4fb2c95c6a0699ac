use davfs::fs::{DavFileSystem, DavPath, DavProp, FsError, FsTime, OpenOptions};
use davfs::memfs::{MemFs, NullFs};

fn npath(s: &str) -> DavPath {
    DavPath::new(s.as_bytes().to_vec())
}

fn nprop(name: &str) -> DavProp {
    DavProp { name: name.to_string(), prefix: None, namespace: None, xml: None }
}

#[test]
fn minimal_backend_optional_ops_are_not_implemented() {
    let mut fs = NullFs;
    let t = FsTime { secs: 0, nanos: 0 };
    assert_eq!(fs.create_dir(&npath("/d")), Err(FsError::NotImplemented));
    assert_eq!(fs.remove_dir(&npath("/d")), Err(FsError::NotImplemented));
    assert_eq!(fs.remove_file(&npath("/f")), Err(FsError::NotImplemented));
    assert_eq!(fs.rename(&npath("/a"), &npath("/b")), Err(FsError::NotImplemented));
    assert_eq!(fs.copy(&npath("/a"), &npath("/b")), Err(FsError::NotImplemented));
    assert_eq!(fs.set_accessed(&npath("/f"), t), Err(FsError::NotImplemented));
    assert_eq!(fs.set_modified(&npath("/f"), t), Err(FsError::NotImplemented));
    assert!(matches!(
        fs.patch_props(&npath("/f"), vec![nprop("a")], vec![]),
        Err(FsError::NotImplemented)
    ));
    assert!(matches!(fs.get_props(&npath("/f"), true), Err(FsError::NotImplemented)));
    assert!(matches!(fs.get_prop(&npath("/f"), nprop("a")), Err(FsError::NotImplemented)));
    assert_eq!(fs.get_quota(), Err(FsError::NotImplemented));
}

#[test]
fn minimal_backend_has_no_props() {
    let fs = NullFs;
    assert!(!fs.have_props(&npath("/any")));
}

#[test]
fn symlink_metadata_defaults_to_metadata() {
    let fs = NullFs;
    assert!(matches!(fs.metadata(&npath("/x")), Err(FsError::NotFound)));
    assert!(matches!(fs.symlink_metadata(&npath("/x")), Err(FsError::NotFound)));

    let mut mem = MemFs::new();
    mem.add_file(b"/x".to_vec(), b"abc".to_vec(), FsTime { secs: 7, nanos: 8 });
    let a = mem.metadata(&npath("/x")).unwrap();
    let b = mem.symlink_metadata(&npath("/x")).unwrap();
    assert_eq!(a.len, b.len);
    assert_eq!(a.modified, b.modified);
    assert_eq!(a.is_dir, b.is_dir);
}

#[test]
fn minimal_backend_required_ops_answer_not_found() {
    let fs = NullFs;
    assert!(matches!(fs.open(&npath("/x"), OpenOptions::read()), Err(FsError::NotFound)));
    assert!(matches!(fs.read_dir(&npath("/x")), Err(FsError::NotFound)));
}
