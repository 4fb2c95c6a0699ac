use davfs::fs::{
    BoxCloneFs, DavDirEntry, DavFileSystem, DavPath, DavProp, DavReadDir, FsError, FsTime,
    OpenOptions,
};
use davfs::memfs::MemFs;

fn tpath(s: &str) -> DavPath {
    DavPath::new(s.as_bytes().to_vec())
}

fn tprop(name: &str, xml: Option<&[u8]>) -> DavProp {
    DavProp {
        name: name.to_string(),
        prefix: None,
        namespace: None,
        xml: xml.map(|b| b.to_vec()),
    }
}

fn ttime() -> FsTime {
    FsTime { secs: 1_000, nanos: 0 }
}

#[test]
fn open_missing_on_empty_backend_is_not_found() {
    let fs = MemFs::new();
    assert!(matches!(
        fs.open(&tpath("/missing.txt"), OpenOptions::read()),
        Err(FsError::NotFound)
    ));
}

#[test]
fn open_create_new_on_present_file_is_exists() {
    let mut fs = MemFs::new();
    fs.add_file(b"/a.txt".to_vec(), b"hello".to_vec(), ttime());
    let mut o = OpenOptions::write();
    o.create_new = true;
    assert!(matches!(fs.open(&tpath("/a.txt"), o), Err(FsError::Exists)));
}

#[test]
fn read_dir_yields_each_child_with_its_kind() {
    let mut fs = MemFs::new();
    fs.add_dir(
        b"/dir".to_vec(),
        vec![b"a.txt".to_vec(), b"b".to_vec()],
        ttime(),
    );
    fs.add_file(b"/dir/a.txt".to_vec(), b"hi".to_vec(), ttime());
    fs.add_dir(b"/dir/b".to_vec(), vec![], ttime());

    let mut rd = fs.read_dir(&tpath("/dir")).unwrap();
    let mut seen: Vec<(Vec<u8>, bool, bool)> = Vec::new();
    while let Some(e) = rd.next() {
        seen.push((e.name(), e.is_dir().unwrap(), e.is_file().unwrap()));
    }
    assert_eq!(seen.len(), 2);
    assert!(seen.contains(&(b"a.txt".to_vec(), false, true)));
    assert!(seen.contains(&(b"b".to_vec(), true, false)));
}

#[test]
fn read_dir_on_missing_dir_is_not_found() {
    let fs = MemFs::new();
    assert!(matches!(fs.read_dir(&tpath("/dir")), Err(FsError::NotFound)));
}

#[test]
fn patch_props_reports_per_property_results() {
    let mut fs = MemFs::new();
    fs.add_file(b"/x".to_vec(), b"".to_vec(), ttime());
    fs.protect("bar".to_string());

    let set = vec![tprop("foo", Some(b"1"))];
    let remove = vec![tprop("bar", None)];
    let results = fs.patch_props(&tpath("/x"), set, remove).unwrap();

    assert_eq!(results.len(), 2);
    assert_eq!(results[0].0, Ok(()));
    assert_eq!(results[0].1.name, "foo");
    assert_eq!(results[1].0, Err(FsError::Forbidden));
    assert_eq!(results[1].1.name, "bar");

    // The unprotected property was applied; the protected one stayed out.
    assert_eq!(fs.get_prop(&tpath("/x"), tprop("foo", None)), Ok(b"1".to_vec()));
    assert!(matches!(
        fs.get_prop(&tpath("/x"), tprop("bar", None)),
        Err(FsError::NotFound)
    ));
    assert!(fs.have_props(&tpath("/x")));
}

#[test]
fn patch_props_on_missing_node_fails_as_a_whole() {
    let mut fs = MemFs::new();
    assert!(matches!(
        fs.patch_props(&tpath("/x"), vec![tprop("foo", Some(b"1"))], vec![]),
        Err(FsError::NotFound)
    ));
}

#[test]
fn get_props_lists_names_without_content_on_request() {
    let mut fs = MemFs::new();
    fs.add_file(b"/x".to_vec(), b"".to_vec(), ttime());
    fs.patch_props(&tpath("/x"), vec![tprop("foo", Some(b"1"))], vec![]).unwrap();

    let with_content = fs.get_props(&tpath("/x"), true).unwrap();
    assert_eq!(with_content.len(), 1);
    assert_eq!(with_content[0].name, "foo");
    assert_eq!(with_content[0].xml, Some(b"1".to_vec()));

    let names_only = fs.get_props(&tpath("/x"), false).unwrap();
    assert_eq!(names_only.len(), 1);
    assert_eq!(names_only[0].name, "foo");
    assert_eq!(names_only[0].xml, None);
}

#[test]
fn rename_directory_over_existing_file_fails() {
    let mut fs = MemFs::new();
    fs.add_dir(b"/dir_a".to_vec(), vec![], ttime());
    fs.add_file(b"/file_b".to_vec(), b"data".to_vec(), ttime());
    assert!(fs.rename(&tpath("/dir_a"), &tpath("/file_b")).is_err());
    // Nothing moved.
    assert!(fs.metadata(&tpath("/dir_a")).unwrap().is_dir);
    assert!(!fs.metadata(&tpath("/file_b")).unwrap().is_dir);
}

#[test]
fn rename_file_over_existing_file_replaces_it() {
    let mut fs = MemFs::new();
    fs.add_file(b"/f1".to_vec(), b"one".to_vec(), ttime());
    fs.add_file(b"/f2".to_vec(), b"two".to_vec(), ttime());
    assert_eq!(fs.rename(&tpath("/f1"), &tpath("/f2")), Ok(()));
    assert!(matches!(fs.metadata(&tpath("/f1")), Err(FsError::NotFound)));
    assert_eq!(fs.metadata(&tpath("/f2")).unwrap().len, 3);
}

#[test]
fn rename_moves_everything_inside_a_directory() {
    let mut fs = MemFs::new();
    fs.add_dir(b"/d".to_vec(), vec![b"c".to_vec()], ttime());
    fs.add_file(b"/d/c".to_vec(), b"leaf".to_vec(), ttime());
    assert_eq!(fs.rename(&tpath("/d"), &tpath("/e")), Ok(()));
    assert!(matches!(fs.metadata(&tpath("/d")), Err(FsError::NotFound)));
    assert!(fs.metadata(&tpath("/e")).unwrap().is_dir);
    assert_eq!(fs.metadata(&tpath("/e/c")).unwrap().len, 4);
}

#[test]
fn rename_missing_source_is_not_found() {
    let mut fs = MemFs::new();
    assert!(matches!(
        fs.rename(&tpath("/gone"), &tpath("/anywhere")),
        Err(FsError::NotFound)
    ));
}

#[test]
fn create_and_remove_round_trip() {
    let mut fs = MemFs::new();
    assert_eq!(fs.create_dir(&tpath("/d")), Ok(()));
    assert_eq!(fs.create_dir(&tpath("/d")), Err(FsError::Exists));
    assert!(fs.metadata(&tpath("/d")).unwrap().is_dir);
    assert_eq!(fs.remove_file(&tpath("/d")), Err(FsError::Forbidden));
    assert_eq!(fs.remove_dir(&tpath("/d")), Ok(()));
    assert!(matches!(fs.metadata(&tpath("/d")), Err(FsError::NotFound)));
    assert_eq!(fs.remove_dir(&tpath("/d")), Err(FsError::NotFound));

    fs.add_file(b"/f".to_vec(), b"x".to_vec(), ttime());
    assert_eq!(fs.remove_dir(&tpath("/f")), Err(FsError::Forbidden));
    assert_eq!(fs.remove_file(&tpath("/f")), Ok(()));
    assert!(matches!(fs.metadata(&tpath("/f")), Err(FsError::NotFound)));
}

#[test]
fn box_clone_shares_the_recorded_tree() {
    let mut fs = MemFs::new();
    fs.add_file(b"/f".to_vec(), b"abc".to_vec(), ttime());
    let copy = fs.box_clone();
    let m = copy.metadata(&tpath("/f")).unwrap();
    assert_eq!(m.len, 3);
    assert!(!m.is_dir);
}

#[test]
fn copy_replaces_a_file_and_carries_its_properties() {
    let mut fs = MemFs::new();
    fs.add_file(b"/src".to_vec(), b"data".to_vec(), ttime());
    fs.add_file(b"/dst".to_vec(), b"old".to_vec(), ttime());
    fs.patch_props(&tpath("/src"), vec![tprop("foo", Some(b"1"))], vec![]).unwrap();

    assert_eq!(fs.copy(&tpath("/src"), &tpath("/dst")), Ok(()));
    assert_eq!(fs.metadata(&tpath("/src")).unwrap().len, 4);
    assert_eq!(fs.metadata(&tpath("/dst")).unwrap().len, 4);
    assert_eq!(fs.get_prop(&tpath("/dst"), tprop("foo", None)), Ok(b"1".to_vec()));
}

#[test]
fn copy_refuses_directories() {
    let mut fs = MemFs::new();
    fs.add_dir(b"/d".to_vec(), vec![], ttime());
    fs.add_file(b"/f".to_vec(), b"x".to_vec(), ttime());
    assert_eq!(fs.copy(&tpath("/d"), &tpath("/e")), Err(FsError::Forbidden));
    assert_eq!(fs.copy(&tpath("/f"), &tpath("/d")), Err(FsError::Forbidden));
    assert!(matches!(fs.copy(&tpath("/gone"), &tpath("/f")), Err(FsError::NotFound)));
}

#[test]
fn set_modified_updates_the_snapshot() {
    let mut fs = MemFs::new();
    fs.add_file(b"/f".to_vec(), b"x".to_vec(), ttime());
    let t2 = FsTime { secs: 2_000, nanos: 500 };
    assert_eq!(fs.set_modified(&tpath("/f"), t2), Ok(()));
    assert_eq!(fs.metadata(&tpath("/f")).unwrap().modified, Ok(t2));
    assert!(matches!(
        fs.set_modified(&tpath("/gone"), t2),
        Err(FsError::NotFound)
    ));
}

#[test]
fn get_quota_reports_stored_bytes_and_no_total() {
    let mut fs = MemFs::new();
    assert_eq!(fs.get_quota(), Ok((0, None)));
    fs.add_file(b"/a".to_vec(), b"abc".to_vec(), ttime());
    fs.add_file(b"/b".to_vec(), b"de".to_vec(), ttime());
    fs.add_dir(b"/d".to_vec(), vec![], ttime());
    assert_eq!(fs.get_quota(), Ok((5, None)));
}
