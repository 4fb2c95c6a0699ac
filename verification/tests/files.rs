use davfs::fs::{DavFile, DavFileSystem, DavMetaData, DavPath, FsError, FsTime, OpenOptions, SeekFrom};
use davfs::memfs::MemFs;

fn fpath(s: &str) -> DavPath {
    DavPath::new(s.as_bytes().to_vec())
}

fn ftime() -> FsTime {
    FsTime { secs: 99, nanos: 0 }
}

#[test]
fn read_walks_forward_through_the_content() {
    let mut fs = MemFs::new();
    fs.add_file(b"/f".to_vec(), b"hello".to_vec(), ftime());
    let mut h = fs.open(&fpath("/f"), OpenOptions::read()).unwrap();
    assert_eq!(h.read(3), Ok(b"hel".to_vec()));
    assert_eq!(h.read(10), Ok(b"lo".to_vec()));
    assert_eq!(h.read(10), Ok(b"".to_vec()));
}

#[test]
fn seek_repositions_reads() {
    let mut fs = MemFs::new();
    fs.add_file(b"/f".to_vec(), b"hello".to_vec(), ftime());
    let mut h = fs.open(&fpath("/f"), OpenOptions::read()).unwrap();
    assert_eq!(h.seek(SeekFrom::Start(1)), Ok(1));
    assert_eq!(h.read(3), Ok(b"ell".to_vec()));
    assert_eq!(h.seek(SeekFrom::End(-2)), Ok(3));
    assert_eq!(h.read(9), Ok(b"lo".to_vec()));
    assert_eq!(h.seek(SeekFrom::Current(-5)), Ok(0));
    assert!(matches!(h.seek(SeekFrom::Current(-1)), Err(FsError::GeneralFailure)));
}

#[test]
fn write_overwrites_at_the_position() {
    let mut fs = MemFs::new();
    fs.add_file(b"/f".to_vec(), b"hello".to_vec(), ftime());
    let mut h = fs.open(&fpath("/f"), OpenOptions::write()).unwrap();
    assert_eq!(h.seek(SeekFrom::Start(1)), Ok(1));
    assert_eq!(h.write(b"ipp"), Ok(()));
    assert_eq!(h.seek(SeekFrom::Start(0)), Ok(0));
    assert_eq!(h.read(16), Ok(b"hippo".to_vec()));
}

#[test]
fn write_beyond_the_end_zero_fills_the_gap() {
    let mut fs = MemFs::new();
    fs.add_file(b"/f".to_vec(), b"ab".to_vec(), ftime());
    let mut h = fs.open(&fpath("/f"), OpenOptions::write()).unwrap();
    assert_eq!(h.seek(SeekFrom::Start(4)), Ok(4));
    assert_eq!(h.write(b"z"), Ok(()));
    assert_eq!(h.seek(SeekFrom::Start(0)), Ok(0));
    assert_eq!(h.read(16), Ok(b"ab\0\0z".to_vec()));
}

#[test]
fn truncate_empties_the_handle_content() {
    let mut fs = MemFs::new();
    fs.add_file(b"/f".to_vec(), b"hello".to_vec(), ftime());
    let mut o = OpenOptions::write();
    o.truncate = true;
    let mut h = fs.open(&fpath("/f"), o).unwrap();
    assert_eq!(h.read(10), Ok(b"".to_vec()));
    assert_eq!(h.metadata().unwrap().len(), 0);
}

#[test]
fn append_opens_at_the_end() {
    let mut fs = MemFs::new();
    fs.add_file(b"/f".to_vec(), b"ab".to_vec(), ftime());
    let mut o = OpenOptions::write();
    o.append = true;
    let mut h = fs.open(&fpath("/f"), o).unwrap();
    assert_eq!(h.write(b"cd"), Ok(()));
    assert_eq!(h.seek(SeekFrom::Start(0)), Ok(0));
    assert_eq!(h.read(16), Ok(b"abcd".to_vec()));
}

#[test]
fn create_flag_opens_a_missing_file_empty() {
    let fs = MemFs::new();
    let mut o = OpenOptions::write();
    o.create = true;
    let mut h = fs.open(&fpath("/new"), o).unwrap();
    assert_eq!(h.read(4), Ok(b"".to_vec()));
    assert_eq!(h.write(b"data"), Ok(()));
    assert_eq!(h.metadata().unwrap().len(), 4);
}

#[test]
fn handle_metadata_reports_the_open_node() {
    let mut fs = MemFs::new();
    fs.add_file(b"/f".to_vec(), b"hello".to_vec(), ftime());
    let h = fs.open(&fpath("/f"), OpenOptions::read()).unwrap();
    let m = h.metadata().unwrap();
    assert_eq!(m.len(), 5);
    assert_eq!(m.modified(), Ok(ftime()));
    assert!(!m.is_dir());
}
