use davfs::fs::OpenOptions;

#[test]
fn new_has_every_flag_clear() {
    let o = OpenOptions::new();
    assert!(!o.read);
    assert!(!o.write);
    assert!(!o.append);
    assert!(!o.truncate);
    assert!(!o.create);
    assert!(!o.create_new);
}

#[test]
fn read_preset_sets_read_alone() {
    let o = OpenOptions::read();
    assert!(o.read);
    assert!(!o.write);
    assert!(!o.append);
    assert!(!o.truncate);
    assert!(!o.create);
    assert!(!o.create_new);
}

#[test]
fn write_preset_sets_write_alone() {
    let o = OpenOptions::write();
    assert!(!o.read);
    assert!(o.write);
    assert!(!o.append);
    assert!(!o.truncate);
    assert!(!o.create);
    assert!(!o.create_new);
}
