use govld::fs_buffer::{append, prepend, FsBuffer};

#[test]
fn load_keeps_what_is_buffered() {
    let mut fsb = FsBuffer::new("root".to_owned());
    assert_eq!(fsb.root(), "root");
    assert_eq!(fsb.load("a.go".to_owned(), "disk".to_owned()), "disk");
    assert_eq!(fsb.load("a.go".to_owned(), "other".to_owned()), "disk");
    fsb.update("a.go", "edited");
    assert_eq!(fsb.load("a.go".to_owned(), "disk".to_owned()), "edited");
}

#[test]
fn try_load_without_disk_content() {
    let mut fsb = FsBuffer::new("root".to_owned());
    assert_eq!(fsb.try_load("a.go".to_owned(), None), None);
    assert!(!fsb.contains("a.go"));
    assert_eq!(fsb.try_load("a.go".to_owned(), Some("x".to_owned())), Some("x".to_owned()));
    assert_eq!(fsb.try_load("a.go".to_owned(), None), Some("x".to_owned()));
    assert_eq!(fsb.entries().len(), 1);
}

#[test]
fn append_patch_adds_banner_and_patch() {
    let mut fsb = FsBuffer::new("root".to_owned());
    fsb.update("a.go", "package p\n");
    fsb.append_patch("a.go", "func F() {}");
    assert_eq!(fsb.get("a.go").unwrap(), "package p\n\n// Patched by govld. DO NOT EDIT\nfunc F() {}");
}

#[test]
fn apply_patch_at_inserts_after_range() {
    let mut fsb = FsBuffer::new("root".to_owned());
    fsb.update("a.go", "package p\n\nfunc F() {}\n");
    fsb.apply_patch_at("a.go", "import \"fmt\"", &(8..9));
    assert_eq!(
        fsb.get("a.go").unwrap(),
        "package p\n\n// Patched by govld. DO NOT EDIT\nimport \"fmt\"\n\n\n\nfunc F() {}\n"
    );
}

#[test]
fn append_and_prepend_on_strings() {
    let mut code = "x".to_owned();
    append(&mut code, "y");
    assert_eq!(code, "x\n// Patched by govld. DO NOT EDIT\ny");
    let mut code = "ab".to_owned();
    prepend(&(0..1), &mut code, "z");
    assert_eq!(code, "a\n\n// Patched by govld. DO NOT EDIT\nz\n\nb");
}

#[test]
fn update_replaces_in_place() {
    let mut fsb = FsBuffer::new("root".to_owned());
    fsb.update("a.go", "1");
    fsb.update("b.go", "2");
    fsb.update("a.go", "3");
    let entries = fsb.entries();
    assert_eq!(entries.len(), 2);
    assert_eq!(entries[0], ("a.go".to_owned(), "3".to_owned()));
    assert_eq!(entries[1], ("b.go".to_owned(), "2".to_owned()));
}
