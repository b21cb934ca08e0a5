use drop_transfer::config::DropConfig;
use drop_transfer::error::Error;
use drop_transfer::file::{DirBuilder, File, FileKind, FileSource};
use drop_transfer::meta::{FileType, Metadata};
use drop_transfer::walk::Entry;

fn regular(len: u64) -> Metadata {
    Metadata::new(FileType::File, len, None)
}

fn opened(path: &str, meta: Metadata, content: &[u8]) -> Entry {
    Entry::File { path: path.to_string(), meta, read: content.to_vec() }
}

fn leaf(name: &str, size: u64) -> File {
    File::to_recv(name.to_string(), size)
}

fn names(files: &[&File]) -> Vec<String> {
    files.iter().map(|f| f.name().to_string()).collect()
}

/// A tree with seven nodes below the root.
fn sample() -> File {
    let inner = DirBuilder::new("inner".to_string()).insert(leaf("x", 1)).insert(leaf("y", 2));
    let outer = DirBuilder::new("outer".to_string())
        .insert(leaf("a", 3))
        .insert(inner.build())
        .insert(leaf("b", 4));
    DirBuilder::new("root".to_string())
        .insert(outer.build())
        .insert(leaf("z", 5))
        .build()
}

#[test]
fn iter_yields_every_node_below_once() {
    let tree = sample();
    let all = tree.iter();
    assert_eq!(all.len(), 7);
    assert_eq!(names(&all), ["outer", "a", "inner", "x", "y", "b", "z"]);
    let mut sorted = names(&all);
    sorted.sort();
    sorted.dedup();
    assert_eq!(sorted.len(), 7);
}

#[test]
fn iter_can_be_started_again() {
    let tree = sample();
    let first = names(&tree.iter());
    let second = names(&tree.iter());
    assert_eq!(first, second);
    assert_eq!(first.len(), 7);
}

#[test]
fn iter_of_a_part_yields_the_part() {
    let tree = sample();
    let outer = tree.child(&"outer".to_string()).unwrap();
    assert_eq!(names(&outer.iter()), ["a", "inner", "x", "y", "b"]);
    let inner = outer.child(&"inner".to_string()).unwrap();
    assert_eq!(names(&inner.iter()), ["x", "y"]);
}

#[test]
fn iter_of_a_file_yields_nothing() {
    assert!(leaf("f", 1).iter().is_empty());
    assert!(leaf("f", 1).children().is_empty());
    assert!(DirBuilder::new("d".to_string()).build().iter().is_empty());
}

#[test]
fn child_is_found_by_its_name() {
    let tree = sample();
    assert_eq!(tree.child(&"z".to_string()).unwrap().size(), Some(5));
    assert_eq!(tree.child(&"outer".to_string()).unwrap().name(), "outer");
    assert!(tree.child(&"a".to_string()).is_none());
    assert!(tree.child(&"".to_string()).is_none());
    assert!(leaf("f", 1).child(&"f".to_string()).is_none());
}

#[test]
fn children_are_the_direct_ones() {
    let tree = sample();
    assert_eq!(names(&tree.children()), ["outer", "z"]);
    assert_eq!(tree.children().len(), 2);
}

#[test]
fn kinds_of_nodes() {
    let tree = sample();
    assert!(tree.is_dir());
    assert!(matches!(tree.kind(), FileKind::Dir { children } if children.len() == 2));
    let incoming = leaf("in.bin", 77);
    assert!(!incoming.is_dir());
    assert_eq!(incoming.size(), Some(77));
    assert!(matches!(incoming.kind(), FileKind::FileToRecv { size: 77 }));
    assert_eq!(incoming.source().err().unwrap(), Error::BadFile);
    assert_eq!(tree.source().err().unwrap(), Error::BadFile);
}

#[test]
fn insert_takes_the_place_of_the_same_name() {
    let dir = DirBuilder::new("d".to_string())
        .insert(leaf("a", 1))
        .insert(leaf("b", 2))
        .insert(leaf("a", 3))
        .build();
    assert_eq!(names(&dir.children()), ["a", "b"]);
    assert_eq!(dir.child(&"a".to_string()).unwrap().size(), Some(3));
}

#[test]
fn size_of_a_new_node_is_the_length_of_the_file() {
    let file = File::new("/a/b".to_string(), regular(123_456), b"head").unwrap();
    assert_eq!(file.size(), Some(123_456));
    let by_fd = File::new_with_fd("/a/b", 7, regular(9), b"head").unwrap();
    assert_eq!(by_fd.size(), Some(9));
    let empty = File::new("/a/empty".to_string(), regular(0), b"").unwrap();
    assert_eq!(empty.size(), Some(0));
}

#[test]
fn symlink_is_never_followed() {
    let link = Metadata::new(FileType::Symlink, 11, None);
    assert_eq!(File::new("/a/link".to_string(), link, b"").err().unwrap(), Error::BadFile);
    let found = opened("/a/link", link, b"what the target holds");
    let config = DropConfig::new(5, 10);
    assert_eq!(File::from_path(&found, None, true, &config).err().unwrap(), Error::BadFile);
}

#[test]
fn directory_is_not_an_outgoing_file() {
    let dir = Metadata::new(FileType::Dir, 0, None);
    assert_eq!(
        File::new("/a/d".to_string(), dir, b"").err().unwrap(),
        Error::DirectoryNotExpected
    );
    assert_eq!(File::new_with_fd("/a/d", 3, dir, b"").err().unwrap(), Error::DirectoryNotExpected);
    assert_eq!(
        File::to_send("d".to_string(), dir, FileSource::Fd(3), "unknown".to_string()).err().unwrap(),
        Error::DirectoryNotExpected
    );
}

#[test]
fn path_without_a_name_is_bad() {
    assert_eq!(File::new("/".to_string(), regular(1), b"x").err().unwrap(), Error::BadPath);
    assert_eq!(File::new_with_fd("a/..", 3, regular(1), b"x").err().unwrap(), Error::BadPath);
    // The name is looked at before the metadata.
    let link = Metadata::new(FileType::Symlink, 1, None);
    assert_eq!(File::new("..".to_string(), link, b"x").err().unwrap(), Error::BadPath);
}

#[test]
fn other_kinds_of_files_can_be_sent() {
    let device = Metadata::new(FileType::Other, 0, None);
    let file = File::new("/dev/thing".to_string(), device, b"").unwrap();
    assert_eq!(file.name(), "thing");
    assert_eq!(file.info().unwrap().mime_type, "unknown");
}

#[test]
fn from_path_of_a_file() {
    let config = DropConfig::new(0, 0);
    let found = opened("/home/u/report.pdf", regular(2048), b"%PDF-1.4");
    let file = File::from_path(&found, None, true, &config).unwrap();
    assert_eq!(file.name(), "report.pdf");
    assert_eq!(file.size(), Some(2048));
    assert!(matches!(file.source().unwrap().0, FileSource::Path(path) if path == "/home/u/report.pdf"));
    let info = file.info().unwrap();
    assert_eq!(info.mime_type, "application/pdf");
    assert_eq!(info.extension, "pdf");
    assert_eq!(info.size_kb, 2);
}

#[test]
fn from_path_of_a_directory_walks_it() {
    let listing = Entry::Dir {
        path: "/home/u/docs".to_string(),
        entries: vec![opened("/home/u/docs/a", regular(1), b"a")],
    };
    let tree = File::from_path(&listing, None, true, &DropConfig::new(5, 10)).unwrap();
    assert_eq!(tree.name(), "docs");
    assert_eq!(names(&tree.iter()), ["a"]);
    assert_eq!(
        File::from_path(&listing, None, true, &DropConfig::new(5, 0)).err().unwrap(),
        Error::TransferLimitsExceeded
    );
}

#[test]
fn from_path_of_what_cannot_be_read() {
    let config = DropConfig::new(5, 10);
    let failed = Entry::Failed { error: Error::BadFile };
    assert_eq!(File::from_path(&failed, None, true, &config).err().unwrap(), Error::BadFile);
    let failed = Entry::Failed { error: Error::BadPath };
    assert_eq!(File::from_path(&failed, None, true, &config).err().unwrap(), Error::BadPath);
    assert_eq!(File::from_path(&Entry::Other, None, true, &config).err().unwrap(), Error::BadFile);
}

#[test]
fn from_path_with_a_descriptor() {
    let config = DropConfig::new(5, 10);
    let found = opened("/proc/self/fd/9/name.png", regular(4), &[0x89, 0x50, 0x4E, 0x47]);
    let file = File::from_path(&found, Some(9), true, &config).unwrap();
    assert_eq!(file.name(), "name.png");
    assert_eq!(file.size(), Some(4));
    assert!(matches!(file.source().unwrap().0, FileSource::Fd(9)));
    assert_eq!(file.info().unwrap().mime_type, "image/png");
}

#[test]
fn from_path_with_a_descriptor_names_the_cause() {
    let config = DropConfig::new(5, 10);
    let with_fd = |found: &Entry| File::from_path(found, Some(3), true, &config).err().unwrap();
    // A descriptor of a directory.
    let dir = opened("/a/d", Metadata::new(FileType::Dir, 0, None), b"");
    assert_eq!(with_fd(&dir), Error::DirectoryNotExpected);
    let listing = Entry::Dir { path: "/a/d".to_string(), entries: vec![] };
    assert_eq!(with_fd(&listing), Error::DirectoryNotExpected);
    // A path without a name; the name is looked at first.
    let nameless = opened("/", regular(1), b"x");
    assert_eq!(with_fd(&nameless), Error::BadPath);
    let nameless = opened("a/..", Metadata::new(FileType::Dir, 0, None), b"");
    assert_eq!(with_fd(&nameless), Error::BadPath);
    let listing = Entry::Dir { path: "..".to_string(), entries: vec![] };
    assert_eq!(with_fd(&listing), Error::BadPath);
    // What could not be read, and what was not opened.
    assert_eq!(with_fd(&Entry::Failed { error: Error::BadFile }), Error::BadFile);
    assert_eq!(with_fd(&Entry::Failed { error: Error::BadPath }), Error::BadPath);
    assert_eq!(with_fd(&Entry::Other), Error::BadFile);
}

#[test]
fn from_path_with_a_descriptor_where_there_are_none() {
    let config = DropConfig::new(5, 10);
    let found = opened("/a/f", regular(1), b"x");
    assert_eq!(
        File::from_path(&found, Some(3), false, &config).err().unwrap(),
        Error::InvalidArgument
    );
    let failed = Entry::Failed { error: Error::BadFile };
    assert_eq!(
        File::from_path(&failed, Some(3), false, &config).err().unwrap(),
        Error::InvalidArgument
    );
    // Without a descriptor the platform does not matter.
    assert!(File::from_path(&found, None, false, &config).is_ok());
}
