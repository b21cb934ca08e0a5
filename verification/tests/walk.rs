use drop_transfer::config::DropConfig;
use drop_transfer::error::Error;
use drop_transfer::file::File;
use drop_transfer::meta::{FileType, Metadata};
use drop_transfer::walk::{walk, Entry, Walker, ROOT_DEPTH};

fn file(path: &str, content: &[u8]) -> Entry {
    Entry::File {
        path: path.to_string(),
        meta: Metadata::new(FileType::File, content.len() as u64, None),
        read: content.to_vec(),
    }
}

fn dir(path: &str, entries: Vec<Entry>) -> Entry {
    Entry::Dir { path: path.to_string(), entries }
}

/// `levels` directories, one in the other, below the root.
fn chain(levels: usize) -> Vec<Entry> {
    let mut entries = Vec::new();
    let mut path = String::from("/root");
    for level in 0..levels {
        path.push_str("/d");
        path.push_str(&level.to_string());
    }
    for level in (0..levels).rev() {
        entries = vec![dir(&path, entries)];
        let cut = path.len() - 2 - level.to_string().len();
        path.truncate(cut);
    }
    entries
}

fn names(files: &[&File]) -> Vec<String> {
    files.iter().map(|f| f.name().to_string()).collect()
}

#[test]
fn walk_builds_the_whole_tree() {
    let listing = vec![
        file("/root/a.txt", b"aaaa"),
        dir("/root/sub", vec![file("/root/sub/b.txt", b"bb"), dir("/root/sub/empty", vec![])]),
        file("/root/c", b""),
    ];
    let tree = walk("/root", &listing, &DropConfig::new(5, 1000)).unwrap();
    assert_eq!(tree.name(), "root");
    assert!(tree.is_dir());
    assert_eq!(tree.size(), None);
    assert_eq!(names(&tree.children()), ["a.txt", "sub", "c"]);
    assert_eq!(names(&tree.iter()), ["a.txt", "sub", "b.txt", "empty", "c"]);
    let sub = tree.child(&"sub".to_string()).unwrap();
    assert!(sub.is_dir());
    assert_eq!(sub.child(&"b.txt".to_string()).unwrap().size(), Some(2));
    assert!(sub.child(&"empty".to_string()).unwrap().children().is_empty());
    assert_eq!(tree.child(&"a.txt".to_string()).unwrap().size(), Some(4));
    assert_eq!(tree.child(&"c".to_string()).unwrap().size(), Some(0));
}

#[test]
fn walk_of_an_empty_directory() {
    let tree = walk("some/where/", &vec![], &DropConfig::new(0, 0)).unwrap();
    assert_eq!(tree.name(), "where");
    assert!(tree.is_dir());
    assert!(tree.iter().is_empty());
}

#[test]
fn walk_root_sits_at_level_one() {
    assert_eq!(ROOT_DEPTH, 1);
    // One level of subdirectories puts the deepest directory at level 2.
    assert!(walk("/root", &chain(1), &DropConfig::new(2, 10)).is_ok());
    assert_eq!(
        walk("/root", &chain(1), &DropConfig::new(1, 10)).err().unwrap(),
        Error::TransferLimitsExceeded
    );
}

#[test]
fn walk_fails_over_the_depth_limit() {
    let config = DropConfig::new(5, 1000);
    assert!(walk("/root", &chain(4), &config).is_ok());
    assert_eq!(walk("/root", &chain(5), &config).err().unwrap(), Error::TransferLimitsExceeded);
    assert_eq!(walk("/root", &chain(9), &config).err().unwrap(), Error::TransferLimitsExceeded);
}

#[test]
fn walk_fails_over_the_depth_limit_wherever_it_is() {
    let config = DropConfig::new(2, 1000);
    let deep = dir("/root/x", vec![dir("/root/x/y", vec![])]);
    let first = vec![deep, file("/root/a", b"a"), file("/root/b", b"b")];
    assert_eq!(walk("/root", &first, &config).err().unwrap(), Error::TransferLimitsExceeded);
    let deep = dir("/root/x", vec![file("/root/x/f", b"f"), dir("/root/x/y", vec![])]);
    let last = vec![file("/root/a", b"a"), dir("/root/flat", vec![]), deep];
    assert_eq!(walk("/root", &last, &config).err().unwrap(), Error::TransferLimitsExceeded);
}

#[test]
fn walk_with_depth_limit_zero_takes_a_flat_directory() {
    let config = DropConfig::new(0, 10);
    let flat = vec![file("/root/a", b"a"), file("/root/b", b"b")];
    assert_eq!(walk("/root", &flat, &config).unwrap().iter().len(), 2);
    assert_eq!(walk("/root", &chain(1), &config).err().unwrap(), Error::TransferLimitsExceeded);
}

#[test]
fn walk_fails_over_the_breadth_limit() {
    let listing = vec![file("/r/a", b""), file("/r/b", b""), file("/r/c", b"")];
    assert!(walk("/r", &listing, &DropConfig::new(5, 3)).is_ok());
    assert_eq!(
        walk("/r", &listing, &DropConfig::new(5, 2)).err().unwrap(),
        Error::TransferLimitsExceeded
    );
    assert_eq!(
        walk("/r", &listing, &DropConfig::new(5, 0)).err().unwrap(),
        Error::TransferLimitsExceeded
    );
}

#[test]
fn walk_counts_files_and_directories_of_all_levels_together() {
    // Two directories and three files: five entries.
    let listing = vec![
        dir("/r/x", vec![file("/r/x/1", b""), file("/r/x/2", b"")]),
        dir("/r/y", vec![file("/r/y/3", b"")]),
    ];
    assert_eq!(walk("/r", &listing, &DropConfig::new(5, 5)).unwrap().iter().len(), 5);
    assert_eq!(
        walk("/r", &listing, &DropConfig::new(5, 4)).err().unwrap(),
        Error::TransferLimitsExceeded
    );
}

#[test]
fn walk_passes_over_what_is_neither_file_nor_directory() {
    let with = vec![
        Entry::Other,
        file("/r/a", b"a"),
        Entry::Other,
        dir("/r/d", vec![Entry::Other, file("/r/d/b", b"b"), Entry::Other]),
        Entry::Other,
    ];
    let without = vec![file("/r/a", b"a"), dir("/r/d", vec![file("/r/d/b", b"b")])];
    // Three entries count; the five others do not.
    let config = DropConfig::new(2, 3);
    let tree = walk("/r", &with, &config).unwrap();
    assert_eq!(names(&tree.iter()), ["a", "d", "b"]);
    assert_eq!(names(&tree.iter()), names(&walk("/r", &without, &config).unwrap().iter()));
    let only_others = vec![Entry::Other, Entry::Other];
    assert!(walk("/r", &only_others, &DropConfig::new(0, 0)).unwrap().children().is_empty());
}

#[test]
fn walk_stops_at_what_cannot_be_read() {
    let config = DropConfig::new(5, 1000);
    let listing = vec![file("/r/a", b"a"), Entry::Failed { error: Error::BadFile }];
    assert_eq!(walk("/r", &listing, &config).err().unwrap(), Error::BadFile);
    let below = vec![dir("/r/d", vec![Entry::Failed { error: Error::BadFile }])];
    assert_eq!(walk("/r", &below, &config).err().unwrap(), Error::BadFile);
}

#[test]
fn walk_reports_the_first_error() {
    // The unreadable entry comes before the one that goes over the limit.
    let listing = vec![Entry::Failed { error: Error::BadFile }, file("/r/a", b"a")];
    assert_eq!(walk("/r", &listing, &DropConfig::new(5, 0)).err().unwrap(), Error::BadFile);
    let listing = vec![file("/r/a", b"a"), Entry::Failed { error: Error::BadFile }];
    assert_eq!(
        walk("/r", &listing, &DropConfig::new(5, 0)).err().unwrap(),
        Error::TransferLimitsExceeded
    );
}

#[test]
fn walk_needs_names() {
    let config = DropConfig::new(5, 1000);
    assert_eq!(walk("/", &vec![], &config).err().unwrap(), Error::BadPath);
    assert_eq!(walk("/r/..", &vec![], &config).err().unwrap(), Error::BadPath);
    let listing = vec![dir("/r/d/..", vec![])];
    assert_eq!(walk("/r", &listing, &config).err().unwrap(), Error::BadPath);
    let listing = vec![file("/r/..", b"x")];
    assert_eq!(walk("/r", &listing, &config).err().unwrap(), Error::BadPath);
}

#[test]
fn walk_checks_the_depth_before_the_name() {
    let listing = vec![dir("/r/d/..", vec![])];
    assert_eq!(
        walk("/r", &listing, &DropConfig::new(1, 10)).err().unwrap(),
        Error::TransferLimitsExceeded
    );
}

#[test]
fn walk_keeps_the_last_of_two_entries_of_one_name() {
    let listing = vec![file("/r/x/same", b"first"), file("/r/gone", b""), file("/r/y/same", b"2nd")];
    let tree = walk("/r", &listing, &DropConfig::new(5, 3)).unwrap();
    assert_eq!(names(&tree.children()), ["same", "gone"]);
    assert_eq!(tree.child(&"same".to_string()).unwrap().size(), Some(3));
    // Both entries were counted.
    assert_eq!(
        walk("/r", &listing, &DropConfig::new(5, 2)).err().unwrap(),
        Error::TransferLimitsExceeded
    );
}

#[test]
fn walk_refuses_a_file_with_the_metadata_of_a_directory() {
    let odd = Entry::File {
        path: "/r/odd".to_string(),
        meta: Metadata::new(FileType::Dir, 0, None),
        read: vec![],
    };
    assert_eq!(
        walk("/r", &vec![odd], &DropConfig::new(5, 10)).err().unwrap(),
        Error::DirectoryNotExpected
    );
}

#[test]
fn walker_is_told_what_is_found() {
    // root/{a, d/{b, e/}, c}, told entry by entry.
    let walker = Walker::new("/some/root", DropConfig::new(3, 5)).unwrap();
    let walker = walker.walk_entry(&file("/some/root/a", b"a")).unwrap();
    let walker = walker.enter("/some/root/d").unwrap();
    let walker = walker.walk_entry(&file("/some/root/d/b", b"bb")).unwrap();
    let walker = walker.enter("/some/root/d/e").unwrap().leave().unwrap();
    let walker = walker.walk_entry(&Entry::Other).unwrap();
    let walker = walker.leave().unwrap();
    let walker = walker.add(File::to_recv("c".to_string(), 3)).unwrap();
    let tree = walker.finish().unwrap();
    assert_eq!(tree.name(), "root");
    assert_eq!(names(&tree.iter()), ["a", "d", "b", "e", "c"]);
}

#[test]
fn walker_gives_what_the_walk_gives() {
    let listing = vec![
        file("/r/a", b"a"),
        dir("/r/d", vec![file("/r/d/b", b"bb"), Entry::Other, dir("/r/d/e", vec![])]),
    ];
    let config = DropConfig::new(3, 4);
    let whole = walk("/r", &listing, &config).unwrap();
    let mut walker = Walker::new("/r", config).unwrap();
    for entry in &listing {
        walker = walker.walk_entry(entry).unwrap();
    }
    assert_eq!(names(&walker.finish().unwrap().iter()), names(&whole.iter()));
}

#[test]
fn walker_holds_the_limits() {
    let config = DropConfig::new(2, 2);
    let walker = Walker::new("/r", config).unwrap().enter("/r/d").unwrap();
    // A directory at level 3 is too deep.
    assert_eq!(walker.enter("/r/d/e").err().unwrap(), Error::TransferLimitsExceeded);
    let walker = Walker::new("/r", config).unwrap();
    let walker = walker.walk_entry(&file("/r/a", b"")).unwrap().enter("/r/d").unwrap();
    let walker = walker.walk_entry(&file("/r/d/b", b"")).unwrap();
    // The directory itself is the third entry.
    assert_eq!(walker.leave().err().unwrap(), Error::TransferLimitsExceeded);
}

#[test]
fn walker_needs_names() {
    let config = DropConfig::new(5, 5);
    assert_eq!(Walker::new("/", config).err().unwrap(), Error::BadPath);
    assert_eq!(Walker::new("", config).err().unwrap(), Error::BadPath);
    let walker = Walker::new("/r", config).unwrap();
    assert_eq!(walker.enter("").err().unwrap(), Error::BadPath);
}

#[test]
fn walker_cannot_leave_the_root() {
    let walker = Walker::new("/r", DropConfig::new(1, 1)).unwrap();
    let walker = walker.leave().unwrap().leave().unwrap();
    let walker = walker.walk_entry(&file("/r/a", b"")).unwrap();
    assert_eq!(names(&walker.finish().unwrap().children()), ["a"]);
}

#[test]
fn walker_finish_leaves_what_is_open() {
    let walker = Walker::new("/r", DropConfig::new(3, 2)).unwrap();
    let walker = walker.enter("/r/d").unwrap().enter("/r/d/e").unwrap();
    let tree = walker.finish().unwrap();
    assert_eq!(names(&tree.iter()), ["d", "e"]);
    let walker = Walker::new("/r", DropConfig::new(3, 1)).unwrap();
    let walker = walker.enter("/r/d").unwrap().enter("/r/d/e").unwrap();
    assert_eq!(walker.finish().err().unwrap(), Error::TransferLimitsExceeded);
}

#[test]
fn limits_step_by_step() {
    let config = DropConfig::new(3, 2);
    assert_eq!(config.descend(1), Ok(2));
    assert_eq!(config.descend(2), Ok(3));
    assert_eq!(config.descend(3), Err(Error::TransferLimitsExceeded));
    assert_eq!(config.descend(usize::MAX), Err(Error::TransferLimitsExceeded));
    assert_eq!(config.count(0), Ok(1));
    assert_eq!(config.count(1), Ok(2));
    assert_eq!(config.count(2), Err(Error::TransferLimitsExceeded));
    let open = DropConfig::new(usize::MAX, usize::MAX);
    assert_eq!(open.descend(usize::MAX - 1), Ok(usize::MAX));
    assert_eq!(open.count(usize::MAX), Err(Error::TransferLimitsExceeded));
}
