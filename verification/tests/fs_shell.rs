use test_os::ramfs::{Fs, FsError};
use test_os::shell::{get_path, next_token};

#[test]
fn directories_and_files_link_and_resolve() {
    let mut fs = Fs::new();
    assert_eq!(fs.node_count(), 1);
    let docs = fs.new_dir();
    assert_eq!(docs, 1);
    assert_eq!(fs.add_entry(0, b"docs", docs), Ok(()));
    assert_eq!(fs.get_entry(0, b"docs"), Some(docs));
    assert_eq!(fs.get_entry(0, b"missing"), None);
    let note = fs.new_file();
    assert_eq!(fs.add_entry(docs, b"note", note), Ok(()));
    assert_eq!(fs.get_entry(docs, b"note"), Some(note));
    // Lookups below a file yield nothing.
    assert_eq!(fs.get_entry(note, b"anything"), None);
}

#[test]
fn duplicate_names_are_refused() {
    let mut fs = Fs::new();
    let a = fs.new_dir();
    let b = fs.new_dir();
    assert_eq!(fs.add_entry(0, b"x", a), Ok(()));
    assert_eq!(fs.add_entry(0, b"x", b), Err(FsError::AlreadyExists));
    assert_eq!(FsError::AlreadyExists.message(), "Entry already exists");
}

#[test]
fn linking_under_a_file_is_refused() {
    let mut fs = Fs::new();
    let f = fs.new_file();
    let d = fs.new_dir();
    assert_eq!(fs.add_entry(0, b"f", f), Ok(()));
    assert_eq!(fs.add_entry(f, b"sub", d), Err(FsError::NotADirectory));
    assert_eq!(FsError::NotADirectory.message(), "Not a directory");
}

#[test]
fn file_contents_round_trip() {
    let mut fs = Fs::new();
    let f = fs.new_file();
    assert_eq!(fs.read_file(f), Ok(Vec::new()));
    assert_eq!(fs.write_file(f, b"hello world"), Ok(()));
    assert_eq!(fs.read_file(f), Ok(b"hello world".to_vec()));
    assert_eq!(fs.write_file(f, b"shorter"), Ok(()));
    assert_eq!(fs.read_file(f), Ok(b"shorter".to_vec()));
    let d = fs.new_dir();
    assert_eq!(fs.write_file(d, b"x"), Err(FsError::NotAFile));
    assert_eq!(fs.read_file(d), Err(FsError::NotAFile));
    assert_eq!(FsError::NotAFile.message(), "Not a file");
}

#[test]
fn removing_entries() {
    let mut fs = Fs::new();
    let d = fs.new_dir();
    assert_eq!(fs.add_entry(0, b"tmp", d), Ok(()));
    assert_eq!(fs.remove_entry(0, b"tmp"), Ok(()));
    assert_eq!(fs.get_entry(0, b"tmp"), None);
    assert_eq!(fs.remove_entry(0, b"tmp"), Err(FsError::NotFound));
    assert_eq!(FsError::NotFound.message(), "Entry not found");
    let f = fs.new_file();
    assert_eq!(fs.remove_entry(f, b"x"), Err(FsError::NotADirectory));
}

#[test]
fn path_rendering_follows_the_stack() {
    let mut fs = Fs::new();
    let a = fs.new_dir();
    let b = fs.new_dir();
    fs.add_entry(0, b"a", a).unwrap();
    fs.add_entry(a, b"b", b).unwrap();
    assert_eq!(get_path(&fs, &vec![]), b"/".to_vec());
    assert_eq!(get_path(&fs, &vec![0]), b"/".to_vec());
    assert_eq!(get_path(&fs, &vec![0, a]), b"/a".to_vec());
    assert_eq!(get_path(&fs, &vec![0, a, b]), b"/a/b".to_vec());
}

#[test]
fn path_rendering_marks_broken_steps() {
    let mut fs = Fs::new();
    let a = fs.new_dir();
    let lone = fs.new_dir();
    let f = fs.new_file();
    fs.add_entry(0, b"a", a).unwrap();
    fs.add_entry(0, b"f", f).unwrap();
    // A stacked node its parent never linked.
    assert_eq!(get_path(&fs, &vec![0, lone]), b"/<unknown>".to_vec());
    // A stacked parent that is a file.
    assert_eq!(get_path(&fs, &vec![f, a]), b"/<not a directory>".to_vec());
}

#[test]
fn tokens_split_on_whitespace() {
    let line = b"  write  notes.txt hello";
    let first = next_token(line, 0);
    assert_eq!(first, Some((2, 7)));
    assert_eq!(&line[2..7], b"write");
    let second = next_token(line, 7);
    assert_eq!(second, Some((9, 18)));
    assert_eq!(&line[9..18], b"notes.txt");
    let third = next_token(line, 18);
    assert_eq!(third, Some((19, 24)));
    assert_eq!(&line[19..24], b"hello");
    assert_eq!(next_token(line, 24), None);
    assert_eq!(next_token(b"   ", 0), None);
    assert_eq!(next_token(b"", 0), None);
}
