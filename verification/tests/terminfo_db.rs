use std::io::Read;
use std::path::Path;

use tempfile::tempdir;

use ree::terminfo::{Error, MAGIC_STANDARD, MAX_ENTRY_SIZE};
use ree::terminfo_db::{
    bound_entry_size, entry_paths, join_path, load_from_directories, lookup_paths, paths_equal, push_unique,
    search_directories_from, EntrySearch,
};

fn empty_entry() -> Vec<u8> {
    let mut data = vec![0_u8; 12];
    data[0..2].copy_from_slice(&0o432_u16.to_le_bytes());
    data
}

fn path_bytes(path: &Path) -> Vec<u8> {
    path.to_str().unwrap().as_bytes().to_vec()
}

fn write_candidate(
    directory: &Path,
    subdirectory: &str,
    term: &[u8],
    data: &[u8],
) -> Result<(), Box<dyn std::error::Error>> {
    let directory = directory.join(subdirectory);
    fs_err::create_dir_all(&directory)?;
    fs_err::write(directory.join(std::str::from_utf8(term)?), data)?;
    Ok(())
}

/// Reads candidate files as a terminal reset does: a missing file is
/// `NotFound`, an oversized one `TooLarge`.
fn read_candidates(paths: &[Vec<u8>]) -> Vec<Result<Vec<u8>, Error>> {
    paths
        .iter()
        .map(|path| {
            let path = std::str::from_utf8(path).unwrap();
            let mut data = Vec::new();
            let read = fs_err::File::open(path).and_then(|file| {
                file.take((MAX_ENTRY_SIZE + 1) as u64).read_to_end(&mut data)
            });
            match read {
                Ok(_) => bound_entry_size(data),
                Err(error) if error.kind() == std::io::ErrorKind::NotFound => Err(Error::NotFound),
                Err(_) => Err(Error::Unreadable),
            }
        })
        .collect()
}

fn try_directory(directory: &Path, term: &[u8]) -> Result<Vec<u8>, Error> {
    let paths = entry_paths(&path_bytes(directory), term);
    load_from_directories(read_candidates(&paths))
}

fn load_from(term: &[u8], directories: &[&Path]) -> Result<Vec<u8>, Error> {
    let directories: Vec<Vec<u8>> = directories.iter().map(|d| path_bytes(d)).collect();
    let paths = lookup_paths(term, &directories)?;
    load_from_directories(read_candidates(&paths))
}

#[test]
fn empty_primary_paths_do_not_search_the_working_directory() {
    let directories = search_directories_from(Some(b""), Some(b""), None);

    assert!(directories.iter().all(|directory| directory.starts_with(b"/")));
    assert!(!directories.contains(&Vec::new()));
    assert!(!directories.contains(&b".terminfo".to_vec()));
}

#[test]
fn empty_terminfo_dirs_components_select_the_system_default_once() {
    let directories = search_directories_from(None, None, Some(b":/custom::"));

    assert_eq!(
        directories
            .iter()
            .filter(|directory| directory.as_slice() == b"/usr/share/terminfo")
            .count(),
        1
    );
    assert!(directories.contains(&b"/custom".to_vec()));
}

#[test]
fn search_order_is_terminfo_home_dirs_then_system() {
    let directories = search_directories_from(Some(b"/ti"), Some(b"/home/u/"), Some(b"/a:/b"));
    let expected: Vec<Vec<u8>> = [
        b"/ti".as_slice(),
        b"/home/u/.terminfo",
        b"/a",
        b"/b",
        b"/usr/share/terminfo",
        b"/usr/share/misc/terminfo",
        b"/lib/terminfo",
        b"/usr/local/share/terminfo",
    ]
    .iter()
    .map(|d| d.to_vec())
    .collect();
    assert_eq!(directories, expected);

    let directories = search_directories_from(None, Some(b"/home/u"), None);
    assert_eq!(directories[0], b"/home/u/.terminfo".to_vec());
    assert_eq!(directories.len(), 5);
}

#[test]
fn unique_pushes_keep_the_first_occurrence() {
    let mut directories = vec![b"/a".to_vec()];
    push_unique(&mut directories, b"/b".to_vec());
    push_unique(&mut directories, b"/a".to_vec());
    assert_eq!(directories, vec![b"/a".to_vec(), b"/b".to_vec()]);
}

#[test]
fn paths_join_like_unix_paths() {
    assert_eq!(join_path(b"/usr", b"share"), b"/usr/share".to_vec());
    assert_eq!(join_path(b"/usr/", b"share"), b"/usr/share".to_vec());
    assert_eq!(join_path(b"", b"share"), b"share".to_vec());
    assert_eq!(join_path(b"/usr", b"/etc"), b"/etc".to_vec());
}

#[test]
fn entry_files_are_tried_by_hex_code_then_by_letter() {
    let paths = entry_paths(b"/usr/share/terminfo", b"xterm");
    assert_eq!(
        paths,
        vec![
            b"/usr/share/terminfo/78/xterm".to_vec(),
            b"/usr/share/terminfo/x/xterm".to_vec()
        ]
    );
    assert!(entry_paths(b"/d", b"").is_empty());
    assert!(matches!(lookup_paths(b"../x", &vec![b"/d".to_vec()]), Err(Error::InvalidTermName)));
}

#[test]
fn a_valid_later_layout_wins_over_a_malformed_entry() -> Result<(), Box<dyn std::error::Error>> {
    let directory = tempdir()?;
    let term = b"xterm-ree-layout-test";
    write_candidate(directory.path(), "78", term, b"bad")?;
    let valid = empty_entry();
    write_candidate(directory.path(), "x", term, &valid)?;

    assert_eq!(try_directory(directory.path(), term), Ok(valid));
    Ok(())
}

#[test]
fn a_valid_later_directory_wins_over_a_malformed_entry() -> Result<(), Box<dyn std::error::Error>> {
    let malformed = tempdir()?;
    let valid = tempdir()?;
    let term = b"xterm-ree-search-test";
    write_candidate(malformed.path(), "78", term, b"bad")?;
    let expected = empty_entry();
    write_candidate(valid.path(), "78", term, &expected)?;

    let loaded = load_from(term, &[malformed.path(), valid.path()]).map_err(|e| format!("{e:?}"))?;

    assert_eq!(loaded, expected);
    Ok(())
}

#[test]
fn a_malformed_only_search_retains_its_error() -> Result<(), Box<dyn std::error::Error>> {
    let directory = tempdir()?;
    let term = b"xterm-ree-malformed-test";
    write_candidate(directory.path(), "78", term, b"bad")?;

    assert!(matches!(
        load_from(term, &[directory.path()]),
        Err(Error::TooSmall)
    ));
    Ok(())
}

#[test]
fn bounds_compiled_entries() -> Result<(), Box<dyn std::error::Error>> {
    let directory = tempdir()?;
    let path = directory.path().join("entry");
    fs_err::write(&path, vec![0_u8; MAX_ENTRY_SIZE + 1])?;
    let read = read_candidates(&[path_bytes(&path)]);
    assert!(matches!(read[0], Err(Error::TooLarge)));
    assert!(matches!(bound_entry_size(vec![0_u8; MAX_ENTRY_SIZE]), Ok(_)));
    Ok(())
}

#[test]
fn a_missing_entry_is_not_found() {
    let directory = tempdir().unwrap();
    assert_eq!(try_directory(directory.path(), b"xterm"), Err(Error::NotFound));
    assert_eq!(load_from_directories(Vec::new()), Err(Error::NotFound));
}

#[test]
fn the_first_error_met_is_kept() {
    let reads = vec![
        Err(Error::NotFound),
        Err(Error::Unreadable),
        Ok(b"bad".to_vec()),
        Err(Error::TooLarge),
    ];
    assert_eq!(load_from_directories(reads), Err(Error::Unreadable));

    let mut search = EntrySearch::new();
    assert_eq!(search.record(Err(Error::NotFound)), None);
    assert_eq!(search.finish(), Error::NotFound);
    assert_eq!(search.record(Ok(b"bad".to_vec())), None);
    let mut standard = vec![0_u8; 12];
    standard[0..2].copy_from_slice(&MAGIC_STANDARD.to_le_bytes());
    assert_eq!(search.record(Ok(standard.clone())), Some(standard));
    assert_eq!(search.finish(), Error::TooSmall);
}

#[test]
fn the_same_directory_is_searched_once_however_it_is_spelled() {
    let directories = search_directories_from(None, None, Some(b"/usr/share/terminfo/"));
    assert_eq!(directories.len(), 4);
    assert_eq!(directories[0], b"/usr/share/terminfo/".to_vec());
    let directories = search_directories_from(Some(b"/lib//terminfo/."), None, None);
    assert_eq!(directories.len(), 4);
}

#[test]
fn paths_compare_by_component() {
    assert!(paths_equal(b"/usr/share/terminfo", b"/usr/share/terminfo/"));
    assert!(paths_equal(b"/usr//share/./terminfo", b"/usr/share/terminfo"));
    assert!(paths_equal(b"./a", b"./a/"));
    assert!(!paths_equal(b"./a", b"a"));
    assert!(!paths_equal(b"/a", b"a"));
    assert!(!paths_equal(b"/a/../b", b"/b"));
    assert!(paths_equal(b"", b""));
    assert!(!paths_equal(b"/", b""));
    for (a, b) in [("a/b", "a/./b"), ("./a", "a"), ("a", "a/"), ("/x/y", "/x//y/."), (".", "./")] {
        assert_eq!(
            paths_equal(a.as_bytes(), b.as_bytes()),
            Path::new(a) == Path::new(b),
            "{a} {b}"
        );
    }
}
