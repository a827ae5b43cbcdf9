use rccopy::walk::{get_empty_dirs, get_files_in_directory, is_artifact_name, is_listed, Entry};

fn file(name: &str, tag: &'static str) -> Entry<&'static str> {
    Entry::File { name: Some(String::from(name)), tag }
}

fn dir(tag: &'static str, children: Vec<Entry<&'static str>>) -> Entry<&'static str> {
    Entry::Directory { tag, children }
}

#[test]
fn artifact_names_are_recognised() {
    for name in [
        ".DS_Store",
        ".AppleDouble",
        ".LSOverride",
        ".DocumentRevisions-V100",
        ".fseventsd",
        ".Spotlight-V100",
        ".TemporaryItems",
        ".Trashes",
        ".VolumeIcon.icns",
        ".com.apple.timemachine.donotpresent",
        "._",
        "._a.txt",
        "._.DS_Store",
    ] {
        assert!(is_artifact_name(name), "{}", name);
    }
}

#[test]
fn ordinary_names_are_not_artifacts() {
    for name in ["", ".", "_", "a.txt", ".DS_Stor", ".DS_Store2", ".ds_store", "_.x", ".hidden", "x._y", ". _"] {
        assert!(!is_artifact_name(name), "{}", name);
    }
}

#[test]
fn a_file_without_a_textual_name_is_not_listed() {
    assert!(!is_listed(&None));
    assert!(is_listed(&Some(String::from("clip.mov"))));
    assert!(!is_listed(&Some(String::from(".DS_Store"))));
}

#[test]
fn files_come_depth_first_in_reading_order() {
    let tree = vec![
        file("a.txt", "in/a.txt"),
        dir(
            "in/sub",
            vec![
                file("b.bin", "in/sub/b.bin"),
                dir("in/sub/deep", vec![file("c", "in/sub/deep/c")]),
                file(".DS_Store", "in/sub/.DS_Store"),
                file("d", "in/sub/d"),
            ],
        ),
        file("._a.txt", "in/._a.txt"),
        Entry::File { name: None, tag: "in/?" },
        file("z", "in/z"),
    ];
    let files: Vec<&str> = get_files_in_directory(&tree).into_iter().map(|t| *t).collect();
    assert_eq!(files, vec!["in/a.txt", "in/sub/b.bin", "in/sub/deep/c", "in/sub/d", "in/z"]);
}

#[test]
fn an_empty_tree_has_no_files_and_no_empty_directories() {
    let tree: Vec<Entry<&'static str>> = Vec::new();
    assert!(get_files_in_directory(&tree).is_empty());
    assert!(get_empty_dirs(&tree).is_empty());
}

#[test]
fn empty_directories_are_found_at_every_depth() {
    let tree = vec![
        dir("in/empty", Vec::new()),
        file("a", "in/a"),
        dir(
            "in/sub",
            vec![dir("in/sub/e1", Vec::new()), dir("in/sub/full", vec![file("x", "in/sub/full/x")]), dir("in/sub/e2", Vec::new())],
        ),
        dir("in/only-artifact", vec![file(".DS_Store", "in/only-artifact/.DS_Store")]),
    ];
    let dirs: Vec<&str> = get_empty_dirs(&tree).into_iter().map(|t| *t).collect();
    assert_eq!(dirs, vec!["in/empty", "in/sub/e1", "in/sub/e2"]);
    let files: Vec<&str> = get_files_in_directory(&tree).into_iter().map(|t| *t).collect();
    assert_eq!(files, vec!["in/a", "in/sub/full/x"]);
}

#[test]
fn every_listed_file_is_visited_exactly_once() {
    let mut children = Vec::new();
    let names = ["f0", "f1", "f2", "f3", "f4", "f5", "f6", "f7"];
    for name in names {
        children.push(file(name, name));
    }
    let tree = vec![dir("d", children), file("top", "top")];
    let files: Vec<&str> = get_files_in_directory(&tree).into_iter().map(|t| *t).collect();
    assert_eq!(files.len(), 9);
    for name in names {
        assert_eq!(files.iter().filter(|f| **f == name).count(), 1);
    }
}
