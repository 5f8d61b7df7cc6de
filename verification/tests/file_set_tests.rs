use preco::file_set::{
    get_file_set, type_query, unstaged_changes_message, ClassifiedFile, FileListing, FileSet,
    FileSetStep,
};

fn strings(items: &[&str]) -> Vec<String> {
    items.iter().map(|s| s.to_string()).collect()
}

fn classified(path: &str, extension_types: &[&str], name_types: &[&str]) -> ClassifiedFile {
    ClassifiedFile {
        path: path.to_string(),
        extension_types: strings(extension_types),
        name_types: strings(name_types),
    }
}

#[test]
fn the_classifier_is_asked_for_extension_and_name() {
    let q = type_query("src/a.py");
    assert_eq!(q.extension, Some("py".to_string()));
    assert_eq!(q.name, Some("a.py".to_string()));
}

#[test]
fn the_extension_is_lowercased_and_the_name_is_not() {
    let q = type_query("docs/README.MD");
    assert_eq!(q.extension, Some("md".to_string()));
    assert_eq!(q.name, Some("README.MD".to_string()));
}

#[test]
fn extension_edge_cases() {
    assert_eq!(type_query("README").extension, None);
    assert_eq!(type_query("README").name, Some("README".to_string()));
    assert_eq!(type_query(".gitignore").extension, None);
    assert_eq!(type_query(".gitignore").name, Some(".gitignore".to_string()));
    assert_eq!(type_query("a/.config.yaml").extension, Some("yaml".to_string()));
    assert_eq!(type_query("archive.tar.gz").extension, Some("gz".to_string()));
    assert_eq!(type_query("trailing.").extension, Some("".to_string()));
    assert_eq!(type_query("dir.d/file").extension, None);
    assert_eq!(type_query("dir.d/file").name, Some("file".to_string()));
}

#[test]
fn paths_without_a_file_name_ask_nothing() {
    for path in ["", "dir/", "..", "a/..", ".", "a/."] {
        let q = type_query(path);
        assert_eq!(q.name, None);
        assert_eq!(q.extension, None);
    }
}

#[test]
fn extension_and_name_agree_with_the_standard_library_on_plain_paths() {
    for path in ["a.py", "src/b.TXT", "README", ".hidden", "x/y/z.tar.gz", "Makefile", "a/.b.c"] {
        let q = type_query(path);
        let p = std::path::Path::new(path);
        let name = p.file_name().and_then(|s| s.to_str()).map(|s| s.to_string());
        let ext = p.extension().and_then(|s| s.to_str()).map(|s| s.to_ascii_lowercase());
        assert_eq!(q.name, name);
        assert_eq!(q.extension, ext);
    }
}

#[test]
fn a_file_has_the_tags_of_its_extension_and_of_its_name() {
    let files = vec![
        classified("a.py", &["python", "text"], &[]),
        classified("Makefile", &[], &["makefile", "text"]),
        classified("b.txt", &["text"], &["plain-text"]),
        classified("README", &[], &[]),
    ];
    let fs = FileSet::from_raw_files("/work", &files);
    assert_eq!(fs.root_path(), "/work");
    assert_eq!(fs.files(), &strings(&["a.py", "Makefile", "b.txt", "README"]));
    assert_eq!(fs.len(), 4);
    assert!(fs.has_type("a.py", "python"));
    assert!(fs.has_type("a.py", "text"));
    assert!(!fs.has_type("a.py", "makefile"));
    assert!(fs.has_type("Makefile", "makefile"));
    assert!(fs.has_type("b.txt", "text"));
    assert!(fs.has_type("b.txt", "plain-text"));
    assert!(!fs.has_type("README", "text"));
    assert!(!fs.has_type("missing.py", "python"));
    assert!(fs.has_type_at(0, "python"));
    assert!(!fs.has_type_at(1, "python"));
    assert!(!fs.has_type_at(4, "python"));
}

#[test]
fn an_empty_file_set_has_no_types() {
    let fs = FileSet::from_raw_files("/work", &vec![]);
    assert_eq!(fs.len(), 0);
    assert!(!fs.has_type("a.py", "python"));
    assert!(!fs.has_type_at(0, "python"));
}

#[test]
fn all_files_takes_the_tracked_files() {
    assert_eq!(get_file_set(true, None), FileSetStep::List(FileListing::Index));
    let files = strings(&["a.py", "b.txt"]);
    assert_eq!(
        get_file_set(true, Some((FileListing::Index, files.clone()))),
        FileSetStep::Files(files)
    );
    assert_eq!(get_file_set(true, Some((FileListing::Index, vec![]))), FileSetStep::Files(vec![]));
}

#[test]
fn staged_files_are_taken_only_without_unstaged_changes() {
    assert_eq!(get_file_set(false, None), FileSetStep::List(FileListing::Unstaged));
    assert_eq!(
        get_file_set(false, Some((FileListing::Unstaged, vec![]))),
        FileSetStep::List(FileListing::Staged)
    );
    let staged = strings(&["a.py"]);
    assert_eq!(
        get_file_set(false, Some((FileListing::Staged, staged.clone()))),
        FileSetStep::Files(staged)
    );
}

#[test]
fn unstaged_changes_stop_the_run() {
    let dirty = strings(&["a.py", "b.txt"]);
    assert_eq!(
        get_file_set(false, Some((FileListing::Unstaged, dirty.clone()))),
        FileSetStep::UnstagedChanges(dirty.clone())
    );
    assert_eq!(
        unstaged_changes_message(&dirty),
        "We can't deal with stashing unstaged files yet (and you have: a.py, b.txt)"
    );
}

#[test]
fn files_are_found_by_type() {
    let files = vec![
        classified("a.py", &["python", "text"], &[]),
        classified("b.txt", &["text"], &[]),
        classified("c.py", &["python", "text"], &[]),
        classified("README", &[], &[]),
    ];
    let fs = FileSet::from_raw_files("/work", &files);
    assert_eq!(fs.files_with_type("python"), vec![0, 2]);
    assert_eq!(fs.files_with_type("text"), vec![0, 1, 2]);
    assert!(fs.files_with_type("yaml").is_empty());
}

#[test]
fn a_path_listed_twice_has_the_tags_of_both_listings() {
    let files = vec![
        classified("a", &["x"], &[]),
        classified("b", &["y"], &[]),
        classified("a", &[], &["z"]),
    ];
    let fs = FileSet::from_raw_files("/work", &files);
    assert!(fs.has_type("a", "x"));
    assert!(fs.has_type("a", "z"));
    assert!(!fs.has_type("a", "y"));
    assert!(fs.has_type("b", "y"));
    assert!(fs.has_type_at(2, "z"));
    assert!(!fs.has_type_at(2, "x"));
}

#[test]
fn every_file_of_a_large_set_is_found() {
    let files: Vec<ClassifiedFile> = (0..5000)
        .map(|i| classified(&format!("dir{}/f{}.py", i % 17, i), &["python"], &[]))
        .collect();
    let fs = FileSet::from_raw_files("/work", &files);
    for i in (0..5000).step_by(7) {
        assert!(fs.has_type(&format!("dir{}/f{}.py", i % 17, i), "python"));
        assert!(!fs.has_type(&format!("dir{}/f{}.py", i % 17, i), "text"));
        assert!(!fs.has_type(&format!("dir{}/g{}.py", i % 17, i), "python"));
    }
}
