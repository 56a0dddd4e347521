use ai_context_gen::config::{is_ignored_dir, is_ignored_file, is_supported_extension};
use ai_context_gen::scanner::{classify, extension, precedes, sort_by_path};
use ai_context_gen::{Config, FileInfo, FileType, ProjectMetadata, RepositoryScanner};

fn cs(s: &str) -> Vec<char> {
    s.chars().collect()
}

fn scanner(include_hidden: bool) -> RepositoryScanner {
    let mut config = Config::default();
    config.include_hidden = include_hidden;
    RepositoryScanner::new(config)
}

fn file(rel: &str, content: &str, file_type: FileType) -> FileInfo {
    FileInfo {
        path: format!("/repo/{}", rel),
        relative_path: rel.to_string(),
        content: content.to_string(),
        file_type,
        size: content.len() as u64,
    }
}

fn blank_metadata() -> ProjectMetadata {
    ProjectMetadata { name: "dir".to_string(), description: None, dependencies: Vec::new(), rust_version: None }
}

#[test]
fn default_config_values() {
    let c = Config::default();
    assert_eq!(c.repo_path, ".");
    assert_eq!(c.max_tokens, 50000);
    assert_eq!(c.output_file, "repo_context.md");
    assert!(!c.include_hidden);
    assert!(!c.include_deps);
}

#[test]
fn fixed_name_sets() {
    assert!(is_supported_extension(&cs("rs")) && is_supported_extension(&cs("md")));
    assert!(!is_supported_extension(&cs("txt")) && !is_supported_extension(&cs("")));
    for d in ["target", "node_modules", ".git", ".vscode", ".idea"] {
        assert!(is_ignored_dir(&cs(d)));
    }
    assert!(!is_ignored_dir(&cs("src")) && !is_ignored_dir(&cs("targets")));
    for f in ["Cargo.lock", ".gitignore", ".DS_Store"] {
        assert!(is_ignored_file(&cs(f)));
    }
    assert!(!is_ignored_file(&cs("Cargo.toml")));
}

#[test]
fn extensions_of_file_names() {
    assert_eq!(extension(&cs("a.rs")), Some(cs("rs")));
    assert_eq!(extension(&cs("a.tar.gz")), Some(cs("gz")));
    assert_eq!(extension(&cs(".secret.md")), Some(cs("md")));
    assert_eq!(extension(&cs(".gitignore")), None);
    assert_eq!(extension(&cs("Makefile")), None);
    assert_eq!(extension(&cs("a.")), Some(cs("")));
    assert_eq!(extension(&cs("")), None);
}

#[test]
fn files_are_classified_by_extension() {
    assert_eq!(classify("src/a.rs"), Some(FileType::Rust));
    assert_eq!(classify("README.md"), Some(FileType::Markdown));
    assert_eq!(classify("a.b/c.md"), Some(FileType::Markdown));
    assert_eq!(classify("notes.txt"), None);
    assert_eq!(classify("src.rs/file"), None);
}

#[test]
fn supported_files_and_directories_are_included() {
    let s = scanner(false);
    assert!(s.should_include_path("", false));
    assert!(s.should_include_path("src", false));
    assert!(s.should_include_path("src/a.rs", true));
    assert!(s.should_include_path("docs/guide/intro.md", true));
    assert!(!s.should_include_path("src/a.txt", true));
    assert!(!s.should_include_path("Makefile", true));
}

#[test]
fn ignored_names_are_skipped() {
    let s = scanner(true);
    assert!(!s.should_include_path("target", false));
    assert!(!s.should_include_path("target/debug/build.rs", true));
    assert!(!s.should_include_path("a/node_modules/x.md", true));
    assert!(!s.should_include_path(".git", false));
    assert!(!s.should_include_path("Cargo.lock", true));
    assert!(!s.should_include_path(".gitignore", true));
    // a component must equal an ignored name, not merely hold it
    assert!(s.should_include_path("targets/a.rs", true));
    assert!(s.should_include_path("my_target", false));
}

#[test]
fn hidden_entries_follow_the_flag() {
    assert!(!scanner(false).should_include_path(".secret.md", true));
    assert!(scanner(true).should_include_path(".secret.md", true));
    assert!(!scanner(false).should_include_path(".config", false));
    assert!(!scanner(false).should_include_path(".config/notes.md", true));
    assert!(scanner(true).should_include_path(".config/notes.md", true));
    assert!(!scanner(true).should_include_path(".git/notes.md", true));
}

#[test]
fn processed_files_carry_their_kind() {
    let s = scanner(false);
    let f = s.process_file("/r/src/a.rs".to_string(), "src/a.rs".to_string(), "fn a() {}".to_string(), 9);
    match f {
        Some(f) => {
            assert_eq!(f.path, "/r/src/a.rs");
            assert_eq!(f.relative_path, "src/a.rs");
            assert_eq!(f.content, "fn a() {}");
            assert_eq!(f.file_type, FileType::Rust);
            assert_eq!(f.size, 9);
        }
        None => panic!("left out"),
    }
    assert!(s.process_file("/r/x.txt".to_string(), "x.txt".to_string(), String::new(), 0).is_none());
}

#[test]
fn lexicographic_order_of_paths() {
    assert!(precedes(&cs("a"), &cs("b")));
    assert!(precedes(&cs("a"), &cs("a")));
    assert!(precedes(&cs("a"), &cs("ab")));
    assert!(!precedes(&cs("ab"), &cs("a")));
    assert!(!precedes(&cs("b"), &cs("a")));
    assert!(precedes(&cs(""), &cs("")));
    assert!(precedes(&cs("README.md"), &cs("src/a.rs")));
    let sorted = sort_by_path(&vec![
        file("src/b.rs", "", FileType::Rust),
        file("README.md", "", FileType::Markdown),
        file("src/a.rs", "", FileType::Rust),
        file("docs/x.md", "", FileType::Markdown),
    ]);
    let paths: Vec<&str> = sorted.iter().map(|f| f.relative_path.as_str()).collect();
    assert_eq!(paths, vec!["README.md", "docs/x.md", "src/a.rs", "src/b.rs"]);
}

#[test]
fn tree_of_an_empty_scan() {
    let s = scanner(false);
    let p = s.build_project_structure(&Vec::new(), 0);
    assert_eq!(p.tree, "```\n```\n");
    assert_eq!(p.total_files, 0);
    assert_eq!(p.total_size, 0);
}

#[test]
fn tree_lines_are_sorted_and_indented() {
    let s = scanner(false);
    let files = vec![
        file("src/deep/b.rs", "fn b() {}", FileType::Rust),
        file("README.md", "sixty-eight bytes of text are in this file, counted to the very end.", FileType::Markdown),
        file("src/a.rs", "", FileType::Rust),
    ];
    let p = s.build_project_structure(&files, 77);
    assert_eq!(
        p.tree,
        "```\n├── README.md\n│   ├── src/a.rs\n│   │   └── src/deep/b.rs\n```\n"
    );
    assert_eq!(p.total_files, 3);
    assert_eq!(p.total_size, 77);
}

#[test]
fn manifest_gives_name_version_and_dependencies() {
    let s = scanner(false);
    let mut m = blank_metadata();
    s.parse_cargo_toml(
        "[package]\nname = \"x\"\nversion = \"0.1.0\"\n[dependencies]\nfoo = \"1\"\nbar = \"2\"\n",
        &mut m,
    );
    assert_eq!(m.name, "x");
    assert_eq!(m.rust_version, Some("0.1.0".to_string()));
    assert_eq!(m.dependencies, vec!["foo".to_string(), "bar".to_string()]);
    assert_eq!(m.description, None);
}

#[test]
fn manifest_sections_comments_and_other_keys() {
    let s = scanner(false);
    let mut m = blank_metadata();
    s.parse_cargo_toml(
        "name = \"outside\"\n[package]\n  name=\"inner\"  \nedition = \"2021\"\n\n[features]\nfoo = []\n[dependencies.serde]\nversion = \"1\"\n# a comment\n\n[dev-dependencies]\ntempfile = \"3\"\n[dependencies]\nanyhow = { version = \"1\" }\n",
        &mut m,
    );
    assert_eq!(m.name, "inner");
    assert_eq!(m.rust_version, None);
    assert_eq!(m.dependencies, vec!["version".to_string(), "anyhow".to_string()]);
}

#[test]
fn manifest_keys_are_compared_whole() {
    let s = scanner(false);
    let mut m = blank_metadata();
    s.parse_cargo_toml(
        "[package]\nname = \"x\"\nnamespace = \"z\"\nversion_note = \"later\"\nnames = \"y\"\n",
        &mut m,
    );
    assert_eq!(m.name, "x");
    assert_eq!(m.rust_version, None);
    assert!(m.dependencies.is_empty());
    let mut spaced = blank_metadata();
    s.parse_cargo_toml("[package]\n name\t=  \"spaced\" \nversion=\"2\"\n", &mut spaced);
    assert_eq!(spaced.name, "spaced");
    assert_eq!(spaced.rust_version, Some("2".to_string()));
}

#[test]
fn manifest_without_a_name_keeps_the_directory_name() {
    let s = scanner(false);
    let mut m = blank_metadata();
    s.parse_cargo_toml("[package]\nname\nname = \"\"\nversion = 1.2\n", &mut m);
    assert_eq!(m.name, "dir");
    assert_eq!(m.rust_version, Some("1.2".to_string()));
    let mut untouched = blank_metadata();
    s.parse_cargo_toml("", &mut untouched);
    assert_eq!(untouched.name, "dir");
    assert!(untouched.dependencies.is_empty());
}

#[test]
fn readme_description_skips_headings_and_blank_lines() {
    let s = scanner(false);
    assert_eq!(
        s.extract_description_from_readme("# Title\n\nA tool.\nIt works.\n## More\nlast\n"),
        Some("A tool.\nIt works.\nlast".to_string())
    );
    assert_eq!(s.extract_description_from_readme("# Only\n\n   \n## headings\n"), None);
    assert_eq!(s.extract_description_from_readme(""), None);
}

#[test]
fn readme_description_stops_after_ten_lines_or_200_characters() {
    let s = scanner(false);
    let many = "l1\nl2\nl3\nl4\nl5\nl6\nl7\nl8\nl9\nl10\nl11\nl12\n";
    assert_eq!(
        s.extract_description_from_readme(many),
        Some("l1\nl2\nl3\nl4\nl5\nl6\nl7\nl8\nl9\nl10".to_string())
    );
    let long_line = "x".repeat(199);
    let text = format!("{}\nsecond\nthird\n", long_line);
    assert_eq!(s.extract_description_from_readme(&text), Some(long_line));
    let shorter = "y".repeat(198);
    let text = format!("{}\nsecond\nthird\n", shorter);
    assert_eq!(s.extract_description_from_readme(&text), Some(format!("{}\nsecond", shorter)));
}

#[test]
fn metadata_falls_back_to_the_directory_name() {
    let s = scanner(false);
    let m = s.extract_project_metadata("my-repo", None, None);
    assert_eq!(m.name, "my-repo");
    assert_eq!(m.description, None);
    assert!(m.dependencies.is_empty());
    assert_eq!(m.rust_version, None);
    let m = s.extract_project_metadata(
        "my-repo",
        Some("[package]\nname = \"crate-name\"\n"),
        Some("# T\nDescribed.\n"),
    );
    assert_eq!(m.name, "crate-name");
    assert_eq!(m.description, Some("Described.".to_string()));
}

#[test]
fn scan_orders_files_and_adds_sizes() {
    let s = scanner(false);
    let r = s.scan(
        vec![file("src/b.rs", "bb", FileType::Rust), file("a.md", "a", FileType::Markdown)],
        "repo",
        None,
        None,
    );
    let paths: Vec<&str> = r.files.iter().map(|f| f.relative_path.as_str()).collect();
    assert_eq!(paths, vec!["a.md", "src/b.rs"]);
    assert_eq!(r.project_structure.total_files, 2);
    assert_eq!(r.project_structure.total_size, 3);
    assert_eq!(r.project_structure.tree, "```\n├── a.md\n│   └── src/b.rs\n```\n");
    assert_eq!(r.metadata.name, "repo");
}
