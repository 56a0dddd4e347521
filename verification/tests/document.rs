use ai_context_gen::generator::render_analysis;
use ai_context_gen::token_counter::TokenCounter;
use ai_context_gen::{
    generate_context, generate_context_with_config, Config, ContentSection, ContextGenerator,
    FileInfo, FileType, PipelineError, ProjectMetadata, ProjectStructure, RepositoryInput,
    RepositoryScanner, RustParser, ScanResult,
};

fn config(max_tokens: usize, include_deps: bool) -> Config {
    Config {
        repo_path: "/work/repo".to_string(),
        max_tokens,
        output_file: "out.md".to_string(),
        include_hidden: false,
        include_deps,
    }
}

fn generator(max_tokens: usize, include_deps: bool) -> ContextGenerator {
    match ContextGenerator::new(config(max_tokens, include_deps)) {
        Ok(g) => g,
        Err(e) => panic!("no tokenizer: {}", e.message),
    }
}

fn file(rel: &str, content: &str, file_type: FileType) -> FileInfo {
    FileInfo {
        path: format!("/work/repo/{}", rel),
        relative_path: rel.to_string(),
        content: content.to_string(),
        file_type,
        size: content.len() as u64,
    }
}

fn scan_of(files: Vec<FileInfo>) -> ScanResult {
    let total_size = files.iter().map(|f| f.size).sum();
    ScanResult {
        project_structure: ProjectStructure {
            tree: "```\n```\n".to_string(),
            total_files: files.len(),
            total_size,
        },
        files,
        metadata: ProjectMetadata {
            name: "repo".to_string(),
            description: Some("A test project.".to_string()),
            dependencies: vec!["foo".to_string(), "bar".to_string()],
            rust_version: Some("0.1.0".to_string()),
        },
    }
}

fn input(files: Vec<FileInfo>) -> RepositoryInput {
    RepositoryInput { files, dir_name: "repo".to_string(), manifest: None, readme: None }
}

fn words(n: usize) -> String {
    let mut s = String::new();
    for i in 0..n {
        s.push_str("token");
        s.push_str(&i.to_string());
        s.push(' ');
    }
    s
}

#[test]
fn metadata_section_without_dependencies() {
    let s = generator(1000, false).create_metadata_section(&scan_of(Vec::new()));
    assert_eq!(s.title, "Project Metadata");
    assert_eq!(s.priority, 10);
    assert!(!s.truncated);
    assert_eq!(
        s.content,
        "# Project Metadata\n\n**Name:** repo\n**Description:** A test project.\n**Version:** 0.1.0\n**Total files:** 0\n**Total size:** 0 bytes\n\n"
    );
}

#[test]
fn metadata_section_with_dependencies() {
    let scan = scan_of(vec![file("a.md", "12345", FileType::Markdown)]);
    let s = generator(1000, true).create_metadata_section(&scan);
    assert_eq!(
        s.content,
        "# Project Metadata\n\n**Name:** repo\n**Description:** A test project.\n**Dependencies:**\n- foo\n- bar\n**Version:** 0.1.0\n**Total files:** 1\n**Total size:** 5 bytes\n\n"
    );
}

#[test]
fn metadata_section_of_a_bare_project() {
    let mut scan = scan_of(Vec::new());
    scan.metadata.description = None;
    scan.metadata.rust_version = None;
    scan.metadata.dependencies = Vec::new();
    let s = generator(1000, true).create_metadata_section(&scan);
    assert_eq!(
        s.content,
        "# Project Metadata\n\n**Name:** repo\n**Total files:** 0\n**Total size:** 0 bytes\n\n"
    );
}

#[test]
fn structure_section_holds_the_tree() {
    let mut scan = scan_of(Vec::new());
    scan.project_structure.tree = "```\n└── a.rs\n```\n".to_string();
    let s = generator(1000, false).create_structure_section(&scan);
    assert_eq!(s.title, "Project Structure");
    assert_eq!(s.priority, 9);
    assert_eq!(s.content, "# Project Structure\n\n```\n└── a.rs\n```\n\n");
}

#[test]
fn documentation_sections_for_markdown_files_only() {
    let scan = scan_of(vec![
        file("README.md", "# Hi\ntext", FileType::Markdown),
        file("src/a.rs", "fn a() {}", FileType::Rust),
        file("docs/b.md", "b", FileType::Markdown),
    ]);
    let s = generator(1000, false).create_markdown_sections(&scan);
    assert_eq!(s.len(), 2);
    assert_eq!(s[0].title, "Documentation: README.md");
    assert_eq!(s[0].content, "# Documentation: README.md\n\n# Hi\ntext\n");
    assert_eq!(s[0].priority, 8);
    assert_eq!(s[1].title, "Documentation: docs/b.md");
}

#[test]
fn source_sections_wrap_the_text_in_a_fence() {
    let scan = scan_of(vec![
        file("README.md", "hello", FileType::Markdown),
        file("src/a.rs", "pub fn hello() {}", FileType::Rust),
    ]);
    let s = generator(1000, false).create_source_code_sections(&scan);
    assert_eq!(s.len(), 2);
    assert_eq!(s[0].title, "Source: README.md");
    assert_eq!(s[0].content, "# Source: README.md\n\n```markdown\nhello\n```\n\n");
    assert_eq!(s[1].title, "Source: src/a.rs");
    assert_eq!(s[1].content, "# Source: src/a.rs\n\n```rust\npub fn hello() {}\n```\n\n");
    assert_eq!(s[1].priority, 3);
}

#[test]
fn analysis_of_a_single_function() {
    let scan = scan_of(vec![file("src/a.rs", "pub fn hello() {}", FileType::Rust)]);
    let (sections, failures) = generator(1000, false).create_rust_analysis_sections(&scan);
    assert!(failures.is_empty());
    assert_eq!(sections.len(), 1);
    assert_eq!(sections[0].title, "Analysis: src/a.rs");
    assert_eq!(sections[0].priority, 6);
    assert_eq!(
        sections[0].content,
        "# Analysis: src/a.rs\n\n## Functions\n- hello() -> () (pub)\n\n"
    );
}

#[test]
fn analysis_body_lists_every_kind() {
    let src = "mod m;\npub fn f(a: u8, b: bool) -> u8 { a }\npub struct S { x: u8, y: u8 }\nenum E { A, B, C }\nimpl S { fn one(&self) {} fn two(&self) {} }\n";
    let analysis = match RustParser::parse_rust_file("/r/x.rs", src) {
        Ok(a) => a,
        Err(e) => panic!("{}", e.message),
    };
    assert_eq!(
        render_analysis("x.rs", &analysis),
        "# Analysis: x.rs\n\n## Modules\n- **m**: private\n\n## Functions\n- f(a: u8, b: bool) -> u8 (pub)\n\n## Structs\n- **S**: 2 fields (pub)\n\n## Enums\n- **E**: 3 variants (private)\n\n## Implementations\n- **impl S**: 2 methods\n\n"
    );
}

#[test]
fn parse_failure_leaves_out_the_analysis_only() {
    let scan = scan_of(vec![
        file("src/bad.rs", "pub fn broken( {", FileType::Rust),
        file("src/good.rs", "fn ok() {}", FileType::Rust),
    ]);
    let g = generator(100000, false);
    let (sections, failures) = g.create_rust_analysis_sections(&scan);
    assert_eq!(sections.len(), 1);
    assert_eq!(sections[0].title, "Analysis: src/good.rs");
    assert_eq!(failures.len(), 1);
    assert_eq!(failures[0].relative_path, "src/bad.rs");
    assert!(!failures[0].message.is_empty());
    let out = match g.generate_context(&scan, 0) {
        Some(out) => out,
        None => panic!("no document"),
    };
    assert_eq!(out.failures.len(), 1);
    assert!(out.document.contains("Source: src/bad.rs"));
    assert!(out.document.contains("# Source: src/bad.rs\n\n```rust\npub fn broken( {\n```\n"));
    assert!(!out.document.contains("Analysis: src/bad.rs"));
}

#[test]
fn document_layout() {
    let g = generator(1234, false);
    let mut cut = ContentSection::new("Second".to_string(), "second body".to_string(), 3);
    cut.truncated = true;
    let sections = vec![ContentSection::new("First".to_string(), "first body\n".to_string(), 9), cut];
    assert_eq!(
        g.format_context(&sections, "2024-01-02 03:04:05 UTC"),
        "# AI Context Generation Report\n\nGenerated on: 2024-01-02 03:04:05 UTC\nRepository: /work/repo\nMax tokens: 1234\n\n## Table of Contents\n\n1. First\n2. Second (truncated)\n\n---\n\nfirst body\n---\n\nsecond body"
    );
}

#[test]
fn document_without_sections() {
    let g = generator(0, false);
    assert_eq!(
        g.format_context(&Vec::new(), "1970-01-01 00:00:00 UTC"),
        "# AI Context Generation Report\n\nGenerated on: 1970-01-01 00:00:00 UTC\nRepository: /work/repo\nMax tokens: 0\n\n## Table of Contents\n\n\n"
    );
}

#[test]
fn zero_budget_gives_header_and_empty_contents() {
    let scan = scan_of(vec![file("src/a.rs", "pub fn hello() {}", FileType::Rust)]);
    let out = match generator(0, false).generate_context(&scan, 1431648000) {
        Some(out) => out,
        None => panic!("no document"),
    };
    assert_eq!(
        out.document,
        "# AI Context Generation Report\n\nGenerated on: 2015-05-15 00:00:00 UTC\nRepository: /work/repo\nMax tokens: 0\n\n## Table of Contents\n\n\n"
    );
}

#[test]
fn time_is_written_in_utc() {
    let scan = scan_of(Vec::new());
    let g = generator(10, false);
    let at = |secs: i64| match g.generate_context(&scan, secs) {
        Some(out) => out.document,
        None => panic!("no document"),
    };
    assert!(at(0).contains("Generated on: 1970-01-01 00:00:00 UTC\n"));
    assert!(at(1704164645).contains("Generated on: 2024-01-02 03:04:05 UTC\n"));
    assert!(at(-1).contains("Generated on: 1969-12-31 23:59:59 UTC\n"));
    assert!(g.generate_context(&scan, i64::MAX).is_none());
}

#[test]
fn empty_repository_still_has_metadata_and_structure() {
    let out = match generate_context_with_config(config(50000, false), input(Vec::new()), 0) {
        Ok(out) => out,
        Err(_) => panic!("failed"),
    };
    assert!(out.failures.is_empty());
    assert_eq!(
        out.document,
        "# AI Context Generation Report\n\nGenerated on: 1970-01-01 00:00:00 UTC\nRepository: /work/repo\nMax tokens: 50000\n\n## Table of Contents\n\n1. Project Metadata\n2. Project Structure\n\n---\n\n# Project Metadata\n\n**Name:** repo\n**Total files:** 0\n**Total size:** 0 bytes\n\n---\n\n# Project Structure\n\n```\n```\n\n"
    );
}

#[test]
fn single_source_file_end_to_end() {
    let out = match generate_context_with_config(
        config(50000, false),
        input(vec![file("src/a.rs", "pub fn hello() {}", FileType::Rust)]),
        0,
    ) {
        Ok(out) => out,
        Err(_) => panic!("failed"),
    };
    let doc = out.document;
    assert!(doc.contains("1. Project Metadata\n2. Project Structure\n3. Analysis: src/a.rs\n4. Source: src/a.rs\n"));
    assert!(doc.contains("- hello() -> () (pub)\n"));
    assert!(doc.contains("```rust\npub fn hello() {}\n```\n"));
    assert!(doc.contains("**Total files:** 1\n**Total size:** 17 bytes\n"));
    assert!(doc.contains("```\n│   └── src/a.rs\n```\n"));
}

#[test]
fn sections_come_in_priority_bands() {
    let out = match generate_context_with_config(
        config(50000, false),
        input(vec![
            file("src/b.rs", "fn b() {}", FileType::Rust),
            file("README.md", "read me", FileType::Markdown),
            file("src/a.rs", "fn a() {}", FileType::Rust),
        ]),
        0,
    ) {
        Ok(out) => out,
        Err(_) => panic!("failed"),
    };
    assert!(out.document.contains(
        "1. Project Metadata\n2. Project Structure\n3. Documentation: README.md\n4. Analysis: src/a.rs\n5. Analysis: src/b.rs\n6. Source: README.md\n7. Source: src/a.rs\n8. Source: src/b.rs\n\n"
    ));
}

#[test]
fn tight_budget_keeps_the_high_priority_sections() {
    let a = format!("// {}\nfn a() {{}}\n", words(600));
    let b = format!("// {}\nfn b() {{}}\n", words(600));
    let out = match generate_context_with_config(
        config(400, false),
        input(vec![file("src/a.rs", &a, FileType::Rust), file("src/b.rs", &b, FileType::Rust)]),
        0,
    ) {
        Ok(out) => out,
        Err(_) => panic!("failed"),
    };
    let doc = out.document;
    assert!(doc.contains("1. Project Metadata\n2. Project Structure\n3. Analysis: src/a.rs\n4. Analysis: src/b.rs\n5. Source: src/a.rs (truncated)\n\n"));
    assert!(!doc.contains("Source: src/b.rs"));
    let counter = TokenCounter::new().ok().unwrap();
    let bodies: Vec<&str> = doc.split("---\n\n").skip(1).collect();
    assert_eq!(bodies.len(), 5);
    let total: usize = bodies.iter().map(|b| counter.count_tokens(b).unwrap_or(usize::MAX)).sum();
    assert!(total <= 400);
}

#[test]
fn same_input_and_time_give_the_same_document() {
    let files = || {
        vec![
            file("src/lib.rs", "pub mod a;\npub fn f() {}\n", FileType::Rust),
            file("README.md", "# T\nwords\n", FileType::Markdown),
        ]
    };
    let run = |fs: Vec<FileInfo>| match generate_context_with_config(config(300, true), input(fs), 86400) {
        Ok(out) => out.document,
        Err(_) => panic!("failed"),
    };
    let first = run(files());
    let mut reversed = files();
    reversed.reverse();
    assert_eq!(first, run(files()));
    assert_eq!(first, run(reversed));
}

#[test]
fn manifest_and_readme_reach_the_metadata_section() {
    let repo = RepositoryInput {
        files: Vec::new(),
        dir_name: "dir".to_string(),
        manifest: Some("[package]\nname = \"x\"\nversion = \"0.1.0\"\n[dependencies]\nfoo = \"1\"\nbar = \"2\"\n".to_string()),
        readme: Some("# X\n\nDoes things.\n".to_string()),
    };
    let with_deps = match generate_context_with_config(config(5000, true), repo.clone(), 0) {
        Ok(out) => out.document,
        Err(_) => panic!("failed"),
    };
    assert!(with_deps.contains("**Name:** x\n**Description:** Does things.\n**Dependencies:**\n- foo\n- bar\n**Version:** 0.1.0\n"));
    let without = match generate_context_with_config(config(5000, false), repo.clone(), 0) {
        Ok(out) => out.document,
        Err(_) => panic!("failed"),
    };
    assert!(without.contains("**Name:** x\n**Description:** Does things.\n**Version:** 0.1.0\n"));
    assert!(!without.contains("Dependencies"));
}

#[test]
fn standard_options_are_used_without_a_config() {
    let out = match generate_context("some/path".to_string(), "ctx.md".to_string(), input(Vec::new()), 0) {
        Ok(out) => out.document,
        Err(_) => panic!("failed"),
    };
    assert!(out.contains("Repository: some/path\nMax tokens: 50000\n"));
}

#[test]
fn sizes_that_do_not_add_up_are_refused() {
    let mut a = file("a.md", "", FileType::Markdown);
    let mut b = file("b.md", "", FileType::Markdown);
    a.size = u64::MAX;
    b.size = 1;
    let r = generate_context_with_config(config(10, false), input(vec![a, b]), 0);
    assert!(matches!(r, Err(PipelineError::SizeOverflow)));
}

#[test]
fn time_out_of_range_is_refused() {
    let r = generate_context_with_config(config(10, false), input(Vec::new()), i64::MIN);
    assert!(matches!(r, Err(PipelineError::TimeOutOfRange)));
}

#[test]
fn hidden_markdown_file_appears_only_when_asked_for() {
    let read = |include_hidden: bool| {
        let mut options = config(50000, false);
        options.include_hidden = include_hidden;
        let scanner = RepositoryScanner::new(options.clone());
        let mut files = Vec::new();
        if scanner.should_include_path(".secret.md", true) {
            let record = scanner.process_file(
                "/work/repo/.secret.md".to_string(),
                ".secret.md".to_string(),
                "hush".to_string(),
                4,
            );
            if let Some(record) = record {
                files.push(record);
            }
        }
        match generate_context_with_config(options, input(files), 0) {
            Ok(out) => out.document,
            Err(_) => panic!("failed"),
        }
    };
    let without = read(false);
    assert!(!without.contains(".secret.md"));
    let with = read(true);
    assert!(with.contains("3. Documentation: .secret.md\n4. Source: .secret.md\n"));
    assert!(with.contains("# Documentation: .secret.md\n\nhush\n"));
    assert!(with.contains("# Source: .secret.md\n\n```markdown\nhush\n```\n"));
}
