//! What a scan of a repository yields, and the rules it goes by: which
//! paths are scanned, how files are classified, how the tree is drawn, and
//! what is read from the manifest and the README.

use vstd::prelude::*;
use vstd::string::StringExecFns;
use crate::config::{
    ignored_dir, ignored_file, is_ignored_dir, is_ignored_file, is_supported_extension,
    supported_extension, Config,
};
use crate::text::{
    chars_of, concat, concat_upto, fields, has_prefix, lines, rows, same_text, split_fields,
    split_lines, string_of, strip, texts, trim, trimmed, unquoted,
};

verus! {

/// The kinds of file that are scanned.
#[derive(Debug, Clone, Copy, PartialEq, Eq, Structural)]
pub enum FileType {
    /// Rust source, with the extension `rs`.
    Rust,
    /// Markdown documentation, with the extension `md`.
    Markdown,
}

/// A scanned file.
#[derive(Debug, Clone)]
pub struct FileInfo {
    /// The path of the file as it was read.
    pub path: String,
    /// The path below the repository root, with `/` between components.
    pub relative_path: String,
    /// The text of the file.
    pub content: String,
    pub file_type: FileType,
    /// The size of the file in bytes.
    pub size: u64,
}

/// The shape of the project.
#[derive(Debug, Clone)]
pub struct ProjectStructure {
    /// The tree of scanned files, drawn as text.
    pub tree: String,
    pub total_files: usize,
    /// The sizes of the scanned files, added up.
    pub total_size: u64,
}

/// What the manifest and the README say of the project.
#[derive(Debug, Clone)]
pub struct ProjectMetadata {
    pub name: String,
    pub description: Option<String>,
    /// The names of the dependencies, in the manifest's order.
    pub dependencies: Vec<String>,
    /// The version that the manifest gives.
    pub rust_version: Option<String>,
}

/// All that a scan yields.
#[derive(Debug, Clone)]
pub struct ScanResult {
    pub files: Vec<FileInfo>,
    pub project_structure: ProjectStructure,
    pub metadata: ProjectMetadata,
}

/// Whether a path component is hidden: its name begins with a dot.
pub open spec fn hidden_component(c: Seq<char>) -> bool {
    c.len() > 0 && c[0] == '.'
}

/// The extension of a file name: what follows its last dot, where it has
/// a dot other than one at its very start.
pub open spec fn extension_of(name: Seq<char>) -> Option<Seq<char>> {
    let parts = fields(name, '.');
    if parts.len() < 2 || (parts.len() == 2 && parts[0].len() == 0) {
        None
    } else {
        Some(parts.last())
    }
}

/// Whether the entry at `path` below the root, with `/` between its
/// components, is scanned: no component is hidden unless hidden entries
/// are asked for, none is an ignored directory, and a file has a name that
/// is not ignored and an extension that is supported.
pub open spec fn path_included(include_hidden: bool, path: Seq<char>, is_file: bool) -> bool {
    let comps = fields(path, '/');
    &&& include_hidden || forall|k: int| 0 <= k < comps.len() ==> !hidden_component(#[trigger] comps[k])
    &&& forall|k: int| 0 <= k < comps.len() ==> !ignored_dir(#[trigger] comps[k])
    &&& is_file ==> {
        &&& !ignored_file(comps.last())
        &&& extension_of(comps.last()) matches Some(e) && supported_extension(e)
    }
}

/// The kind of the file at `path`, by the extension of its name.
pub open spec fn file_type_of(path: Seq<char>) -> Option<FileType> {
    match extension_of(fields(path, '/').last()) {
        Some(e) => if e == "rs"@ {
            Some(FileType::Rust)
        } else if e == "md"@ {
            Some(FileType::Markdown)
        } else {
            None
        },
        None => None,
    }
}

/// Whether the kind of a file record is the one that the extension of its
/// relative path gives.
pub open spec fn kind_matches(f: FileInfo) -> bool {
    file_type_of(f.relative_path@) == Some(f.file_type)
}

/// The extension of a file name.
pub fn extension(name: &Vec<char>) -> (r: Option<Vec<char>>)
    ensures
        match r {
            Some(e) => extension_of(name@) == Some(e@),
            None => extension_of(name@) is None,
        },
{
    let mut parts = split_fields(name, '.');
    let n = parts.len();
    assert(rows(parts@).len() == n);
    assert(rows(parts@)[0] == parts@[0]@);
    if n < 2 || (n == 2 && parts[0].len() == 0) {
        None
    } else {
        assert(rows(parts@).last() == parts@[n - 1]@);
        parts.pop()
    }
}

/// The kind of the file at `path`.
pub fn classify(path: &str) -> (r: Option<FileType>)
    ensures
        r == file_type_of(path@),
{
    let chars = chars_of(path);
    let comps = split_fields(&chars, '/');
    assert(rows(comps@).last() == comps@[comps.len() - 1]@);
    match extension(&comps[comps.len() - 1]) {
        Some(e) => if same_text(&e, "rs") {
            Some(FileType::Rust)
        } else if same_text(&e, "md") {
            Some(FileType::Markdown)
        } else {
            None
        },
        None => None,
    }
}

/// Whether `a` comes before `b` or equals it, from place `i` on, in the
/// order of their characters; a text comes before those it begins.
pub open spec fn lex_le_from(a: Seq<char>, b: Seq<char>, i: int) -> bool
    decreases a.len() - i,
{
    if i < 0 || i >= a.len() {
        true
    } else if i >= b.len() {
        false
    } else if a[i] != b[i] {
        a[i] < b[i]
    } else {
        lex_le_from(a, b, i + 1)
    }
}

/// Whether `a` comes before `b` or equals it in lexicographic order.
pub open spec fn lex_le(a: Seq<char>, b: Seq<char>) -> bool {
    lex_le_from(a, b, 0)
}

/// Whether `a` comes before `b` or equals it in lexicographic order.
pub fn precedes(a: &Vec<char>, b: &Vec<char>) -> (r: bool)
    ensures
        r == lex_le(a@, b@),
{
    let mut i: usize = 0;
    while i < a.len()
        invariant
            i <= a.len(),
            lex_le(a@, b@) == lex_le_from(a@, b@, i as int),
        decreases a.len() - i,
    {
        if i >= b.len() {
            return false;
        }
        if a[i] != b[i] {
            return a[i] < b[i];
        }
        i += 1;
    }
    true
}

/// The place at which a file with the path `p` goes into `sorted`: behind
/// the files from `from` on whose paths come before `p` or equal it.
pub open spec fn place_from(sorted: Seq<FileInfo>, p: Seq<char>, from: int) -> int
    decreases sorted.len() - from,
{
    if 0 <= from < sorted.len() && lex_le(sorted[from].relative_path@, p) {
        place_from(sorted, p, from + 1)
    } else {
        from
    }
}

/// The first `n` of `files` in the lexicographic order of their relative
/// paths, files of equal path in their order.
pub open spec fn sorted_upto(files: Seq<FileInfo>, n: int) -> Seq<FileInfo>
    decreases n,
{
    if n <= 0 || n > files.len() {
        Seq::empty()
    } else {
        let before = sorted_upto(files, n - 1);
        before.insert(place_from(before, files[n - 1].relative_path@, 0), files[n - 1])
    }
}

/// `files` in the lexicographic order of their relative paths.
pub open spec fn sorted_by_path(files: Seq<FileInfo>) -> Seq<FileInfo> {
    sorted_upto(files, files.len() as int)
}

/// The sizes of the first `n` files, added up.
pub open spec fn size_upto(files: Seq<FileInfo>, n: int) -> nat
    decreases n,
{
    if n <= 0 || n > files.len() {
        0
    } else {
        size_upto(files, n - 1) + files[n - 1].size as nat
    }
}

/// The sizes of the files, added up.
pub open spec fn total_size(files: Seq<FileInfo>) -> nat {
    size_upto(files, files.len() as int)
}

/// `s` written `n` times.
pub open spec fn repeated(s: Seq<char>, n: int) -> Seq<char>
    decreases n,
{
    if n <= 0 {
        Seq::empty()
    } else {
        repeated(s, n - 1) + s
    }
}

/// The depth of a relative path: the number of its components less one.
pub open spec fn depth_of(path: Seq<char>) -> int {
    fields(path, '/').len() - 1
}

/// The line of the tree for the file at place `k` of `n`: one bar for each
/// level of depth, a branch that closes on the last line, and the path.
pub open spec fn tree_line(k: int, n: int, path: Seq<char>) -> Seq<char> {
    repeated("│   "@, depth_of(path)) + (if k == n - 1 {
        "└── "@
    } else {
        "├── "@
    }) + path + "\n"@
}

/// The lines of the tree of `files`.
pub open spec fn tree_lines(files: Seq<FileInfo>) -> Seq<Seq<char>> {
    Seq::new(
        files.len(),
        |k: int| tree_line(k, files.len() as int, sorted_by_path(files)[k].relative_path@),
    )
}

/// The tree of `files`: one line for each file, in the lexicographic
/// order of their relative paths, inside a code fence.
pub open spec fn tree_text(files: Seq<FileInfo>) -> Seq<char> {
    "```\n"@ + concat(tree_lines(files)) + "```\n"@
}

/// A copy of a file record.
pub fn copy_file(f: &FileInfo) -> (r: FileInfo)
    ensures
        r == *f,
{
    FileInfo {
        path: f.path.clone(),
        relative_path: f.relative_path.clone(),
        content: f.content.clone(),
        file_type: f.file_type,
        size: f.size,
    }
}

/// Orders files by their relative paths.
pub fn sort_by_path(files: &Vec<FileInfo>) -> (sorted: Vec<FileInfo>)
    ensures
        sorted@ == sorted_by_path(files@),
        sorted@.len() == files@.len(),
{
    let mut sorted: Vec<FileInfo> = Vec::new();
    let mut keys: Vec<Vec<char>> = Vec::new();
    let mut i: usize = 0;
    while i < files.len()
        invariant
            i <= files.len(),
            sorted@ == sorted_upto(files@, i as int),
            sorted@.len() == i,
            keys@.len() == i,
            forall|k: int| 0 <= k < i ==> (#[trigger] keys@[k])@ == sorted@[k].relative_path@,
        decreases files.len() - i,
    {
        let key = chars_of(files[i].relative_path.as_str());
        let mut j: usize = 0;
        while j < sorted.len() && precedes(&keys[j], &key)
            invariant
                j <= sorted@.len() == keys@.len(),
                key@ == files@[i as int].relative_path@,
                forall|k: int|
                    0 <= k < keys@.len() ==> (#[trigger] keys@[k])@ == sorted@[k].relative_path@,
                place_from(sorted@, key@, 0) == place_from(sorted@, key@, j as int),
            decreases sorted@.len() - j,
        {
            j += 1;
        }
        sorted.insert(j, copy_file(&files[i]));
        keys.insert(j, key);
        i += 1;
    }
    sorted
}

/// Scans a repository by the rules of its options.
pub struct RepositoryScanner {
    config: Config,
}

/// What has been read of a manifest: the name, the version, the
/// dependencies so far, and the section that the next line stands in.
pub struct ManifestFacts {
    pub name: Seq<char>,
    pub version: Option<Seq<char>>,
    pub dependencies: Seq<Seq<char>>,
    pub in_package: bool,
    pub in_dependencies: bool,
}

/// The value of a `key = value` line: what stands between the first and
/// the second `=`, trimmed and without quotes; nothing without a `=`.
pub open spec fn value_of(line: Seq<char>) -> Option<Seq<char>> {
    let parts = fields(line, '=');
    if parts.len() > 1 {
        Some(unquoted(trimmed(parts[1])))
    } else {
        None
    }
}

/// The key of a `key = value` line: what stands before the first `=`,
/// trimmed.
pub open spec fn key_of(line: Seq<char>) -> Seq<char> {
    trimmed(fields(line, '=')[0])
}

/// What one more line of the manifest changes. A section header sets the
/// section. In `[package]`, a line with the key `name` or `version` and a
/// value sets the name, unless the value is empty, or the version; lines
/// with other keys change nothing. In a section whose header begins with
/// `[dependencies`, each line that is neither empty nor a comment adds
/// its key.
pub open spec fn manifest_step(st: ManifestFacts, raw: Seq<char>) -> ManifestFacts {
    let line = trimmed(raw);
    if "[package]"@.is_prefix_of(line) {
        ManifestFacts { in_package: true, in_dependencies: false, ..st }
    } else if "[dependencies"@.is_prefix_of(line) {
        ManifestFacts { in_package: false, in_dependencies: true, ..st }
    } else if "["@.is_prefix_of(line) {
        ManifestFacts { in_package: false, in_dependencies: false, ..st }
    } else if st.in_package {
        if key_of(line) == "name"@ {
            match value_of(line) {
                Some(v) => if v.len() > 0 {
                    ManifestFacts { name: v, ..st }
                } else {
                    st
                },
                None => st,
            }
        } else if key_of(line) == "version"@ {
            match value_of(line) {
                Some(v) => ManifestFacts { version: Some(v), ..st },
                None => st,
            }
        } else {
            st
        }
    } else if st.in_dependencies && line.len() > 0 && !"#"@.is_prefix_of(line) {
        ManifestFacts { dependencies: st.dependencies.push(key_of(line)), ..st }
    } else {
        st
    }
}

/// What the lines from `i` on change, taken in order.
pub open spec fn manifest_fold(ls: Seq<Seq<char>>, i: int, st: ManifestFacts) -> ManifestFacts
    decreases ls.len() - i,
{
    if 0 <= i < ls.len() {
        manifest_fold(ls, i + 1, manifest_step(st, ls[i]))
    } else {
        st
    }
}

/// What is known of a project before its manifest is read.
pub open spec fn facts_of(m: ProjectMetadata) -> ManifestFacts {
    ManifestFacts {
        name: m.name@,
        version: opt_view(m.rust_version),
        dependencies: texts(m.dependencies@),
        in_package: false,
        in_dependencies: false,
    }
}

/// The text of an optional string.
pub open spec fn opt_view(o: Option<String>) -> Option<Seq<char>> {
    match o {
        Some(s) => Some(s@),
        None => None,
    }
}

/// What the manifest `content` makes of the facts `before`.
pub open spec fn manifest_read(content: Seq<char>, before: ManifestFacts) -> ManifestFacts {
    manifest_fold(lines(content), 0, before)
}

/// The text gathered from the lines of a README from `i` on: lines that
/// are neither headings nor blank, each with a line feed, until ten are
/// kept or 200 characters are reached.
pub open spec fn readme_fold(ls: Seq<Seq<char>>, i: int, acc: Seq<char>, kept: nat) -> Seq<char>
    decreases ls.len() - i,
{
    if 0 <= i < ls.len() && kept < 10 && acc.len() < 200 {
        if "#"@.is_prefix_of(ls[i]) || trimmed(ls[i]).len() == 0 {
            readme_fold(ls, i + 1, acc, kept)
        } else {
            readme_fold(ls, i + 1, acc + ls[i] + "\n"@, kept + 1)
        }
    } else {
        acc
    }
}

/// The description that a README gives: the gathered text, trimmed, or
/// nothing where that is empty.
pub open spec fn description_of(content: Seq<char>) -> Option<Seq<char>> {
    let d = trimmed(readme_fold(lines(content), 0, Seq::empty(), 0));
    if d.len() == 0 {
        None
    } else {
        Some(d)
    }
}

/// Appends the characters of `v` to `out`.
fn push_chars(out: &mut Vec<char>, v: &Vec<char>)
    ensures
        final(out)@ == old(out)@ + v@,
{
    let ghost start = out@;
    let mut i: usize = 0;
    while i < v.len()
        invariant
            i <= v.len(),
            out@ == start + v@.take(i as int),
        decreases v.len() - i,
    {
        out.push(v[i]);
        i += 1;
        assert(out@ =~= start + v@.take(i as int));
    }
    assert(v@.take(v.len() as int) =~= v@);
}

/// The value of a `key = value` line.
fn value_in(line: &Vec<char>) -> (r: Option<String>)
    ensures
        opt_view(r) == value_of(line@),
{
    let parts = split_fields(line, '=');
    assert(rows(parts@).len() == parts.len());
    if parts.len() > 1 {
        assert(rows(parts@)[1] == parts@[1]@);
        Some(string_of(&strip(true, &trim(&parts[1]))))
    } else {
        None
    }
}

impl RepositoryScanner {
    /// The options that the scanner was made with.
    pub closed spec fn options(&self) -> Config {
        self.config
    }

    /// A scanner for the given options.
    pub fn new(config: Config) -> (r: Self)
        ensures
            r.options() == config,
    {
        RepositoryScanner { config }
    }

    /// Whether the entry at `path` below the root is scanned. The path has
    /// `/` between its components and is empty for the root itself.
    pub fn should_include_path(&self, path: &str, is_file: bool) -> (r: bool)
        ensures
            r == path_included(self.options().include_hidden, path@, is_file),
    {
        let chars = chars_of(path);
        let comps = split_fields(&chars, '/');
        let ghost names = rows(comps@);
        let mut i: usize = 0;
        while i < comps.len()
            invariant
                i <= comps.len(),
                names == rows(comps@),
                names == fields(path@, '/'),
                self.options().include_hidden || forall|k: int|
                    0 <= k < i ==> !hidden_component(#[trigger] names[k]),
                forall|k: int| 0 <= k < i ==> !ignored_dir(#[trigger] names[k]),
            decreases comps.len() - i,
        {
            let c = &comps[i];
            assert(names[i as int] == c@);
            if !self.config.include_hidden && c.len() > 0 && c[0] == '.' {
                return false;
            }
            if is_ignored_dir(c) {
                return false;
            }
            i += 1;
        }
        if is_file {
            let name = &comps[comps.len() - 1];
            assert(names.last() == name@);
            if is_ignored_file(name) {
                return false;
            }
            match extension(name) {
                Some(e) => is_supported_extension(&e),
                None => false,
            }
        } else {
            true
        }
    }

    /// The record of a file that was read, or nothing where its extension
    /// gives it no kind.
    pub fn process_file(&self, path: String, relative_path: String, content: String, size: u64) -> (r:
        Option<FileInfo>)
        ensures
            match file_type_of(relative_path@) {
                Some(t) => r == Some(
                    FileInfo { path, relative_path, content, file_type: t, size },
                ),
                None => r is None,
            },
            r matches Some(f) ==> kind_matches(f),
    {
        match classify(relative_path.as_str()) {
            Some(file_type) => Some(FileInfo { path, relative_path, content, file_type, size }),
            None => None,
        }
    }

    /// Draws the tree of `files` and records their number and their size,
    /// which is handed in as `total_size`.
    pub fn build_project_structure(&self, files: &Vec<FileInfo>, total_size: u64) -> (r:
        ProjectStructure)
        requires
            total_size == self::total_size(files@),
        ensures
            r.tree@ == tree_text(files@),
            r.total_files == files@.len(),
            r.total_size == self::total_size(files@),
    {
        let sorted = sort_by_path(files);
        let ghost wanted = tree_lines(files@);
        let mut tree = String::new();
        tree.append("```\n");
        let n = sorted.len();
        let mut i: usize = 0;
        while i < n
            invariant
                i <= n,
                n == sorted@.len(),
                n == files@.len(),
                sorted@ == sorted_by_path(files@),
                wanted == tree_lines(files@),
                tree@ == "```\n"@ + concat_upto(wanted, i as int),
            decreases n - i,
        {
            let ghost before = tree@;
            let path = &sorted[i].relative_path;
            let comps = split_fields(&chars_of(path.as_str()), '/');
            assert(rows(comps@).len() == comps@.len());
            let depth = comps.len() - 1;
            let mut d: usize = 0;
            while d < depth
                invariant
                    d <= depth,
                    tree@ == before + repeated("│   "@, d as int),
                decreases depth - d,
            {
                tree.append("│   ");
                d += 1;
                assert(tree@ =~= before + repeated("│   "@, d as int));
            }
            assert(tree@ =~= before + repeated("│   "@, depth_of(path@)));
            if i == n - 1 {
                tree.append("└── ");
            } else {
                tree.append("├── ");
            }
            tree.append(path.as_str());
            tree.append("\n");
            assert(wanted[i as int] == tree_line(i as int, n as int, path@));
            i += 1;
            assert(tree@ =~= "```\n"@ + concat_upto(wanted, i as int));
        }
        tree.append("```\n");
        ProjectStructure { tree, total_files: files.len(), total_size }
    }

    /// Reads the manifest `content` into `metadata`: the name and version
    /// of its `[package]` section, and the keys of its dependency
    /// sections, added behind the dependencies already there.
    pub fn parse_cargo_toml(&self, content: &str, metadata: &mut ProjectMetadata)
        ensures
            final(metadata).name@ == manifest_read(content@, facts_of(*old(metadata))).name,
            opt_view(final(metadata).rust_version) == manifest_read(
                content@,
                facts_of(*old(metadata)),
            ).version,
            texts(final(metadata).dependencies@) == manifest_read(
                content@,
                facts_of(*old(metadata)),
            ).dependencies,
            final(metadata).description == old(metadata).description,
    {
        let ls = split_lines(&chars_of(content));
        let ghost start = facts_of(*metadata);
        let mut in_package = false;
        let mut in_dependencies = false;
        let mut i: usize = 0;
        while i < ls.len()
            invariant
                i <= ls.len(),
                rows(ls@) == lines(content@),
                metadata.description == old(metadata).description,
                manifest_read(content@, start) == manifest_fold(
                    rows(ls@),
                    i as int,
                    (ManifestFacts { in_package, in_dependencies, ..facts_of(*metadata) }),
                ),
            decreases ls.len() - i,
        {
            let ghost st = ManifestFacts { in_package, in_dependencies, ..facts_of(*metadata) };
            assert(rows(ls@)[i as int] == ls@[i as int]@);
            let line = trim(&ls[i]);
            if has_prefix(&line, "[package]") {
                in_package = true;
                in_dependencies = false;
            } else if has_prefix(&line, "[dependencies") {
                in_package = false;
                in_dependencies = true;
            } else if has_prefix(&line, "[") {
                in_package = false;
                in_dependencies = false;
            } else if in_package {
                let parts = split_fields(&line, '=');
                assert(rows(parts@)[0] == parts@[0]@);
                let key = trim(&parts[0]);
                if same_text(&key, "name") {
                    match value_in(&line) {
                        Some(v) => {
                            if v.as_str().unicode_len() > 0 {
                                metadata.name = v;
                            }
                        },
                        None => {},
                    }
                } else if same_text(&key, "version") {
                    match value_in(&line) {
                        Some(v) => {
                            metadata.rust_version = Some(v);
                        },
                        None => {},
                    }
                }
            } else if in_dependencies && line.len() > 0 && !has_prefix(&line, "#") {
                let parts = split_fields(&line, '=');
                assert(rows(parts@)[0] == parts@[0]@);
                let ghost before = texts(metadata.dependencies@);
                let key = string_of(&trim(&parts[0]));
                metadata.dependencies.push(key);
                assert(texts(metadata.dependencies@) =~= before.push(key_of(line@)));
            }
            assert((ManifestFacts { in_package, in_dependencies, ..facts_of(*metadata) })
                == manifest_step(st, ls@[i as int]@));
            i += 1;
        }
    }

    /// The description that the README `content` gives.
    pub fn extract_description_from_readme(&self, content: &str) -> (r: Option<String>)
        ensures
            opt_view(r) == description_of(content@),
    {
        let ls = split_lines(&chars_of(content));
        let mut acc: Vec<char> = Vec::new();
        let mut kept: usize = 0;
        let mut i: usize = 0;
        while i < ls.len() && kept < 10 && acc.len() < 200
            invariant
                i <= ls.len(),
                kept <= 10,
                rows(ls@) == lines(content@),
                readme_fold(lines(content@), 0, Seq::empty(), 0) == readme_fold(
                    rows(ls@),
                    i as int,
                    acc@,
                    kept as nat,
                ),
            decreases ls.len() - i,
        {
            assert(rows(ls@)[i as int] == ls@[i as int]@);
            let line = &ls[i];
            if !(has_prefix(line, "#") || trim(line).len() == 0) {
                let ghost before = acc@;
                push_chars(&mut acc, line);
                push_chars(&mut acc, &chars_of("\n"));
                assert(acc@ =~= before + line@ + "\n"@);
                kept += 1;
            }
            i += 1;
        }
        let d = trim(&acc);
        if d.len() == 0 {
            None
        } else {
            Some(string_of(&d))
        }
    }

    /// What is known of the project in the directory `dir_name`: the name
    /// is that of the directory unless the manifest gives one; version and
    /// dependencies come from the manifest, the description from the
    /// README.
    pub fn extract_project_metadata(
        &self,
        dir_name: &str,
        manifest: Option<&str>,
        readme: Option<&str>,
    ) -> (r: ProjectMetadata)
        ensures
            metadata_matches(r, dir_name@, opt_str(manifest), opt_str(readme)),
    {
        let mut metadata = ProjectMetadata {
            name: dir_name.to_owned(),
            description: None,
            dependencies: Vec::new(),
            rust_version: None,
        };
        assert(texts(metadata.dependencies@) =~= Seq::<Seq<char>>::empty());
        match manifest {
            Some(content) => {
                self.parse_cargo_toml(content, &mut metadata);
            },
            None => {},
        }
        match readme {
            Some(content) => {
                metadata.description = self.extract_description_from_readme(content);
            },
            None => {},
        }
        metadata
    }

    /// Puts a scan together from the files that were read: the files in
    /// the lexicographic order of their relative paths, the tree and the
    /// totals, and what manifest and README say of the project.
    pub fn scan(
        &self,
        files: Vec<FileInfo>,
        dir_name: &str,
        manifest: Option<&str>,
        readme: Option<&str>,
    ) -> (r: ScanResult)
        requires
            total_size(files@) <= u64::MAX,
        ensures
            r.files@ == sorted_by_path(files@),
            r.project_structure.tree@ == tree_text(files@),
            r.project_structure.total_files == files@.len(),
            r.project_structure.total_size == total_size(files@),
            metadata_matches(r.metadata, dir_name@, opt_str(manifest), opt_str(readme)),
    {
        let mut sum: u64 = 0;
        let mut i: usize = 0;
        while i < files.len()
            invariant
                i <= files.len(),
                sum == size_upto(files@, i as int),
                total_size(files@) <= u64::MAX,
            decreases files.len() - i,
        {
            proof {
                lemma_size_grows(files@, i as int + 1, files@.len() as int);
            }
            sum = sum + files[i].size;
            i += 1;
        }
        let project_structure = self.build_project_structure(&files, sum);
        let metadata = self.extract_project_metadata(dir_name, manifest, readme);
        let sorted = sort_by_path(&files);
        ScanResult { files: sorted, project_structure, metadata }
    }
}

/// The sizes of the first `a` files add up to no more than those of the
/// first `b`, where `a` is no more than `b`.
pub proof fn lemma_size_grows(files: Seq<FileInfo>, a: int, b: int)
    requires
        0 <= a <= b <= files.len(),
    ensures
        size_upto(files, a) <= size_upto(files, b),
    decreases b - a,
{
    if a < b {
        lemma_size_grows(files, a, b - 1);
    }
}

/// The text of an optional string slice.
pub open spec fn opt_str(o: Option<&str>) -> Option<Seq<char>> {
    match o {
        Some(s) => Some(s@),
        None => None,
    }
}

/// Whether `r` is what is known of the project in the directory
/// `dir_name` with the given manifest and README.
pub open spec fn metadata_matches(
    r: ProjectMetadata,
    dir_name: Seq<char>,
    manifest: Option<Seq<char>>,
    readme: Option<Seq<char>>,
) -> bool {
    let base = ManifestFacts {
        name: dir_name,
        version: None,
        dependencies: Seq::empty(),
        in_package: false,
        in_dependencies: false,
    };
    let facts = match manifest {
        Some(content) => manifest_read(content, base),
        None => base,
    };
    &&& r.name@ == facts.name
    &&& opt_view(r.rust_version) == facts.version
    &&& texts(r.dependencies@) == facts.dependencies
    &&& opt_view(r.description) == (match readme {
        Some(content) => description_of(content),
        None => None,
    })
}

/// Of two texts, one comes before the other or equals it.
proof fn lemma_lex_total(a: Seq<char>, b: Seq<char>, i: int)
    requires
        0 <= i,
    ensures
        lex_le_from(a, b, i) || lex_le_from(b, a, i),
    decreases a.len() - i,
{
    if i < a.len() && i < b.len() && a[i] == b[i] {
        lemma_lex_total(a, b, i + 1);
    }
}

/// The lexicographic order is transitive.
proof fn lemma_lex_transitive(a: Seq<char>, b: Seq<char>, c: Seq<char>, i: int)
    requires
        0 <= i,
        lex_le_from(a, b, i),
        lex_le_from(b, c, i),
    ensures
        lex_le_from(a, c, i),
    decreases a.len() - i,
{
    if i < a.len() {
        if a[i] == b[i] && b[i] == c[i] {
            lemma_lex_transitive(a, b, c, i + 1);
        }
    }
}

/// Whether the files stand in the lexicographic order of their relative
/// paths.
pub open spec fn ordered_by_path(s: Seq<FileInfo>) -> bool {
    forall|i: int, j: int|
        0 <= i <= j < s.len() ==> lex_le(
            (#[trigger] s[i]).relative_path@,
            (#[trigger] s[j]).relative_path@,
        )
}

/// Before its place stand the files that come before a path or equal
/// it, and at its place none of these.
proof fn lemma_place(s: Seq<FileInfo>, p: Seq<char>, from: int)
    requires
        0 <= from <= s.len(),
    ensures
        from <= place_from(s, p, from) <= s.len(),
        forall|k: int|
            from <= k < place_from(s, p, from) ==> lex_le((#[trigger] s[k]).relative_path@, p),
        place_from(s, p, from) < s.len() ==> !lex_le(
            s[place_from(s, p, from)].relative_path@,
            p,
        ),
    decreases s.len() - from,
{
    if from < s.len() && lex_le(s[from].relative_path@, p) {
        lemma_place(s, p, from + 1);
    }
}

/// A file put at its place leaves an ordered list ordered.
proof fn lemma_insert_keeps_order(s: Seq<FileInfo>, f: FileInfo)
    requires
        ordered_by_path(s),
    ensures
        ordered_by_path(s.insert(place_from(s, f.relative_path@, 0), f)),
        s.insert(place_from(s, f.relative_path@, 0), f).len() == s.len() + 1,
{
    let p = f.relative_path@;
    let pos = place_from(s, p, 0);
    lemma_place(s, p, 0);
    let t = s.insert(pos, f);
    assert forall|i: int, j: int| 0 <= i <= j < t.len() implies lex_le(
        (#[trigger] t[i]).relative_path@,
        (#[trigger] t[j]).relative_path@,
    ) by {
        if i == j {
            lemma_lex_reflexive(t[i].relative_path@, 0);
        } else if j < pos {
            assert(t[i] == s[i] && t[j] == s[j]);
        } else if j == pos {
            assert(t[i] == s[i]);
        } else if i == pos {
            assert(t[j] == s[j - 1]);
            lemma_lex_total(s[pos].relative_path@, p, 0);
            assert(lex_le(s[pos].relative_path@, s[j - 1].relative_path@));
            lemma_lex_transitive(p, s[pos].relative_path@, s[j - 1].relative_path@, 0);
        } else if i < pos {
            assert(t[i] == s[i] && t[j] == s[j - 1]);
        } else {
            assert(t[i] == s[i - 1] && t[j] == s[j - 1]);
        }
    }
}

/// A text comes before itself or equals it.
proof fn lemma_lex_reflexive(a: Seq<char>, i: int)
    requires
        0 <= i,
    ensures
        lex_le_from(a, a, i),
    decreases a.len() - i,
{
    if i < a.len() {
        lemma_lex_reflexive(a, i + 1);
    }
}

/// The first `n` files, sorted, are ordered and `n` in number.
proof fn lemma_sorted_upto_ordered(files: Seq<FileInfo>, n: int)
    requires
        0 <= n <= files.len(),
    ensures
        ordered_by_path(sorted_upto(files, n)),
        sorted_upto(files, n).len() == n,
    decreases n,
{
    if n > 0 {
        lemma_sorted_upto_ordered(files, n - 1);
        lemma_insert_keeps_order(sorted_upto(files, n - 1), files[n - 1]);
    }
}

/// The files of a scan stand in the lexicographic order of their relative
/// paths, and there are as many as were read.
pub proof fn lemma_sorted_by_path_is_ordered(files: Seq<FileInfo>)
    ensures
        ordered_by_path(sorted_by_path(files)),
        sorted_by_path(files).len() == files.len(),
{
    lemma_sorted_upto_ordered(files, files.len() as int);
}

/// No line of a manifest makes a name empty.
proof fn lemma_name_kept(ls: Seq<Seq<char>>, i: int, st: ManifestFacts)
    requires
        0 <= i,
        st.name.len() > 0,
    ensures
        manifest_fold(ls, i, st).name.len() > 0,
    decreases ls.len() - i,
{
    if i < ls.len() {
        lemma_name_kept(ls, i + 1, manifest_step(st, ls[i]));
    }
}

/// The name of a project is never empty where the name of its directory
/// is not: a manifest replaces it only by a name that is not empty.
pub proof fn lemma_project_name_not_empty(
    r: ProjectMetadata,
    dir_name: Seq<char>,
    manifest: Option<Seq<char>>,
    readme: Option<Seq<char>>,
)
    requires
        metadata_matches(r, dir_name, manifest, readme),
        dir_name.len() > 0,
    ensures
        r.name@.len() > 0,
{
    let base = ManifestFacts {
        name: dir_name,
        version: None,
        dependencies: Seq::empty(),
        in_package: false,
        in_dependencies: false,
    };
    match manifest {
        Some(content) => {
            lemma_name_kept(lines(content), 0, base);
        },
        None => {},
    }
}

/// Two texts of which each comes before the other or equals it agree
/// from place `i` on.
proof fn lemma_lex_antisymmetric(a: Seq<char>, b: Seq<char>, i: int)
    requires
        0 <= i,
        lex_le_from(a, b, i),
        lex_le_from(b, a, i),
    ensures
        a.len() <= i <==> b.len() <= i,
        a.len() > i ==> a.len() == b.len(),
        forall|k: int| i <= k < a.len() ==> a[k] == b[k],
    decreases a.len() - i,
{
    if i < a.len() {
        lemma_lex_antisymmetric(a, b, i + 1);
    }
}

/// The order of two files in a scan depends on their relative paths
/// alone: where two scans both hold files of two different paths, the two
/// stand in the same order in both.
pub proof fn lemma_order_goes_by_path(
    a: Seq<FileInfo>,
    b: Seq<FileInfo>,
    i: int,
    j: int,
    k: int,
    l: int,
)
    requires
        0 <= i < j < sorted_by_path(a).len(),
        0 <= k < sorted_by_path(b).len(),
        0 <= l < sorted_by_path(b).len(),
        sorted_by_path(a)[i].relative_path@ == sorted_by_path(b)[k].relative_path@,
        sorted_by_path(a)[j].relative_path@ == sorted_by_path(b)[l].relative_path@,
        sorted_by_path(a)[i].relative_path@ != sorted_by_path(a)[j].relative_path@,
    ensures
        k < l,
{
    let sa = sorted_by_path(a);
    let sb = sorted_by_path(b);
    lemma_sorted_by_path_is_ordered(a);
    lemma_sorted_by_path_is_ordered(b);
    let p = sa[i].relative_path@;
    let q = sa[j].relative_path@;
    assert(lex_le(p, q));
    if k >= l {
        assert(lex_le(sb[l].relative_path@, sb[k].relative_path@));
        lemma_lex_antisymmetric(p, q, 0);
        assert(p =~= q);
    }
}

/// A text without `sep` runs to its end.
proof fn lemma_run_to_end(s: Seq<char>, sep: char, from: int)
    requires
        0 <= from <= s.len(),
        !s.contains(sep),
    ensures
        from + crate::text::run_len(s, sep, from) == s.len(),
    decreases s.len() - from,
{
    if from < s.len() {
        assert(s.contains(s[from]));
        lemma_run_to_end(s, sep, from + 1);
    }
}

/// A file directly under the root is scanned where its name is not hidden
/// or hidden entries are asked for, its name is not an ignored one, and
/// its extension is supported.
pub proof fn lemma_root_file_included(include_hidden: bool, name: Seq<char>)
    requires
        !name.contains('/'),
        include_hidden || !hidden_component(name),
        !ignored_dir(name),
        !ignored_file(name),
        extension_of(name) matches Some(e) && supported_extension(e),
    ensures
        path_included(include_hidden, name, true),
{
    lemma_run_to_end(name, '/', 0);
    assert(name.subrange(0, name.len() as int) =~= name);
    assert(fields(name, '/') =~= seq![name]);
}

} // verus!
