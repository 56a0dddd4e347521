//! The sections of the context document, and the document itself.

use vstd::prelude::*;
use vstd::string::StringExecFns;
use crate::config::Config;
use crate::parser::{
    analysis_matches, block, chosen_upto, methods_upto, opt_text, param_texts, push_block,
    visibility_text, EnumInfo, FunctionInfo, ImplInfo, ItemKind, ModuleInfo, RustAnalysis,
    RustParser, StructInfo,
};
use crate::scanner::{FileInfo, FileType, ProjectMetadata, ProjectStructure, ScanResult};
use crate::syntax::{syntax_of, FieldsModel, ItemModel};
use crate::text::{concat, concat_upto, decimal, join, joined, render_number, texts};
use crate::token_counter::{
    by_priority, countable, descending, lemma_all_admitted_where_all_fit,
    lemma_descending_is_kept, made_or_refused, prioritized, range_tokens, section_views,
    ContentPrioritizer, ContentSection, SectionView, TokenizerError,
};

verus! {

/// The time of a count of seconds since 1970 in UTC, as
/// `chrono::DateTime::from_timestamp` reads it and `DateTime::format`
/// writes it with the pattern `%Y-%m-%d %H:%M:%S UTC`; `None` where the
/// count is out of the range of dates.
pub uninterp spec fn utc_text(secs: int) -> Option<Seq<char>>;

/// Calls `chrono::DateTime::from_timestamp` with no nanoseconds and writes
/// the time with `DateTime::format`: year, month, day, hour, minute and
/// second, then `UTC`. The text depends on the count of seconds alone.
#[verifier::external_body]
fn utc_timestamp(secs: i64) -> (r: Option<String>)
    ensures
        match r {
            Some(t) => utc_text(secs as int) == Some(t@),
            None => utc_text(secs as int) is None,
        },
{
    chrono::DateTime::from_timestamp(secs, 0).map(|t| t.format("%Y-%m-%d %H:%M:%S UTC").to_string())
}

/// The bullet of a dependency.
pub open spec fn dependency_bullet(d: Seq<char>) -> Seq<char> {
    "- "@ + d + "\n"@
}

/// The bullets of a list of dependencies.
pub open spec fn dependency_bullets(deps: Seq<String>) -> Seq<Seq<char>> {
    deps.map_values(|d: String| dependency_bullet(d@))
}

/// A label, a value and a line feed where the value is there, and
/// nothing otherwise.
pub open spec fn optional_line(label: Seq<char>, value: Option<String>) -> Seq<char> {
    match value {
        Some(v) => label + v@ + "\n"@,
        None => Seq::empty(),
    }
}

/// The body of the metadata section: name, description, the dependencies
/// where they are asked for, version, and the totals of the scan.
pub open spec fn metadata_body(
    meta: ProjectMetadata,
    structure: ProjectStructure,
    include_deps: bool,
) -> Seq<char> {
    "# Project Metadata\n\n"@ + "**Name:** "@ + meta.name@ + "\n"@ + optional_line(
        "**Description:** "@,
        meta.description,
    ) + (if include_deps {
        block("**Dependencies:**\n"@, dependency_bullets(meta.dependencies@), ""@)
    } else {
        Seq::empty()
    }) + optional_line("**Version:** "@, meta.rust_version) + "**Total files:** "@ + decimal(
        structure.total_files as nat,
    ) + "\n"@ + "**Total size:** "@ + decimal(structure.total_size as nat) + " bytes\n\n"@
}

/// The metadata section.
pub open spec fn metadata_section(
    meta: ProjectMetadata,
    structure: ProjectStructure,
    include_deps: bool,
) -> SectionView {
    SectionView {
        title: "Project Metadata"@,
        content: metadata_body(meta, structure, include_deps),
        priority: 10,
        truncated: false,
    }
}

/// The structure section: the tree under a heading.
pub open spec fn structure_section(structure: ProjectStructure) -> SectionView {
    SectionView {
        title: "Project Structure"@,
        content: "# Project Structure\n\n"@ + structure.tree@ + "\n"@,
        priority: 9,
        truncated: false,
    }
}

/// The documentation section of a Markdown file.
pub open spec fn documentation_section(f: FileInfo) -> SectionView {
    SectionView {
        title: "Documentation: "@ + f.relative_path@,
        content: "# Documentation: "@ + f.relative_path@ + "\n\n"@ + f.content@ + "\n"@,
        priority: 8,
        truncated: false,
    }
}

/// The documentation sections of the Markdown files among the first `n`
/// files, in their order.
pub open spec fn documentation_sections_upto(files: Seq<FileInfo>, n: int) -> Seq<SectionView>
    decreases n,
{
    if n <= 0 || n > files.len() {
        Seq::empty()
    } else if files[n - 1].file_type == FileType::Markdown {
        documentation_sections_upto(files, n - 1).push(documentation_section(files[n - 1]))
    } else {
        documentation_sections_upto(files, n - 1)
    }
}

/// The tag of a file type on a code fence.
pub open spec fn language_tag(t: FileType) -> Seq<char> {
    match t {
        FileType::Rust => "rust"@,
        FileType::Markdown => "markdown"@,
    }
}

/// The source section of a file: its text inside a code fence.
pub open spec fn source_section(f: FileInfo) -> SectionView {
    SectionView {
        title: "Source: "@ + f.relative_path@,
        content: "# Source: "@ + f.relative_path@ + "\n\n"@ + "```"@ + language_tag(f.file_type)
            + "\n"@ + f.content@ + "\n```\n\n"@,
        priority: 3,
        truncated: false,
    }
}

/// The source sections of the first `n` files, in their order.
pub open spec fn source_sections_upto(files: Seq<FileInfo>, n: int) -> Seq<SectionView>
    decreases n,
{
    if n <= 0 || n > files.len() {
        Seq::empty()
    } else {
        source_sections_upto(files, n - 1).push(source_section(files[n - 1]))
    }
}

/// The bullet of a module in an analysis.
pub open spec fn module_bullet(name: Seq<char>, visibility: Seq<char>) -> Seq<char> {
    "- **"@ + name + "**: "@ + visibility + "\n"@
}

/// The bullet of a function in an analysis: its name, its parameters in
/// brackets, its return type or `()`, and its visibility.
pub open spec fn function_bullet(
    name: Seq<char>,
    params: Seq<Seq<char>>,
    output: Option<Seq<char>>,
    visibility: Seq<char>,
) -> Seq<char> {
    "- "@ + name + "("@ + joined(params, ", "@) + ") -> "@ + (match output {
        Some(t) => t,
        None => "()"@,
    }) + " ("@ + visibility + ")\n"@
}

/// The bullet of a struct or an enum in an analysis: its name, the number
/// of its parts with their word, and its visibility.
pub open spec fn counted_bullet(
    name: Seq<char>,
    count: nat,
    word: Seq<char>,
    visibility: Seq<char>,
) -> Seq<char> {
    "- **"@ + name + "**: "@ + decimal(count) + word + visibility + ")\n"@
}

/// The bullet of an impl block in an analysis.
pub open spec fn impl_bullet(target: Seq<char>, methods: nat) -> Seq<char> {
    "- **impl "@ + target + "**: "@ + decimal(methods) + " methods\n"@
}

/// The analysis bullets of recorded modules.
pub open spec fn module_bullets(v: Seq<ModuleInfo>) -> Seq<Seq<char>> {
    v.map_values(|m: ModuleInfo| module_bullet(m.name@, m.visibility@))
}

/// The analysis bullets of recorded functions.
pub open spec fn function_bullets(v: Seq<FunctionInfo>) -> Seq<Seq<char>> {
    v.map_values(
        |f: FunctionInfo|
            function_bullet(f.name@, texts(f.parameters@), opt_text(f.return_type), f.visibility@),
    )
}

/// The analysis bullets of recorded structs.
pub open spec fn struct_bullets(v: Seq<StructInfo>) -> Seq<Seq<char>> {
    v.map_values(
        |s: StructInfo| counted_bullet(s.name@, s.fields@.len(), " fields ("@, s.visibility@),
    )
}

/// The analysis bullets of recorded enums.
pub open spec fn enum_bullets(v: Seq<EnumInfo>) -> Seq<Seq<char>> {
    v.map_values(
        |e: EnumInfo| counted_bullet(e.name@, e.variants@.len(), " variants ("@, e.visibility@),
    )
}

/// The analysis bullets of recorded impl blocks.
pub open spec fn impl_bullets(v: Seq<ImplInfo>) -> Seq<Seq<char>> {
    v.map_values(|i: ImplInfo| impl_bullet(i.target@, i.methods@.len()))
}

/// The body of the analysis of a file: a title with the path, then one
/// block of bullets for each kind of declaration that occurs, in the order
/// modules, functions, structs, enums, impl blocks.
pub open spec fn analysis_body_text(
    relative_path: Seq<char>,
    modules: Seq<Seq<char>>,
    functions: Seq<Seq<char>>,
    structs: Seq<Seq<char>>,
    enums: Seq<Seq<char>>,
    implementations: Seq<Seq<char>>,
) -> Seq<char> {
    "# Analysis: "@ + relative_path + "\n\n"@ + block("## Modules\n"@, modules, "\n"@) + block(
        "## Functions\n"@,
        functions,
        "\n"@,
    ) + block("## Structs\n"@, structs, "\n"@) + block("## Enums\n"@, enums, "\n"@) + block(
        "## Implementations\n"@,
        implementations,
        "\n"@,
    )
}

/// The body of the analysis that the records of `a` give.
pub open spec fn analysis_body(relative_path: Seq<char>, a: RustAnalysis) -> Seq<char> {
    analysis_body_text(
        relative_path,
        module_bullets(a.modules@),
        function_bullets(a.functions@),
        struct_bullets(a.structs@),
        enum_bullets(a.enums@),
        impl_bullets(a.implementations@),
    )
}

/// The number of fields of a struct body.
pub open spec fn field_count(m: FieldsModel) -> nat {
    match m {
        FieldsModel::Named(fs) => fs.len(),
        FieldsModel::Unnamed(fs) => fs.len(),
        FieldsModel::Unit => 0,
    }
}

/// The analysis bullet of an item of the source.
pub open spec fn item_bullet(m: ItemModel) -> Seq<char> {
    match m {
        ItemModel::Module { name, vis, inline_items } => module_bullet(name, visibility_text(vis)),
        ItemModel::Function(f) => function_bullet(
            f.sig.name,
            param_texts(f.sig.params),
            f.sig.output,
            visibility_text(f.vis),
        ),
        ItemModel::Struct { name, vis, fields, attrs } => counted_bullet(
            name,
            field_count(fields),
            " fields ("@,
            visibility_text(vis),
        ),
        ItemModel::Enum { name, vis, variants, attrs } => counted_bullet(
            name,
            variants.len(),
            " variants ("@,
            visibility_text(vis),
        ),
        ItemModel::Impl { target, trait_name, members } => impl_bullet(
            target,
            methods_upto(members, members.len() as int).len(),
        ),
        ItemModel::Other => Seq::empty(),
    }
}

/// The analysis bullets of the items of one kind, in source order.
pub open spec fn item_bullets(items: Seq<ItemModel>, kind: ItemKind) -> Seq<Seq<char>> {
    chosen_upto(items, kind, items.len() as int).map_values(|m: ItemModel| item_bullet(m))
}

/// The body of the analysis of a file with the top-level `items`.
pub open spec fn analysis_body_of(relative_path: Seq<char>, items: Seq<ItemModel>) -> Seq<char> {
    analysis_body_text(
        relative_path,
        item_bullets(items, ItemKind::Module),
        item_bullets(items, ItemKind::Function),
        item_bullets(items, ItemKind::Struct),
        item_bullets(items, ItemKind::Enum),
        item_bullets(items, ItemKind::Impl),
    )
}

/// The analysis section of a file with the given body.
pub open spec fn analysis_section(relative_path: Seq<char>, body: Seq<char>) -> SectionView {
    SectionView {
        title: analysis_title(relative_path),
        content: body,
        priority: 6,
        truncated: false,
    }
}

/// Whether a file gets an analysis section: it is Rust source that parses.
pub open spec fn is_analysed(f: FileInfo) -> bool {
    f.file_type == FileType::Rust && syntax_of(f.content@) is Some
}

/// The analysis sections of the first `n` files, in their order: one for
/// each Rust file that parses.
pub open spec fn analysis_sections_upto(files: Seq<FileInfo>, n: int) -> Seq<SectionView>
    decreases n,
{
    if n <= 0 || n > files.len() {
        Seq::empty()
    } else if is_analysed(files[n - 1]) {
        analysis_sections_upto(files, n - 1).push(
            analysis_section(
                files[n - 1].relative_path@,
                analysis_body_of(files[n - 1].relative_path@, syntax_of(files[n - 1].content@)->0),
            ),
        )
    } else {
        analysis_sections_upto(files, n - 1)
    }
}

/// The relative paths of the Rust files among the first `n` that do not
/// parse, in their order.
pub open spec fn unparsed_upto(files: Seq<FileInfo>, n: int) -> Seq<Seq<char>>
    decreases n,
{
    if n <= 0 || n > files.len() {
        Seq::empty()
    } else if files[n - 1].file_type == FileType::Rust && syntax_of(files[n - 1].content@) is None {
        unparsed_upto(files, n - 1).push(files[n - 1].relative_path@)
    } else {
        unparsed_upto(files, n - 1)
    }
}

/// All sections of a scan in the order in which they are built: metadata,
/// structure, documentation, analyses, sources.
pub open spec fn all_sections(scan: ScanResult, include_deps: bool) -> Seq<SectionView> {
    seq![
        metadata_section(scan.metadata, scan.project_structure, include_deps),
        structure_section(scan.project_structure),
    ] + documentation_sections_upto(scan.files@, scan.files@.len() as int)
        + analysis_sections_upto(scan.files@, scan.files@.len() as int) + source_sections_upto(
        scan.files@,
        scan.files@.len() as int,
    )
}

/// The entry of the section at place `k` in the table of contents.
pub open spec fn contents_line(k: int, s: SectionView) -> Seq<char> {
    decimal((k + 1) as nat) + ". "@ + s.title + (if s.truncated {
        " (truncated)"@
    } else {
        Seq::empty()
    }) + "\n"@
}

/// The entries of the table of contents.
pub open spec fn contents_lines(sections: Seq<SectionView>) -> Seq<Seq<char>> {
    Seq::new(sections.len(), |k: int| contents_line(k, sections[k]))
}

/// The separator and the body of each section.
pub open spec fn section_parts(sections: Seq<SectionView>) -> Seq<Seq<char>> {
    sections.map_values(|s: SectionView| "---\n\n"@ + s.content)
}

/// The document: header, time, repository, budget, the table of contents,
/// and each section's body after a separator.
pub open spec fn document_text(
    timestamp: Seq<char>,
    repo_path: Seq<char>,
    max_tokens: nat,
    sections: Seq<SectionView>,
) -> Seq<char> {
    "# AI Context Generation Report\n\n"@ + "Generated on: "@ + timestamp + "\n"@
        + "Repository: "@ + repo_path + "\n"@ + "Max tokens: "@ + decimal(max_tokens) + "\n\n"@
        + "## Table of Contents\n\n"@ + concat(contents_lines(sections)) + "\n"@ + concat(
        section_parts(sections),
    )
}

/// A Rust file that did not parse.
#[derive(Debug, Clone)]
pub struct ParseFailure {
    /// The path of the file below the repository root.
    pub relative_path: String,
    /// What the parser reported.
    pub message: String,
}

/// The paths of a list of failures.
pub open spec fn failure_paths(v: Seq<ParseFailure>) -> Seq<Seq<char>> {
    v.map_values(|f: ParseFailure| f.relative_path@)
}

/// A document with the failures met while it was built.
#[derive(Debug, Clone)]
pub struct Generated {
    pub document: String,
    pub failures: Vec<ParseFailure>,
}

/// Builds the context document of a scan.
pub struct ContextGenerator {
    config: Config,
    prioritizer: ContentPrioritizer,
}


/// Writes the analysis bullet of a module.
fn module_bullet_line(x: &ModuleInfo) -> (r: String)
    ensures
        r@ == module_bullet(x.name@, x.visibility@),
{
    let mut r = String::new();
    r.append("- **");
    r.append(x.name.as_str());
    r.append("**: ");
    r.append(x.visibility.as_str());
    r.append("\n");
    assert(r@ =~= module_bullet(x.name@, x.visibility@));
    r
}

/// Writes the analysis bullets of the modules, in order.
fn module_bullet_lines(v: &Vec<ModuleInfo>) -> (lines: Vec<String>)
    ensures
        texts(lines@) == module_bullets(v@),
{
    let mut lines: Vec<String> = Vec::new();
    let mut i: usize = 0;
    while i < v.len()
        invariant
            i <= v.len(),
            lines.len() == i,
            forall|k: int| 0 <= k < i ==> (#[trigger] lines@[k])@ == module_bullets(v@)[k],
        decreases v.len() - i,
    {
        lines.push(module_bullet_line(&v[i]));
        i += 1;
    }
    assert(texts(lines@) =~= module_bullets(v@));
    lines
}

/// Writes the analysis bullet of a function.
fn function_bullet_line(x: &FunctionInfo) -> (r: String)
    ensures
        r@ == function_bullet(x.name@, texts(x.parameters@), opt_text(x.return_type), x.visibility@),
{
    let mut r = String::new();
    let params = join(&x.parameters, ", ");
    r.append("- ");
    r.append(x.name.as_str());
    r.append("(");
    r.append(params.as_str());
    r.append(") -> ");
    match &x.return_type {
        Some(t) => r.append(t.as_str()),
        None => r.append("()"),
    }
    r.append(" (");
    r.append(x.visibility.as_str());
    r.append(")\n");
    assert(r@ =~= function_bullet(x.name@, texts(x.parameters@), opt_text(x.return_type), x.visibility@));
    r
}

/// Writes the analysis bullets of the functions, in order.
fn function_bullet_lines(v: &Vec<FunctionInfo>) -> (lines: Vec<String>)
    ensures
        texts(lines@) == function_bullets(v@),
{
    let mut lines: Vec<String> = Vec::new();
    let mut i: usize = 0;
    while i < v.len()
        invariant
            i <= v.len(),
            lines.len() == i,
            forall|k: int| 0 <= k < i ==> (#[trigger] lines@[k])@ == function_bullets(v@)[k],
        decreases v.len() - i,
    {
        lines.push(function_bullet_line(&v[i]));
        i += 1;
    }
    assert(texts(lines@) =~= function_bullets(v@));
    lines
}

/// Writes the analysis bullet of a struct.
fn struct_bullet_line(x: &StructInfo) -> (r: String)
    ensures
        r@ == counted_bullet(x.name@, x.fields@.len(), " fields ("@, x.visibility@),
{
    let mut r = String::new();
    let count = render_number(x.fields.len() as u64);
    r.append("- **");
    r.append(x.name.as_str());
    r.append("**: ");
    r.append(count.as_str());
    r.append(" fields (");
    r.append(x.visibility.as_str());
    r.append(")\n");
    assert(r@ =~= counted_bullet(x.name@, x.fields@.len(), " fields ("@, x.visibility@));
    r
}

/// Writes the analysis bullets of the structs, in order.
fn struct_bullet_lines(v: &Vec<StructInfo>) -> (lines: Vec<String>)
    ensures
        texts(lines@) == struct_bullets(v@),
{
    let mut lines: Vec<String> = Vec::new();
    let mut i: usize = 0;
    while i < v.len()
        invariant
            i <= v.len(),
            lines.len() == i,
            forall|k: int| 0 <= k < i ==> (#[trigger] lines@[k])@ == struct_bullets(v@)[k],
        decreases v.len() - i,
    {
        lines.push(struct_bullet_line(&v[i]));
        i += 1;
    }
    assert(texts(lines@) =~= struct_bullets(v@));
    lines
}

/// Writes the analysis bullet of an enum.
fn enum_bullet_line(x: &EnumInfo) -> (r: String)
    ensures
        r@ == counted_bullet(x.name@, x.variants@.len(), " variants ("@, x.visibility@),
{
    let mut r = String::new();
    let count = render_number(x.variants.len() as u64);
    r.append("- **");
    r.append(x.name.as_str());
    r.append("**: ");
    r.append(count.as_str());
    r.append(" variants (");
    r.append(x.visibility.as_str());
    r.append(")\n");
    assert(r@ =~= counted_bullet(x.name@, x.variants@.len(), " variants ("@, x.visibility@));
    r
}

/// Writes the analysis bullets of the enums, in order.
fn enum_bullet_lines(v: &Vec<EnumInfo>) -> (lines: Vec<String>)
    ensures
        texts(lines@) == enum_bullets(v@),
{
    let mut lines: Vec<String> = Vec::new();
    let mut i: usize = 0;
    while i < v.len()
        invariant
            i <= v.len(),
            lines.len() == i,
            forall|k: int| 0 <= k < i ==> (#[trigger] lines@[k])@ == enum_bullets(v@)[k],
        decreases v.len() - i,
    {
        lines.push(enum_bullet_line(&v[i]));
        i += 1;
    }
    assert(texts(lines@) =~= enum_bullets(v@));
    lines
}

/// Writes the analysis bullet of an impl block.
fn impl_bullet_line(x: &ImplInfo) -> (r: String)
    ensures
        r@ == impl_bullet(x.target@, x.methods@.len()),
{
    let mut r = String::new();
    let count = render_number(x.methods.len() as u64);
    r.append("- **impl ");
    r.append(x.target.as_str());
    r.append("**: ");
    r.append(count.as_str());
    r.append(" methods\n");
    assert(r@ =~= impl_bullet(x.target@, x.methods@.len()));
    r
}

/// Writes the analysis bullets of the impl blocks, in order.
fn impl_bullet_lines(v: &Vec<ImplInfo>) -> (lines: Vec<String>)
    ensures
        texts(lines@) == impl_bullets(v@),
{
    let mut lines: Vec<String> = Vec::new();
    let mut i: usize = 0;
    while i < v.len()
        invariant
            i <= v.len(),
            lines.len() == i,
            forall|k: int| 0 <= k < i ==> (#[trigger] lines@[k])@ == impl_bullets(v@)[k],
        decreases v.len() - i,
    {
        lines.push(impl_bullet_line(&v[i]));
        i += 1;
    }
    assert(texts(lines@) =~= impl_bullets(v@));
    lines
}

/// Writes the body of the analysis section of the file at `relative_path`
/// from the declarations recorded in `analysis`.
pub fn render_analysis(relative_path: &str, analysis: &RustAnalysis) -> (body: String)
    ensures
        body@ == analysis_body(relative_path@, *analysis),
{
    let mut body = String::new();
    body.append("# Analysis: ");
    body.append(relative_path);
    body.append("\n\n");
    push_block(&mut body, "## Modules\n", &module_bullet_lines(&analysis.modules), "\n");
    push_block(&mut body, "## Functions\n", &function_bullet_lines(&analysis.functions), "\n");
    push_block(&mut body, "## Structs\n", &struct_bullet_lines(&analysis.structs), "\n");
    push_block(&mut body, "## Enums\n", &enum_bullet_lines(&analysis.enums), "\n");
    push_block(
        &mut body,
        "## Implementations\n",
        &impl_bullet_lines(&analysis.implementations),
        "\n",
    );
    assert(body@ =~= analysis_body(relative_path@, *analysis));
    body
}

/// The analysis written from the records of a file is the analysis of the
/// file's items: it depends on the source text alone.
pub proof fn lemma_analysis_body_of_items(
    a: RustAnalysis,
    relative_path: Seq<char>,
    path: Seq<char>,
    items: Seq<ItemModel>,
)
    requires
        analysis_matches(a, path, items),
    ensures
        analysis_body(relative_path, a) == analysis_body_of(relative_path, items),
{
    let n = items.len() as int;
    let ms = chosen_upto(items, ItemKind::Module, n);
    let fs = chosen_upto(items, ItemKind::Function, n);
    let ss = chosen_upto(items, ItemKind::Struct, n);
    let es = chosen_upto(items, ItemKind::Enum, n);
    let is = chosen_upto(items, ItemKind::Impl, n);
    assert forall|k: int| 0 <= k < a.modules@.len() implies module_bullets(a.modules@)[k]
        == item_bullet(ms[k]) by {
        assert(crate::parser::module_matches(a.modules@[k], ms[k]));
    }
    assert(module_bullets(a.modules@) =~= item_bullets(items, ItemKind::Module));
    assert forall|k: int| 0 <= k < a.functions@.len() implies function_bullets(a.functions@)[k]
        == item_bullet(fs[k]) by {
        assert(crate::parser::free_function_matches(a.functions@[k], fs[k]));
    }
    assert(function_bullets(a.functions@) =~= item_bullets(items, ItemKind::Function));
    assert forall|k: int| 0 <= k < a.structs@.len() implies struct_bullets(a.structs@)[k]
        == item_bullet(ss[k]) by {
        assert(crate::parser::struct_matches(a.structs@[k], ss[k]));
    }
    assert(struct_bullets(a.structs@) =~= item_bullets(items, ItemKind::Struct));
    assert forall|k: int| 0 <= k < a.enums@.len() implies enum_bullets(a.enums@)[k]
        == item_bullet(es[k]) by {
        assert(crate::parser::enum_matches(a.enums@[k], es[k]));
        assert(texts(a.enums@[k].variants@).len() == a.enums@[k].variants@.len());
    }
    assert(enum_bullets(a.enums@) =~= item_bullets(items, ItemKind::Enum));
    assert forall|k: int| 0 <= k < a.implementations@.len() implies impl_bullets(
        a.implementations@,
    )[k] == item_bullet(is[k]) by {
        assert(crate::parser::impl_matches(a.implementations@[k], is[k]));
    }
    assert(impl_bullets(a.implementations@) =~= item_bullets(items, ItemKind::Impl));
}

impl ContextGenerator {
    /// The options that the generator was made with.
    pub closed spec fn options(&self) -> Config {
        self.config
    }

    /// A generator for the given options, with a prioritizer of its own. It
    /// is made exactly where the prioritizer is; otherwise the error is that
    /// of the prioritizer.
    pub fn new(config: Config) -> (r: Result<Self, TokenizerError>)
        ensures
            made_or_refused(r),
            r matches Ok(g) ==> g.options() == config,
    {
        match ContentPrioritizer::new() {
            Ok(prioritizer) => Ok(ContextGenerator { config, prioritizer }),
            Err(e) => Err(e),
        }
    }

    /// The metadata section of a scan.
    pub fn create_metadata_section(&self, scan_result: &ScanResult) -> (r: ContentSection)
        ensures
            r@ == metadata_section(
                scan_result.metadata,
                scan_result.project_structure,
                self.options().include_deps,
            ),
    {
        let meta = &scan_result.metadata;
        let mut content = String::new();
        content.append("# Project Metadata\n\n");
        content.append("**Name:** ");
        content.append(meta.name.as_str());
        content.append("\n");
        match &meta.description {
            Some(d) => {
                content.append("**Description:** ");
                content.append(d.as_str());
                content.append("\n");
            },
            None => {},
        }
        let ghost before_deps = content@;
        if self.config.include_deps {
            let mut bullets: Vec<String> = Vec::new();
            let mut i: usize = 0;
            while i < meta.dependencies.len()
                invariant
                    i <= meta.dependencies.len(),
                    bullets.len() == i,
                    forall|k: int|
                        0 <= k < i ==> (#[trigger] bullets@[k])@ == dependency_bullet(
                            meta.dependencies@[k]@,
                        ),
                decreases meta.dependencies.len() - i,
            {
                let mut b = String::new();
                b.append("- ");
                b.append(meta.dependencies[i].as_str());
                b.append("\n");
                assert(b@ =~= dependency_bullet(meta.dependencies@[i as int]@));
                bullets.push(b);
                i += 1;
            }
            assert(texts(bullets@) =~= dependency_bullets(meta.dependencies@));
            push_block(&mut content, "**Dependencies:**\n", &bullets, "");
        }
        let ghost after_deps = content@;
        assert(after_deps =~= before_deps + (if self.config.include_deps {
            block("**Dependencies:**\n"@, dependency_bullets(meta.dependencies@), ""@)
        } else {
            Seq::empty()
        }));
        match &meta.rust_version {
            Some(v) => {
                content.append("**Version:** ");
                content.append(v.as_str());
                content.append("\n");
            },
            None => {},
        }
        let files = render_number(scan_result.project_structure.total_files as u64);
        let size = render_number(scan_result.project_structure.total_size);
        content.append("**Total files:** ");
        content.append(files.as_str());
        content.append("\n");
        content.append("**Total size:** ");
        content.append(size.as_str());
        content.append(" bytes\n\n");
        assert(content@ =~= metadata_body(
            scan_result.metadata,
            scan_result.project_structure,
            self.config.include_deps,
        ));
        ContentSection { title: "Project Metadata".to_owned(), content, priority: 10, truncated: false }
    }

    /// The structure section of a scan.
    pub fn create_structure_section(&self, scan_result: &ScanResult) -> (r: ContentSection)
        ensures
            r@ == structure_section(scan_result.project_structure),
    {
        let mut content = String::new();
        content.append("# Project Structure\n\n");
        content.append(scan_result.project_structure.tree.as_str());
        content.append("\n");
        assert(content@ =~= "# Project Structure\n\n"@ + scan_result.project_structure.tree@
            + "\n"@);
        ContentSection {
            title: "Project Structure".to_owned(),
            content,
            priority: 9,
            truncated: false,
        }
    }

    /// The documentation sections of a scan: one for each Markdown file, in
    /// the order of the files.
    pub fn create_markdown_sections(&self, scan_result: &ScanResult) -> (r: Vec<ContentSection>)
        ensures
            section_views(r@) == documentation_sections_upto(
                scan_result.files@,
                scan_result.files@.len() as int,
            ),
    {
        let files = &scan_result.files;
        let mut out: Vec<ContentSection> = Vec::new();
        let mut i: usize = 0;
        assert(section_views(out@) =~= documentation_sections_upto(files@, 0));
        while i < files.len()
            invariant
                i <= files.len(),
                section_views(out@) == documentation_sections_upto(files@, i as int),
            decreases files.len() - i,
        {
            let file = &files[i];
            let ghost before = section_views(out@);
            match file.file_type {
                FileType::Markdown => {
                    let mut title = String::new();
                    title.append("Documentation: ");
                    title.append(file.relative_path.as_str());
                    let mut content = String::new();
                    content.append("# Documentation: ");
                    content.append(file.relative_path.as_str());
                    content.append("\n\n");
                    content.append(file.content.as_str());
                    content.append("\n");
                    assert(title@ =~= documentation_section(*file).title);
                    assert(content@ =~= documentation_section(*file).content);
                    out.push(ContentSection { title, content, priority: 8, truncated: false });
                    assert(section_views(out@) =~= before.push(documentation_section(*file)));
                },
                FileType::Rust => {},
            }
            i += 1;
        }
        out
    }

    /// The analysis sections of a scan: one for each Rust file that parses,
    /// in the order of the files; and the files that do not parse, with
    /// what the parser said of each.
    pub fn create_rust_analysis_sections(&self, scan_result: &ScanResult) -> (r: (
        Vec<ContentSection>,
        Vec<ParseFailure>,
    ))
        ensures
            section_views(r.0@) == analysis_sections_upto(
                scan_result.files@,
                scan_result.files@.len() as int,
            ),
            failure_paths(r.1@) == unparsed_upto(
                scan_result.files@,
                scan_result.files@.len() as int,
            ),
    {
        let files = &scan_result.files;
        let mut out: Vec<ContentSection> = Vec::new();
        let mut failures: Vec<ParseFailure> = Vec::new();
        let mut i: usize = 0;
        assert(section_views(out@) =~= analysis_sections_upto(files@, 0));
        assert(failure_paths(failures@) =~= unparsed_upto(files@, 0));
        while i < files.len()
            invariant
                i <= files.len(),
                section_views(out@) == analysis_sections_upto(files@, i as int),
                failure_paths(failures@) == unparsed_upto(files@, i as int),
            decreases files.len() - i,
        {
            let file = &files[i];
            let ghost before = section_views(out@);
            let ghost failed = failure_paths(failures@);
            match file.file_type {
                FileType::Rust => {
                    match RustParser::parse_rust_file(file.path.as_str(), file.content.as_str()) {
                        Ok(analysis) => {
                            let content = render_analysis(file.relative_path.as_str(), &analysis);
                            proof {
                                lemma_analysis_body_of_items(
                                    analysis,
                                    file.relative_path@,
                                    file.path@,
                                    syntax_of(file.content@)->0,
                                );
                            }
                            let mut title = String::new();
                            title.append("Analysis: ");
                            title.append(file.relative_path.as_str());
                            assert(title@ =~= "Analysis: "@ + file.relative_path@);
                            out.push(
                                ContentSection { title, content, priority: 6, truncated: false },
                            );
                            assert(section_views(out@) =~= before.push(
                                analysis_section(
                                    file.relative_path@,
                                    analysis_body_of(
                                        file.relative_path@,
                                        syntax_of(file.content@)->0,
                                    ),
                                ),
                            ));
                        },
                        Err(e) => {
                            failures.push(
                                ParseFailure {
                                    relative_path: file.relative_path.clone(),
                                    message: e.message,
                                },
                            );
                            assert(failure_paths(failures@) =~= failed.push(file.relative_path@));
                        },
                    }
                },
                FileType::Markdown => {},
            }
            i += 1;
        }
        (out, failures)
    }

    /// The source sections of a scan: one for each file, in the order of
    /// the files.
    pub fn create_source_code_sections(&self, scan_result: &ScanResult) -> (r: Vec<ContentSection>)
        ensures
            section_views(r@) == source_sections_upto(
                scan_result.files@,
                scan_result.files@.len() as int,
            ),
    {
        let files = &scan_result.files;
        let mut out: Vec<ContentSection> = Vec::new();
        let mut i: usize = 0;
        assert(section_views(out@) =~= source_sections_upto(files@, 0));
        while i < files.len()
            invariant
                i <= files.len(),
                section_views(out@) == source_sections_upto(files@, i as int),
            decreases files.len() - i,
        {
            let file = &files[i];
            let ghost before = section_views(out@);
            let mut title = String::new();
            title.append("Source: ");
            title.append(file.relative_path.as_str());
            let mut content = String::new();
            content.append("# Source: ");
            content.append(file.relative_path.as_str());
            content.append("\n\n");
            content.append("```");
            match file.file_type {
                FileType::Rust => content.append("rust"),
                FileType::Markdown => content.append("markdown"),
            }
            content.append("\n");
            content.append(file.content.as_str());
            content.append("\n```\n\n");
            assert(title@ =~= source_section(*file).title);
            assert(content@ =~= source_section(*file).content);
            out.push(ContentSection { title, content, priority: 3, truncated: false });
            assert(section_views(out@) =~= before.push(source_section(*file)));
            i += 1;
        }
        out
    }

    /// Writes the document for the admitted `sections`, with `timestamp`
    /// as the time of the run.
    pub fn format_context(&self, sections: &Vec<ContentSection>, timestamp: &str) -> (r: String)
        ensures
            r@ == document_text(
                timestamp@,
                self.options().repo_path@,
                self.options().max_tokens as nat,
                section_views(sections@),
            ),
    {
        let ghost views = section_views(sections@);
        let budget = render_number(self.config.max_tokens as u64);
        let mut context = String::new();
        context.append("# AI Context Generation Report\n\n");
        context.append("Generated on: ");
        context.append(timestamp);
        context.append("\n");
        context.append("Repository: ");
        context.append(self.config.repo_path.as_str());
        context.append("\n");
        context.append("Max tokens: ");
        context.append(budget.as_str());
        context.append("\n\n");
        context.append("## Table of Contents\n\n");
        let ghost head = context@;
        let mut i: usize = 0;
        while i < sections.len()
            invariant
                i <= sections.len(),
                views == section_views(sections@),
                context@ == head + concat_upto(contents_lines(views), i as int),
            decreases sections.len() - i,
        {
            let number = render_number(i as u64 + 1);
            context.append(number.as_str());
            context.append(". ");
            context.append(sections[i].title.as_str());
            if sections[i].truncated {
                context.append(" (truncated)");
            }
            context.append("\n");
            assert(contents_lines(views)[i as int] == contents_line(i as int, sections@[i as int]@));
            i += 1;
            assert(context@ =~= head + concat_upto(contents_lines(views), i as int));
        }
        context.append("\n");
        let ghost middle = context@;
        let mut j: usize = 0;
        while j < sections.len()
            invariant
                j <= sections.len(),
                views == section_views(sections@),
                context@ == middle + concat_upto(section_parts(views), j as int),
            decreases sections.len() - j,
        {
            context.append("---\n\n");
            context.append(sections[j].content.as_str());
            j += 1;
            assert(context@ =~= middle + concat_upto(section_parts(views), j as int));
        }
        assert(context@ =~= document_text(
            timestamp@,
            self.config.repo_path@,
            self.config.max_tokens as nat,
            views,
        ));
        context
    }

    /// Builds the document of a scan for a run at `unix_seconds` seconds
    /// since 1970: all sections are built, admitted into the token budget
    /// by priority, and written out. Gives nothing where the time is out of
    /// the range of dates.
    pub fn generate_context(&self, scan_result: &ScanResult, unix_seconds: i64) -> (r: Option<
        Generated,
    >)
        ensures
            match r {
                Some(g) => utc_text(unix_seconds as int) matches Some(t) && g.document@
                    == document_text(
                    t,
                    self.options().repo_path@,
                    self.options().max_tokens as nat,
                    prioritized(
                        all_sections(*scan_result, self.options().include_deps),
                        self.options().max_tokens as nat,
                    ),
                ) && failure_paths(g.failures@) == unparsed_upto(
                    scan_result.files@,
                    scan_result.files@.len() as int,
                ),
                None => utc_text(unix_seconds as int) is None,
            },
    {
        let timestamp = match utc_timestamp(unix_seconds) {
            Some(t) => t,
            None => {
                return None;
            },
        };
        let mut sections: Vec<ContentSection> = Vec::new();
        sections.push(self.create_metadata_section(scan_result));
        sections.push(self.create_structure_section(scan_result));
        let mut documentation = self.create_markdown_sections(scan_result);
        let (mut analyses, failures) = self.create_rust_analysis_sections(scan_result);
        let mut sources = self.create_source_code_sections(scan_result);
        let ghost s0 = sections@;
        let ghost d0 = documentation@;
        let ghost a0 = analyses@;
        let ghost c0 = sources@;
        sections.append(&mut documentation);
        sections.append(&mut analyses);
        sections.append(&mut sources);
        assert(sections@ =~= s0 + d0 + a0 + c0);
        assert(section_views(sections@) =~= section_views(s0) + section_views(d0) + section_views(
            a0,
        ) + section_views(c0));
        assert(section_views(s0) =~= seq![
            metadata_section(
                scan_result.metadata,
                scan_result.project_structure,
                self.config.include_deps,
            ),
            structure_section(scan_result.project_structure),
        ]);
        assert(section_views(sections@) =~= all_sections(*scan_result, self.config.include_deps));
        let admitted = self.prioritizer.prioritize_content(sections, self.config.max_tokens);
        let document = self.format_context(&admitted, timestamp.as_str());
        Some(Generated { document, failures })
    }
}

/// Every documentation section has priority 8.
proof fn lemma_documentation_priority(files: Seq<FileInfo>, n: int)
    ensures
        forall|k: int|
            0 <= k < documentation_sections_upto(files, n).len() ==> (
            #[trigger] documentation_sections_upto(files, n)[k]).priority == 8,
    decreases n,
{
    if 0 < n <= files.len() {
        lemma_documentation_priority(files, n - 1);
        let before = documentation_sections_upto(files, n - 1);
        let now = documentation_sections_upto(files, n);
        assert forall|k: int| 0 <= k < now.len() implies (#[trigger] now[k]).priority == 8 by {
            if k < before.len() {
                assert(now[k] == before[k]);
            }
        }
    }
}

/// Every analysis section has priority 6.
proof fn lemma_analysis_priority(files: Seq<FileInfo>, n: int)
    ensures
        forall|k: int|
            0 <= k < analysis_sections_upto(files, n).len() ==> (
            #[trigger] analysis_sections_upto(files, n)[k]).priority == 6,
    decreases n,
{
    if 0 < n <= files.len() {
        lemma_analysis_priority(files, n - 1);
        let before = analysis_sections_upto(files, n - 1);
        let now = analysis_sections_upto(files, n);
        assert forall|k: int| 0 <= k < now.len() implies (#[trigger] now[k]).priority == 6 by {
            if k < before.len() {
                assert(now[k] == before[k]);
            }
        }
    }
}

/// Every source section has priority 3.
proof fn lemma_source_priority(files: Seq<FileInfo>, n: int)
    ensures
        forall|k: int|
            0 <= k < source_sections_upto(files, n).len() ==> (
            #[trigger] source_sections_upto(files, n)[k]).priority == 3,
    decreases n,
{
    if 0 < n <= files.len() {
        lemma_source_priority(files, n - 1);
        let before = source_sections_upto(files, n - 1);
        let now = source_sections_upto(files, n);
        assert forall|k: int| 0 <= k < now.len() implies (#[trigger] now[k]).priority == 3 by {
            if k < before.len() {
                assert(now[k] == before[k]);
            }
        }
    }
}

/// The sections of a scan are built in priority order: metadata, then
/// structure, then the bands of documentation, analyses and sources, each
/// in the order of the files. Ordering them by priority changes nothing.
pub proof fn lemma_build_order_is_priority_order(scan: ScanResult, include_deps: bool)
    ensures
        descending(all_sections(scan, include_deps)),
        by_priority(all_sections(scan, include_deps)) == all_sections(scan, include_deps),
{
    let n = scan.files@.len() as int;
    let head = seq![
        metadata_section(scan.metadata, scan.project_structure, include_deps),
        structure_section(scan.project_structure),
    ];
    let docs = documentation_sections_upto(scan.files@, n);
    let analyses = analysis_sections_upto(scan.files@, n);
    let sources = source_sections_upto(scan.files@, n);
    let all = all_sections(scan, include_deps);
    lemma_documentation_priority(scan.files@, n);
    lemma_analysis_priority(scan.files@, n);
    lemma_source_priority(scan.files@, n);
    assert(all == head + docs + analyses + sources);
    assert forall|k: int| 0 <= k < all.len() implies (#[trigger] all[k]).priority == (if k == 0 {
        10u8
    } else if k == 1 {
        9u8
    } else if k < 2 + docs.len() {
        8u8
    } else if k < 2 + docs.len() + analyses.len() {
        6u8
    } else {
        3u8
    }) by {
        if k < 2 {
            assert(all[k] == head[k]);
        } else if k < 2 + docs.len() {
            assert(all[k] == docs[k - 2]);
        } else if k < 2 + docs.len() + analyses.len() {
            assert(all[k] == analyses[k - 2 - docs.len()]);
        } else {
            assert(all[k] == sources[k - 2 - docs.len() - analyses.len()]);
        }
    }
    lemma_descending_is_kept(all);
}

/// A scan without files gives the metadata and the structure section and
/// no others.
pub proof fn lemma_sections_of_empty_scan(scan: ScanResult, include_deps: bool)
    requires
        scan.files@.len() == 0,
    ensures
        all_sections(scan, include_deps) == seq![
            metadata_section(scan.metadata, scan.project_structure, include_deps),
            structure_section(scan.project_structure),
        ],
{
    assert(all_sections(scan, include_deps) =~= seq![
        metadata_section(scan.metadata, scan.project_structure, include_deps),
        structure_section(scan.project_structure),
    ]);
}

/// Where every section of a scan can be encoded and their bodies together
/// hold no more tokens than the budget, the admitted sections are the
/// sections of the scan, unchanged and in the order in which they are
/// built.
pub proof fn lemma_everything_admitted(scan: ScanResult, include_deps: bool, max_tokens: nat)
    requires
        forall|k: int|
            0 <= k < all_sections(scan, include_deps).len() ==> countable(
                (#[trigger] all_sections(scan, include_deps)[k]).content,
            ),
        range_tokens(
            all_sections(scan, include_deps),
            0,
            all_sections(scan, include_deps).len() as int,
        ) <= max_tokens,
    ensures
        prioritized(all_sections(scan, include_deps), max_tokens) == all_sections(
            scan,
            include_deps,
        ),
{
    lemma_build_order_is_priority_order(scan, include_deps);
    lemma_all_admitted_where_all_fit(all_sections(scan, include_deps), max_tokens);
}

/// The title of the analysis section of the file at `relative_path`.
pub open spec fn analysis_title(relative_path: Seq<char>) -> Seq<char> {
    "Analysis: "@ + relative_path
}

/// Whether `title` is the title of the analysis of one of the first `n`
/// files, and of one that parses.
pub open spec fn titled_by_parsed_file(title: Seq<char>, files: Seq<FileInfo>, n: int) -> bool {
    exists|j: int|
        0 <= j < n && is_analysed(#[trigger] files[j]) && title == analysis_title(
            files[j].relative_path@,
        )
}

/// Every analysis section bears the path of a file that parses.
proof fn lemma_analysis_titles(files: Seq<FileInfo>, n: int)
    requires
        0 <= n <= files.len(),
    ensures
        forall|k: int|
            0 <= k < analysis_sections_upto(files, n).len() ==> titled_by_parsed_file(
                (#[trigger] analysis_sections_upto(files, n)[k]).title,
                files,
                n,
            ),
    decreases n,
{
    if n > 0 {
        lemma_analysis_titles(files, n - 1);
        let before = analysis_sections_upto(files, n - 1);
        let now = analysis_sections_upto(files, n);
        assert forall|k: int| 0 <= k < now.len() implies titled_by_parsed_file(
            (#[trigger] now[k]).title,
            files,
            n,
        ) by {
            if k < before.len() {
                assert(now[k] == before[k]);
                assert(titled_by_parsed_file(before[k].title, files, n - 1));
                let j = choose|j: int|
                    0 <= j < n - 1 && is_analysed(#[trigger] files[j]) && before[k].title
                        == analysis_title(files[j].relative_path@);
                assert(is_analysed(files[j]));
            } else {
                assert(is_analysed(files[n - 1]));
            }
        }
    }
}

/// Where no two files have the same relative path, a Rust file that does
/// not parse has no analysis section: no section bears its path.
pub proof fn lemma_unparsed_file_has_no_analysis(files: Seq<FileInfo>, f: int)
    requires
        0 <= f < files.len(),
        !is_analysed(files[f]),
        forall|a: int, b: int|
            0 <= a < files.len() && 0 <= b < files.len() && a != b ==> (
            #[trigger] files[a]).relative_path@ != (#[trigger] files[b]).relative_path@,
    ensures
        forall|k: int|
            0 <= k < analysis_sections_upto(files, files.len() as int).len() ==> (
            #[trigger] analysis_sections_upto(files, files.len() as int)[k]).title
                != analysis_title(files[f].relative_path@),
{
    let n = files.len() as int;
    let sections = analysis_sections_upto(files, n);
    lemma_analysis_titles(files, n);
    assert forall|k: int| 0 <= k < sections.len() implies (#[trigger] sections[k]).title
        != analysis_title(files[f].relative_path@) by {
        assert(titled_by_parsed_file(sections[k].title, files, n));
        let j = choose|j: int|
            0 <= j < n && is_analysed(#[trigger] files[j]) && sections[k].title == analysis_title(
                files[j].relative_path@,
            );
        assert(j != f);
        let p = files[j].relative_path@;
        let q = files[f].relative_path@;
        if analysis_title(p) == analysis_title(q) {
            assert(analysis_title(p).skip("Analysis: "@.len() as int) =~= p);
            assert(analysis_title(q).skip("Analysis: "@.len() as int) =~= q);
        }
    }
}

} // verus!
