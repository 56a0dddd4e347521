//! Builds a Markdown context bundle from a scanned source repository: file
//! filtering, manifest reading, declaration summaries, prioritised sections
//! under a token budget, and the final document layout.

use vstd::prelude::*;

pub mod config;
pub mod text;
pub mod token_counter;
pub mod syntax;
pub mod parser;
pub mod scanner;
pub mod generator;

use crate::generator::{
    all_sections, dependency_bullets, document_text, failure_paths, metadata_body, optional_line,
    unparsed_upto, utc_text,
};
use crate::scanner::{
    lemma_size_grows, metadata_matches, opt_str, opt_view, size_upto, sorted_by_path, total_size,
    tree_text,
};
use crate::text::texts;
use crate::token_counter::{prioritized, tokenizer_refusal};

pub use crate::config::Config;
pub use crate::generator::{ContextGenerator, Generated};
pub use crate::parser::{
    EnumInfo, FieldInfo, FunctionInfo, ImplInfo, ModuleInfo, RustAnalysis, RustParser, StructInfo,
};
pub use crate::scanner::{
    FileInfo, FileType, ProjectMetadata, ProjectStructure, RepositoryScanner, ScanResult,
};
pub use crate::token_counter::{ContentPrioritizer, ContentSection, TokenCounter};

verus! {

/// What was read of a repository: its files, the name of its directory,
/// and the texts of its manifest and README where it has them.
#[derive(Debug, Clone)]
pub struct RepositoryInput {
    pub files: Vec<FileInfo>,
    pub dir_name: String,
    pub manifest: Option<String>,
    pub readme: Option<String>,
}

/// Why no document was built.
#[derive(Debug, Clone)]
pub enum PipelineError {
    /// The tokenizer could not be loaded.
    Tokenizer(String),
    /// The sizes of the files do not add up in 64 bits.
    SizeOverflow,
    /// The time of the run is out of the range of dates.
    TimeOutOfRange,
}

/// The text of an optional string, as a slice.
pub fn as_slice(o: &Option<String>) -> (r: Option<&str>)
    ensures
        opt_str(r) == opt_view(*o),
{
    match o {
        Some(s) => Some(s.as_str()),
        None => None,
    }
}

/// Whether the sizes of `files` add up in 64 bits.
pub fn sizes_fit(files: &Vec<FileInfo>) -> (r: bool)
    ensures
        r == (total_size(files@) <= u64::MAX),
{
    let mut sum: u64 = 0;
    let mut i: usize = 0;
    while i < files.len()
        invariant
            i <= files.len(),
            sum == size_upto(files@, i as int),
        decreases files.len() - i,
    {
        if files[i].size > u64::MAX - sum {
            proof {
                lemma_size_grows(files@, i as int + 1, files@.len() as int);
            }
            return false;
        }
        sum = sum + files[i].size;
        i += 1;
    }
    true
}

/// Whether `g` is the outcome of a run with the options `config` on the
/// scan `scan` at `secs` seconds since 1970: the document of the sections
/// admitted into the budget, and the files that did not parse.
pub open spec fn is_outcome(g: Generated, config: Config, scan: ScanResult, secs: int) -> bool {
    &&& utc_text(secs) is Some
    &&& g.document@ == document_text(
        utc_text(secs)->0,
        config.repo_path@,
        config.max_tokens as nat,
        prioritized(
            all_sections(scan, config.include_deps),
            config.max_tokens as nat,
        ),
    )
    &&& failure_paths(g.failures@) == unparsed_upto(
        scan.files@,
        scan.files@.len() as int,
    )
}

/// Whether `scan` is the scan of what was read in `input`.
pub open spec fn is_scan_of(scan: ScanResult, input: RepositoryInput) -> bool {
    &&& scan.files@ == sorted_by_path(input.files@)
    &&& scan.project_structure.tree@ == tree_text(input.files@)
    &&& scan.project_structure.total_files == input.files@.len()
    &&& scan.project_structure.total_size == total_size(input.files@)
    &&& metadata_matches(
        scan.metadata,
        input.dir_name@,
        opt_view(input.manifest),
        opt_view(input.readme),
    )
}

/// Whether `g` is the outcome of a run with the options `config` on what
/// was read in `input`, at `secs` seconds since 1970.
pub open spec fn is_run(g: Generated, config: Config, input: RepositoryInput, secs: int) -> bool {
    exists|scan: ScanResult| is_scan_of(scan, input) && #[trigger] is_outcome(g, config, scan, secs)
}

/// Whether a run on what was read in `input`, at `secs` seconds since
/// 1970, gives a document: the sizes of the files add up in 64 bits, the
/// tokenizer finds the budget's model, and the time is in the range of
/// dates.
pub open spec fn can_run(input: RepositoryInput, secs: int) -> bool {
    &&& total_size(input.files@) <= u64::MAX
    &&& tokenizer_refusal() is None
    &&& utc_text(secs) is Some
}

/// Runs the pipeline on what was read of a repository, at `unix_seconds`
/// seconds since 1970: scans the input, builds the sections, admits them
/// into the budget of `config` and writes the document. It succeeds
/// exactly where `can_run` holds, and the outcome then depends on the
/// options, the input and the time alone. Otherwise the error is the
/// first of these that applies: sizes that do not add up, the refusal of
/// the tokenizer with its message, a time out of range.
pub fn generate_context_with_config(config: Config, input: RepositoryInput, unix_seconds: i64) -> (r:
    Result<Generated, PipelineError>)
    ensures
        match r {
            Ok(g) => can_run(input, unix_seconds as int) && is_run(
                g,
                config,
                input,
                unix_seconds as int,
            ),
            Err(PipelineError::SizeOverflow) => total_size(input.files@) > u64::MAX,
            Err(PipelineError::Tokenizer(m)) => total_size(input.files@) <= u64::MAX
                && tokenizer_refusal() == Some(m@),
            Err(PipelineError::TimeOutOfRange) => total_size(input.files@) <= u64::MAX
                && tokenizer_refusal() is None && utc_text(unix_seconds as int) is None,
        },
        can_run(input, unix_seconds as int) ==> r is Ok,
{
    if !sizes_fit(&input.files) {
        return Err(PipelineError::SizeOverflow);
    }
    let scanner = RepositoryScanner::new(config.clone_options());
    let RepositoryInput { files, dir_name, manifest, readme } = input;
    let scan = scanner.scan(files, dir_name.as_str(), as_slice(&manifest), as_slice(&readme));
    let generator = match ContextGenerator::new(config) {
        Ok(g) => g,
        Err(e) => {
            return Err(PipelineError::Tokenizer(e.message));
        },
    };
    match generator.generate_context(&scan, unix_seconds) {
        Some(g) => {
            assert(is_scan_of(scan, input));
            assert(is_outcome(g, config, scan, unix_seconds as int));
            Ok(g)
        },
        None => Err(PipelineError::TimeOutOfRange),
    }
}

/// The options of a run on the repository at `path` that writes to
/// `output`: a budget of 50 000 tokens, hidden entries left out, and no
/// list of dependencies.
pub open spec fn standard_options(path: String, output: String) -> Config {
    Config {
        repo_path: path,
        max_tokens: 50000,
        output_file: output,
        include_hidden: false,
        include_deps: false,
    }
}

/// Runs the pipeline with the standard options for the repository at
/// `path` and the output file `output`.
pub fn generate_context(path: String, output: String, input: RepositoryInput, unix_seconds: i64) -> (r:
    Result<Generated, PipelineError>)
    ensures
        match r {
            Ok(g) => can_run(input, unix_seconds as int) && is_run(
                g,
                standard_options(path, output),
                input,
                unix_seconds as int,
            ),
            Err(PipelineError::SizeOverflow) => total_size(input.files@) > u64::MAX,
            Err(PipelineError::Tokenizer(m)) => total_size(input.files@) <= u64::MAX
                && tokenizer_refusal() == Some(m@),
            Err(PipelineError::TimeOutOfRange) => total_size(input.files@) <= u64::MAX
                && tokenizer_refusal() is None && utc_text(unix_seconds as int) is None,
        },
        can_run(input, unix_seconds as int) ==> r is Ok,
{
    let config = Config {
        repo_path: path,
        max_tokens: 50000,
        output_file: output,
        include_hidden: false,
        include_deps: false,
    };
    generate_context_with_config(config, input, unix_seconds)
}

/// Two scans of one input give the same sections.
pub proof fn lemma_scans_agree(a: ScanResult, b: ScanResult, input: RepositoryInput, include_deps: bool)
    requires
        is_scan_of(a, input),
        is_scan_of(b, input),
    ensures
        all_sections(a, include_deps) == all_sections(
            b,
            include_deps,
        ),
{
    assert(dependency_bullets(a.metadata.dependencies@)
        =~= dependency_bullets(b.metadata.dependencies@)) by {
        let ta = texts(a.metadata.dependencies@);
        let tb = texts(b.metadata.dependencies@);
        assert(ta == tb);
        assert(ta.len() == a.metadata.dependencies@.len());
        assert(tb.len() == b.metadata.dependencies@.len());
        assert forall|k: int| 0 <= k < a.metadata.dependencies@.len() implies a.metadata.dependencies@[k]@
            == b.metadata.dependencies@[k]@ by {
            assert(ta[k] == a.metadata.dependencies@[k]@);
            assert(tb[k] == b.metadata.dependencies@[k]@);
        }
    }
    assert(optional_line("**Description:** "@, a.metadata.description)
        == optional_line("**Description:** "@, b.metadata.description));
    assert(optional_line("**Version:** "@, a.metadata.rust_version)
        == optional_line("**Version:** "@, b.metadata.rust_version));
    assert(metadata_body(a.metadata, a.project_structure, include_deps)
        == metadata_body(b.metadata, b.project_structure, include_deps));
}

/// Two runs with the same options on the same input at the same time write
/// the same document and report the same files.
pub proof fn lemma_runs_agree(
    g1: Generated,
    g2: Generated,
    config: Config,
    input: RepositoryInput,
    secs: int,
)
    requires
        is_run(g1, config, input, secs),
        is_run(g2, config, input, secs),
    ensures
        g1.document@ == g2.document@,
        failure_paths(g1.failures@) == failure_paths(
            g2.failures@,
        ),
{
    let a = choose|scan: ScanResult|
        is_scan_of(scan, input) && #[trigger] is_outcome(g1, config, scan, secs);
    let b = choose|scan: ScanResult|
        is_scan_of(scan, input) && #[trigger] is_outcome(g2, config, scan, secs);
    lemma_scans_agree(a, b, input, config.include_deps);
}

} // verus!
