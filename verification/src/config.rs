//! The options of a run, and the fixed sets of names that the scan goes by.

use vstd::prelude::*;
use crate::text::same_text;

verus! {

/// The options of a run.
#[derive(Debug, Clone)]
pub struct Config {
    /// The root of the repository.
    pub repo_path: String,
    /// The token budget of the document's sections.
    pub max_tokens: usize,
    /// Where the document is written.
    pub output_file: String,
    /// Whether entries whose name begins with a dot are scanned.
    pub include_hidden: bool,
    /// Whether the metadata section lists the dependencies.
    pub include_deps: bool,
}

impl Default for Config {
    /// The current directory, 50 000 tokens, `repo_context.md`, and both
    /// flags off.
    fn default() -> (c: Self)
        ensures
            c.repo_path@ == "."@,
            c.max_tokens == 50000,
            c.output_file@ == "repo_context.md"@,
            !c.include_hidden,
            !c.include_deps,
    {
        Config {
            repo_path: ".".to_owned(),
            max_tokens: 50000,
            output_file: "repo_context.md".to_owned(),
            include_hidden: false,
            include_deps: false,
        }
    }
}

impl Config {
    /// A copy of the options.
    pub fn clone_options(&self) -> (c: Self)
        ensures
            c == *self,
    {
        Config {
            repo_path: self.repo_path.clone(),
            max_tokens: self.max_tokens,
            output_file: self.output_file.clone(),
            include_hidden: self.include_hidden,
            include_deps: self.include_deps,
        }
    }
}

/// Whether files with the extension `ext`, written without its dot, are
/// scanned.
pub open spec fn supported_extension(ext: Seq<char>) -> bool {
    ext == "rs"@ || ext == "md"@
}

/// Whether a directory of the name `name` is passed over.
pub open spec fn ignored_dir(name: Seq<char>) -> bool {
    name == "target"@ || name == "node_modules"@ || name == ".git"@ || name == ".vscode"@ || name
        == ".idea"@
}

/// Whether a file of the name `name` is passed over.
pub open spec fn ignored_file(name: Seq<char>) -> bool {
    name == "Cargo.lock"@ || name == ".gitignore"@ || name == ".DS_Store"@
}

/// Whether files with the extension `ext` are scanned.
pub fn is_supported_extension(ext: &Vec<char>) -> (b: bool)
    ensures
        b == supported_extension(ext@),
{
    same_text(ext, "rs") || same_text(ext, "md")
}

/// Whether a directory of the name `name` is passed over.
pub fn is_ignored_dir(name: &Vec<char>) -> (b: bool)
    ensures
        b == ignored_dir(name@),
{
    same_text(name, "target") || same_text(name, "node_modules") || same_text(name, ".git")
        || same_text(name, ".vscode") || same_text(name, ".idea")
}

/// Whether a file of the name `name` is passed over.
pub fn is_ignored_file(name: &Vec<char>) -> (b: bool)
    ensures
        b == ignored_file(name@),
{
    same_text(name, "Cargo.lock") || same_text(name, ".gitignore") || same_text(name, ".DS_Store")
}

} // verus!
