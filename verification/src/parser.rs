//! Declarations found at the top level of a Rust source file, and the
//! summary written from them.

use vstd::prelude::*;
use vstd::string::StringExecFns;
use crate::syntax::{
    argument, as_enum, as_function, as_impl, as_method, as_module, as_struct, attribute_parts,
    attrs_model, error_text, field_models, field_parts, fields_of, items_model, members_model,
    parse_return_type, parse_source, signature_head, signature_inputs, syntax_of, visibility, visibility_model,
    AttrModel, FieldModel, FieldsKind, FieldsModel, FnModel, FnParts, ItemModel, Param,
    ParamModel, Scope, VisModel,
};
use crate::text::{
    chars_of, concat, concat_upto, decimal, join, joined, render_number, same_text, string_of,
    texts, trim, trimmed,
};

verus! {

/// A module declaration.
#[derive(Debug, Clone)]
pub struct ModuleInfo {
    pub name: String,
    /// `pub`, `pub(<path>)` or `private`.
    pub visibility: String,
    /// The number of items directly inside an inline body; zero without one.
    pub items_count: usize,
}

/// A function, free or inside an impl block.
#[derive(Debug, Clone)]
pub struct FunctionInfo {
    pub name: String,
    pub visibility: String,
    pub is_async: bool,
    /// One text per parameter, in order.
    pub parameters: Vec<String>,
    pub return_type: Option<String>,
    pub documentation: Option<String>,
}

/// A field of a struct.
#[derive(Debug, Clone)]
pub struct FieldInfo {
    pub name: String,
    pub field_type: String,
    pub visibility: String,
}

/// A struct declaration.
#[derive(Debug, Clone)]
pub struct StructInfo {
    pub name: String,
    pub visibility: String,
    pub fields: Vec<FieldInfo>,
    pub documentation: Option<String>,
}

/// An enum declaration.
#[derive(Debug, Clone)]
pub struct EnumInfo {
    pub name: String,
    pub visibility: String,
    pub variants: Vec<String>,
    pub documentation: Option<String>,
}

/// An impl block.
#[derive(Debug, Clone)]
pub struct ImplInfo {
    /// The type the block is for, as text.
    pub target: String,
    /// The trait, where the block implements one.
    pub trait_name: Option<String>,
    pub methods: Vec<FunctionInfo>,
}

/// What was found in one source file.
#[derive(Debug, Clone)]
pub struct RustAnalysis {
    pub file_path: String,
    pub modules: Vec<ModuleInfo>,
    pub functions: Vec<FunctionInfo>,
    pub structs: Vec<StructInfo>,
    pub enums: Vec<EnumInfo>,
    pub implementations: Vec<ImplInfo>,
    pub ast_summary: String,
}

/// A heading, the lines under it and a closing text; nothing at all where
/// there are no lines.
pub open spec fn block(heading: Seq<char>, lines: Seq<Seq<char>>, closing: Seq<char>) -> Seq<
    char,
> {
    if lines.len() == 0 {
        Seq::empty()
    } else {
        heading + concat(lines) + closing
    }
}

/// The summary line of a module.
pub open spec fn module_summary(m: ModuleInfo) -> Seq<char> {
    "- `"@ + m.name@ + "` ("@ + m.visibility@ + ") - "@ + decimal(m.items_count as nat)
        + " items\n"@
}

/// The summary line of a struct.
pub open spec fn struct_summary(s: StructInfo) -> Seq<char> {
    "- `"@ + s.name@ + "` ("@ + s.visibility@ + ") - "@ + decimal(s.fields@.len()) + " fields\n"@
}

/// The summary line of an enum.
pub open spec fn enum_summary(e: EnumInfo) -> Seq<char> {
    "- `"@ + e.name@ + "` ("@ + e.visibility@ + ") - "@ + decimal(e.variants@.len())
        + " variants\n"@
}

/// The summary line of a function: `async ` where it is async, then its
/// name, `()` where it takes nothing and `(...)` otherwise.
pub open spec fn function_summary(f: FunctionInfo) -> Seq<char> {
    "- `"@ + (if f.is_async {
        "async "@
    } else {
        ""@
    }) + f.name@ + (if f.parameters@.len() == 0 {
        "()"@
    } else {
        "(...)"@
    }) + "` ("@ + f.visibility@ + ")\n"@
}

/// The summary line of an impl block.
pub open spec fn impl_summary(i: ImplInfo) -> Seq<char> {
    "- `impl "@ + (match i.trait_name {
        Some(t) => t@ + " for "@,
        None => Seq::empty(),
    }) + i.target@ + "`\n"@
}

/// The summary lines of a list of modules.
pub open spec fn module_summaries(v: Seq<ModuleInfo>) -> Seq<Seq<char>> {
    v.map_values(|m: ModuleInfo| module_summary(m))
}

/// The summary lines of a list of structs.
pub open spec fn struct_summaries(v: Seq<StructInfo>) -> Seq<Seq<char>> {
    v.map_values(|s: StructInfo| struct_summary(s))
}

/// The summary lines of a list of enums.
pub open spec fn enum_summaries(v: Seq<EnumInfo>) -> Seq<Seq<char>> {
    v.map_values(|e: EnumInfo| enum_summary(e))
}

/// The summary lines of a list of functions.
pub open spec fn function_summaries(v: Seq<FunctionInfo>) -> Seq<Seq<char>> {
    v.map_values(|f: FunctionInfo| function_summary(f))
}

/// The summary lines of a list of impl blocks.
pub open spec fn impl_summaries(v: Seq<ImplInfo>) -> Seq<Seq<char>> {
    v.map_values(|i: ImplInfo| impl_summary(i))
}

/// The summary of what was found in a file: a title with the path, then
/// one block for each kind of declaration that occurs, in the order
/// modules, structs, enums, functions, impl blocks.
pub open spec fn summary_text(
    file_path: Seq<char>,
    modules: Seq<ModuleInfo>,
    functions: Seq<FunctionInfo>,
    structs: Seq<StructInfo>,
    enums: Seq<EnumInfo>,
    implementations: Seq<ImplInfo>,
) -> Seq<char> {
    "# AST Summary for "@ + file_path + "\n\n"@ + block(
        "## Modules\n"@,
        module_summaries(modules),
        "\n"@,
    ) + block("## Structs\n"@, struct_summaries(structs), "\n"@) + block(
        "## Enums\n"@,
        enum_summaries(enums),
        "\n"@,
    ) + block("## Functions\n"@, function_summaries(functions), "\n"@) + block(
        "## Implementations\n"@,
        impl_summaries(implementations),
        ""@,
    )
}

/// Appends `heading`, the `lines` and `closing` to `out`, and nothing where
/// there are no lines.
pub fn push_block(out: &mut String, heading: &str, lines: &Vec<String>, closing: &str)
    ensures
        final(out)@ == old(out)@ + block(heading@, texts(lines@), closing@),
{
    let ghost start = out@;
    if lines.len() == 0 {
        assert(out@ =~= start + Seq::<char>::empty());
        return ;
    }
    out.append(heading);
    let mut i: usize = 0;
    while i < lines.len()
        invariant
            i <= lines.len(),
            out@ == start + heading@ + concat_upto(texts(lines@), i as int),
        decreases lines.len() - i,
    {
        out.append(lines[i].as_str());
        i += 1;
        assert(out@ =~= start + heading@ + concat_upto(texts(lines@), i as int));
    }
    out.append(closing);
    assert(out@ =~= start + (heading@ + concat(texts(lines@)) + closing@));
}

/// Writes the summary line of a module.
fn module_line(x: &ModuleInfo) -> (r: String)
    ensures
        r@ == module_summary(*x),
{
    let mut r = String::new();
    let count = render_number(x.items_count as u64);
    r.append("- `");
    r.append(x.name.as_str());
    r.append("` (");
    r.append(x.visibility.as_str());
    r.append(") - ");
    r.append(count.as_str());
    r.append(" items\n");
    assert(r@ =~= module_summary(*x));
    r
}

/// Writes the summary lines of the modules, in order.
fn module_lines(v: &Vec<ModuleInfo>) -> (lines: Vec<String>)
    ensures
        texts(lines@) == module_summaries(v@),
{
    let mut lines: Vec<String> = Vec::new();
    let mut i: usize = 0;
    while i < v.len()
        invariant
            i <= v.len(),
            lines.len() == i,
            forall|k: int| 0 <= k < i ==> (#[trigger] lines@[k])@ == module_summary(v@[k]),
        decreases v.len() - i,
    {
        lines.push(module_line(&v[i]));
        i += 1;
    }
    assert(texts(lines@) =~= module_summaries(v@));
    lines
}

/// Writes the summary line of a struct.
fn struct_line(x: &StructInfo) -> (r: String)
    ensures
        r@ == struct_summary(*x),
{
    let mut r = String::new();
    let count = render_number(x.fields.len() as u64);
    r.append("- `");
    r.append(x.name.as_str());
    r.append("` (");
    r.append(x.visibility.as_str());
    r.append(") - ");
    r.append(count.as_str());
    r.append(" fields\n");
    assert(r@ =~= struct_summary(*x));
    r
}

/// Writes the summary lines of the structs, in order.
fn struct_lines(v: &Vec<StructInfo>) -> (lines: Vec<String>)
    ensures
        texts(lines@) == struct_summaries(v@),
{
    let mut lines: Vec<String> = Vec::new();
    let mut i: usize = 0;
    while i < v.len()
        invariant
            i <= v.len(),
            lines.len() == i,
            forall|k: int| 0 <= k < i ==> (#[trigger] lines@[k])@ == struct_summary(v@[k]),
        decreases v.len() - i,
    {
        lines.push(struct_line(&v[i]));
        i += 1;
    }
    assert(texts(lines@) =~= struct_summaries(v@));
    lines
}

/// Writes the summary line of an enum.
fn enum_line(x: &EnumInfo) -> (r: String)
    ensures
        r@ == enum_summary(*x),
{
    let mut r = String::new();
    let count = render_number(x.variants.len() as u64);
    r.append("- `");
    r.append(x.name.as_str());
    r.append("` (");
    r.append(x.visibility.as_str());
    r.append(") - ");
    r.append(count.as_str());
    r.append(" variants\n");
    assert(r@ =~= enum_summary(*x));
    r
}

/// Writes the summary lines of the enums, in order.
fn enum_lines(v: &Vec<EnumInfo>) -> (lines: Vec<String>)
    ensures
        texts(lines@) == enum_summaries(v@),
{
    let mut lines: Vec<String> = Vec::new();
    let mut i: usize = 0;
    while i < v.len()
        invariant
            i <= v.len(),
            lines.len() == i,
            forall|k: int| 0 <= k < i ==> (#[trigger] lines@[k])@ == enum_summary(v@[k]),
        decreases v.len() - i,
    {
        lines.push(enum_line(&v[i]));
        i += 1;
    }
    assert(texts(lines@) =~= enum_summaries(v@));
    lines
}

/// Writes the summary line of a function.
fn function_line(x: &FunctionInfo) -> (r: String)
    ensures
        r@ == function_summary(*x),
{
    let mut r = String::new();
    r.append("- `");
    r.append(if x.is_async {
        "async "
    } else {
        ""
    });
    r.append(x.name.as_str());
    r.append(if x.parameters.len() == 0 {
        "()"
    } else {
        "(...)"
    });
    r.append("` (");
    r.append(x.visibility.as_str());
    r.append(")\n");
    assert(r@ =~= function_summary(*x));
    r
}

/// Writes the summary lines of the functions, in order.
fn function_lines(v: &Vec<FunctionInfo>) -> (lines: Vec<String>)
    ensures
        texts(lines@) == function_summaries(v@),
{
    let mut lines: Vec<String> = Vec::new();
    let mut i: usize = 0;
    while i < v.len()
        invariant
            i <= v.len(),
            lines.len() == i,
            forall|k: int| 0 <= k < i ==> (#[trigger] lines@[k])@ == function_summary(v@[k]),
        decreases v.len() - i,
    {
        lines.push(function_line(&v[i]));
        i += 1;
    }
    assert(texts(lines@) =~= function_summaries(v@));
    lines
}

/// Writes the summary line of an impl block.
fn impl_line(x: &ImplInfo) -> (r: String)
    ensures
        r@ == impl_summary(*x),
{
    let mut r = String::new();
    r.append("- `impl ");
    match &x.trait_name {
        Some(t) => {
            r.append(t.as_str());
            r.append(" for ");
        },
        None => {},
    }
    r.append(x.target.as_str());
    r.append("`\n");
    assert(r@ =~= impl_summary(*x));
    r
}

/// Writes the summary lines of the impl blocks, in order.
fn impl_lines(v: &Vec<ImplInfo>) -> (lines: Vec<String>)
    ensures
        texts(lines@) == impl_summaries(v@),
{
    let mut lines: Vec<String> = Vec::new();
    let mut i: usize = 0;
    while i < v.len()
        invariant
            i <= v.len(),
            lines.len() == i,
            forall|k: int| 0 <= k < i ==> (#[trigger] lines@[k])@ == impl_summary(v@[k]),
        decreases v.len() - i,
    {
        lines.push(impl_line(&v[i]));
        i += 1;
    }
    assert(texts(lines@) =~= impl_summaries(v@));
    lines
}

/// How a visibility is written in a declaration record.
pub open spec fn visibility_text(v: VisModel) -> Seq<char> {
    match v {
        VisModel::Public => "pub"@,
        VisModel::Restricted(path) => "pub("@ + path + ")"@,
        VisModel::Inherited => "private"@,
    }
}

/// How a parameter is written: a receiver as `&self` or `&mut self`,
/// another parameter as its pattern, a colon and its type.
pub open spec fn param_text(p: ParamModel) -> Seq<char> {
    match p {
        ParamModel::Receiver { mutable } => if mutable {
            "&mut self"@
        } else {
            "&self"@
        },
        ParamModel::Typed { pattern, ty } => pattern + ": "@ + ty,
    }
}

/// The texts of a list of parameters.
pub open spec fn param_texts(ps: Seq<ParamModel>) -> Seq<Seq<char>> {
    ps.map_values(|p: ParamModel| param_text(p))
}

/// Whether an attribute is a documentation line.
pub open spec fn is_doc(a: AttrModel) -> bool {
    a.path == "doc"@ && a.literal is Some
}

/// The documentation lines among the first `n` attributes, in order.
pub open spec fn doc_lines_upto(attrs: Seq<AttrModel>, n: int) -> Seq<Seq<char>>
    decreases n,
{
    if n <= 0 || n > attrs.len() {
        Seq::empty()
    } else if is_doc(attrs[n - 1]) {
        doc_lines_upto(attrs, n - 1).push(attrs[n - 1].literal->0)
    } else {
        doc_lines_upto(attrs, n - 1)
    }
}

/// The documentation that a list of attributes carries: its documentation
/// lines joined by line feeds and trimmed, or nothing where it has none.
pub open spec fn doc_of(attrs: Seq<AttrModel>) -> Option<Seq<char>> {
    let lines = doc_lines_upto(attrs, attrs.len() as int);
    if lines.len() == 0 {
        None
    } else {
        Some(trimmed(joined(lines, "\n"@)))
    }
}

/// The text of an optional string.
pub open spec fn opt_text(o: Option<String>) -> Option<Seq<char>> {
    match o {
        Some(s) => Some(s@),
        None => None,
    }
}

/// Whether `r` records the function `m`.
pub open spec fn function_matches(r: FunctionInfo, m: FnModel) -> bool {
    &&& r.name@ == m.sig.name
    &&& r.visibility@ == visibility_text(m.vis)
    &&& r.is_async == m.sig.is_async
    &&& texts(r.parameters@) == param_texts(m.sig.params)
    &&& opt_text(r.return_type) == m.sig.output
    &&& opt_text(r.documentation) == doc_of(m.attrs)
}

/// The functions among the first `n` members of an impl block, in order.
pub open spec fn methods_upto(members: Seq<Option<FnModel>>, n: int) -> Seq<FnModel>
    decreases n,
{
    if n <= 0 || n > members.len() {
        Seq::empty()
    } else if members[n - 1] is Some {
        methods_upto(members, n - 1).push(members[n - 1]->0)
    } else {
        methods_upto(members, n - 1)
    }
}

/// Whether `r` records the functions `m`, one for one.
pub open spec fn functions_match(r: Seq<FunctionInfo>, m: Seq<FnModel>) -> bool {
    &&& r.len() == m.len()
    &&& forall|k: int| 0 <= k < r.len() ==> function_matches(#[trigger] r[k], m[k])
}

/// The name recorded for the field at place `k`: its own in a body with
/// named fields, `field_` and its place otherwise.
pub open spec fn field_name(f: FieldModel, named: bool, k: int) -> Seq<char> {
    if named {
        match f.name {
            Some(n) => n,
            None => Seq::empty(),
        }
    } else {
        "field_"@ + decimal(k as nat)
    }
}

/// Whether `r` records the field `f` at place `k`.
pub open spec fn field_matches(r: FieldInfo, f: FieldModel, named: bool, k: int) -> bool {
    &&& r.name@ == field_name(f, named, k)
    &&& r.field_type@ == f.ty
    &&& r.visibility@ == visibility_text(f.vis)
}

/// Whether `r` records the fields `fs`, one for one.
pub open spec fn field_list_matches(r: Seq<FieldInfo>, fs: Seq<FieldModel>, named: bool) -> bool {
    &&& r.len() == fs.len()
    &&& forall|k: int| 0 <= k < r.len() ==> field_matches(#[trigger] r[k], fs[k], named, k)
}

/// Whether `r` records the fields of a struct body: those of a body with
/// named or unnamed fields, and none for a unit struct.
pub open spec fn fields_match(r: Seq<FieldInfo>, m: FieldsModel) -> bool {
    match m {
        FieldsModel::Named(fs) => field_list_matches(r, fs, true),
        FieldsModel::Unnamed(fs) => field_list_matches(r, fs, false),
        FieldsModel::Unit => r.len() == 0,
    }
}

/// Whether `r` records the module `m`.
pub open spec fn module_matches(r: ModuleInfo, m: ItemModel) -> bool {
    m matches ItemModel::Module { name, vis, inline_items } && r.name@ == name && r.visibility@
        == visibility_text(vis) && r.items_count == (match inline_items {
        Some(n) => n,
        None => 0,
    })
}

/// Whether `r` records the free function `m`.
pub open spec fn free_function_matches(r: FunctionInfo, m: ItemModel) -> bool {
    m matches ItemModel::Function(f) && function_matches(r, f)
}

/// Whether `r` records the struct `m`.
pub open spec fn struct_matches(r: StructInfo, m: ItemModel) -> bool {
    m matches ItemModel::Struct { name, vis, fields, attrs } && r.name@ == name && r.visibility@
        == visibility_text(vis) && fields_match(r.fields@, fields) && opt_text(r.documentation)
        == doc_of(attrs)
}

/// Whether `r` records the enum `m`.
pub open spec fn enum_matches(r: EnumInfo, m: ItemModel) -> bool {
    m matches ItemModel::Enum { name, vis, variants, attrs } && r.name@ == name && r.visibility@
        == visibility_text(vis) && texts(r.variants@) == variants && opt_text(r.documentation)
        == doc_of(attrs)
}

/// Whether `r` records the impl block `m`: its target, its trait, and the
/// functions among its members in order.
pub open spec fn impl_matches(r: ImplInfo, m: ItemModel) -> bool {
    m matches ItemModel::Impl { target, trait_name, members } && r.target@ == target && opt_text(
        r.trait_name,
    ) == trait_name && functions_match(r.methods@, methods_upto(members, members.len() as int))
}

/// The kinds of item that are recorded.
#[derive(Debug, Clone, Copy, PartialEq, Eq, Structural)]
pub enum ItemKind {
    Module,
    Function,
    Struct,
    Enum,
    Impl,
    Other,
}

/// The kind of an item.
pub open spec fn kind_of(m: ItemModel) -> ItemKind {
    match m {
        ItemModel::Module { .. } => ItemKind::Module,
        ItemModel::Function(_) => ItemKind::Function,
        ItemModel::Struct { .. } => ItemKind::Struct,
        ItemModel::Enum { .. } => ItemKind::Enum,
        ItemModel::Impl { .. } => ItemKind::Impl,
        ItemModel::Other => ItemKind::Other,
    }
}

/// The items of one kind among the first `n`, in source order.
pub open spec fn chosen_upto(items: Seq<ItemModel>, kind: ItemKind, n: int) -> Seq<ItemModel>
    decreases n,
{
    if n <= 0 || n > items.len() {
        Seq::empty()
    } else if kind_of(items[n - 1]) == kind {
        chosen_upto(items, kind, n - 1).push(items[n - 1])
    } else {
        chosen_upto(items, kind, n - 1)
    }
}

/// Whether the five lists record the items of their kinds among the first
/// `n` of `items`, one for one and in source order.
pub open spec fn lists_match(
    modules: Seq<ModuleInfo>,
    functions: Seq<FunctionInfo>,
    structs: Seq<StructInfo>,
    enums: Seq<EnumInfo>,
    implementations: Seq<ImplInfo>,
    items: Seq<ItemModel>,
    n: int,
) -> bool {
    let ms = chosen_upto(items, ItemKind::Module, n);
    let fs = chosen_upto(items, ItemKind::Function, n);
    let ss = chosen_upto(items, ItemKind::Struct, n);
    let es = chosen_upto(items, ItemKind::Enum, n);
    let is = chosen_upto(items, ItemKind::Impl, n);
    &&& modules.len() == ms.len()
    &&& forall|k: int| 0 <= k < modules.len() ==> module_matches(#[trigger] modules[k], ms[k])
    &&& functions.len() == fs.len()
    &&& forall|k: int|
        0 <= k < functions.len() ==> free_function_matches(#[trigger] functions[k], fs[k])
    &&& structs.len() == ss.len()
    &&& forall|k: int| 0 <= k < structs.len() ==> struct_matches(#[trigger] structs[k], ss[k])
    &&& enums.len() == es.len()
    &&& forall|k: int| 0 <= k < enums.len() ==> enum_matches(#[trigger] enums[k], es[k])
    &&& implementations.len() == is.len()
    &&& forall|k: int|
        0 <= k < implementations.len() ==> impl_matches(#[trigger] implementations[k], is[k])
}

/// Whether `a` is what the top-level `items` of the file at `path` give:
/// the path, the five lists of declarations, and the summary of these.
pub open spec fn analysis_matches(a: RustAnalysis, path: Seq<char>, items: Seq<ItemModel>) -> bool {
    &&& a.file_path@ == path
    &&& lists_match(
        a.modules@,
        a.functions@,
        a.structs@,
        a.enums@,
        a.implementations@,
        items,
        items.len() as int,
    )
    &&& a.ast_summary@ == summary_text(
        a.file_path@,
        a.modules@,
        a.functions@,
        a.structs@,
        a.enums@,
        a.implementations@,
    )
}

/// Why a source file gave no declarations.
#[derive(Debug, Clone)]
pub struct ParseError {
    /// What the parser reported.
    pub message: String,
}

/// Reads Rust source into declarations.
pub struct RustParser;

impl RustParser {
    /// Writes the summary of the declarations of `analysis`; the summary
    /// already stored in it is not read.
    pub fn generate_ast_summary(analysis: &RustAnalysis) -> (summary: String)
        ensures
            summary@ == summary_text(
                analysis.file_path@,
                analysis.modules@,
                analysis.functions@,
                analysis.structs@,
                analysis.enums@,
                analysis.implementations@,
            ),
    {
        let mut summary = String::new();
        summary.append("# AST Summary for ");
        summary.append(analysis.file_path.as_str());
        summary.append("\n\n");
        push_block(&mut summary, "## Modules\n", &module_lines(&analysis.modules), "\n");
        push_block(&mut summary, "## Structs\n", &struct_lines(&analysis.structs), "\n");
        push_block(&mut summary, "## Enums\n", &enum_lines(&analysis.enums), "\n");
        push_block(&mut summary, "## Functions\n", &function_lines(&analysis.functions), "\n");
        push_block(
            &mut summary,
            "## Implementations\n",
            &impl_lines(&analysis.implementations),
            "",
        );
        assert(summary@ =~= summary_text(
            analysis.file_path@,
            analysis.modules@,
            analysis.functions@,
            analysis.structs@,
            analysis.enums@,
            analysis.implementations@,
        ));
        summary
    }

    /// Reads the top-level declarations of the source text `content`, and
    /// records them in source order with the summary written from them.
    /// Fails exactly where the text does not parse.
    pub fn parse_rust_file(file_path: &str, content: &str) -> (r: Result<RustAnalysis, ParseError>)
        ensures
            match r {
                Ok(a) => syntax_of(content@) matches Some(items) && analysis_matches(
                    a,
                    file_path@,
                    items,
                ),
                Err(_) => syntax_of(content@) is None,
            },
    {
        let items = match parse_source(content) {
            Ok(items) => items,
            Err(e) => {
                return Err(ParseError { message: error_text(&e) });
            },
        };
        let ghost models = items_model(items@);
        let mut modules: Vec<ModuleInfo> = Vec::new();
        let mut functions: Vec<FunctionInfo> = Vec::new();
        let mut structs: Vec<StructInfo> = Vec::new();
        let mut enums: Vec<EnumInfo> = Vec::new();
        let mut implementations: Vec<ImplInfo> = Vec::new();
        let mut i: usize = 0;
        while i < items.len()
            invariant
                i <= items.len(),
                models == items_model(items@),
                lists_match(
                    modules@,
                    functions@,
                    structs@,
                    enums@,
                    implementations@,
                    models,
                    i as int,
                ),
            decreases items.len() - i,
        {
            let item = &items[i];
            assert(models[i as int] == crate::syntax::item_model(*item));
            if let Some((name, vis, count)) = as_module(item) {
                modules.push(Self::parse_module(name, vis, count));
            } else if let Some(parts) = as_function(item) {
                functions.push(Self::parse_function(parts));
            } else if let Some((name, vis, fields, attrs)) = as_struct(item) {
                structs.push(Self::parse_struct(name, vis, fields, attrs));
            } else if let Some((name, vis, variants, attrs)) = as_enum(item) {
                enums.push(Self::parse_enum(name, vis, variants, attrs));
            } else if let Some((target, trait_name, members)) = as_impl(item) {
                implementations.push(Self::parse_impl(target, trait_name, members));
            }
            i += 1;
        }
        let mut analysis = RustAnalysis {
            file_path: file_path.to_owned(),
            modules,
            functions,
            structs,
            enums,
            implementations,
            ast_summary: String::new(),
        };
        let summary = Self::generate_ast_summary(&analysis);
        analysis.ast_summary = summary;
        Ok(analysis)
    }

    /// Records a module: its name, its visibility, and the number of items
    /// of its inline body, or zero without one.
    fn parse_module(name: String, vis: &syn::Visibility, count: Option<usize>) -> (r: ModuleInfo)
        ensures
            r.name@ == name@,
            r.visibility@ == visibility_text(visibility_model(*vis)),
            r.items_count == (match count {
                Some(n) => n,
                None => 0,
            }),
    {
        let items_count = match count {
            Some(n) => n,
            None => 0,
        };
        ModuleInfo { name, visibility: Self::parse_visibility(vis), items_count }
    }

    /// Records a function from its signature, visibility and attributes.
    fn parse_function(parts: FnParts) -> (r: FunctionInfo)
        ensures
            function_matches(r, parts.model()),
    {
        let (name, is_async) = signature_head(parts.sig);
        FunctionInfo {
            name,
            visibility: Self::parse_visibility(parts.vis),
            is_async,
            parameters: Self::parse_parameters(parts.sig),
            return_type: parse_return_type(parts.sig),
            documentation: Self::extract_doc_comments(parts.attrs),
        }
    }

    /// Records a struct. Named fields keep their names; the fields of a
    /// tuple struct are named `field_0`, `field_1` and so on; a unit struct
    /// has none.
    fn parse_struct(
        name: String,
        vis: &syn::Visibility,
        fields: &syn::Fields,
        attrs: &Vec<syn::Attribute>,
    ) -> (r: StructInfo)
        ensures
            r.name@ == name@,
            r.visibility@ == visibility_text(visibility_model(*vis)),
            fields_match(r.fields@, crate::syntax::fields_model(*fields)),
            opt_text(r.documentation) == doc_of(attrs_model(attrs@)),
    {
        let (kind, list) = fields_of(fields);
        let named = match kind {
            FieldsKind::Named => true,
            _ => false,
        };
        let ghost models = field_models(list@);
        let mut out: Vec<FieldInfo> = Vec::new();
        let mut i: usize = 0;
        while i < list.len()
            invariant
                i <= list.len(),
                out.len() == i,
                models == field_models(list@),
                forall|k: int| 0 <= k < i ==> field_matches(#[trigger] out@[k], models[k], named, k),
            decreases list.len() - i,
        {
            let (ident, field_type, field_vis) = field_parts(list[i]);
            let field_name = if named {
                match ident {
                    Some(n) => n,
                    None => String::new(),
                }
            } else {
                let mut n = String::new();
                n.append("field_");
                n.append(render_number(i as u64).as_str());
                assert(n@ =~= "field_"@ + decimal(i as nat));
                n
            };
            out.push(
                FieldInfo {
                    name: field_name,
                    field_type,
                    visibility: Self::parse_visibility(field_vis),
                },
            );
            i += 1;
        }
        StructInfo {
            name,
            visibility: Self::parse_visibility(vis),
            fields: out,
            documentation: Self::extract_doc_comments(attrs),
        }
    }

    /// Records an enum with the names of its variants.
    fn parse_enum(
        name: String,
        vis: &syn::Visibility,
        variants: Vec<String>,
        attrs: &Vec<syn::Attribute>,
    ) -> (r: EnumInfo)
        ensures
            r.name@ == name@,
            r.visibility@ == visibility_text(visibility_model(*vis)),
            r.variants@ == variants@,
            opt_text(r.documentation) == doc_of(attrs_model(attrs@)),
    {
        EnumInfo {
            name,
            visibility: Self::parse_visibility(vis),
            variants,
            documentation: Self::extract_doc_comments(attrs),
        }
    }

    /// Records an impl block with the functions among its members, in
    /// source order.
    fn parse_impl(target: String, trait_name: Option<String>, members: &Vec<syn::ImplItem>) -> (r:
        ImplInfo)
        ensures
            r.target@ == target@,
            r.trait_name == trait_name,
            functions_match(
                r.methods@,
                methods_upto(members_model(members@), members@.len() as int),
            ),
    {
        let ghost models = members_model(members@);
        let mut methods: Vec<FunctionInfo> = Vec::new();
        let mut i: usize = 0;
        while i < members.len()
            invariant
                i <= members.len(),
                models == members_model(members@),
                functions_match(methods@, methods_upto(models, i as int)),
            decreases members.len() - i,
        {
            assert(models[i as int] == crate::syntax::member_model(members@[i as int]));
            match as_method(&members[i]) {
                Some(parts) => {
                    methods.push(Self::parse_function(parts));
                },
                None => {},
            }
            i += 1;
        }
        ImplInfo { target, trait_name, methods }
    }

    /// Writes a visibility: `pub`, `pub(<path>)` or `private`.
    fn parse_visibility(vis: &syn::Visibility) -> (r: String)
        ensures
            r@ == visibility_text(visibility_model(*vis)),
    {
        match visibility(vis) {
            Scope::Public => "pub".to_owned(),
            Scope::Restricted(path) => {
                let mut r = String::new();
                r.append("pub(");
                r.append(path.as_str());
                r.append(")");
                assert(r@ =~= "pub("@ + path@ + ")"@);
                r
            },
            Scope::Inherited => "private".to_owned(),
        }
    }

    /// Writes the parameters of a signature, in order.
    fn parse_parameters(sig: &syn::Signature) -> (r: Vec<String>)
        ensures
            texts(r@) == param_texts(crate::syntax::signature_model(*sig).params),
    {
        let inputs = signature_inputs(sig);
        let ghost params = crate::syntax::signature_model(*sig).params;
        let mut out: Vec<String> = Vec::new();
        let mut i: usize = 0;
        while i < inputs.len()
            invariant
                i <= inputs.len(),
                out.len() == i,
                inputs@.len() == params.len(),
                forall|k: int|
                    0 <= k < inputs@.len() ==> crate::syntax::arg_model(*#[trigger] inputs@[k])
                        == params[k],
                forall|k: int| 0 <= k < i ==> (#[trigger] out@[k])@ == param_text(params[k]),
            decreases inputs.len() - i,
        {
            let text = match argument(inputs[i]) {
                Param::Receiver { mutable } => if mutable {
                    "&mut self".to_owned()
                } else {
                    "&self".to_owned()
                },
                Param::Typed { pattern, ty } => {
                    let mut t = String::new();
                    t.append(pattern.as_str());
                    t.append(": ");
                    t.append(ty.as_str());
                    assert(t@ =~= pattern@ + ": "@ + ty@);
                    t
                },
            };
            out.push(text);
            i += 1;
        }
        assert(texts(out@) =~= param_texts(params));
        out
    }

    /// Gathers the documentation lines among the attributes.
    fn extract_doc_comments(attrs: &Vec<syn::Attribute>) -> (r: Option<String>)
        ensures
            opt_text(r) == doc_of(attrs_model(attrs@)),
    {
        let ghost models = attrs_model(attrs@);
        let mut lines: Vec<String> = Vec::new();
        let mut i: usize = 0;
        while i < attrs.len()
            invariant
                i <= attrs.len(),
                models == attrs_model(attrs@),
                texts(lines@) == doc_lines_upto(models, i as int),
            decreases attrs.len() - i,
        {
            assert(models[i as int] == crate::syntax::attribute_model(attrs@[i as int]));
            let (path, literal) = attribute_parts(&attrs[i]);
            let ghost before = texts(lines@);
            match literal {
                Some(value) => {
                    if same_text(&chars_of(path.as_str()), "doc") {
                        lines.push(value);
                        assert(texts(lines@) =~= before.push(value@));
                    }
                },
                None => {},
            }
            i += 1;
        }
        if lines.len() == 0 {
            None
        } else {
            let all = join(&lines, "\n");
            Some(string_of(&trim(&chars_of(all.as_str()))))
        }
    }
}

/// A recorded module as contracts speak of it.
pub struct ModuleView {
    pub name: Seq<char>,
    pub visibility: Seq<char>,
    pub items_count: usize,
}

/// A recorded function as contracts speak of it.
pub struct FunctionView {
    pub name: Seq<char>,
    pub visibility: Seq<char>,
    pub is_async: bool,
    pub parameters: Seq<Seq<char>>,
    pub return_type: Option<Seq<char>>,
    pub documentation: Option<Seq<char>>,
}

/// A recorded field as contracts speak of it.
pub struct FieldView {
    pub name: Seq<char>,
    pub field_type: Seq<char>,
    pub visibility: Seq<char>,
}

/// A recorded struct as contracts speak of it.
pub struct StructView {
    pub name: Seq<char>,
    pub visibility: Seq<char>,
    pub fields: Seq<FieldView>,
    pub documentation: Option<Seq<char>>,
}

/// A recorded enum as contracts speak of it.
pub struct EnumView {
    pub name: Seq<char>,
    pub visibility: Seq<char>,
    pub variants: Seq<Seq<char>>,
    pub documentation: Option<Seq<char>>,
}

/// A recorded impl block as contracts speak of it.
pub struct ImplView {
    pub target: Seq<char>,
    pub trait_name: Option<Seq<char>>,
    pub methods: Seq<FunctionView>,
}

/// The records of a file as contracts speak of them.
pub struct AnalysisView {
    pub file_path: Seq<char>,
    pub modules: Seq<ModuleView>,
    pub functions: Seq<FunctionView>,
    pub structs: Seq<StructView>,
    pub enums: Seq<EnumView>,
    pub implementations: Seq<ImplView>,
    pub ast_summary: Seq<char>,
}

impl View for ModuleInfo {
    type V = ModuleView;

    open spec fn view(&self) -> ModuleView {
        ModuleView { name: self.name@, visibility: self.visibility@, items_count: self.items_count }
    }
}

impl View for FunctionInfo {
    type V = FunctionView;

    open spec fn view(&self) -> FunctionView {
        FunctionView {
            name: self.name@,
            visibility: self.visibility@,
            is_async: self.is_async,
            parameters: texts(self.parameters@),
            return_type: opt_text(self.return_type),
            documentation: opt_text(self.documentation),
        }
    }
}

impl View for FieldInfo {
    type V = FieldView;

    open spec fn view(&self) -> FieldView {
        FieldView { name: self.name@, field_type: self.field_type@, visibility: self.visibility@ }
    }
}

/// The views of a list of fields.
pub open spec fn field_views(v: Seq<FieldInfo>) -> Seq<FieldView> {
    v.map_values(|f: FieldInfo| f@)
}

/// The views of a list of functions.
pub open spec fn function_views(v: Seq<FunctionInfo>) -> Seq<FunctionView> {
    v.map_values(|f: FunctionInfo| f@)
}

impl View for StructInfo {
    type V = StructView;

    open spec fn view(&self) -> StructView {
        StructView {
            name: self.name@,
            visibility: self.visibility@,
            fields: field_views(self.fields@),
            documentation: opt_text(self.documentation),
        }
    }
}

impl View for EnumInfo {
    type V = EnumView;

    open spec fn view(&self) -> EnumView {
        EnumView {
            name: self.name@,
            visibility: self.visibility@,
            variants: texts(self.variants@),
            documentation: opt_text(self.documentation),
        }
    }
}

impl View for ImplInfo {
    type V = ImplView;

    open spec fn view(&self) -> ImplView {
        ImplView {
            target: self.target@,
            trait_name: opt_text(self.trait_name),
            methods: function_views(self.methods@),
        }
    }
}

impl View for RustAnalysis {
    type V = AnalysisView;

    open spec fn view(&self) -> AnalysisView {
        AnalysisView {
            file_path: self.file_path@,
            modules: self.modules@.map_values(|m: ModuleInfo| m@),
            functions: function_views(self.functions@),
            structs: self.structs@.map_values(|s: StructInfo| s@),
            enums: self.enums@.map_values(|e: EnumInfo| e@),
            implementations: self.implementations@.map_values(|i: ImplInfo| i@),
            ast_summary: self.ast_summary@,
        }
    }
}

/// Records of the same functions have the same views.
proof fn lemma_same_functions(a: Seq<FunctionInfo>, b: Seq<FunctionInfo>, m: Seq<FnModel>)
    requires
        functions_match(a, m),
        functions_match(b, m),
    ensures
        function_views(a) == function_views(b),
{
    assert forall|k: int| 0 <= k < a.len() implies a[k]@ == b[k]@ by {
        assert(function_matches(a[k], m[k]));
        assert(function_matches(b[k], m[k]));
    }
    assert(function_views(a) =~= function_views(b));
}

/// Records of the same fields have the same views.
proof fn lemma_same_fields(a: Seq<FieldInfo>, b: Seq<FieldInfo>, m: FieldsModel)
    requires
        fields_match(a, m),
        fields_match(b, m),
    ensures
        field_views(a) == field_views(b),
{
    match m {
        FieldsModel::Named(fs) => {
            assert forall|k: int| 0 <= k < a.len() implies a[k]@ == b[k]@ by {
                assert(field_matches(a[k], fs[k], true, k));
                assert(field_matches(b[k], fs[k], true, k));
            }
        },
        FieldsModel::Unnamed(fs) => {
            assert forall|k: int| 0 <= k < a.len() implies a[k]@ == b[k]@ by {
                assert(field_matches(a[k], fs[k], false, k));
                assert(field_matches(b[k], fs[k], false, k));
            }
        },
        FieldsModel::Unit => {},
    }
    assert(field_views(a) =~= field_views(b));
}

/// Analyses with the same views have the same summary lines.
proof fn lemma_same_summaries(a: RustAnalysis, b: RustAnalysis)
    requires
        a@.modules == b@.modules,
        a@.functions == b@.functions,
        a@.structs == b@.structs,
        a@.enums == b@.enums,
        a@.implementations == b@.implementations,
    ensures
        module_summaries(a.modules@) == module_summaries(b.modules@),
        struct_summaries(a.structs@) == struct_summaries(b.structs@),
        enum_summaries(a.enums@) == enum_summaries(b.enums@),
        function_summaries(a.functions@) == function_summaries(b.functions@),
        impl_summaries(a.implementations@) == impl_summaries(b.implementations@),
{
    assert(a.modules@.len() == a@.modules.len() == b.modules@.len());
    assert forall|k: int| 0 <= k < a.modules@.len() implies module_summary(a.modules@[k])
        == module_summary(b.modules@[k]) by {
        assert(a@.modules[k] == a.modules@[k]@);
        assert(b@.modules[k] == b.modules@[k]@);
        assert(a.modules@[k]@ == b.modules@[k]@);
    }
    assert(module_summaries(a.modules@) =~= module_summaries(b.modules@));
    assert(a.structs@.len() == a@.structs.len() == b.structs@.len());
    assert forall|k: int| 0 <= k < a.structs@.len() implies struct_summary(a.structs@[k])
        == struct_summary(b.structs@[k]) by {
        assert(a@.structs[k] == a.structs@[k]@);
        assert(b@.structs[k] == b.structs@[k]@);
        assert(a.structs@[k]@ == b.structs@[k]@);
        assert(field_views(a.structs@[k].fields@).len() == a.structs@[k].fields@.len());
        assert(field_views(b.structs@[k].fields@).len() == b.structs@[k].fields@.len());
    }
    assert(struct_summaries(a.structs@) =~= struct_summaries(b.structs@));
    assert(a.enums@.len() == a@.enums.len() == b.enums@.len());
    assert forall|k: int| 0 <= k < a.enums@.len() implies enum_summary(a.enums@[k])
        == enum_summary(b.enums@[k]) by {
        assert(a@.enums[k] == a.enums@[k]@);
        assert(b@.enums[k] == b.enums@[k]@);
        assert(a.enums@[k]@ == b.enums@[k]@);
        assert(texts(a.enums@[k].variants@).len() == a.enums@[k].variants@.len());
        assert(texts(b.enums@[k].variants@).len() == b.enums@[k].variants@.len());
    }
    assert(enum_summaries(a.enums@) =~= enum_summaries(b.enums@));
    assert(a.functions@.len() == a@.functions.len() == b.functions@.len());
    assert forall|k: int| 0 <= k < a.functions@.len() implies function_summary(a.functions@[k])
        == function_summary(b.functions@[k]) by {
        assert(a@.functions[k] == a.functions@[k]@);
        assert(b@.functions[k] == b.functions@[k]@);
        assert(a.functions@[k]@ == b.functions@[k]@);
        assert(texts(a.functions@[k].parameters@).len() == a.functions@[k].parameters@.len());
        assert(texts(b.functions@[k].parameters@).len() == b.functions@[k].parameters@.len());
    }
    assert(function_summaries(a.functions@) =~= function_summaries(b.functions@));
    assert(a.implementations@.len() == a@.implementations.len() == b.implementations@.len());
    assert forall|k: int| 0 <= k < a.implementations@.len() implies impl_summary(
        a.implementations@[k],
    ) == impl_summary(b.implementations@[k]) by {
        assert(a@.implementations[k] == a.implementations@[k]@);
        assert(b@.implementations[k] == b.implementations@[k]@);
        assert(a.implementations@[k]@ == b.implementations@[k]@);
    }
    assert(impl_summaries(a.implementations@) =~= impl_summaries(b.implementations@));
}

/// Extraction is determined by the source: two analyses of the same items
/// under the same path hold the same records, in every field.
pub proof fn lemma_extraction_is_determined(
    a: RustAnalysis,
    b: RustAnalysis,
    path: Seq<char>,
    items: Seq<ItemModel>,
)
    requires
        analysis_matches(a, path, items),
        analysis_matches(b, path, items),
    ensures
        a@ == b@,
{
    let n = items.len() as int;
    let ms = chosen_upto(items, ItemKind::Module, n);
    let fs = chosen_upto(items, ItemKind::Function, n);
    let ss = chosen_upto(items, ItemKind::Struct, n);
    let es = chosen_upto(items, ItemKind::Enum, n);
    let is = chosen_upto(items, ItemKind::Impl, n);
    assert forall|k: int| 0 <= k < a.modules@.len() implies a.modules@[k]@ == b.modules@[k]@ by {
        assert(module_matches(a.modules@[k], ms[k]));
        assert(module_matches(b.modules@[k], ms[k]));
    }
    assert(a@.modules =~= b@.modules);
    assert forall|k: int| 0 <= k < a.functions@.len() implies a.functions@[k]@
        == b.functions@[k]@ by {
        assert(free_function_matches(a.functions@[k], fs[k]));
        assert(free_function_matches(b.functions@[k], fs[k]));
    }
    assert(a@.functions =~= b@.functions);
    assert forall|k: int| 0 <= k < a.structs@.len() implies a.structs@[k]@ == b.structs@[k]@ by {
        assert(struct_matches(a.structs@[k], ss[k]));
        assert(struct_matches(b.structs@[k], ss[k]));
        match ss[k] {
            ItemModel::Struct { name, vis, fields, attrs } => {
                lemma_same_fields(a.structs@[k].fields@, b.structs@[k].fields@, fields);
            },
            _ => {},
        }
    }
    assert(a@.structs =~= b@.structs);
    assert forall|k: int| 0 <= k < a.enums@.len() implies a.enums@[k]@ == b.enums@[k]@ by {
        assert(enum_matches(a.enums@[k], es[k]));
        assert(enum_matches(b.enums@[k], es[k]));
    }
    assert(a@.enums =~= b@.enums);
    assert forall|k: int| 0 <= k < a.implementations@.len() implies a.implementations@[k]@
        == b.implementations@[k]@ by {
        assert(impl_matches(a.implementations@[k], is[k]));
        assert(impl_matches(b.implementations@[k], is[k]));
        match is[k] {
            ItemModel::Impl { target, trait_name, members } => {
                lemma_same_functions(
                    a.implementations@[k].methods@,
                    b.implementations@[k].methods@,
                    methods_upto(members, members.len() as int),
                );
            },
            _ => {},
        }
    }
    assert(a@.implementations =~= b@.implementations);
    lemma_same_summaries(a, b);
}

/// Extraction from unchanged source yields the same records: whatever two
/// runs of `RustParser::parse_rust_file` on one path and one text return,
/// they agree.
pub proof fn lemma_extraction_repeats(
    a: RustAnalysis,
    b: RustAnalysis,
    path: Seq<char>,
    content: Seq<char>,
)
    requires
        syntax_of(content) matches Some(items) && analysis_matches(a, path, items),
        syntax_of(content) matches Some(items) && analysis_matches(b, path, items),
    ensures
        a@ == b@,
{
    lemma_extraction_is_determined(a, b, path, syntax_of(content)->0);
}

} // verus!
