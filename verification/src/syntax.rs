//! The syntax tree of `syn`, as far as declarations are read from it: the
//! outside types, the plain values that stand for them in contracts, and
//! the calls that hand their parts out.

use vstd::prelude::*;
use quote::ToTokens;

verus! {

/// `syn::Item`: a top-level item of a source file,
/// carried as an opaque value.
#[verifier::external_type_specification]
#[verifier::external_body]
pub struct ExItem(syn::Item);

/// `syn::ImplItem`: a member of an impl block,
/// carried as an opaque value.
#[verifier::external_type_specification]
#[verifier::external_body]
pub struct ExImplItem(syn::ImplItem);

/// `syn::Signature`: the signature of a function,
/// carried as an opaque value.
#[verifier::external_type_specification]
#[verifier::external_body]
pub struct ExSignature(syn::Signature);

/// `syn::Visibility`: the visibility written before an item or a field,
/// carried as an opaque value.
#[verifier::external_type_specification]
#[verifier::external_body]
pub struct ExVisibility(syn::Visibility);

/// `syn::Attribute`: an attribute, doc comments among them,
/// carried as an opaque value.
#[verifier::external_type_specification]
#[verifier::external_body]
pub struct ExAttribute(syn::Attribute);

/// `syn::Fields`: the body of a struct,
/// carried as an opaque value.
#[verifier::external_type_specification]
#[verifier::external_body]
pub struct ExFields(syn::Fields);

/// `syn::Field`: one field of a struct,
/// carried as an opaque value.
#[verifier::external_type_specification]
#[verifier::external_body]
pub struct ExField(syn::Field);

/// `syn::FnArg`: one input of a function,
/// carried as an opaque value.
#[verifier::external_type_specification]
#[verifier::external_body]
pub struct ExFnArg(syn::FnArg);

/// `syn::Error`: the error of a failed parse,
/// carried as an opaque value.
#[verifier::external_type_specification]
#[verifier::external_body]
pub struct ExError(syn::Error);

/// A visibility: `pub`, `pub(<path>)` with the path as text, or none written.
pub enum VisModel {
    Public,
    Restricted(Seq<char>),
    Inherited,
}

/// A parameter: a `self` receiver, or a pattern with its type, both as text.
pub enum ParamModel {
    Receiver { mutable: bool },
    Typed { pattern: Seq<char>, ty: Seq<char> },
}

/// An attribute: its path as text, and its value where it has the form
/// `#[path = "value"]`.
pub struct AttrModel {
    pub path: Seq<char>,
    pub literal: Option<Seq<char>>,
}

/// A function signature; `output` is the written return type as text.
pub struct SigModel {
    pub name: Seq<char>,
    pub is_async: bool,
    pub params: Seq<ParamModel>,
    pub output: Option<Seq<char>>,
}

/// A function with its visibility and attributes.
pub struct FnModel {
    pub sig: SigModel,
    pub vis: VisModel,
    pub attrs: Seq<AttrModel>,
}

/// A field; `name` is absent in a tuple struct.
pub struct FieldModel {
    pub name: Option<Seq<char>>,
    pub ty: Seq<char>,
    pub vis: VisModel,
}

/// The fields of a struct by the form of its body.
pub enum FieldsModel {
    Named(Seq<FieldModel>),
    Unnamed(Seq<FieldModel>),
    Unit,
}

/// A top-level item. A module's `inline_items` is the number of items in
/// its body where it has one; an impl block's `members` holds a function
/// for each member that is one, and `None` for the others.
pub enum ItemModel {
    Module { name: Seq<char>, vis: VisModel, inline_items: Option<nat> },
    Function(FnModel),
    Struct { name: Seq<char>, vis: VisModel, fields: FieldsModel, attrs: Seq<AttrModel> },
    Enum { name: Seq<char>, vis: VisModel, variants: Seq<Seq<char>>, attrs: Seq<AttrModel> },
    Impl { target: Seq<char>, trait_name: Option<Seq<char>>, members: Seq<Option<FnModel>> },
    Other,
}

/// The items that `syn::parse_file` reads from a source text, or `None`
/// where it reports an error.
pub uninterp spec fn syntax_of(src: Seq<char>) -> Option<Seq<ItemModel>>;

/// What a `syn::Item` holds.
pub uninterp spec fn item_model(item: syn::Item) -> ItemModel;

/// What a `syn::ImplItem` holds, where it is a function.
pub uninterp spec fn member_model(member: syn::ImplItem) -> Option<FnModel>;

/// What a `syn::Signature` holds.
pub uninterp spec fn signature_model(sig: syn::Signature) -> SigModel;

/// What a `syn::Visibility` holds.
pub uninterp spec fn visibility_model(vis: syn::Visibility) -> VisModel;

/// What a `syn::Attribute` holds.
pub uninterp spec fn attribute_model(attr: syn::Attribute) -> AttrModel;

/// What a `syn::Fields` holds.
pub uninterp spec fn fields_model(fields: syn::Fields) -> FieldsModel;

/// What a `syn::Field` holds.
pub uninterp spec fn field_model(field: syn::Field) -> FieldModel;

/// What a `syn::FnArg` holds.
pub uninterp spec fn arg_model(arg: syn::FnArg) -> ParamModel;

/// What a list of items holds.
pub open spec fn items_model(items: Seq<syn::Item>) -> Seq<ItemModel> {
    items.map_values(|i: syn::Item| item_model(i))
}

/// What a list of attributes holds.
pub open spec fn attrs_model(attrs: Seq<syn::Attribute>) -> Seq<AttrModel> {
    attrs.map_values(|a: syn::Attribute| attribute_model(a))
}

/// What a list of impl members holds.
pub open spec fn members_model(members: Seq<syn::ImplItem>) -> Seq<Option<FnModel>> {
    members.map_values(|m: syn::ImplItem| member_model(m))
}

/// The signature, visibility and attributes of a function.
pub struct FnParts<'a> {
    pub sig: &'a syn::Signature,
    pub vis: &'a syn::Visibility,
    pub attrs: &'a Vec<syn::Attribute>,
}

impl<'a> FnParts<'a> {
    /// What the parts hold together.
    pub open spec fn model(self) -> FnModel {
        FnModel {
            sig: signature_model(*self.sig),
            vis: visibility_model(*self.vis),
            attrs: attrs_model(self.attrs@),
        }
    }
}

/// A visibility with its path as a string.
pub enum Scope {
    Public,
    Restricted(String),
    Inherited,
}

impl View for Scope {
    type V = VisModel;

    open spec fn view(&self) -> VisModel {
        match self {
            Scope::Public => VisModel::Public,
            Scope::Restricted(p) => VisModel::Restricted(p@),
            Scope::Inherited => VisModel::Inherited,
        }
    }
}

/// A parameter with its texts as strings.
pub enum Param {
    Receiver { mutable: bool },
    Typed { pattern: String, ty: String },
}

impl View for Param {
    type V = ParamModel;

    open spec fn view(&self) -> ParamModel {
        match self {
            Param::Receiver { mutable } => ParamModel::Receiver { mutable: *mutable },
            Param::Typed { pattern, ty } => ParamModel::Typed { pattern: pattern@, ty: ty@ },
        }
    }
}

/// The form of a struct's body.
#[derive(Clone, Copy, PartialEq, Eq, Structural)]
pub enum FieldsKind {
    Named,
    Unnamed,
    Unit,
}

/// Calls `syn::parse_file` and hands out the items of the file it read, or
/// the error. The items are those of the text's top level, in source order.
#[verifier::external_body]
pub(crate) fn parse_source(content: &str) -> (r: Result<Vec<syn::Item>, syn::Error>)
    ensures
        match r {
            Ok(items) => syntax_of(content@) == Some(items_model(items@)),
            Err(_) => syntax_of(content@) is None,
        },
{
    syn::parse_file(content).map(|file| file.items)
}

/// The message of a `syn::Error`, as its `Display` writes it.
#[verifier::external_body]
pub(crate) fn error_text(e: &syn::Error) -> String {
    e.to_string()
}

/// Tells `Item::Mod` apart: its name (`Ident::to_string`), visibility, and
/// the number of items of its inline body.
#[verifier::external_body]
pub(crate) fn as_module<'a>(item: &'a syn::Item) -> (r: Option<
    (String, &'a syn::Visibility, Option<usize>),
>)
    ensures
        match r {
            Some((name, vis, count)) => item_model(*item) == (ItemModel::Module {
                name: name@,
                vis: visibility_model(*vis),
                inline_items: match count {
                    Some(n) => Some(n as nat),
                    None => None,
                },
            }),
            None => !(item_model(*item) is Module),
        },
{
    match item {
        syn::Item::Mod(m) => Some(
            (m.ident.to_string(), &m.vis, m.content.as_ref().map(|(_, items)| items.len())),
        ),
        _ => None,
    }
}

/// Tells `Item::Fn` apart: its signature, visibility and attributes.
#[verifier::external_body]
pub(crate) fn as_function<'a>(item: &'a syn::Item) -> (r: Option<FnParts<'a>>)
    ensures
        match r {
            Some(parts) => item_model(*item) == ItemModel::Function(parts.model()),
            None => !(item_model(*item) is Function),
        },
{
    match item {
        syn::Item::Fn(f) => Some(FnParts { sig: &f.sig, vis: &f.vis, attrs: &f.attrs }),
        _ => None,
    }
}

/// Tells `Item::Struct` apart: its name, visibility, fields and attributes.
#[verifier::external_body]
pub(crate) fn as_struct<'a>(item: &'a syn::Item) -> (r: Option<
    (String, &'a syn::Visibility, &'a syn::Fields, &'a Vec<syn::Attribute>),
>)
    ensures
        match r {
            Some((name, vis, fields, attrs)) => item_model(*item) == (ItemModel::Struct {
                name: name@,
                vis: visibility_model(*vis),
                fields: fields_model(*fields),
                attrs: attrs_model(attrs@),
            }),
            None => !(item_model(*item) is Struct),
        },
{
    match item {
        syn::Item::Struct(s) => Some((s.ident.to_string(), &s.vis, &s.fields, &s.attrs)),
        _ => None,
    }
}

/// Tells `Item::Enum` apart: its name, visibility, the names of its
/// variants in order, and its attributes.
#[verifier::external_body]
pub(crate) fn as_enum<'a>(item: &'a syn::Item) -> (r: Option<
    (String, &'a syn::Visibility, Vec<String>, &'a Vec<syn::Attribute>),
>)
    ensures
        match r {
            Some((name, vis, variants, attrs)) => item_model(*item) == (ItemModel::Enum {
                name: name@,
                vis: visibility_model(*vis),
                variants: variants@.map_values(|v: String| v@),
                attrs: attrs_model(attrs@),
            }),
            None => !(item_model(*item) is Enum),
        },
{
    match item {
        syn::Item::Enum(e) => Some(
            (
                e.ident.to_string(),
                &e.vis,
                e.variants.iter().map(|v| v.ident.to_string()).collect(),
                &e.attrs,
            ),
        ),
        _ => None,
    }
}

/// Tells `Item::Impl` apart: the type it is for and the trait it
/// implements, both as their tokens print, and its members.
#[verifier::external_body]
pub(crate) fn as_impl<'a>(item: &'a syn::Item) -> (r: Option<
    (String, Option<String>, &'a Vec<syn::ImplItem>),
>)
    ensures
        match r {
            Some((target, trait_name, members)) => item_model(*item) == (ItemModel::Impl {
                target: target@,
                trait_name: match trait_name {
                    Some(t) => Some(t@),
                    None => None,
                },
                members: members_model(members@),
            }),
            None => !(item_model(*item) is Impl),
        },
{
    match item {
        syn::Item::Impl(i) => Some(
            (
                i.self_ty.to_token_stream().to_string(),
                i.trait_.as_ref().map(|(_, path, _)| path.to_token_stream().to_string()),
                &i.items,
            ),
        ),
        _ => None,
    }
}

/// Tells `ImplItem::Fn` apart: its signature, visibility and attributes.
#[verifier::external_body]
pub(crate) fn as_method<'a>(member: &'a syn::ImplItem) -> (r: Option<FnParts<'a>>)
    ensures
        match r {
            Some(parts) => member_model(*member) == Some(parts.model()),
            None => member_model(*member) is None,
        },
{
    match member {
        syn::ImplItem::Fn(f) => Some(FnParts { sig: &f.sig, vis: &f.vis, attrs: &f.attrs }),
        _ => None,
    }
}

/// The name of a signature (`Ident::to_string`) and whether it has `async`.
#[verifier::external_body]
pub(crate) fn signature_head(sig: &syn::Signature) -> (r: (String, bool))
    ensures
        r.0@ == signature_model(*sig).name,
        r.1 == signature_model(*sig).is_async,
{
    (sig.ident.to_string(), sig.asyncness.is_some())
}

/// Tells the forms of a `ReturnType` apart: a written return type as its
/// tokens print, and nothing for `ReturnType::Default`.
#[verifier::external_body]
pub(crate) fn parse_return_type(sig: &syn::Signature) -> (r: Option<String>)
    ensures
        match r {
            Some(t) => signature_model(*sig).output == Some(t@),
            None => signature_model(*sig).output is None,
        },
{
    match &sig.output {
        syn::ReturnType::Default => None,
        syn::ReturnType::Type(_, ty) => Some(ty.to_token_stream().to_string()),
    }
}

/// The inputs of a signature, in order.
#[verifier::external_body]
pub(crate) fn signature_inputs<'a>(sig: &'a syn::Signature) -> (r: Vec<&'a syn::FnArg>)
    ensures
        r@.len() == signature_model(*sig).params.len(),
        forall|k: int| 0 <= k < r@.len() ==> arg_model(*#[trigger] r@[k]) == signature_model(*sig).params[k],
{
    sig.inputs.iter().collect()
}

/// Tells the forms of a `FnArg` apart: whether a receiver has `mut`; the
/// pattern and the type of another input, as their tokens print.
#[verifier::external_body]
pub(crate) fn argument(arg: &syn::FnArg) -> (r: Param)
    ensures
        r@ == arg_model(*arg),
{
    match arg {
        syn::FnArg::Receiver(receiver) => Param::Receiver {
            mutable: receiver.mutability.is_some(),
        },
        syn::FnArg::Typed(typed) => Param::Typed {
            pattern: typed.pat.to_token_stream().to_string(),
            ty: typed.ty.to_token_stream().to_string(),
        },
    }
}

/// Tells the forms of a `Visibility` apart; a restricted one gives its
/// path as its tokens print.
#[verifier::external_body]
pub(crate) fn visibility(vis: &syn::Visibility) -> (r: Scope)
    ensures
        r@ == visibility_model(*vis),
{
    match vis {
        syn::Visibility::Public(_) => Scope::Public,
        syn::Visibility::Restricted(restricted) => Scope::Restricted(
            restricted.path.to_token_stream().to_string(),
        ),
        syn::Visibility::Inherited => Scope::Inherited,
    }
}

/// The path of an attribute as its tokens print, and the value of one of
/// the form `#[path = "value"]`.
#[verifier::external_body]
pub(crate) fn attribute_parts(attr: &syn::Attribute) -> (r: (String, Option<String>))
    ensures
        r.0@ == attribute_model(*attr).path,
        match r.1 {
            Some(t) => attribute_model(*attr).literal == Some(t@),
            None => attribute_model(*attr).literal is None,
        },
{
    let literal = match &attr.meta {
        syn::Meta::NameValue(pair) => match &pair.value {
            syn::Expr::Lit(syn::ExprLit { lit: syn::Lit::Str(text), .. }) => Some(text.value()),
            _ => None,
        },
        _ => None,
    };
    (attr.path().to_token_stream().to_string(), literal)
}

/// The form of a struct's body and its fields in order.
#[verifier::external_body]
pub(crate) fn fields_of<'a>(fields: &'a syn::Fields) -> (r: (FieldsKind, Vec<&'a syn::Field>))
    ensures
        match r.0 {
            FieldsKind::Named => fields_model(*fields) == FieldsModel::Named(field_models(r.1@)),
            FieldsKind::Unnamed => fields_model(*fields) == FieldsModel::Unnamed(
                field_models(r.1@),
            ),
            FieldsKind::Unit => fields_model(*fields) == FieldsModel::Unit && r.1@.len() == 0,
        },
{
    let kind = match fields {
        syn::Fields::Named(_) => FieldsKind::Named,
        syn::Fields::Unnamed(_) => FieldsKind::Unnamed,
        syn::Fields::Unit => FieldsKind::Unit,
    };
    (kind, fields.iter().collect())
}

/// What a list of fields holds.
pub open spec fn field_models(fields: Seq<&syn::Field>) -> Seq<FieldModel> {
    fields.map_values(|f: &syn::Field| field_model(*f))
}

/// The name of a field, its type as its tokens print, and its visibility.
#[verifier::external_body]
pub(crate) fn field_parts<'a>(field: &'a syn::Field) -> (r: (
    Option<String>,
    String,
    &'a syn::Visibility,
))
    ensures
        match r.0 {
            Some(n) => field_model(*field).name == Some(n@),
            None => field_model(*field).name is None,
        },
        r.1@ == field_model(*field).ty,
        visibility_model(*r.2) == field_model(*field).vis,
{
    (field.ident.as_ref().map(|i| i.to_string()), field.ty.to_token_stream().to_string(), &field.vis)
}

} // verus!
