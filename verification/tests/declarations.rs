use ai_context_gen::parser::{
    EnumInfo, FieldInfo, FunctionInfo, ImplInfo, ModuleInfo, RustAnalysis, RustParser, StructInfo,
};

fn parse(src: &str) -> RustAnalysis {
    match RustParser::parse_rust_file("example.rs", src) {
        Ok(a) => a,
        Err(e) => panic!("did not parse: {}", e.message),
    }
}

#[test]
fn struct_and_impl_are_found() {
    let a = parse(
        "pub struct MyStruct {\n    pub field: String,\n}\n\nimpl MyStruct {\n    pub fn new() -> Self {\n        Self { field: String::new() }\n    }\n}\n",
    );
    assert_eq!(a.file_path, "example.rs");
    assert_eq!(a.structs.len(), 1);
    assert_eq!(a.implementations.len(), 1);
    assert_eq!(a.structs[0].name, "MyStruct");
    assert_eq!(a.structs[0].visibility, "pub");
    assert_eq!(a.structs[0].fields.len(), 1);
    assert_eq!(a.structs[0].fields[0].name, "field");
    assert_eq!(a.structs[0].fields[0].field_type, "String");
    assert_eq!(a.structs[0].fields[0].visibility, "pub");
    assert_eq!(a.implementations[0].target, "MyStruct");
    assert_eq!(a.implementations[0].trait_name, None);
    assert_eq!(a.implementations[0].methods.len(), 1);
    assert_eq!(a.implementations[0].methods[0].name, "new");
    assert_eq!(a.implementations[0].methods[0].return_type, Some("Self".to_string()));
    assert!(a.functions.is_empty() && a.modules.is_empty() && a.enums.is_empty());
}

#[test]
fn single_public_function() {
    let a = parse("pub fn hello() {}");
    assert_eq!(a.functions.len(), 1);
    let f = &a.functions[0];
    assert_eq!(f.name, "hello");
    assert_eq!(f.visibility, "pub");
    assert!(!f.is_async);
    assert!(f.parameters.is_empty());
    assert_eq!(f.return_type, None);
    assert_eq!(f.documentation, None);
}

#[test]
fn parameters_receivers_and_async() {
    let a = parse(
        "async fn run(x: i32, name: String) -> bool { true }\nstruct S;\nimpl S {\n    fn a(&self) {}\n    pub(crate) fn b(&mut self, n: u8) -> u8 { n }\n    fn c(self) {}\n    const K: u8 = 1;\n}\n",
    );
    let f = &a.functions[0];
    assert!(f.is_async);
    assert_eq!(f.visibility, "private");
    assert_eq!(f.parameters, vec!["x: i32".to_string(), "name: String".to_string()]);
    assert_eq!(f.return_type, Some("bool".to_string()));
    let methods = &a.implementations[0].methods;
    assert_eq!(methods.len(), 3);
    assert_eq!(methods[0].parameters, vec!["&self".to_string()]);
    assert_eq!(methods[1].parameters, vec!["&mut self".to_string(), "n: u8".to_string()]);
    assert_eq!(methods[1].visibility, "pub(crate)");
    assert_eq!(methods[2].parameters, vec!["&self".to_string()]);
    assert_eq!(methods[2].name, "c");
}

#[test]
fn struct_forms() {
    let a = parse("struct Unit;\npub struct Pair(pub i32, String);\nstruct Named { a: u8, pub(super) b: bool }\n");
    assert_eq!(a.structs.len(), 3);
    assert!(a.structs[0].fields.is_empty());
    assert_eq!(a.structs[0].visibility, "private");
    let pair = &a.structs[1].fields;
    assert_eq!(pair.len(), 2);
    assert_eq!((pair[0].name.as_str(), pair[0].field_type.as_str(), pair[0].visibility.as_str()), ("field_0", "i32", "pub"));
    assert_eq!((pair[1].name.as_str(), pair[1].field_type.as_str(), pair[1].visibility.as_str()), ("field_1", "String", "private"));
    let named = &a.structs[2].fields;
    assert_eq!((named[0].name.as_str(), named[0].field_type.as_str()), ("a", "u8"));
    assert_eq!((named[1].name.as_str(), named[1].visibility.as_str()), ("b", "pub(super)"));
}

#[test]
fn tuple_struct_with_many_fields_numbers_them_in_decimal() {
    let a = parse("struct T(u8, u8, u8, u8, u8, u8, u8, u8, u8, u8, u8);");
    let names: Vec<&str> = a.structs[0].fields.iter().map(|f| f.name.as_str()).collect();
    assert_eq!(names[0], "field_0");
    assert_eq!(names[9], "field_9");
    assert_eq!(names[10], "field_10");
}

#[test]
fn enums_and_modules() {
    let a = parse(
        "pub enum Color { Red, Green(u8), Blue { x: i32 } }\nmod outer;\npub mod inner { fn a() {} struct B; }\nmod empty {}\n",
    );
    assert_eq!(a.enums.len(), 1);
    assert_eq!(a.enums[0].name, "Color");
    assert_eq!(a.enums[0].variants, vec!["Red".to_string(), "Green".to_string(), "Blue".to_string()]);
    assert_eq!(a.modules.len(), 3);
    assert_eq!((a.modules[0].name.as_str(), a.modules[0].visibility.as_str(), a.modules[0].items_count), ("outer", "private", 0));
    assert_eq!((a.modules[1].name.as_str(), a.modules[1].visibility.as_str(), a.modules[1].items_count), ("inner", "pub", 2));
    assert_eq!(a.modules[2].items_count, 0);
    // items inside a module body are not reported
    assert!(a.functions.is_empty() && a.structs.is_empty());
}

#[test]
fn trait_impl_names_the_trait() {
    let a = parse("struct S;\nimpl Default for S { fn default() -> Self { S } }\n");
    assert_eq!(a.implementations[0].trait_name, Some("Default".to_string()));
    assert_eq!(a.implementations[0].target, "S");
    assert_eq!(a.implementations[0].methods[0].name, "default");
}

#[test]
fn doc_comments_are_joined_and_trimmed() {
    let a = parse(
        "/// First line.\n/// Second line.\n#[inline]\npub fn documented() {}\n\n/// Only one.\npub struct D;\n\n#[derive(Debug)]\npub enum E { A }\n",
    );
    assert_eq!(a.functions[0].documentation, Some("First line.\n Second line.".to_string()));
    assert_eq!(a.structs[0].documentation, Some("Only one.".to_string()));
    assert_eq!(a.enums[0].documentation, None);
}

#[test]
fn source_order_is_kept_within_each_kind() {
    let a = parse("fn b() {}\nstruct Z;\nfn a() {}\nstruct Y;\nuse std::fmt;\nfn c() {}\n");
    let fns: Vec<&str> = a.functions.iter().map(|f| f.name.as_str()).collect();
    let structs: Vec<&str> = a.structs.iter().map(|s| s.name.as_str()).collect();
    assert_eq!(fns, vec!["b", "a", "c"]);
    assert_eq!(structs, vec!["Z", "Y"]);
}

#[test]
fn extraction_is_repeatable() {
    let src = "pub fn f(x: u8) -> u8 { x }\npub struct S { a: u8 }\nimpl S { fn m(&self) {} }\n";
    let a = parse(src);
    let b = parse(src);
    assert_eq!(a.ast_summary, b.ast_summary);
    assert_eq!(a.functions[0].parameters, b.functions[0].parameters);
    assert_eq!(a.structs[0].fields[0].name, b.structs[0].fields[0].name);
}

#[test]
fn syntax_error_is_reported() {
    let r = RustParser::parse_rust_file("bad.rs", "pub fn broken( {");
    match r {
        Ok(_) => panic!("parsed"),
        Err(e) => assert!(!e.message.is_empty()),
    }
}

#[test]
fn empty_source_has_no_declarations() {
    let a = parse("");
    assert!(a.modules.is_empty() && a.functions.is_empty() && a.structs.is_empty());
    assert!(a.enums.is_empty() && a.implementations.is_empty());
    assert_eq!(a.ast_summary, "# AST Summary for example.rs\n\n");
}

#[test]
fn summary_of_a_parsed_file() {
    let a = parse(
        "mod m { fn x() {} }\npub struct P(u8);\nenum E { A, B }\npub async fn go(n: u8) {}\nfn stay() {}\nimpl Clone for P { fn clone(&self) -> Self { P(self.0) } }\n",
    );
    assert_eq!(
        a.ast_summary,
        "# AST Summary for example.rs\n\n## Modules\n- `m` (private) - 1 items\n\n## Structs\n- `P` (pub) - 1 fields\n\n## Enums\n- `E` (private) - 2 variants\n\n## Functions\n- `async go(...)` (pub)\n- `stay()` (private)\n\n## Implementations\n- `impl Clone for P`\n"
    );
}

#[test]
fn summary_is_written_from_the_records() {
    let analysis = RustAnalysis {
        file_path: "src/lib.rs".to_string(),
        modules: vec![ModuleInfo { name: "a".to_string(), visibility: "pub".to_string(), items_count: 12 }],
        functions: vec![FunctionInfo {
            name: "f".to_string(),
            visibility: "pub(crate)".to_string(),
            is_async: false,
            parameters: vec!["x: u8".to_string()],
            return_type: None,
            documentation: None,
        }],
        structs: vec![StructInfo {
            name: "S".to_string(),
            visibility: "private".to_string(),
            fields: vec![FieldInfo { name: "a".to_string(), field_type: "u8".to_string(), visibility: "pub".to_string() }],
            documentation: None,
        }],
        enums: vec![EnumInfo { name: "E".to_string(), visibility: "pub".to_string(), variants: Vec::new(), documentation: None }],
        implementations: vec![ImplInfo { target: "S".to_string(), trait_name: None, methods: Vec::new() }],
        ast_summary: "stale".to_string(),
    };
    assert_eq!(
        RustParser::generate_ast_summary(&analysis),
        "# AST Summary for src/lib.rs\n\n## Modules\n- `a` (pub) - 12 items\n\n## Structs\n- `S` (private) - 1 fields\n\n## Enums\n- `E` (pub) - 0 variants\n\n## Functions\n- `f(...)` (pub(crate))\n\n## Implementations\n- `impl S`\n"
    );
}
