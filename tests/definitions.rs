use lune::items::DefinitionsItemKind;
use lune::normalize::{prepare_source, DefinitionsError};
use lune::parser::DefinitionsParser;
use lune::syntax::{find_token_moonwave_comment, FieldKey, Param, Statement, TableField, Token, Trivia, TypeExpr};

fn token(text: &str, leading_trivia: Vec<Trivia>) -> Token {
    Token { text: text.to_string(), leading_trivia }
}

fn doc(body: &str) -> Trivia {
    Trivia::BlockComment { blocks: 1, comment: body.to_string() }
}

fn plain(text: &str) -> Trivia {
    Trivia::Other(text.to_string())
}

fn leaf(text: &str) -> TypeExpr {
    TypeExpr::Other { text: text.to_string() }
}

fn declaration(name: &str, comment: Option<&str>, ty: TypeExpr) -> Statement {
    let trivia = match comment {
        Some(c) => vec![doc(c), plain("\n")],
        None => vec![],
    };
    Statement::TypeDeclaration { keyword: token("type", trivia), name: name.to_string(), ty }
}

fn names(items: &[lune::items::DefinitionsItem]) -> Vec<String> {
    items.iter().map(|i| i.name.clone()).collect()
}

#[test]
fn declare_header_is_rewritten_and_exported() {
    let prepared = prepare_source("declare Foo: (x: number) -> string").unwrap();
    assert_eq!(prepared.text, "export type Foo =(x: number) -> string");
    assert_eq!(prepared.declares, vec!["Foo".to_string()]);
    let ty = TypeExpr::Function {
        text: "(x: number) -> string".to_string(),
        params: vec![Param { name: Some("x".to_string()), ty: "number".to_string() }],
    };
    let stmt = Statement::TypeDeclaration {
        keyword: token("export", vec![]),
        name: "Foo".to_string(),
        ty,
    };
    let mut parser = DefinitionsParser::new();
    parser.parse(prepared, vec![stmt]);
    let items = parser.drain();
    assert_eq!(items.len(), 1);
    assert_eq!(items[0].name, "Foo");
    assert!(items[0].exported);
    assert_eq!(items[0].kind, DefinitionsItemKind::Function);
    assert_eq!(items[0].type_signature, "(x: number) -> string");
    let args = items[0].args.as_ref().unwrap();
    assert_eq!(args.len(), 1);
    assert_eq!(args[0].name.as_deref(), Some("x"));
    assert_eq!(args[0].ty, "number");
}

#[test]
fn declare_header_needs_colon_and_space() {
    let prepared = prepare_source("declare Foo:bar\ndeclare : x").unwrap();
    assert_eq!(prepared.text, "declare Foo:bar\ndeclare : x");
    assert!(prepared.declares.is_empty());
}

#[test]
fn several_declare_headers_keep_their_order() {
    let prepared = prepare_source("declare b: number\ndeclare a_1: string\n").unwrap();
    assert_eq!(prepared.text, "export type b =number\nexport type a_1 =string\n");
    assert_eq!(prepared.declares, vec!["b".to_string(), "a_1".to_string()]);
}

#[test]
fn class_block_is_removed() {
    let source = "type A = number\ndeclare class Bar\n\tfoo: number\nend\ntype B = string";
    let prepared = prepare_source(source).unwrap();
    assert_eq!(prepared.text, "type A = number\ntype B = string");
    assert!(!prepared.text.contains("Bar"));
    let without = prepare_source("type A = number\ntype B = string").unwrap();
    assert_eq!(prepared.text, without.text);
    assert_eq!(prepared.declares, without.declares);
}

#[test]
fn two_class_blocks_are_removed() {
    let source = "type A = number\ndeclare class Bar\nend\ndeclare class Baz\n\tx: number\nend\n";
    let prepared = prepare_source(source).unwrap();
    assert_eq!(prepared.text, "type A = number\n");
}

#[test]
fn unterminated_class_block_is_an_error() {
    let r = prepare_source("type A = number\ndeclare class Bar\n\tfoo: number\n");
    assert!(matches!(r, Err(DefinitionsError::UnterminatedClass)));
}

#[test]
fn crlf_line_endings_are_normalized() {
    let prepared = prepare_source("type A = number\r\ndeclare class X\r\nend\r\ntype B = string\r").unwrap();
    assert_eq!(prepared.text, "type A = number\ntype B = string\r");
}

#[test]
fn plain_source_items_are_sorted_and_not_exported() {
    let prepared = prepare_source("type b = number\ntype a = string\ntype C = boolean").unwrap();
    assert!(prepared.declares.is_empty());
    let stmts = vec![
        declaration("b", None, leaf("number")),
        Statement::Other,
        declaration("a", None, leaf("string")),
        declaration("C", None, leaf("boolean")),
    ];
    let mut parser = DefinitionsParser::new();
    parser.parse(prepared, stmts);
    let items = parser.drain();
    assert_eq!(names(&items), vec!["C".to_string(), "a".to_string(), "b".to_string()]);
    assert!(items.iter().all(|i| !i.exported));
    assert!(items.iter().all(|i| i.kind == DefinitionsItemKind::Property));
    assert!(items.iter().all(|i| i.args.is_none() && i.children.is_empty()));
}

#[test]
fn redeclaration_keeps_the_second() {
    let prepared = prepare_source("").unwrap();
    let stmts = vec![
        declaration("Foo", Some("first"), leaf("number")),
        declaration("Foo", Some("second"), leaf("string")),
    ];
    let mut parser = DefinitionsParser::new();
    parser.parse(prepared, stmts);
    let items = parser.drain();
    assert_eq!(items.len(), 1);
    assert_eq!(items[0].type_signature, "string");
    assert_eq!(items[0].documentation.as_deref(), Some("second"));
}

#[test]
fn nested_table_field_yields_one_child() {
    let inner = TypeExpr::Table {
        text: "{ x: number }".to_string(),
        fields: vec![TableField {
            key: FieldKey::Name(token("x", vec![plain(" ")])),
            value: leaf("number"),
        }],
    };
    let outer = TypeExpr::Table {
        text: "{ inner: { x: number }, [string]: boolean }".to_string(),
        fields: vec![
            TableField {
                key: FieldKey::Name(token("inner", vec![plain("\n"), doc("The inner table"), plain("\n\t")])),
                value: inner,
            },
            TableField { key: FieldKey::Other("[string]".to_string()), value: leaf("boolean") },
        ],
    };
    let mut parser = DefinitionsParser::new();
    parser.parse(prepare_source("").unwrap(), vec![declaration("Outer", Some("Outer docs"), outer)]);
    let items = parser.drain();
    assert_eq!(items.len(), 1);
    let top = &items[0];
    assert_eq!(top.kind, DefinitionsItemKind::Table);
    assert_eq!(top.documentation.as_deref(), Some("Outer docs"));
    assert_eq!(top.children.len(), 1);
    let child = &top.children[0];
    assert_eq!(child.name, "inner");
    assert_eq!(child.kind, DefinitionsItemKind::Table);
    assert_eq!(child.type_signature, "{ x: number }");
    assert_eq!(child.documentation.as_deref(), Some("The inner table"));
    assert_eq!(child.children.len(), 1);
    assert_eq!(child.children[0].name, "x");
    assert_eq!(child.children[0].kind, DefinitionsItemKind::Property);
    assert!(child.children[0].documentation.is_none());
}

#[test]
fn drain_twice_returns_nothing_the_second_time() {
    let mut parser = DefinitionsParser::new();
    parser.parse(prepare_source("").unwrap(), vec![declaration("A", None, leaf("number"))]);
    assert_eq!(parser.drain().len(), 1);
    assert!(parser.drain().is_empty());
}

#[test]
fn parse_replaces_earlier_state() {
    let mut parser = DefinitionsParser::new();
    parser.parse(prepare_source("declare A: number").unwrap(), vec![declaration("A", None, leaf("number"))]);
    parser.parse(prepare_source("").unwrap(), vec![declaration("B", None, leaf("string"))]);
    let items = parser.drain();
    assert_eq!(names(&items), vec!["B".to_string()]);
    assert!(!items[0].exported);
}

#[test]
fn nearer_of_two_block_comments_is_attached() {
    let tok = token("type", vec![doc("far"), plain("\n\n"), doc("near"), plain("\n")]);
    assert_eq!(find_token_moonwave_comment(&tok).as_deref(), Some("near"));
}

#[test]
fn line_and_multi_block_comments_are_not_documentation() {
    let tok = token(
        "type",
        vec![
            plain("-- a line comment\n"),
            Trivia::BlockComment { blocks: 2, comment: "two pairs".to_string() },
            plain("\n"),
        ],
    );
    assert!(find_token_moonwave_comment(&tok).is_none());
    let tok = token(
        "type",
        vec![doc("single"), Trivia::BlockComment { blocks: 2, comment: "x".to_string() }],
    );
    assert_eq!(find_token_moonwave_comment(&tok).as_deref(), Some("single"));
}

#[test]
fn alias_resolves_arguments_through_registry() {
    let callback = TypeExpr::Function {
        text: "(a: string, b: number) -> ()".to_string(),
        params: vec![
            Param { name: Some("a".to_string()), ty: "string".to_string() },
            Param { name: None, ty: "number".to_string() },
        ],
    };
    let stmts = vec![
        declaration("Callback", None, callback),
        declaration("Handler", None, leaf("Callback")),
        declaration("Other", None, leaf("Missing")),
    ];
    let mut parser = DefinitionsParser::new();
    parser.parse(prepare_source("").unwrap(), stmts);
    let items = parser.drain();
    assert_eq!(names(&items), vec!["Callback".to_string(), "Handler".to_string(), "Other".to_string()]);
    let handler = &items[1];
    assert_eq!(handler.kind, DefinitionsItemKind::Property);
    let args = handler.args.as_ref().unwrap();
    assert_eq!(args.len(), 2);
    assert_eq!(args[1].name, None);
    assert_eq!(args[0].name.as_deref(), Some("a"));
    assert_eq!(args[1].ty, "number");
    assert!(items[2].args.is_none());
}

#[test]
fn class_block_at_start_is_removed() {
    let source = "declare class Bar\n\tfoo: number\nend\ntype B = string";
    let prepared = prepare_source(source).unwrap();
    assert_eq!(prepared.text, "\ntype B = string");
    assert!(!prepared.text.contains("Bar"));
}

#[test]
fn class_words_inside_a_line_are_kept() {
    let prepared = prepare_source("type A = number -- declare class X\nend\n").unwrap();
    assert_eq!(prepared.text, "type A = number -- declare class X\nend\n");
}

#[test]
fn unicode_declared_names_are_rewritten() {
    let prepared = prepare_source("declare caf\u{e9}: number").unwrap();
    assert_eq!(prepared.text, "export type caf\u{e9} =number");
    assert_eq!(prepared.declares, vec!["caf\u{e9}".to_string()]);
    let prepared = prepare_source("--[[declare \u{e9}: ]]\ntype A = number").unwrap();
    assert_eq!(prepared.declares, vec!["\u{e9}".to_string()]);
    assert_eq!(prepared.text, "--[[export type \u{e9} =]]\ntype A = number");
}
