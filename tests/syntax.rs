use macro_attr::enums::{EnumKind, Payload, ShapeError};
use macro_attr::structs::{StructKind, TypeIndexError};
use macro_attr::syntax::{parse_enum_body, parse_struct_body, render_range, split_pieces, Delim, SyntaxError, Token};

/// Tokens from words separated by blanks: brackets open and close groups, a
/// lone punctuation character is punctuation, digits and quoted text are
/// literals, anything else is an identifier.
fn toks(src: &str) -> Vec<Token> {
    src.split_whitespace()
        .map(|w| match w {
            "(" => Token::Open(Delim::Paren),
            ")" => Token::Close(Delim::Paren),
            "[" => Token::Open(Delim::Bracket),
            "]" => Token::Close(Delim::Bracket),
            "{" => Token::Open(Delim::Brace),
            "}" => Token::Close(Delim::Brace),
            _ if w.starts_with('"') || w.chars().all(|c| c.is_ascii_digit()) => Token::Literal(w.to_string()),
            _ if w.chars().count() == 1 && !w.chars().all(|c| c.is_alphanumeric() || c == '_') => {
                Token::Punct(w.chars().next().unwrap())
            }
            _ => Token::Ident(w.to_string()),
        })
        .collect()
}

fn names(def: &macro_attr::EnumDef) -> Vec<String> {
    def.variants.iter().map(|v| v.name.clone()).collect()
}

#[test]
fn parse_unitary_enum_with_doc_attributes() {
    let body = toks(r#"Up , # [ doc = "And" ] Down , # [ doc = "And" ] AllAround"#);
    let def = parse_enum_body("Get".to_string(), &body).unwrap();
    assert_eq!(def.name, "Get");
    assert_eq!(names(&def), vec!["Up", "Down", "AllAround"]);
    assert_eq!(def.kind(), EnumKind::Unitary);
    let get = def.to_unitary().unwrap();
    assert_eq!(get.parse_variant("Down"), Ok(1));
    assert_eq!(get.next_variant(1), Some(2));
}

#[test]
fn parse_trailing_comma_and_empty_body() {
    let def = parse_enum_body("E".to_string(), &toks("A , B ,")).unwrap();
    assert_eq!(names(&def), vec!["A", "B"]);
    let def = parse_enum_body("Nada".to_string(), &toks("")).unwrap();
    assert!(def.variants.is_empty());
    assert_eq!(def.to_unitary().unwrap().iter_variants().size_hint(), (0, Some(0)));
}

#[test]
fn parse_discriminants() {
    let def = parse_enum_body("E".to_string(), &toks("A = 3 , B , C = - 1 , D")).unwrap();
    let discriminants: Vec<Option<i64>> = def.variants.iter().map(|v| v.discriminant).collect();
    assert_eq!(discriminants, vec![Some(3), None, Some(-1), None]);
    let e = def.to_unitary().unwrap();
    assert_eq!(e.discriminants, vec![3, 4, -1, 0]);
    assert_eq!(e.try_from_discriminant(4), Ok(1));
    let big = parse_enum_body("E".to_string(), &toks("A = - 9223372036854775808")).unwrap();
    assert_eq!(big.variants[0].discriminant, Some(i64::MIN));
    let r = parse_enum_body("E".to_string(), &toks("A , B = 9223372036854775808"));
    assert_eq!(r.err(), Some(SyntaxError::BadVariant(1)));
    let r = parse_enum_body("E".to_string(), &toks("A = x"));
    assert_eq!(r.err(), Some(SyntaxError::BadVariant(0)));
}

#[test]
fn parse_payload_variants() {
    let body = toks("Unit ( ( ) ) , Int ( i64 ) , Str ( & ' static str ) , Map ( HashMap < K , V > , u8 ) , Rec { # [ doc ] pub x : i32 , y : Vec < u8 > }");
    let def = parse_enum_body("Value".to_string(), &body).unwrap();
    assert_eq!(def.kind(), EnumKind::Mixed);
    match &def.variants[0].payload {
        Payload::Tuple(t) => assert_eq!(t, &vec!["()".to_string()]),
        _ => panic!("positional payload expected"),
    }
    match &def.variants[2].payload {
        Payload::Tuple(t) => assert_eq!(t, &vec!["&'static str".to_string()]),
        _ => panic!("positional payload expected"),
    }
    match &def.variants[3].payload {
        Payload::Tuple(t) => assert_eq!(t, &vec!["HashMap<K,V>".to_string(), "u8".to_string()]),
        _ => panic!("positional payload expected"),
    }
    match &def.variants[4].payload {
        Payload::Record(f) => assert_eq!(
            f,
            &vec![("x".to_string(), "i32".to_string()), ("y".to_string(), "Vec<u8>".to_string())]
        ),
        _ => panic!("named fields expected"),
    }
    assert_eq!(def.to_unitary().err(), Some(ShapeError::NonUnitaryVariant("Unit".to_string())));
}

#[test]
fn parse_unary_enum_and_lift() {
    let body = toks("Unit ( ( ) ) , Int ( i64 ) , Str ( & ' static str ) ,");
    let value = parse_enum_body("Value".to_string(), &body).unwrap().to_unary().unwrap();
    assert_eq!(value.from_inner("i64"), Some(1));
    assert_eq!(value.from_inner("&'static str"), Some(2));
    assert_eq!(value.from_inner("()"), Some(0));
}

#[test]
fn parse_malformed_variants() {
    assert_eq!(parse_enum_body("E".to_string(), &toks("A , , B")).err(), Some(SyntaxError::BadVariant(1)));
    assert_eq!(parse_enum_body("E".to_string(), &toks("A ( u8 ) x")).err(), Some(SyntaxError::BadVariant(0)));
    assert_eq!(parse_enum_body("E".to_string(), &toks("A , 7")).err(), Some(SyntaxError::BadVariant(1)));
    assert_eq!(parse_enum_body("E".to_string(), &toks("A { x }")).err(), Some(SyntaxError::BadVariant(0)));
}

#[test]
fn parse_struct_bodies() {
    let unit = parse_struct_body("U".to_string(), &toks(";")).unwrap();
    assert_eq!(unit.kind, StructKind::Unit);
    assert_eq!(unit.num_fields(), 0);
    let tuple = parse_struct_body("Dummy".to_string(), &toks("( pub i32 , Vec < u8 > ) ;")).unwrap();
    assert_eq!(tuple.kind, StructKind::Tuple);
    assert_eq!(
        tuple.constructor_params(),
        vec![("_ord_01".to_string(), "i32".to_string()), ("_ord_02".to_string(), "Vec<u8>".to_string())]
    );
    assert!(tuple.fields[0].is_pub && !tuple.fields[1].is_pub);
    let rec = parse_struct_body(
        "Dracula".to_string(),
        &toks("{ pub ( crate ) vulnerabilities : Vec < Vulnerability > , age : u32 }"),
    )
    .unwrap();
    assert_eq!(rec.kind, StructKind::Record);
    assert_eq!(rec.fields[0].name.as_deref(), Some("vulnerabilities"));
    assert!(rec.fields[0].is_pub);
    assert_eq!(rec.type_index("u32"), Ok(1));
    assert_eq!(rec.type_index("String"), Err(TypeIndexError::Missing));
}

#[test]
fn parse_struct_errors() {
    assert_eq!(parse_struct_body("S".to_string(), &toks("= 3")).err(), Some(SyntaxError::BadStructBody));
    assert_eq!(parse_struct_body("S".to_string(), &toks("( u8 ) x")).err(), Some(SyntaxError::BadStructBody));
    assert_eq!(parse_struct_body("S".to_string(), &toks("{ a : u8 ")).err(), Some(SyntaxError::BadStructBody));
    assert_eq!(parse_struct_body("S".to_string(), &toks("{ a u8 }")).err(), Some(SyntaxError::BadField));
    assert_eq!(parse_struct_body("S".to_string(), &toks("( , )")).err(), Some(SyntaxError::BadField));
}

#[test]
fn split_and_render() {
    let ts = toks("a , f ( b , c ) , Vec < x , y > , d");
    assert_eq!(split_pieces(&ts), vec![(0, 1), (2, 8), (9, 15), (16, 17)]);
    assert_eq!(render_range(&ts, 9, 15), "Vec<x,y>");
    assert_eq!(render_range(&ts, 2, 8), "f(b,c)");
    let words = toks("pub struct Foo");
    assert_eq!(render_range(&words, 0, 3), "pub struct Foo");
    assert_eq!(split_pieces(&toks("")), vec![]);
    assert_eq!(split_pieces(&toks("a ,")), vec![(0, 1)]);
}

use macro_attr::attrs::{expand, Attr, DeriveRequest, Keyword, Step};
use macro_attr::header::parse_item;

#[test]
fn parse_item_header_and_expand() {
    let ts = toks(
        r#"# [ derive ( Debug , PartialEq , IterVariants ! ( GetVariants ) , NextVariant ! ) ] # [ doc = "Directions." ] pub enum Get { Up , Down , AllAround }"#,
    );
    let (item, b) = parse_item(&ts).unwrap();
    assert!(item.is_pub);
    assert_eq!(item.keyword, Keyword::Enum);
    assert_eq!(item.name, "Get");
    assert_eq!(item.body, "{Up,Down,AllAround}");
    assert_eq!(item.attrs.len(), 2);
    match &item.attrs[1] {
        Attr::Plain(t) => assert_eq!(t, "doc=\"Directions.\""),
        other => panic!("plain attribute expected, found {:?}", other),
    }
    let x = match expand(item) {
        Step::Done(x) => x,
        Step::Invoke { .. } => panic!("no attribute macro was written"),
    };
    assert_eq!(x.builtins, vec!["Debug".to_string(), "PartialEq".to_string()]);
    assert_eq!(
        x.customs,
        vec![
            DeriveRequest { name: "IterVariants".to_string(), args: "GetVariants".to_string() },
            DeriveRequest { name: "NextVariant".to_string(), args: String::new() },
        ]
    );
    assert_eq!(x.plain, vec!["doc=\"Directions.\"".to_string()]);

    let body = &ts[b + 1..ts.len() - 1];
    let def = parse_enum_body(x.name.clone(), &body.iter().map(copy).collect()).unwrap();
    assert_eq!(def.to_unitary().unwrap().variant_count(), 3);
}

fn copy(t: &Token) -> Token {
    match t {
        Token::Ident(s) => Token::Ident(s.clone()),
        Token::Punct(c) => Token::Punct(*c),
        Token::Literal(s) => Token::Literal(s.clone()),
        Token::Open(d) => Token::Open(*d),
        Token::Close(d) => Token::Close(*d),
    }
}

#[test]
fn parse_item_macro_attributes() {
    let ts = toks("# [ remove_body ! ] # [ use_secret_alias ! ( Alucard ) ] struct Dracula { pub vulnerabilities : Vec < Vulnerability > , }");
    let (item, b) = parse_item(&ts).unwrap();
    assert_eq!(b, 15);
    assert!(!item.is_pub);
    assert_eq!(item.keyword, Keyword::Struct);
    match (&item.attrs[0], &item.attrs[1]) {
        (Attr::Macro(a, x), Attr::Macro(c, y)) => {
            assert_eq!((a.as_str(), x.as_str()), ("remove_body", ""));
            assert_eq!((c.as_str(), y.as_str()), ("use_secret_alias", "Alucard"));
        }
        other => panic!("two attribute macros expected, found {:?}", other),
    }
    let rec = parse_struct_body(item.name.clone(), &ts[b..].iter().map(copy).collect()).unwrap();
    assert_eq!(rec.fields.len(), 1);
    assert_eq!(rec.fields[0].ty, "Vec<Vulnerability>");
}

#[test]
fn parse_item_errors() {
    assert!(parse_item(&toks("# [ derive ( Debug Clone ) ] struct S ;")).is_none());
    assert!(parse_item(&toks("# [ m ! x ] struct S ;")).is_none());
    assert!(parse_item(&toks("pub let x = 1 ;")).is_none());
    assert!(parse_item(&toks("")).is_none());
    let (item, b) = parse_item(&toks("pub ( crate ) impl Foo for Bar { }")).unwrap();
    assert!(item.is_pub);
    assert_eq!(item.keyword, Keyword::Impl);
    assert_eq!(item.name, "Foo");
    assert_eq!(b, 6);
    let (item, _) = parse_item(&toks("use std : : fmt ;")).unwrap();
    assert_eq!(item.keyword, Keyword::Use);
    assert_eq!(item.name, "std");
    assert_eq!(item.body, "::fmt;");
}

use macro_attr::generics::{parse_generics, parse_where};

#[test]
fn parse_generic_parameters() {
    let ts = toks("struct Wrap < ' a , T : Clone + Iterator < Item = u8 > , const N : usize , U > ( & ' a T )");
    let (item, b) = parse_item(&ts).unwrap();
    assert_eq!(item.name, "Wrap");
    let (g, after) = parse_generics(&ts, b).unwrap();
    assert_eq!(g.names, vec!["'a".to_string(), "T".to_string(), "N".to_string(), "U".to_string()]);
    assert_eq!(
        g.clauses,
        vec!["T:Clone+Iterator<Item=u8>".to_string(), "const N:usize".to_string()]
    );
    let body: Vec<Token> = ts[after..].iter().map(copy).collect();
    let s = parse_struct_body(item.name.clone(), &body).unwrap();
    assert_eq!(s.fields[0].ty, "&'a T");
}

#[test]
fn parse_generics_absent_or_malformed() {
    let ts = toks("struct S ;");
    let (g, after) = parse_generics(&ts, 2).unwrap();
    assert!(g.names.is_empty() && g.clauses.is_empty());
    assert_eq!(after, 2);
    assert!(parse_generics(&toks("< T , U"), 0).is_none());
    assert!(parse_generics(&toks("< 1 >"), 0).is_none());
    let (g, after) = parse_generics(&toks("< >"), 0).unwrap();
    assert!(g.names.is_empty());
    assert_eq!(after, 2);
}

#[test]
fn parse_where_clause() {
    let preds = parse_where(&toks("where T : Clone , U : Into < Vec < T > > ,")).unwrap();
    assert_eq!(preds, vec!["T:Clone".to_string(), "U:Into<Vec<T>>".to_string()]);
    assert!(parse_where(&toks("T : Clone")).is_none());
    assert_eq!(parse_where(&toks("where")).unwrap(), Vec::<String>::new());
}
