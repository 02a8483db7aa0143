use macro_attr::attrs::{expand, resume, split_derives, Attr, DeriveEntry, DeriveRequest, Item, Keyword, Step};
use macro_attr::structs::{ordinal_name, FieldDef, StructDef, StructKind, TypeIndexError};

fn builtin(name: &str) -> DeriveEntry {
    DeriveEntry { name: name.to_string(), is_macro: false, args: String::new() }
}

fn custom(name: &str, args: &str) -> DeriveEntry {
    DeriveEntry { name: name.to_string(), is_macro: true, args: args.to_string() }
}

fn item(attrs: Vec<Attr>, keyword: Keyword, name: &str, body: &str) -> Item {
    Item { attrs, is_pub: false, keyword, name: name.to_string(), body: body.to_string() }
}

#[test]
fn test_mac_attrs() {
    let dracula = item(
        vec![
            Attr::Derive(vec![builtin("Debug"), custom("Name", "")]),
            Attr::Macro("remove_body".to_string(), String::new()),
            Attr::Macro("use_secret_alias".to_string(), "Alucard".to_string()),
        ],
        Keyword::Struct,
        "Dracula",
        "{ pub vulnerabilities: Vec<Vulnerability>, }",
    );

    let (cont, mut next) = match expand(dracula) {
        Step::Invoke { name, args, cont, item } => {
            assert_eq!(name, "remove_body");
            assert_eq!(args, "");
            (cont, item)
        }
        Step::Done(_) => panic!("the attribute macro was not handed the item"),
    };
    next.body = ";".to_string();
    let (cont, mut next) = match resume(cont, next) {
        Step::Invoke { name, args, cont, item } => {
            assert_eq!(name, "use_secret_alias");
            (cont, Item { name: args, ..item })
        }
        Step::Done(_) => panic!("the attribute macro was not handed the item"),
    };
    next.is_pub = false;
    let done = match resume(cont, next) {
        Step::Done(x) => x,
        Step::Invoke { .. } => panic!("no attribute macro was left"),
    };
    assert_eq!(format!("{:?}", done.name), format!("{:?}", "Alucard"));
    assert_eq!(done.name, "Alucard");
    assert_eq!(done.body, ";");
    assert_eq!(done.builtins, vec!["Debug".to_string()]);
    assert_eq!(done.customs, vec![DeriveRequest { name: "Name".to_string(), args: String::new() }]);
}

#[test]
fn test_passthru_derive() {
    let names = [
        "Clone", "Hash", "RustcEncodable", "RustcDecodable", "PartialEq", "Eq", "PartialOrd", "Ord",
        "Debug", "Default", "Copy",
    ];
    let dummy = Item {
        attrs: vec![Attr::Derive(names.iter().map(|n| builtin(n)).collect())],
        is_pub: true,
        keyword: Keyword::Struct,
        name: "Dummy".to_string(),
        body: "(u32);".to_string(),
    };
    match expand(dummy) {
        Step::Done(x) => {
            assert_eq!(x.builtins, names.iter().map(|n| n.to_string()).collect::<Vec<_>>());
            assert!(x.customs.is_empty());
            assert!(x.plain.is_empty());
            assert!(x.is_pub);
            assert_eq!(x.body, "(u32);");
        }
        Step::Invoke { .. } => panic!("no attribute macro was written"),
    }
}

#[test]
fn reemission_keeps_item() {
    let it = item(
        vec![
            Attr::Plain("doc = \"A point.\"".to_string()),
            Attr::Derive(vec![builtin("Clone")]),
            Attr::Plain("allow(dead_code)".to_string()),
            Attr::Derive(vec![builtin("Debug"), builtin("PartialEq")]),
        ],
        Keyword::Enum,
        "Point",
        "{ A, B }",
    );
    match expand(it) {
        Step::Done(x) => {
            assert_eq!(x.plain, vec!["doc = \"A point.\"".to_string(), "allow(dead_code)".to_string()]);
            assert_eq!(x.builtins, vec!["Clone".to_string(), "Debug".to_string(), "PartialEq".to_string()]);
            assert!(x.customs.is_empty());
            assert_eq!(x.keyword, Keyword::Enum);
            assert_eq!(x.name, "Point");
            assert_eq!(x.body, "{ A, B }");
        }
        Step::Invoke { .. } => panic!("no attribute macro was written"),
    }
}

#[test]
fn no_attributes_no_derive() {
    match expand(item(vec![], Keyword::Fn, "f", "() {}")) {
        Step::Done(x) => {
            assert!(x.plain.is_empty() && x.builtins.is_empty() && x.customs.is_empty());
        }
        Step::Invoke { .. } => panic!("no attribute macro was written"),
    }
}

#[test]
fn derive_list_is_partitioned_in_order() {
    let entries = vec![
        custom("IterVariants", "(GetVariants)"),
        builtin("Debug"),
        custom("EnumDisplay", ""),
        builtin("PartialEq"),
    ];
    let (builtins, customs) = split_derives(&entries);
    assert_eq!(builtins, vec!["Debug".to_string(), "PartialEq".to_string()]);
    assert_eq!(
        customs,
        vec![
            DeriveRequest { name: "IterVariants".to_string(), args: "(GetVariants)".to_string() },
            DeriveRequest { name: "EnumDisplay".to_string(), args: String::new() },
        ]
    );
}

fn field(name: Option<&str>, ty: &str) -> FieldDef {
    FieldDef { name: name.map(|n| n.to_string()), ty: ty.to_string(), is_pub: false }
}

#[test]
fn struct_fields_by_type() {
    let s = StructDef {
        name: "Mixed".to_string(),
        kind: StructKind::Record,
        fields: vec![field(Some("a"), "u8"), field(Some("b"), "String"), field(Some("c"), "u8")],
    };
    assert_eq!(s.num_fields(), 3);
    assert_eq!(s.type_index("String"), Ok(1));
    assert_eq!(s.type_index("u8"), Err(TypeIndexError::Ambiguous));
    assert_eq!(s.type_index("i64"), Err(TypeIndexError::Missing));
    assert_eq!(
        s.constructor_params(),
        vec![
            ("a".to_string(), "u8".to_string()),
            ("b".to_string(), "String".to_string()),
            ("c".to_string(), "u8".to_string()),
        ]
    );
    let unit = StructDef { name: "U".to_string(), kind: StructKind::Unit, fields: vec![] };
    assert_eq!(unit.num_fields(), 0);
    assert_eq!(unit.type_index("u8"), Err(TypeIndexError::Missing));
    let tuple = StructDef {
        name: "T".to_string(),
        kind: StructKind::Tuple,
        fields: vec![field(None, "f32"), field(None, "bool")],
    };
    assert_eq!(tuple.type_index("bool"), Ok(1));
    assert_eq!(
        tuple.constructor_params(),
        vec![("_ord_01".to_string(), "f32".to_string()), ("_ord_02".to_string(), "bool".to_string())]
    );
}

#[test]
fn ordinal_identifiers() {
    assert_eq!(ordinal_name(0), "_ord_01");
    assert_eq!(ordinal_name(8), "_ord_09");
    assert_eq!(ordinal_name(9), "_ord_10");
    assert_eq!(ordinal_name(31), "_ord_32");
    assert_eq!(ordinal_name(32), "_ord_33");
    assert_eq!(ordinal_name(998), "_ord_999");
    assert_eq!(ordinal_name(12344), "_ord_12345");
}
