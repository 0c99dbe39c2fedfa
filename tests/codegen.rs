use tl_codec::aggregate::{aggregate, discriminators};
use tl_codec::emit::{generate, GenerateError};
use tl_codec::schema::{Constructor, Method, Parameter, Schema};
use tl_codec::translate::{translate_id, translate_typename};

fn ctor(id: i32, predicate: &str, params: &[(&str, &str)], kind: &str) -> Constructor {
    Constructor {
        id,
        predicate: predicate.to_string(),
        params: params.iter().map(|(n, k)| Parameter::new(n, k)).collect(),
        kind: kind.to_string(),
    }
}

fn schema(constructors: Vec<Constructor>) -> Schema {
    Schema { constructors, methods: Vec::new() }
}

fn module(name: &str) -> Option<String> {
    Some(name.to_string())
}

#[test]
fn nested_vectors_translate_recursively() {
    assert_eq!(translate_typename("Vector<Vector<int>>", &None), "Vec<Vec<i32>>");
    assert_eq!(translate_typename("Vector<long>", &None), "Vec<i64>");
    assert_eq!(translate_typename("Vector<Vector<Vector<string>>>", &None), "Vec<Vec<Vec<String>>>");
    assert_eq!(translate_typename("Vector<auth.Authorization>", &module("auth")), "Vec<Authorization>");
}

#[test]
fn primitive_types_translate() {
    let none = None;
    assert_eq!(translate_typename("string", &none), "String");
    assert_eq!(translate_typename("Bool", &none), "bool");
    assert_eq!(translate_typename("int", &none), "i32");
    assert_eq!(translate_typename("long", &none), "i64");
    assert_eq!(translate_typename("double", &none), "f64");
    assert_eq!(translate_typename("bytes", &none), "Vec<u8>");
    assert_eq!(translate_typename("Vector<int>", &none), "Vec<i32>");
    assert_eq!(translate_typename("User", &none), "::User");
}

#[test]
fn qualified_types_strip_own_module_only() {
    assert_eq!(translate_typename("storage.FileType", &module("storage")), "FileType");
    assert_eq!(translate_typename("storage.FileType", &module("auth")), "::storage::FileType");
    assert_eq!(translate_typename("storage.FileType", &None), "::storage::FileType");
    assert_eq!(translate_typename("a.b.C", &None), "::a::b.C");
}

#[test]
fn identifiers_translate() {
    assert_eq!(translate_id("type", &None), "type_");
    assert_eq!(translate_id("type_", &None), "type__");
    assert_eq!(translate_id("type__", &None), "type___");
    assert_eq!(translate_id("types", &None), "types");
    assert_eq!(translate_id("typ", &None), "typ");
    assert_eq!(translate_id("user_id", &None), "user_id");
    assert_eq!(translate_id("auth.sentCode", &module("auth")), "sentCode");
    assert_eq!(translate_id("auth.sentCode", &None), "auth::sentCode");
    assert_eq!(translate_id("auth.sentCode", &module("help")), "auth::sentCode");
}

#[test]
fn two_constructors_of_one_type_make_an_enum() {
    let s = schema(vec![
        ctor(0x1, "inputPeerEmpty", &[], "InputPeer"),
        ctor(0x2, "inputPeerUser", &[("user_id", "int"), ("type", "string")], "InputPeer"),
    ]);
    let modules = aggregate(&s.constructors, &[]);
    assert_eq!(modules.len(), 1);
    assert!(modules[0].name.is_none());
    assert_eq!(modules[0].types.len(), 1);
    assert_eq!(modules[0].types[0].name, "InputPeer");
    assert_eq!(modules[0].types[0].constructors.len(), 2);
    assert_eq!(discriminators(&modules[0].types[0]), vec![0x1, 0x2]);
    let text = generate(&s, &[]).unwrap();
    assert_eq!(
        text,
        "#[derive(Debug, Deserialize, Serialize)]\n\
         pub enum InputPeer {\n  \
         #[id(0x00000001)]\n  \
         inputPeerEmpty,\n  \
         #[id(0x00000002)]\n  \
         inputPeerUser {\n    \
         user_id: i32,\n    \
         type_: String,\n  \
         },\n\
         }\n\n"
    );
    assert_eq!(text.matches("pub enum").count(), 1);
}

#[test]
fn single_constructor_without_params_is_unit_struct() {
    let s = schema(vec![ctor(0x3, "boolTrue", &[], "Ok")]);
    assert_eq!(
        generate(&s, &[]).unwrap(),
        "#[derive(Debug, Deserialize, Serialize)]\npub struct Ok;\n"
    );
}

#[test]
fn single_constructor_with_params_is_struct() {
    let s = schema(vec![ctor(0x4, "user", &[("id", "int"), ("tags", "Vector<string>")], "User")]);
    assert_eq!(
        generate(&s, &[]).unwrap(),
        "#[derive(Debug, Deserialize, Serialize)]\npub struct User {\n    id: i32,\n    tags: Vec<String>,\n}\n\n"
    );
}

#[test]
fn modules_group_their_types() {
    let s = schema(vec![
        ctor(0x10, "auth.sentCode", &[("hash", "string")], "auth.SentCode"),
        ctor(0x11, "user", &[("photo", "storage.FileType")], "User"),
        ctor(0x12, "auth.authorization", &[("user", "User")], "auth.Authorization"),
    ]);
    let modules = aggregate(&s.constructors, &[]);
    assert_eq!(modules.len(), 2);
    assert!(modules[0].name.is_none());
    assert_eq!(modules[1].name, Some("auth".to_string()));
    assert_eq!(modules[1].types.len(), 2);
    assert_eq!(modules[1].types[0].name, "SentCode");
    assert_eq!(modules[1].types[1].name, "Authorization");
    let text = generate(&s, &[]).unwrap();
    assert!(text.starts_with("#[derive(Debug, Deserialize, Serialize)]\npub struct User {\n    photo: ::storage::FileType,\n}\n\npub mod auth {\n\n#[derive(Debug, Deserialize, Serialize)]\npub struct SentCode {\n    hash: String,\n}\n\n"));
    assert!(text.ends_with("pub struct Authorization {\n    user: ::User,\n}\n\n}\n\n"));
}

#[test]
fn builtin_and_excluded_kinds_are_skipped() {
    let s = schema(vec![
        ctor(0x20, "boolFalse", &[], "Bool"),
        ctor(0x21, "true", &[], "True"),
        ctor(0x22, "vector", &[], "Vector t"),
        ctor(0x23, "null", &[], "Null"),
        ctor(0x24, "peerSettings", &[("x", "int")], "PeerSettings"),
        ctor(0x25, "ok", &[], "Ok"),
    ]);
    let excluded = vec!["PeerSettings".to_string()];
    let modules = aggregate(&s.constructors, &excluded);
    assert_eq!(modules.len(), 1);
    assert_eq!(modules[0].types.len(), 1);
    assert_eq!(modules[0].types[0].name, "Ok");
    assert_eq!(
        generate(&s, &excluded).unwrap(),
        "#[derive(Debug, Deserialize, Serialize)]\npub struct Ok;\n"
    );
    let without = generate(&s, &[]).unwrap();
    assert!(without.contains("pub struct PeerSettings {\n    x: i32,\n}\n\n"));
}

#[test]
fn duplicate_ids_are_rejected() {
    let s = schema(vec![ctor(0x7, "a", &[], "A"), ctor(0x7, "b", &[], "B")]);
    assert_eq!(
        generate(&s, &[]),
        Err(GenerateError::DuplicateId { id: 0x7, first: "a".to_string(), second: "b".to_string() })
    );
}

#[test]
fn duplicate_variant_names_are_rejected() {
    let s = schema(vec![
        ctor(0x8, "m.same", &[], "m.T"),
        ctor(0x9, "same", &[], "m.T"),
    ]);
    assert_eq!(generate(&s, &[]), Err(GenerateError::DuplicateVariant("same".to_string())));
}

#[test]
fn translation_is_deterministic() {
    let make = || {
        schema(vec![
            ctor(0x30, "b.x", &[("v", "int")], "b.X"),
            ctor(0x31, "a.y", &[], "a.Y"),
            ctor(0x32, "z", &[("w", "long")], "Z"),
            ctor(0x33, "z2", &[], "Z"),
        ])
    };
    let first = generate(&make(), &[]).unwrap();
    let second = generate(&make(), &[]).unwrap();
    assert_eq!(first, second);
    assert!(first.find("pub mod b").unwrap() < first.find("pub mod a").unwrap());
    assert!(first.starts_with("#[derive(Debug, Deserialize, Serialize)]\npub enum Z {"));
}

#[test]
fn methods_are_carried_but_not_emitted() {
    let mut s = schema(vec![ctor(0x40, "ok", &[], "Ok")]);
    s.methods.push(Method {
        id: 0x41,
        method: "help.getConfig".to_string(),
        params: vec![Parameter::new("flag", "int")],
        kind: "Ok".to_string(),
    });
    assert_eq!(
        generate(&s, &[]).unwrap(),
        "#[derive(Debug, Deserialize, Serialize)]\npub struct Ok;\n"
    );
}

#[test]
fn variant_ids_are_recorded_in_hex() {
    let s = schema(vec![
        ctor(0x1cb5c415, "vector", &[("x", "int")], "V"),
        ctor(-1, "other", &[], "V"),
    ]);
    let text = generate(&s, &[]).unwrap();
    assert!(text.contains("  #[id(0x1cb5c415)]\n  vector {\n    x: i32,\n  },\n"));
    assert!(text.contains("  #[id(0xffffffff)]\n  other,\n"));
    let changed = schema(vec![
        ctor(0x1cb5c416, "vector", &[("x", "int")], "V"),
        ctor(-1, "other", &[], "V"),
    ]);
    assert_ne!(generate(&changed, &[]).unwrap(), text);
}

#[test]
fn escaped_keywords_do_not_collide() {
    let s = schema(vec![
        ctor(0x50, "type", &[], "K"),
        ctor(0x51, "type_", &[], "K"),
    ]);
    let text = generate(&s, &[]).unwrap();
    assert!(text.contains("  type_,\n"));
    assert!(text.contains("  type__,\n"));
}
