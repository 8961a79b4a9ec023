use telegram::codegen::generator::{generate, kinds_sliceable};
use telegram::codegen::schema::{Parameter, Schema, SchemaConstructor, SchemaMethod};
use telegram::codegen::translate::{to_constructor, translate_id, translate_typename, Predicates};
use telegram::error::{Error, IntErrorKind};

fn param(name: &str, kind: &str) -> Parameter {
    Parameter { name: name.to_string(), kind: kind.to_string() }
}

fn ctor(id: &str, predicate: &str, params: Vec<Parameter>, kind: &str) -> SchemaConstructor {
    SchemaConstructor {
        id: id.to_string(),
        predicate: predicate.to_string(),
        params,
        kind: kind.to_string(),
    }
}

fn method(id: &str, name: &str, params: Vec<Parameter>, kind: &str) -> SchemaMethod {
    SchemaMethod { id: id.to_string(), method: name.to_string(), params, kind: kind.to_string() }
}

#[test]
fn translate_id_in_own_module_drops_prefix() {
    assert_eq!(translate_id("auth.sentCode", &Some("auth".to_string())), "sentCode");
}

#[test]
fn translate_id_elsewhere_keeps_module_path() {
    assert_eq!(translate_id("auth.sentCode", &None), "auth::sentCode");
    assert_eq!(translate_id("auth.sentCode", &Some("help".to_string())), "auth::sentCode");
    assert_eq!(translate_id("a.b.c", &None), "a::b.c");
}

#[test]
fn translate_id_renames_keyword() {
    assert_eq!(translate_id("type", &None), "type_");
    assert_eq!(translate_id("user_id", &None), "user_id");
}

#[test]
fn translate_typename_primitives() {
    let ps = Predicates::new();
    assert_eq!(translate_typename("string", &None, &ps), "String");
    assert_eq!(translate_typename("Bool", &None, &ps), "bool");
    assert_eq!(translate_typename("int", &None, &ps), "i32");
    assert_eq!(translate_typename("int128", &None, &ps), "i128");
    assert_eq!(translate_typename("int256", &None, &ps), "(i128, i128)");
    assert_eq!(translate_typename("long", &None, &ps), "i64");
    assert_eq!(translate_typename("double", &None, &ps), "f64");
    assert_eq!(translate_typename("bytes", &None, &ps), "Vec<u8>");
    assert_eq!(translate_typename("Vec<int>", &None, &ps), "Vec<i32>");
    assert_eq!(translate_typename("!X", &None, &ps), "Box<::std::any::Any>");
}

#[test]
fn translate_typename_vectors() {
    let ps = Predicates::new();
    assert_eq!(translate_typename("Vector<int>", &None, &ps), "Vec<i32>");
    assert_eq!(translate_typename("vector<long>", &None, &ps), "Vec<i64>");
    assert_eq!(translate_typename("Vector<%Message>", &None, &ps), "Vec<Message>");
    assert_eq!(translate_typename("Vector<Vector<int>>", &None, &ps), "Vec<Vector>");
}

#[test]
fn translate_typename_modules() {
    let ps = Predicates::new();
    assert_eq!(translate_typename("auth.SentCode", &None, &ps), "self::auth::SentCode");
    assert_eq!(
        translate_typename("auth.SentCode", &Some("help".to_string()), &ps),
        "super::auth::SentCode"
    );
    assert_eq!(translate_typename("auth.SentCode", &Some("auth".to_string()), &ps), "SentCode");
    assert_eq!(translate_typename("User", &Some("auth".to_string()), &ps), "super::User");
    assert_eq!(translate_typename("User", &None, &ps), "User");
}

#[test]
fn translate_typename_uses_predicates_first() {
    let mut ps = Predicates::new();
    ps.insert("resPQ", "ResPQ");
    ps.insert("resPQ", "Other");
    assert_eq!(ps.get("resPQ"), Some("ResPQ".to_string()));
    assert_eq!(ps.get("nothing"), None);
    assert_eq!(translate_typename("%resPQ", &None, &ps), "ResPQ");
    ps.insert("int", "Int");
    assert_eq!(translate_typename("int", &None, &ps), "Int");
}

#[test]
fn to_constructor_skips_primitive_kinds() {
    for kind in ["Bool", "True", "Vector t", "Null", "PeerSettings"] {
        assert!(to_constructor("1", "x", &vec![], kind).unwrap().is_none());
        assert!(to_constructor("not a number", "x", &vec![], kind).unwrap().is_none());
    }
}

#[test]
fn to_constructor_rejects_bad_ids() {
    let err = |id: &str| to_constructor(id, "x", &vec![], "X").unwrap_err();
    assert_eq!(err("abc"), Error::ParseInt(IntErrorKind::InvalidDigit));
    assert_eq!(err(""), Error::ParseInt(IntErrorKind::Empty));
    assert_eq!(err("-"), Error::ParseInt(IntErrorKind::InvalidDigit));
    assert_eq!(err("+"), Error::ParseInt(IntErrorKind::InvalidDigit));
    assert_eq!(err("2147483648"), Error::ParseInt(IntErrorKind::PosOverflow));
    assert_eq!(err("-2147483649"), Error::ParseInt(IntErrorKind::NegOverflow));
    assert_eq!(err("99999999999x"), Error::ParseInt(IntErrorKind::PosOverflow));
    assert_eq!(err("1x99999999999"), Error::ParseInt(IntErrorKind::InvalidDigit));
    assert_eq!(err("+-1"), Error::ParseInt(IntErrorKind::InvalidDigit));
}

#[test]
fn to_constructor_splits_kind() {
    let (module, name, c) =
        to_constructor("-1132882121", "auth.sentCode", &vec![param("phone_registered", "Bool")], "auth.SentCode")
            .unwrap()
            .unwrap();
    assert_eq!(module, Some("auth".to_string()));
    assert_eq!(name, "SentCode");
    assert_eq!(c.id, -1132882121);
    assert_eq!(c.name, "auth.sentCode");
    assert_eq!(c.params.len(), 1);
    assert_eq!(c.params[0].name, "phone_registered");
    let (module, name, c) = to_constructor("+2147483647", "resPQ", &vec![], "ResPQ").unwrap().unwrap();
    assert_eq!(module, None);
    assert_eq!(name, "ResPQ");
    assert_eq!(c.id, i32::MAX);
    let (_, _, c) = to_constructor("-2147483648", "m", &vec![], "M").unwrap().unwrap();
    assert_eq!(c.id, i32::MIN);
}

#[test]
fn generate_struct_and_method() {
    let schema = Schema {
        constructors: vec![
            ctor("-1132882121", "boolFalse", vec![], "Bool"),
            ctor("85337187", "resPQ", vec![param("nonce", "int128"), param("pq", "bytes")], "ResPQ"),
        ],
        methods: vec![method("1615239032", "req_pq", vec![param("nonce", "int128")], "ResPQ")],
    };
    let text = generate(&schema).unwrap();
    let expected = [
        "use extprim::i128::i128;\n",
        "#[derive(Debug, Serialize)]\n",
        "#[id = \"0x5162463\"]\n",
        "pub struct ResPQ {\n",
        "    pub nonce: i128,\n",
        "    pub pq: Vec<u8>,\n",
        "}\n",
        "#[derive(Debug, Serialize)]\n",
        "#[id = \"0x60469778\"]\n",
        "pub struct req_pq {\n",
        "    pub nonce: i128,\n",
        "}\n",
    ].concat();
    assert_eq!(text, expected);
}

#[test]
fn generate_enum_in_module() {
    let schema = Schema {
        constructors: vec![
            ctor("-212046591", "auth.sentCode", vec![param("phone_registered", "Bool")], "auth.SentCode"),
            ctor("-1132882121", "auth.sentAppCode", vec![], "auth.SentCode"),
            ctor("5", "auth.loggedOut", vec![], "auth.LoggedOut"),
        ],
        methods: vec![],
    };
    let text = generate(&schema).unwrap();
    let expected = [
        "pub mod auth {\n",
        "#[derive(Debug, Serialize)]\n",
        "pub enum SentCode {\n",
        "  #[id = \"0xf35c6d01\"]\n",
        "  sentCode {\n",
        "    phone_registered: bool,\n",
        "  },\n",
        "  #[id = \"0xbc799737\"]\n",
        "  sentAppCode,\n",
        "}\n",
        "#[derive(Debug, Serialize)]\n",
        "#[id = \"0x5\"]\n",
        "pub struct LoggedOut;\n",
        "}\n",
    ].concat();
    assert_eq!(text, expected);
}

#[test]
fn generate_method_replaces_same_name() {
    let schema = Schema {
        constructors: vec![ctor("1", "ping", vec![param("a", "int")], "ping")],
        methods: vec![method("2", "ping", vec![param("b", "long")], "Pong")],
    };
    let text = generate(&schema).unwrap();
    let expected = [
        "#[derive(Debug, Serialize)]\n",
        "#[id = \"0x2\"]\n",
        "pub struct ping {\n",
        "    pub b: i64,\n",
        "}\n",
    ].concat();
    assert_eq!(text, expected);
}

#[test]
fn generate_uses_predicates_for_parameter_types() {
    let schema = Schema {
        constructors: vec![
            ctor("1", "userEmpty", vec![], "User"),
            ctor("2", "wrapper", vec![param("u", "%userEmpty")], "Wrapper"),
        ],
        methods: vec![],
    };
    let text = generate(&schema).unwrap();
    assert!(text.contains("    pub u: User,\n"));
    assert!(!text.contains("extprim"));
}

#[test]
fn generate_stops_at_bad_id() {
    let schema = Schema {
        constructors: vec![ctor("12x", "a", vec![], "A")],
        methods: vec![],
    };
    assert_eq!(generate(&schema).unwrap_err(), Error::ParseInt(IntErrorKind::InvalidDigit));
}

#[test]
fn generate_empty_schema_is_empty() {
    let schema = Schema { constructors: vec![], methods: vec![] };
    assert_eq!(generate(&schema).unwrap(), "");
}

#[test]
fn kinds_after_a_wide_integer_are_not_read() {
    let fine = Schema {
        constructors: vec![ctor("1", "a", vec![param("x", "int128"), param("y", "ab€")], "A")],
        methods: vec![],
    };
    assert!(kinds_sliceable(&fine));
    assert!(generate(&fine).unwrap().contains("use extprim::i128::i128;\n"));
    let cut = Schema {
        constructors: vec![ctor("1", "a", vec![param("y", "ab€"), param("x", "int128")], "A")],
        methods: vec![],
    };
    assert!(!kinds_sliceable(&cut));
    let short = Schema {
        constructors: vec![ctor("1", "a", vec![param("y", "é")], "A")],
        methods: vec![],
    };
    assert!(kinds_sliceable(&short));
    let bad_id = Schema {
        constructors: vec![ctor("x", "a", vec![param("y", "ab€")], "A")],
        methods: vec![],
    };
    assert!(kinds_sliceable(&bad_id));
    let skipped = Schema {
        constructors: vec![ctor("1", "a", vec![param("y", "ab€")], "Bool")],
        methods: vec![],
    };
    assert!(kinds_sliceable(&skipped));
}

#[test]
fn error_kinds_agree_with_std() {
    for id in ["", "-", "+", "abc", "2147483648", "-2147483649", "99999999999x", "1x99999999999", "+-1", "--1", "12 "] {
        let std_kind = id.parse::<i32>().unwrap_err();
        let ours = match to_constructor(id, "x", &vec![], "X").unwrap_err() {
            Error::ParseInt(k) => k,
            other => panic!("{:?}", other),
        };
        let expected = match std_kind.kind() {
            std::num::IntErrorKind::Empty => IntErrorKind::Empty,
            std::num::IntErrorKind::InvalidDigit => IntErrorKind::InvalidDigit,
            std::num::IntErrorKind::PosOverflow => IntErrorKind::PosOverflow,
            std::num::IntErrorKind::NegOverflow => IntErrorKind::NegOverflow,
            other => panic!("{:?}", other),
        };
        assert_eq!(ours, expected, "id {:?}", id);
    }
}
