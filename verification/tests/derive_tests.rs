use telegram::derive::{
    impl_serialize, impl_serialize_to_body, Attr, Body, BodyType, DeriveInput, FieldDef, AttrLit,
    MetaItem, StrStyle, VariantDef, Fields,
};

fn id_attr(value: &str) -> Attr {
    Attr {
        value: MetaItem::NameValue("id".to_string(), AttrLit::Str(value.to_string(), StrStyle::Cooked)),
    }
}

fn field(name: &str) -> FieldDef {
    FieldDef { ident: Some(name.to_string()) }
}

#[test]
fn body_writes_id_then_fields() {
    let attrs = vec![id_attr("0x60469778")];
    let fields = vec![field("nonce"), field("pq")];
    assert_eq!(
        impl_serialize_to_body(BodyType::Struct, &attrs, Some(&fields)),
        "1615239032u32.serialize_to(buffer)?;\nself.nonce.serialize_to(buffer)?;\nself.pq.serialize_to(buffer)?;\nOk(())"
    );
    assert_eq!(
        impl_serialize_to_body(BodyType::Enum, &attrs, Some(&fields)),
        "1615239032u32.serialize_to(buffer)?;\nnonce.serialize_to(buffer)?;\npq.serialize_to(buffer)?;\nOk(())"
    );
}

#[test]
fn body_without_id_writes_fields_only() {
    let attrs = vec![Attr { value: MetaItem::Word("inline".to_string()) }];
    assert_eq!(impl_serialize_to_body(BodyType::Struct, &attrs, None), "Ok(())");
}

#[test]
fn body_uses_first_cooked_id_attribute() {
    let attrs = vec![
        Attr { value: MetaItem::NameValue("id".to_string(), AttrLit::Str("zz".to_string(), StrStyle::Raw)) },
        Attr { value: MetaItem::NameValue("name".to_string(), AttrLit::Str("0x1".to_string(), StrStyle::Cooked)) },
        id_attr("0xff"),
        id_attr("0x1"),
    ];
    assert_eq!(impl_serialize_to_body(BodyType::Struct, &attrs, None), "255u32.serialize_to(buffer)?;\nOk(())");
}

#[test]
fn body_skips_unnamed_fields_of_a_struct() {
    let fields = vec![FieldDef { ident: None }, field("a")];
    assert_eq!(
        impl_serialize_to_body(BodyType::Struct, &vec![], Some(&fields)),
        "self.a.serialize_to(buffer)?;\nOk(())"
    );
}

#[test]
fn impl_for_struct() {
    let ast = DeriveInput {
        ident: "req_pq".to_string(),
        attrs: vec![id_attr("0x60469778")],
        body: Body::Struct(Fields::Struct(vec![field("nonce")])),
    };
    assert_eq!(
        impl_serialize(&ast),
        "impl ::ser::Serialize for req_pq {\nfn serialize_to(&self, buffer: &mut Vec<u8>) -> ::error::Result<()> {\n1615239032u32.serialize_to(buffer)?;\nself.nonce.serialize_to(buffer)?;\nOk(())\n}\n}\n"
    );
}

#[test]
fn impl_for_unit_struct() {
    let ast = DeriveInput {
        ident: "Pong".to_string(),
        attrs: vec![id_attr("0xA")],
        body: Body::Struct(Fields::Unit),
    };
    assert_eq!(
        impl_serialize(&ast),
        "impl ::ser::Serialize for Pong {\nfn serialize_to(&self, buffer: &mut Vec<u8>) -> ::error::Result<()> {\n10u32.serialize_to(buffer)?;\nOk(())\n}\n}\n"
    );
}

#[test]
fn impl_for_enum() {
    let ast = DeriveInput {
        ident: "SentCode".to_string(),
        attrs: vec![],
        body: Body::Enum(vec![
            VariantDef {
                ident: "sentCode".to_string(),
                attrs: vec![id_attr("0x1")],
                data: Fields::Struct(vec![field("a"), field("b")]),
            },
            VariantDef { ident: "sentAppCode".to_string(), attrs: vec![id_attr("0x2")], data: Fields::Unit },
        ]),
    };
    assert_eq!(
        impl_serialize(&ast),
        [
            "impl ::ser::Serialize for SentCode {\nfn serialize_to(&self, buffer: &mut Vec<u8>) -> ::error::Result<()> {\n",
            "match *self {\n",
            "SentCode::sentCode { ref a, ref b } => {\n1u32.serialize_to(buffer)?;\na.serialize_to(buffer)?;\nb.serialize_to(buffer)?;\nOk(())\n},\n",
            "SentCode::sentAppCode => {\n2u32.serialize_to(buffer)?;\nOk(())\n},\n",
            "}\n}\n}\n"
        ].concat()
    );
}

#[test]
fn id_after_two_byte_char() {
    let attrs = vec![id_attr("é+1f")];
    assert_eq!(impl_serialize_to_body(BodyType::Struct, &attrs, None), "31u32.serialize_to(buffer)?;\nOk(())");
}

#[test]
fn serialize_source_of_struct_text() {
    let src = "#[id = \"0x60469778\"] pub struct req_pq { pub nonce: i128, }";
    assert_eq!(
        telegram::derive::serialize_source(src).unwrap(),
        "impl ::ser::Serialize for req_pq {\nfn serialize_to(&self, buffer: &mut Vec<u8>) -> ::error::Result<()> {\n1615239032u32.serialize_to(buffer)?;\nself.nonce.serialize_to(buffer)?;\nOk(())\n}\n}\n"
    );
}

#[test]
fn serialize_source_of_enum_text() {
    let src = "enum B { #[id = \"0x1\"] T, #[id = \"0x2\"] F { x: i32 } }";
    assert_eq!(
        telegram::derive::serialize_source(src).unwrap(),
        [
            "impl ::ser::Serialize for B {\nfn serialize_to(&self, buffer: &mut Vec<u8>) -> ::error::Result<()> {\n",
            "match *self {\n",
            "B::T => {\n1u32.serialize_to(buffer)?;\nOk(())\n},\n",
            "B::F { ref x } => {\n2u32.serialize_to(buffer)?;\nx.serialize_to(buffer)?;\nOk(())\n},\n",
            "}\n}\n}\n",
        ]
        .concat()
    );
}

#[test]
fn serialize_source_refuses_what_the_derive_refuses() {
    assert_eq!(telegram::derive::serialize_source("struct T(i32);"), None);
    assert_eq!(telegram::derive::serialize_source("#[id = \"0xzz\"] struct U;"), None);
    assert_eq!(telegram::derive::serialize_source("this is not rust"), None);
}

#[test]
fn parse_derive_input_reads_attributes() {
    let ast = telegram::derive::parse_derive_input("#[id = r\"0x1\"] #[inline] struct S;").unwrap();
    assert_eq!(ast.ident, "S");
    assert_eq!(ast.attrs.len(), 2);
    match &ast.attrs[0].value {
        MetaItem::NameValue(n, AttrLit::Str(v, StrStyle::Raw)) => {
            assert_eq!(n, "id");
            assert_eq!(v, "0x1");
        }
        other => panic!("{:?}", other),
    }
    assert!(matches!(ast.body, Body::Struct(Fields::Unit)));
}
