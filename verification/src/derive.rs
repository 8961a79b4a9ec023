//! The `Serialize` derive: from the definition of a generated type, the
//! source of its `Serialize` impl, which writes the TL id given by its
//! `#[id = "0x.."]` attribute and then each field in order.
use vstd::prelude::*;
use vstd::string::*;
use crate::codegen::schema::opt_view;
use crate::numeral::{
    decimal, hex_lower, law_hex_reads_back, parse_unsigned, parse_unsigned_exec, push_decimal,
};
use crate::text::{
    chars_of, eq_str, first_index, lemma_first_index, push_range, push_str, string_from,
    utf8_width, utf8_width_exec,
};

verus! {

/// How a string literal is written.
#[derive(Debug, Clone, Copy, PartialEq, Eq, Structural)]
pub enum StrStyle {
    Cooked,
    Raw,
}

/// A literal in an attribute.
#[derive(Debug)]
pub enum AttrLit {
    Str(String, StrStyle),
    Other,
}

/// The content of an attribute: `#[word]`, `#[name(..)]` or `#[name = lit]`.
#[derive(Debug)]
pub enum MetaItem {
    Word(String),
    List(String),
    NameValue(String, AttrLit),
}

/// An attribute.
#[derive(Debug)]
pub struct Attr {
    pub value: MetaItem,
}

/// A field: its name, `None` in a tuple.
#[derive(Debug)]
pub struct FieldDef {
    pub ident: Option<String>,
}

/// The fields of a struct or variant.
#[derive(Debug)]
pub enum Fields {
    Struct(Vec<FieldDef>),
    Tuple(Vec<FieldDef>),
    Unit,
}

/// A variant of an enum.
#[derive(Debug)]
pub struct VariantDef {
    pub ident: String,
    pub attrs: Vec<Attr>,
    pub data: Fields,
}

/// The body of a type definition.
#[derive(Debug)]
pub enum Body {
    Enum(Vec<VariantDef>),
    Struct(Fields),
}

/// The definition of a type, as the derive reads it.
#[derive(Debug)]
pub struct DeriveInput {
    pub ident: String,
    pub attrs: Vec<Attr>,
    pub body: Body,
}

/// Whether the fields belong to a struct (read through `self`) or to a
/// variant (bound by its pattern).
#[derive(Debug, Clone, Copy, PartialEq, Eq, Structural)]
pub enum BodyType {
    Struct,
    Enum,
}

/// Whether `a` is `#[id = "..."]` with a plain string.
pub open spec fn is_id_attr(a: Attr) -> bool {
    match a.value {
        MetaItem::NameValue(n, AttrLit::Str(_, StrStyle::Cooked)) => n@ == "id"@,
        _ => false,
    }
}

/// The string of the first `#[id = "..."]` attribute in `attrs`.
pub open spec fn id_text(attrs: Seq<Attr>) -> Option<Seq<char>> {
    let i = first_index(attrs, |a: Attr| is_id_attr(a));
    if i < attrs.len() {
        match attrs[i].value {
            MetaItem::NameValue(_, AttrLit::Str(v, _)) => Some(v@),
            _ => None,
        }
    } else {
        None
    }
}

/// `v` without its first two bytes, when a character ends after them.
pub open spec fn after_two_bytes(v: Seq<char>) -> Option<Seq<char>> {
    if v.len() >= 1 && utf8_width(v[0]) == 2 {
        Some(v.skip(1))
    } else if v.len() >= 2 && utf8_width(v[0]) == 1 && utf8_width(v[1]) == 1 {
        Some(v.skip(2))
    } else {
        None
    }
}

/// The id that the string `v` gives (`"0x1cb5c415"`): the hexadecimal number
/// after its first two bytes, when it is a `u32`.
pub open spec fn id_value(v: Seq<char>) -> Option<nat> {
    match after_two_bytes(v) {
        Some(rest) => parse_unsigned(rest, 16, 0xffff_ffff),
        None => None,
    }
}

/// Whether the id attribute of `attrs`, if any, gives a `u32`.
pub open spec fn id_readable(attrs: Seq<Attr>) -> bool {
    id_text(attrs) matches Some(v) ==> id_value(v) is Some
}

/// The statement that writes the id of `attrs`, if they give one.
pub open spec fn id_statement(attrs: Seq<Attr>) -> Seq<char> {
    match id_text(attrs) {
        Some(v) => decimal(id_value(v)->0) + "u32.serialize_to(buffer)?;\n"@,
        None => Seq::empty(),
    }
}

/// The statement that writes one named field.
pub open spec fn field_statement(body_type: BodyType, name: Seq<char>) -> Seq<char> {
    (if body_type == BodyType::Struct {
        "self."@
    } else {
        Seq::empty()
    }) + name + ".serialize_to(buffer)?;\n"@
}

/// The statements that write the named fields of `fields`, in order.
pub open spec fn field_statements(body_type: BodyType, fields: Seq<FieldDef>) -> Seq<char>
    decreases fields.len(),
{
    if fields.len() == 0 {
        Seq::empty()
    } else {
        field_statements(body_type, fields.drop_last()) + match fields.last().ident {
            Some(n) => field_statement(body_type, n@),
            None => Seq::empty(),
        }
    }
}

/// The body of `serialize_to` for one struct or variant: its id, its fields,
/// then `Ok(())`.
pub open spec fn serialize_body(
    body_type: BodyType,
    attrs: Seq<Attr>,
    fields: Option<Seq<FieldDef>>,
) -> Seq<char> {
    id_statement(attrs) + (match fields {
        Some(fs) => field_statements(body_type, fs),
        None => Seq::empty(),
    }) + "Ok(())"@
}

fn id_attr_exec(attrs: &Vec<Attr>) -> (r: Option<Vec<char>>)
    ensures
        match r {
            Some(v) => id_text(attrs@) == Some(v@),
            None => id_text(attrs@) is None,
        },
{
    let mut i: usize = 0;
    while i < attrs.len()
        invariant
            i <= attrs.len(),
            forall|j: int| 0 <= j < i ==> !is_id_attr(#[trigger] attrs@[j]),
        decreases attrs.len() - i,
    {
        match &attrs[i].value {
            MetaItem::NameValue(n, AttrLit::Str(v, StrStyle::Cooked)) => {
                let nc = chars_of(n.as_str());
                if eq_str(&nc, "id") {
                    proof {
                        lemma_first_index(attrs@, |a: Attr| is_id_attr(a), i as int);
                    }
                    return Some(chars_of(v.as_str()));
                }
            },
            _ => {},
        }
        i = i + 1;
    }
    proof {
        lemma_first_index(attrs@, |a: Attr| is_id_attr(a), i as int);
    }
    None
}

fn id_value_exec(v: &Vec<char>) -> (r: Option<u32>)
    ensures
        match r {
            Some(n) => id_value(v@) == Some(n as nat),
            None => id_value(v@) is None,
        },
{
    let from: usize = if v.len() >= 1 && utf8_width_exec(v[0]) == 2 {
        1
    } else if v.len() >= 2 && utf8_width_exec(v[0]) == 1 && utf8_width_exec(v[1]) == 1 {
        2
    } else {
        return None;
    };
    let mut rest: Vec<char> = Vec::new();
    push_range(&mut rest, v, from, v.len());
    assert(rest@ =~= v@.skip(from as int));
    match parse_unsigned_exec(&rest, 16, 0xffff_ffff) {
        Some(n) => Some(n as u32),
        None => None,
    }
}

fn push_field_statements(out: &mut Vec<char>, body_type: BodyType, fields: &Vec<FieldDef>)
    ensures
        final(out)@ == old(out)@ + field_statements(body_type, fields@),
{
    let mut i: usize = 0;
    while i < fields.len()
        invariant
            i <= fields.len(),
            out@ == old(out)@ + field_statements(body_type, fields@.take(i as int)),
        decreases fields.len() - i,
    {
        let ghost before = out@;
        assert(fields@.take(i + 1).drop_last() =~= fields@.take(i as int));
        assert(fields@.take(i + 1).last() == fields@[i as int]);
        match &fields[i].ident {
            Some(name) => {
                if body_type == BodyType::Struct {
                    push_str(out, "self.");
                }
                push_str(out, name.as_str());
                push_str(out, ".serialize_to(buffer)?;\n");
                proof {
                    reveal_strlit("");
                }
                assert(out@ =~= before + field_statement(body_type, name@));
            },
            None => {},
        }
        assert(out@ =~= old(out)@ + field_statements(body_type, fields@.take(i + 1)));
        i = i + 1;
    }
    assert(fields@.take(fields@.len() as int) =~= fields@);
}

/// The body of `serialize_to` for a struct (`BodyType::Struct`, fields read
/// through `self`) or a variant (`BodyType::Enum`, fields bound by the
/// pattern): the TL id of the first `#[id = "0x.."]` attribute, then each
/// named field in order.
pub fn impl_serialize_to_body(body_type: BodyType, attrs: &Vec<Attr>, fields: Option<&Vec<FieldDef>>) -> (r:
    String)
    requires
        id_readable(attrs@),
    ensures
        r@ == serialize_body(
            body_type,
            attrs@,
            match fields {
                Some(fs) => Some(fs@),
                None => None,
            },
        ),
{
    let mut out: Vec<char> = Vec::new();
    match id_attr_exec(attrs) {
        Some(v) => {
            let n = id_value_exec(&v);
            match n {
                Some(n) => {
                    push_decimal(&mut out, n as u64);
                    push_str(&mut out, "u32.serialize_to(buffer)?;\n");
                },
                None => {},
            }
        },
        None => {},
    }
    assert(out@ =~= id_statement(attrs@));
    match fields {
        Some(fs) => {
            push_field_statements(&mut out, body_type, fs);
        },
        None => {},
    }
    push_str(&mut out, "Ok(())");
    assert(out@ =~= serialize_body(
        body_type,
        attrs@,
        match fields {
            Some(fs) => Some(fs@),
            None => None,
        },
    ));
    string_from(&out)
}


/// The fields of a struct or variant, when it has named or no fields.
pub open spec fn named_fields(data: Fields) -> Option<Seq<FieldDef>> {
    match data {
        Fields::Struct(fs) => Some(fs@),
        _ => None,
    }
}

/// Whether every field of `fields` has a name.
pub open spec fn all_named(fields: Seq<FieldDef>) -> bool {
    forall|i: int| 0 <= i < fields.len() ==> (#[trigger] fields[i]).ident is Some
}

/// The pattern list `ref a, ref b, ..` that binds the fields.
pub open spec fn ref_list(fields: Seq<FieldDef>) -> Seq<char>
    decreases fields.len(),
{
    if fields.len() == 0 {
        Seq::empty()
    } else {
        let last = "ref "@ + opt_view(fields.last().ident)->0;
        if fields.len() == 1 {
            last
        } else {
            ref_list(fields.drop_last()) + ", "@ + last
        }
    }
}

/// The match arm that serializes variant `v` of the enum `item`.
pub open spec fn variant_arm(item: Seq<char>, v: VariantDef) -> Seq<char> {
    match v.data {
        Fields::Struct(fs) => item + "::"@ + v.ident@ + " { "@ + ref_list(fs@) + " } => {\n"@
            + serialize_body(BodyType::Enum, v.attrs@, Some(fs@)) + "\n},\n"@,
        _ => item + "::"@ + v.ident@ + " => {\n"@ + serialize_body(BodyType::Enum, v.attrs@, None)
            + "\n},\n"@,
    }
}

/// The match arms of the variants `vs`, in order.
pub open spec fn variant_arms(item: Seq<char>, vs: Seq<VariantDef>) -> Seq<char>
    decreases vs.len(),
{
    if vs.len() == 0 {
        Seq::empty()
    } else {
        variant_arms(item, vs.drop_last()) + variant_arm(item, vs.last())
    }
}

/// What the derive accepts: no tuple structs or tuple variants, named fields
/// in struct variants, and an id attribute that gives a `u32` wherever one is
/// read.
pub open spec fn derivable(ast: DeriveInput) -> bool {
    match ast.body {
        Body::Struct(data) => !(data is Tuple) && id_readable(ast.attrs@),
        Body::Enum(vs) => forall|i: int|
            0 <= i < vs@.len() ==> {
                let v = #[trigger] vs@[i];
                &&& !(v.data is Tuple)
                &&& (v.data matches Fields::Struct(fs) ==> all_named(fs@))
                &&& id_readable(v.attrs@)
            },
    }
}

/// The body of `serialize_to` for `ast`.
pub open spec fn serialize_fn_body(ast: DeriveInput) -> Seq<char> {
    match ast.body {
        Body::Struct(data) => serialize_body(BodyType::Struct, ast.attrs@, named_fields(data)),
        Body::Enum(vs) => "match *self {\n"@ + variant_arms(ast.ident@, vs@) + "}"@,
    }
}

/// The `Serialize` impl generated for `ast`.
pub open spec fn serialize_impl(ast: DeriveInput) -> Seq<char> {
    "impl ::ser::Serialize for "@ + ast.ident@
        + " {\nfn serialize_to(&self, buffer: &mut Vec<u8>) -> ::error::Result<()> {\n"@
        + serialize_fn_body(ast) + "\n}\n}\n"@
}

fn push_ref_list(out: &mut Vec<char>, fields: &Vec<FieldDef>)
    requires
        all_named(fields@),
    ensures
        final(out)@ == old(out)@ + ref_list(fields@),
{
    let mut i: usize = 0;
    while i < fields.len()
        invariant
            i <= fields.len(),
            all_named(fields@),
            out@ == old(out)@ + ref_list(fields@.take(i as int)),
        decreases fields.len() - i,
    {
        let ghost before = out@;
        assert(fields@.take(i + 1).drop_last() =~= fields@.take(i as int));
        assert(fields@.take(i + 1).last() == fields@[i as int]);
        assert(fields@[i as int].ident is Some);
        if i > 0 {
            push_str(out, ", ");
        }
        push_str(out, "ref ");
        match &fields[i].ident {
            Some(n) => {
                push_str(out, n.as_str());
            },
            None => {},
        }
        assert(out@ =~= old(out)@ + ref_list(fields@.take(i + 1)));
        i = i + 1;
    }
    assert(fields@.take(fields@.len() as int) =~= fields@);
}

fn push_variant_arm(out: &mut Vec<char>, item: &str, v: &VariantDef)
    requires
        !(v.data is Tuple),
        v.data matches Fields::Struct(fs) ==> all_named(fs@),
        id_readable(v.attrs@),
    ensures
        final(out)@ == old(out)@ + variant_arm(item@, *v),
{
    push_str(out, item);
    push_str(out, "::");
    push_str(out, v.ident.as_str());
    match &v.data {
        Fields::Struct(fs) => {
            push_str(out, " { ");
            push_ref_list(out, fs);
            push_str(out, " } => {\n");
            let body = impl_serialize_to_body(BodyType::Enum, &v.attrs, Some(fs));
            push_str(out, body.as_str());
        },
        _ => {
            push_str(out, " => {\n");
            let body = impl_serialize_to_body(BodyType::Enum, &v.attrs, None);
            push_str(out, body.as_str());
        },
    }
    push_str(out, "\n},\n");
    assert(final(out)@ =~= old(out)@ + variant_arm(item@, *v));
}

/// Builds the source of the `Serialize` impl for the type `ast`: a struct
/// writes its id and fields; an enum matches on `*self` and writes the id
/// and fields of the variant it holds.
pub fn impl_serialize(ast: &DeriveInput) -> (r: String)
    requires
        derivable(*ast),
    ensures
        r@ == serialize_impl(*ast),
{
    let item = ast.ident.as_str();
    let mut out: Vec<char> = Vec::new();
    push_str(&mut out, "impl ::ser::Serialize for ");
    push_str(&mut out, item);
    push_str(&mut out, " {\nfn serialize_to(&self, buffer: &mut Vec<u8>) -> ::error::Result<()> {\n");
    let ghost head = out@;
    match &ast.body {
        Body::Struct(data) => {
            let body = match data {
                Fields::Struct(fields) => impl_serialize_to_body(
                    BodyType::Struct,
                    &ast.attrs,
                    Some(fields),
                ),
                _ => impl_serialize_to_body(BodyType::Struct, &ast.attrs, None),
            };
            push_str(&mut out, body.as_str());
        },
        Body::Enum(variants) => {
            push_str(&mut out, "match *self {\n");
            let ghost arms_start = out@;
            let mut i: usize = 0;
            while i < variants.len()
                invariant
                    i <= variants.len(),
                    derivable(*ast),
                    ast.body == Body::Enum(*variants),
                    item@ == ast.ident@,
                    out@ == arms_start + variant_arms(item@, variants@.take(i as int)),
                decreases variants.len() - i,
            {
                assert(variants@.take(i + 1).drop_last() =~= variants@.take(i as int));
                assert(variants@.take(i + 1).last() == variants@[i as int]);
                let v = &variants[i];
                assert(v == variants@[i as int]);
                push_variant_arm(&mut out, item, v);
                assert(out@ =~= arms_start + variant_arms(item@, variants@.take(i + 1)));
                i = i + 1;
            }
            assert(variants@.take(variants@.len() as int) =~= variants@);
            push_str(&mut out, "}");
        },
    }
    assert(out@ =~= head + serialize_fn_body(*ast));
    push_str(&mut out, "\n}\n}\n");
    assert(out@ =~= serialize_impl(*ast));
    string_from(&out)
}


#[verifier::external_type_specification]
#[verifier::external_body]
pub struct ExSynLit(syn::Lit);

#[verifier::external_type_specification]
#[verifier::external_body]
pub struct ExSynAttribute(syn::Attribute);

#[verifier::external_type_specification]
#[verifier::external_body]
pub struct ExSynField(syn::Field);

#[verifier::external_type_specification]
#[verifier::external_body]
pub struct ExSynVariantData(syn::VariantData);

#[verifier::external_type_specification]
#[verifier::external_body]
pub struct ExSynVariant(syn::Variant);

/// A syn literal as the derive sees it.
/// Trusted: converts one for one, matching each variant of `syn::Lit`: a
/// string keeps its text and whether it is raw; every other literal becomes
/// `AttrLit::Other`.
#[verifier::external_body]
fn lit_from_syn(l: &syn::Lit) -> AttrLit {
    match l {
        syn::Lit::Str(s, syn::StrStyle::Cooked) => AttrLit::Str(s.clone(), StrStyle::Cooked),
        syn::Lit::Str(s, syn::StrStyle::Raw(_)) => AttrLit::Str(s.clone(), StrStyle::Raw),
        syn::Lit::ByteStr(..) => AttrLit::Other,
        syn::Lit::Byte(_) => AttrLit::Other,
        syn::Lit::Char(_) => AttrLit::Other,
        syn::Lit::Int(..) => AttrLit::Other,
        syn::Lit::Float(..) => AttrLit::Other,
        syn::Lit::Bool(_) => AttrLit::Other,
    }
}

/// A syn attribute as the derive sees it.
/// Trusted: converts one for one, matching each variant of `syn::MetaItem`
/// and keeping its name (the nested items of a list are dropped).
#[verifier::external_body]
fn attribute_from_syn(a: &syn::Attribute) -> Attr {
    let value = match &a.value {
        syn::MetaItem::Word(n) => MetaItem::Word(n.as_ref().to_string()),
        syn::MetaItem::List(n, _) => MetaItem::List(n.as_ref().to_string()),
        syn::MetaItem::NameValue(n, l) => MetaItem::NameValue(n.as_ref().to_string(), lit_from_syn(l)),
    };
    Attr { value }
}

/// Syn attributes as the derive sees them.
/// Trusted: converts each attribute with `attribute_from_syn`, in order.
#[verifier::external_body]
fn attributes_from_syn(attrs: &Vec<syn::Attribute>) -> Vec<Attr> {
    attrs.iter().map(attribute_from_syn).collect()
}

/// The fields of a syn struct or variant as the derive sees them.
/// Trusted: keeps the name of each field, in order.
#[verifier::external_body]
fn fields_from_syn(fields: &Vec<syn::Field>) -> Vec<FieldDef> {
    fields.iter().map(|f| FieldDef { ident: f.ident.as_ref().map(|i| i.as_ref().to_string()) }).collect()
}

/// A syn `Fields` as the derive sees it.
/// Trusted: converts one for one, matching each variant of `syn::VariantData`.
#[verifier::external_body]
fn variant_data_from_syn(d: &syn::VariantData) -> Fields {
    match d {
        syn::VariantData::Struct(fs) => Fields::Struct(fields_from_syn(fs)),
        syn::VariantData::Tuple(fs) => Fields::Tuple(fields_from_syn(fs)),
        syn::VariantData::Unit => Fields::Unit,
    }
}

/// A syn enum variant as the derive sees it.
/// Trusted: keeps its name, attributes and fields (the discriminant is dropped).
#[verifier::external_body]
fn variant_from_syn(v: &syn::Variant) -> VariantDef {
    VariantDef {
        ident: v.ident.as_ref().to_string(),
        attrs: attributes_from_syn(&v.attrs),
        data: variant_data_from_syn(&v.data),
    }
}

/// What `syn::parse_derive_input` makes of the text `s`, as the derive sees
/// it: `None` when syn refuses the text.
pub uninterp spec fn parsed_derive_input(s: Seq<char>) -> Option<DeriveInput>;

/// Parses the definition of a struct or enum.
/// Trusted: wraps `syn::parse_derive_input`, a parser of the text alone, so
/// its result is named by [`parsed_derive_input`]; the syn tree is converted
/// one for one into the types of this module.
#[verifier::external_body]
pub fn parse_derive_input(s: &str) -> (r: Option<DeriveInput>)
    ensures
        r == parsed_derive_input(s@),
{
    let ast = match syn::parse_derive_input(s) {
        Ok(ast) => ast,
        Err(_) => return None,
    };
    let body = match &ast.body {
        syn::Body::Enum(vs) => Body::Enum(vs.iter().map(variant_from_syn).collect()),
        syn::Body::Struct(d) => Body::Struct(variant_data_from_syn(d)),
    };
    Some(DeriveInput { ident: ast.ident.as_ref().to_string(), attrs: attributes_from_syn(&ast.attrs), body })
}

fn id_readable_exec(attrs: &Vec<Attr>) -> (r: bool)
    ensures
        r == id_readable(attrs@),
{
    match id_attr_exec(attrs) {
        Some(v) => id_value_exec(&v).is_some(),
        None => true,
    }
}

fn all_named_exec(fields: &Vec<FieldDef>) -> (r: bool)
    ensures
        r == all_named(fields@),
{
    let mut i: usize = 0;
    while i < fields.len()
        invariant
            i <= fields.len(),
            forall|j: int| 0 <= j < i ==> (#[trigger] fields@[j]).ident is Some,
        decreases fields.len() - i,
    {
        if fields[i].ident.is_none() {
            return false;
        }
        i = i + 1;
    }
    true
}

/// Whether the derive accepts `ast`, computed.
pub fn is_derivable(ast: &DeriveInput) -> (r: bool)
    ensures
        r == derivable(*ast),
{
    match &ast.body {
        Body::Struct(data) => {
            let tuple = match data {
                Fields::Tuple(_) => true,
                _ => false,
            };
            !tuple && id_readable_exec(&ast.attrs)
        },
        Body::Enum(vs) => {
            let mut i: usize = 0;
            while i < vs.len()
                invariant
                    i <= vs.len(),
                    ast.body == Body::Enum(*vs),
                    forall|j: int|
                        0 <= j < i ==> {
                            let v = #[trigger] vs@[j];
                            &&& !(v.data is Tuple)
                            &&& (v.data matches Fields::Struct(fs) ==> all_named(fs@))
                            &&& id_readable(v.attrs@)
                        },
                decreases vs.len() - i,
            {
                let v = &vs[i];
                let ok = match &v.data {
                    Fields::Tuple(_) => false,
                    Fields::Struct(fs) => all_named_exec(fs),
                    Fields::Unit => true,
                };
                if !ok || !id_readable_exec(&v.attrs) {
                    assert(v == vs@[i as int]);
                    assert(!({
                        let w = vs@[i as int];
                        &&& !(w.data is Tuple)
                        &&& (w.data matches Fields::Struct(fs) ==> all_named(fs@))
                        &&& id_readable(w.attrs@)
                    }));
                    return false;
                }
                i = i + 1;
            }
            true
        },
    }
}

/// The source of the `Serialize` impl for the type defined by the text `s`:
/// `None` when syn cannot parse it, or when the derive does not accept the
/// definition (a tuple struct or variant, or an id that is not a
/// hexadecimal `u32` after its first two bytes).
pub fn serialize_source(s: &str) -> (r: Option<String>)
    ensures
        match parsed_derive_input(s@) {
            Some(ast) => (r is Some) == derivable(ast) && (r matches Some(t) ==> t@ == serialize_impl(
                ast,
            )),
            None => r is None,
        },
{
    match parse_derive_input(s) {
        Some(ast) => {
            if is_derivable(&ast) {
                Some(impl_serialize(&ast))
            } else {
                None
            }
        },
        None => None,
    }
}


/// Every id the generator writes, `0x` and the lower-case hexadecimal of a
/// `u32`, is read back by the derive as that same number.
pub proof fn law_written_id_reads_back(n: nat)
    requires
        n <= 0xffff_ffff,
    ensures
        id_value("0x"@ + hex_lower(n)) == Some(n),
{
    reveal_strlit("0x");
    law_hex_reads_back(n);
    let h = hex_lower(n);
    let v = "0x"@ + h;
    assert(v[0] == '0' && v[1] == 'x');
    assert(v.skip(2) =~= h);
    assert(after_two_bytes(v) == Some(h));
    assert(h.len() == 1 ==> h[0] != '+' && h[0] != '-');
}

} // verus!
