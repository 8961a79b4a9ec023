//! Generation of Rust definitions from the schema: the constructors are
//! gathered into types and modules, then written out as Rust source.
use vstd::prelude::*;
use crate::codegen::schema::{
    opt_view, params_model, Constructor, ConstructorModel, ParamModel, Parameter, Schema,
    SchemaConstructor, SchemaMethod,
};
use crate::codegen::translate::{
    chars_opt, constructor_of, insert_if_absent, lookup, opt_chars,
    to_constructor, translate_id_chars, translate_typename_chars, translated_id,
    translated_typename, Predicates, is_plain_type, law_plain_type,
};
use crate::error::Error;
use crate::numeral::{hex_lower, parse_unsigned, parse_unsigned_exec, push_hex};
use crate::text::{
    chars_of, cuts_at, cuts_at_three, eq_chars, first_index, lemma_first_index,
    lemma_first_index_bound, push_all, push_range, push_str,
    string_from,
};

verus! {

/// A type of the generated code, as text: its name and its constructors.
#[verifier::ext_equal]
pub struct TypeModel {
    pub name: Seq<char>,
    pub constructors: Seq<ConstructorModel>,
}

/// A module of the generated code, as text: its name (`None` for the top
/// level) and its types, in the order they were first met.
#[verifier::ext_equal]
pub struct ModuleModel {
    pub name: Option<Seq<char>>,
    pub types: Seq<TypeModel>,
}

/// What the generator has gathered: the modules, and the map from constructor
/// and method names to the types that hold them.
#[verifier::ext_equal]
pub struct Collected {
    pub modules: Seq<ModuleModel>,
    pub predicates: Seq<(Seq<char>, Seq<char>)>,
}

/// An entry of the schema as the generator reads it: id, name, parameters
/// and the kind it is filed under.
pub struct EntryModel {
    pub id: Seq<char>,
    pub name: Seq<char>,
    pub params: Seq<ParamModel>,
    pub kind: Seq<char>,
}

/// The constructors of `schema`, each filed under its kind.
pub open spec fn constructor_entries(schema: Schema) -> Seq<EntryModel> {
    schema.constructors@.map_values(
        |c: SchemaConstructor|
            EntryModel {
                id: c.id@,
                name: c.predicate@,
                params: params_model(c.params@),
                kind: c.kind@,
            },
    )
}

/// The methods of `schema`, each filed under its own name.
pub open spec fn method_entries(schema: Schema) -> Seq<EntryModel> {
    schema.methods@.map_values(
        |m: SchemaMethod|
            EntryModel {
                id: m.id@,
                name: m.method@,
                params: params_model(m.params@),
                kind: m.method@,
            },
    )
}

/// Where module `key` stands in `mods` (`mods.len()` when absent).
pub open spec fn module_slot(mods: Seq<ModuleModel>, key: Option<Seq<char>>) -> int {
    first_index(mods, |m: ModuleModel| m.name == key)
}

/// Where type `name` stands in `ts` (`ts.len()` when absent).
pub open spec fn type_slot(ts: Seq<TypeModel>, name: Seq<char>) -> int {
    first_index(ts, |t: TypeModel| t.name == name)
}

/// `mods` with the constructor `c` filed under type `name` of module `key`
/// (both made when absent). A method (`replace`) makes the type hold `c`
/// alone; a constructor is added after those the type already has.
pub open spec fn file_constructor(
    mods: Seq<ModuleModel>,
    key: Option<Seq<char>>,
    name: Seq<char>,
    c: ConstructorModel,
    replace: bool,
) -> Seq<ModuleModel> {
    let i = module_slot(mods, key);
    let m = if i < mods.len() {
        mods[i]
    } else {
        ModuleModel { name: key, types: Seq::empty() }
    };
    let j = type_slot(m.types, name);
    let t = if j < m.types.len() && !replace {
        TypeModel { name: m.types[j].name, constructors: m.types[j].constructors.push(c) }
    } else {
        TypeModel { name, constructors: seq![c] }
    };
    let types = if j < m.types.len() {
        m.types.update(j, t)
    } else {
        m.types.push(t)
    };
    let m2 = ModuleModel { name: m.name, types };
    if i < mods.len() {
        mods.update(i, m2)
    } else {
        mods.push(m2)
    }
}

/// The state after the entries `es`, read in order from `st`: the first
/// entry whose id is not an `i32` stops everything with its error.
pub open spec fn collect_entries(es: Seq<EntryModel>, replace: bool, st: Collected) -> Result<
    Collected,
    Error,
>
    decreases es.len(),
{
    if es.len() == 0 {
        Ok(st)
    } else {
        match collect_entries(es.drop_last(), replace, st) {
            Err(e) => Err(e),
            Ok(s1) => {
                let e = es.last();
                match constructor_of(e.id, e.name, e.params, e.kind) {
                    Err(err) => Err(err),
                    Ok(None) => Ok(s1),
                    Ok(Some((m, n, c))) => Ok(
                        Collected {
                            predicates: insert_if_absent(s1.predicates, c.name, n),
                            modules: file_constructor(s1.modules, m, n, c, replace),
                        },
                    ),
                }
            },
        }
    }
}

/// The empty state.
pub open spec fn nothing_collected() -> Collected {
    Collected { modules: Seq::empty(), predicates: Seq::empty() }
}

/// Everything the generator gathers from `schema`: the constructors first,
/// then the methods.
pub open spec fn collected(schema: Schema) -> Result<Collected, Error> {
    match collect_entries(constructor_entries(schema), false, nothing_collected()) {
        Err(e) => Err(e),
        Ok(st) => collect_entries(method_entries(schema), true, st),
    }
}

/// A type being built.
struct TypeDef {
    name: Vec<char>,
    constructors: Vec<Constructor>,
}

/// A module being built.
struct ModuleDef {
    name: Option<Vec<char>>,
    types: Vec<TypeDef>,
}

spec fn constructors_model(cs: Seq<Constructor>) -> Seq<ConstructorModel> {
    cs.map_values(|c: Constructor| c@)
}

impl View for TypeDef {
    type V = TypeModel;

    closed spec fn view(&self) -> TypeModel {
        TypeModel { name: self.name@, constructors: constructors_model(self.constructors@) }
    }
}

spec fn types_model(ts: Seq<TypeDef>) -> Seq<TypeModel> {
    ts.map_values(|t: TypeDef| t@)
}

impl View for ModuleDef {
    type V = ModuleModel;

    closed spec fn view(&self) -> ModuleModel {
        ModuleModel { name: chars_opt(self.name), types: types_model(self.types@) }
    }
}

spec fn modules_model(ms: Seq<ModuleDef>) -> Seq<ModuleModel> {
    ms.map_values(|m: ModuleDef| m@)
}

fn eq_opt_chars(a: &Option<Vec<char>>, b: &Option<Vec<char>>) -> (r: bool)
    ensures
        r == (chars_opt(*a) == chars_opt(*b)),
{
    match (a, b) {
        (Some(x), Some(y)) => eq_chars(x, y),
        (None, None) => true,
        _ => false,
    }
}

fn find_module(mods: &Vec<ModuleDef>, key: &Option<Vec<char>>) -> (r: usize)
    ensures
        r == module_slot(modules_model(mods@), chars_opt(*key)),
        r <= mods@.len(),
{
    let ghost ms = modules_model(mods@);
    let mut i: usize = 0;
    while i < mods.len()
        invariant
            ms == modules_model(mods@),
            ms.len() == mods@.len(),
            i <= mods.len(),
            forall|j: int| 0 <= j < i ==> (#[trigger] ms[j]).name != chars_opt(*key),
        decreases mods.len() - i,
    {
        assert(ms[i as int] == mods@[i as int]@);
        if eq_opt_chars(&mods[i].name, key) {
            proof {
                lemma_first_index(ms, |m: ModuleModel| m.name == chars_opt(*key), i as int);
            }
            return i;
        }
        i = i + 1;
    }
    proof {
        lemma_first_index(ms, |m: ModuleModel| m.name == chars_opt(*key), i as int);
    }
    i
}


fn find_type(ts: &Vec<TypeDef>, name: &Vec<char>) -> (r: usize)
    ensures
        r == type_slot(types_model(ts@), name@),
        r <= ts@.len(),
{
    let ghost ms = types_model(ts@);
    let mut i: usize = 0;
    while i < ts.len()
        invariant
            ms == types_model(ts@),
            ms.len() == ts@.len(),
            i <= ts.len(),
            forall|j: int| 0 <= j < i ==> (#[trigger] ms[j]).name != name@,
        decreases ts.len() - i,
    {
        assert(ms[i as int] == ts@[i as int]@);
        if eq_chars(&ts[i].name, name) {
            proof {
                lemma_first_index(ms, |t: TypeModel| t.name == name@, i as int);
            }
            return i;
        }
        i = i + 1;
    }
    proof {
        lemma_first_index(ms, |t: TypeModel| t.name == name@, i as int);
    }
    i
}

/// Files `c` under type `name` of module `key`, as [`file_constructor`] says.
fn file_exec(
    mods: &mut Vec<ModuleDef>,
    key: Option<Vec<char>>,
    name: Vec<char>,
    c: Constructor,
    replace: bool,
)
    ensures
        modules_model(final(mods)@) == file_constructor(
            modules_model(old(mods)@),
            chars_opt(key),
            name@,
            c@,
            replace,
        ),
{
    let ghost old_ms = modules_model(mods@);
    let ghost key_v = chars_opt(key);
    let ghost c_v = c@;
    let i = find_module(mods, &key);
    let had_module = i < mods.len();
    let mut m = if had_module {
        mods.remove(i)
    } else {
        ModuleDef { name: key, types: Vec::new() }
    };
    let ghost m_before = m@;
    assert(m_before =~= (if had_module {
        old_ms[i as int]
    } else {
        ModuleModel { name: key_v, types: Seq::empty() }
    }));
    let j = find_type(&m.types, &name);
    let ghost ts = m_before.types;
    if j < m.types.len() {
        let mut t = m.types.remove(j);
        assert(t@ == ts[j as int]);
        if !replace {
            let ghost cs_before = t.constructors@;
            t.constructors.push(c);
            assert(constructors_model(t.constructors@) =~= constructors_model(cs_before).push(c_v));
            m.types.insert(j, t);
        } else {
            let mut cs: Vec<Constructor> = Vec::new();
            cs.push(c);
            assert(constructors_model(cs@) =~= seq![c_v]);
            m.types.insert(j, TypeDef { name, constructors: cs });
        }
        assert(types_model(m.types@) =~= ts.update(j as int, types_model(m.types@)[j as int]));
    } else {
        let mut cs: Vec<Constructor> = Vec::new();
        cs.push(c);
        assert(constructors_model(cs@) =~= seq![c_v]);
        m.types.push(TypeDef { name, constructors: cs });
        assert(types_model(m.types@) =~= ts.push(types_model(m.types@)[j as int]));
    }
    let ghost spec_t = if (j as int) < ts.len() && !replace {
        TypeModel { name: ts[j as int].name, constructors: ts[j as int].constructors.push(c_v) }
    } else {
        TypeModel { name: name@, constructors: seq![c_v] }
    };
    let ghost spec_types = if (j as int) < ts.len() {
        ts.update(j as int, spec_t)
    } else {
        ts.push(spec_t)
    };
    assert(types_model(m.types@) =~= spec_types);
    assert(m@ =~= ModuleModel { name: m_before.name, types: spec_types });
    let ghost m_view = ModuleModel { name: m_before.name, types: spec_types };
    assert(m_before.name == (if had_module { old_ms[i as int].name } else { key_v }));
    if had_module {
        mods.insert(i, m);
        assert(modules_model(mods@)[i as int] == m_view);
        assert(modules_model(mods@) =~= old_ms.update(i as int, m_view));
    } else {
        mods.push(m);
        assert(modules_model(mods@)[i as int] == m_view);
        assert(modules_model(mods@) =~= old_ms.push(m_view));
    }
}


/// Once an error comes, reading more entries does not change it.
proof fn lemma_error_stays(es: Seq<EntryModel>, replace: bool, st: Collected, k: int)
    requires
        0 <= k <= es.len(),
        collect_entries(es.take(k), replace, st) is Err,
    ensures
        collect_entries(es, replace, st) == collect_entries(es.take(k), replace, st),
    decreases es.len() - k,
{
    if k < es.len() {
        assert(es.take(k + 1).drop_last() == es.take(k));
        lemma_error_stays(es, replace, st, k + 1);
    } else {
        assert(es.take(k) == es);
    }
}

/// One step of the reading, on the exec state: applies what
/// [`to_constructor`] found.
fn apply_found(
    mods: &mut Vec<ModuleDef>,
    preds: &mut Predicates,
    found: (Option<String>, String, Constructor),
    replace: bool,
)
    ensures
        ({
            let (m, n, c) = found;
            &&& modules_model(final(mods)@) == file_constructor(
                modules_model(old(mods)@),
                opt_view(m),
                n@,
                c@,
                replace,
            )
            &&& final(preds)@ == insert_if_absent(old(preds)@, c@.name, n@)
        }),
{
    let (m, n, c) = found;
    preds.insert(c.name.as_str(), n.as_str());
    let key = opt_chars(&m);
    let name = chars_of(n.as_str());
    file_exec(mods, key, name, c, replace);
}

/// Gathers the constructors and methods of `schema` into modules and types.
fn collect_exec(schema: &Schema) -> (r: Result<(Vec<ModuleDef>, Predicates), Error>)
    ensures
        match collected(*schema) {
            Ok(st) => r matches Ok((mods, preds)) && modules_model(mods@) == st.modules && preds@
                == st.predicates,
            Err(e) => r == Err::<(Vec<ModuleDef>, Predicates), Error>(e),
        },
{
    let ghost ces = constructor_entries(*schema);
    let ghost mes = method_entries(*schema);
    let mut mods: Vec<ModuleDef> = Vec::new();
    let mut preds = Predicates::new();
    assert(ces.take(0) == Seq::<EntryModel>::empty());
    assert(modules_model(mods@) =~= Seq::<ModuleModel>::empty());
    let mut i: usize = 0;
    while i < schema.constructors.len()
        invariant
            ces == constructor_entries(*schema),
            ces.len() == schema.constructors@.len(),
            i <= schema.constructors.len(),
            collect_entries(ces.take(i as int), false, nothing_collected()) == Ok::<Collected, Error>(
                Collected { modules: modules_model(mods@), predicates: preds@ },
            ),
        decreases schema.constructors.len() - i,
    {
        let c = &schema.constructors[i];
        assert(ces.take(i + 1).drop_last() == ces.take(i as int));
        assert(ces.take(i + 1).last() == ces[i as int]);
        let found = to_constructor(c.id.as_str(), c.predicate.as_str(), &c.params, c.kind.as_str());
        match found {
            Err(e) => {
                proof {
                    lemma_error_stays(ces, false, nothing_collected(), i + 1);
                }
                return Err(e);
            },
            Ok(None) => {},
            Ok(Some(f)) => {
                let ghost before = Collected { modules: modules_model(mods@), predicates: preds@ };
                apply_found(&mut mods, &mut preds, f, false);
                assert(Collected { modules: modules_model(mods@), predicates: preds@ } =~= Collected {
                    predicates: insert_if_absent(before.predicates, f.2@.name, f.1@),
                    modules: file_constructor(before.modules, opt_view(f.0), f.1@, f.2@, false),
                });
            },
        }
        i = i + 1;
    }
    assert(ces.take(ces.len() as int) == ces);
    let ghost st0 = Collected { modules: modules_model(mods@), predicates: preds@ };
    assert(mes.take(0) == Seq::<EntryModel>::empty());
    let mut i: usize = 0;
    while i < schema.methods.len()
        invariant
            mes == method_entries(*schema),
            ces == constructor_entries(*schema),
            mes.len() == schema.methods@.len(),
            collect_entries(ces, false, nothing_collected()) == Ok::<Collected, Error>(st0),
            i <= schema.methods.len(),
            collect_entries(mes.take(i as int), true, st0) == Ok::<Collected, Error>(
                Collected { modules: modules_model(mods@), predicates: preds@ },
            ),
        decreases schema.methods.len() - i,
    {
        let m = &schema.methods[i];
        assert(mes.take(i + 1).drop_last() == mes.take(i as int));
        assert(mes.take(i + 1).last() == mes[i as int]);
        let found = to_constructor(m.id.as_str(), m.method.as_str(), &m.params, m.method.as_str());
        match found {
            Err(e) => {
                proof {
                    lemma_error_stays(mes, true, st0, i + 1);
                }
                return Err(e);
            },
            Ok(None) => {},
            Ok(Some(f)) => {
                let ghost before = Collected { modules: modules_model(mods@), predicates: preds@ };
                apply_found(&mut mods, &mut preds, f, true);
                assert(Collected { modules: modules_model(mods@), predicates: preds@ } =~= Collected {
                    predicates: insert_if_absent(before.predicates, f.2@.name, f.1@),
                    modules: file_constructor(before.modules, opt_view(f.0), f.1@, f.2@, true),
                });
            },
        }
        i = i + 1;
    }
    assert(mes.take(mes.len() as int) == mes);
    Ok((mods, preds))
}


/// The attribute line that gives a type or variant its TL id, in hexadecimal.
pub open spec fn id_line(indent: Seq<char>, id: i32) -> Seq<char> {
    indent + "#[id = \"0x"@ + hex_lower((id as u32) as nat) + "\"]\n"@
}

/// The line that declares the parameter `p` as a field; the fields of a
/// struct (`single`) are public.
pub open spec fn param_line(
    p: ParamModel,
    single: bool,
    m: Option<Seq<char>>,
    ps: Seq<(Seq<char>, Seq<char>)>,
) -> Seq<char> {
    "    "@ + (if single {
        "pub "@
    } else {
        Seq::empty()
    }) + translated_id(p.name, m) + ": "@ + translated_typename(p.kind, m, ps) + ",\n"@
}

/// The field lines of the parameters `params`, in order.
pub open spec fn params_text(
    params: Seq<ParamModel>,
    single: bool,
    m: Option<Seq<char>>,
    ps: Seq<(Seq<char>, Seq<char>)>,
) -> Seq<char>
    decreases params.len(),
{
    if params.len() == 0 {
        Seq::empty()
    } else {
        params_text(params.drop_last(), single, m, ps) + param_line(params.last(), single, m, ps)
    }
}

/// The text of constructor `c` inside its type: a unit variant when it has no
/// parameters, the fields alone in a struct (`single`), and otherwise a
/// struct variant with its id.
pub open spec fn constructor_text(
    c: ConstructorModel,
    single: bool,
    m: Option<Seq<char>>,
    ps: Seq<(Seq<char>, Seq<char>)>,
) -> Seq<char> {
    let cname = translated_id(c.name, m);
    if c.params.len() == 0 {
        id_line("  "@, c.id) + "  "@ + cname + ",\n"@
    } else if single {
        params_text(c.params, true, m, ps)
    } else {
        id_line("  "@, c.id) + "  "@ + cname + " {\n"@ + params_text(c.params, false, m, ps)
            + "  },\n"@
    }
}

/// The texts of the constructors `cs`, in order.
pub open spec fn constructors_text(
    cs: Seq<ConstructorModel>,
    single: bool,
    m: Option<Seq<char>>,
    ps: Seq<(Seq<char>, Seq<char>)>,
) -> Seq<char>
    decreases cs.len(),
{
    if cs.len() == 0 {
        Seq::empty()
    } else {
        constructors_text(cs.drop_last(), single, m, ps) + constructor_text(cs.last(), single, m, ps)
    }
}

/// The definition of type `t`: a struct (a unit struct when its one
/// constructor has no parameters) when it has one constructor, an enum
/// otherwise.
pub open spec fn type_text(t: TypeModel, m: Option<Seq<char>>, ps: Seq<(Seq<char>, Seq<char>)>) -> Seq<
    char,
> {
    "#[derive(Debug, Serialize)]\n"@ + if t.constructors.len() == 1 {
        id_line(Seq::empty(), t.constructors[0].id) + if t.constructors[0].params.len() == 0 {
            "pub struct "@ + t.name + ";\n"@
        } else {
            "pub struct "@ + t.name + " {\n"@ + constructors_text(t.constructors, true, m, ps)
                + "}\n"@
        }
    } else {
        "pub enum "@ + t.name + " {\n"@ + constructors_text(t.constructors, false, m, ps) + "}\n"@
    }
}

/// The definitions of the types `ts`, in order.
pub open spec fn types_text(ts: Seq<TypeModel>, m: Option<Seq<char>>, ps: Seq<(Seq<char>, Seq<char>)>) -> Seq<
    char,
>
    decreases ts.len(),
{
    if ts.len() == 0 {
        Seq::empty()
    } else {
        types_text(ts.drop_last(), m, ps) + type_text(ts.last(), m, ps)
    }
}

/// Whether the TL type `k` is an integer of 128 bits or more (`int128`,
/// `int256`, ...), for which the generated code needs the 128-bit integer
/// type.
pub open spec fn is_wide_int(k: Seq<char>) -> bool {
    k.len() >= 3 && k.take(3) == seq!['i', 'n', 't'] && match parse_unsigned(
        k.skip(3),
        10,
        0xffff_ffff_ffff_ffff,
    ) {
        Some(b) => b >= 128,
        None => false,
    }
}

/// Whether some parameter of some constructor of module `md` is a wide integer.
pub open spec fn module_needs_i128(md: ModuleModel) -> bool {
    exists|a: int, b: int, c: int|
        0 <= a < md.types.len() && 0 <= b < md.types[a].constructors.len() && 0 <= c
            < md.types[a].constructors[b].params.len() && #[trigger] is_wide_int(
            md.types[a].constructors[b].params[c].kind,
        )
}

/// The text of module `md`.
pub open spec fn module_text(md: ModuleModel, ps: Seq<(Seq<char>, Seq<char>)>) -> Seq<char> {
    (match md.name {
        Some(n) => "pub mod "@ + n + " {\n"@,
        None => Seq::empty(),
    }) + (if module_needs_i128(md) {
        "use extprim::i128::i128;\n"@
    } else {
        Seq::empty()
    }) + types_text(md.types, md.name, ps) + (if md.name is Some {
        "}\n"@
    } else {
        Seq::empty()
    })
}

/// The texts of the modules `mods`, in order.
pub open spec fn modules_text(mods: Seq<ModuleModel>, ps: Seq<(Seq<char>, Seq<char>)>) -> Seq<char>
    decreases mods.len(),
{
    if mods.len() == 0 {
        Seq::empty()
    } else {
        modules_text(mods.drop_last(), ps) + module_text(mods.last(), ps)
    }
}

/// The Rust source generated from `schema`, or the error that stops it.
pub open spec fn generated(schema: Schema) -> Result<Seq<char>, Error> {
    match collected(schema) {
        Ok(st) => Ok(modules_text(st.modules, st.predicates)),
        Err(e) => Err(e),
    }
}

/// The parameter types of constructor `c`, in order.
pub open spec fn constructor_kinds(c: ConstructorModel) -> Seq<Seq<char>> {
    c.params.map_values(|p: ParamModel| p.kind)
}

/// The parameter types of the constructors of type `t`, in order.
pub open spec fn type_kinds(t: TypeModel) -> Seq<Seq<char>> {
    t.constructors.map_values(|c: ConstructorModel| constructor_kinds(c)).flatten()
}

/// The parameter types of module `md`, in the order the test for wide
/// integers reads them: type by type, constructor by constructor.
pub open spec fn module_kinds(md: ModuleModel) -> Seq<Seq<char>> {
    md.types.map_values(|t: TypeModel| type_kinds(t)).flatten()
}

/// Whether every type in `ks` that the test for wide integers reads (those
/// up to and including the first wide integer; the test stops there) can be
/// cut after its third byte, as the test does.
pub open spec fn examined_kinds_cut(ks: Seq<Seq<char>>) -> bool {
    forall|i: int|
        0 <= i < ks.len() && (forall|j: int| 0 <= j < i ==> !is_wide_int(#[trigger] ks[j]))
            ==> cuts_at(#[trigger] ks[i], 3)
}

/// Whether the test for wide integers can read, in every module of `mods`,
/// the parameter types it reaches without cutting one inside a character.
pub open spec fn kinds_cut_cleanly(mods: Seq<ModuleModel>) -> bool {
    forall|a: int| 0 <= a < mods.len() ==> examined_kinds_cut(module_kinds(#[trigger] mods[a]))
}

/// The views of a vector of character vectors.
pub open spec fn kinds_view(v: Seq<Vec<char>>) -> Seq<Seq<char>> {
    v.map_values(|x: Vec<char>| x@)
}

fn push_constructor_kinds(out: &mut Vec<Vec<char>>, c: &Constructor)
    ensures
        kinds_view(final(out)@) == kinds_view(old(out)@) + constructor_kinds(c@),
{
    let ghost ks = constructor_kinds(c@);
    let mut d: usize = 0;
    while d < c.params.len()
        invariant
            d <= c.params@.len(),
            ks == constructor_kinds(c@),
            ks.len() == c.params@.len(),
            kinds_view(out@) == kinds_view(old(out)@) + ks.take(d as int),
        decreases c.params.len() - d,
    {
        let k = chars_of(c.params[d].kind.as_str());
        assert(ks[d as int] == k@);
        let ghost before = out@;
        out.push(k);
        assert(kinds_view(out@) =~= kinds_view(before).push(k@));
        assert(ks.take(d + 1) =~= ks.take(d as int).push(k@));
        assert(kinds_view(out@) =~= kinds_view(old(out)@) + ks.take(d + 1));
        d = d + 1;
    }
    assert(ks.take(ks.len() as int) =~= ks);
}

fn push_type_kinds(out: &mut Vec<Vec<char>>, t: &TypeDef)
    ensures
        kinds_view(final(out)@) == kinds_view(old(out)@) + type_kinds(t@),
{
    let ghost parts = t@.constructors.map_values(|c: ConstructorModel| constructor_kinds(c));
    let mut b: usize = 0;
    assert(parts.take(0) =~= Seq::<Seq<Seq<char>>>::empty());
    while b < t.constructors.len()
        invariant
            b <= t.constructors@.len(),
            t@.constructors.len() == t.constructors@.len(),
            parts == t@.constructors.map_values(|c: ConstructorModel| constructor_kinds(c)),
            kinds_view(out@) == kinds_view(old(out)@) + parts.take(b as int).flatten(),
        decreases t.constructors.len() - b,
    {
        let ghost before = out@;
        assert(t@.constructors[b as int] == t.constructors@[b as int]@);
        push_constructor_kinds(out, &t.constructors[b]);
        assert(parts.take(b + 1) =~= parts.take(b as int).push(parts[b as int]));
        proof {
            parts.take(b as int).lemma_flatten_push(parts[b as int]);
        }
        assert(kinds_view(out@) =~= kinds_view(old(out)@) + parts.take(b + 1).flatten());
        b = b + 1;
    }
    assert(parts.take(parts.len() as int) =~= parts);
}

fn module_kinds_exec(md: &ModuleDef) -> (r: Vec<Vec<char>>)
    ensures
        kinds_view(r@) == module_kinds(md@),
{
    let ghost parts = md@.types.map_values(|t: TypeModel| type_kinds(t));
    let mut out: Vec<Vec<char>> = Vec::new();
    let mut a: usize = 0;
    assert(parts.take(0) =~= Seq::<Seq<Seq<char>>>::empty());
    assert(kinds_view(out@) =~= Seq::<Seq<char>>::empty());
    while a < md.types.len()
        invariant
            a <= md.types@.len(),
            md@.types.len() == md.types@.len(),
            parts == md@.types.map_values(|t: TypeModel| type_kinds(t)),
            kinds_view(out@) == parts.take(a as int).flatten(),
        decreases md.types.len() - a,
    {
        assert(md@.types[a as int] == md.types@[a as int]@);
        push_type_kinds(&mut out, &md.types[a]);
        assert(parts.take(a + 1) =~= parts.take(a as int).push(parts[a as int]));
        proof {
            parts.take(a as int).lemma_flatten_push(parts[a as int]);
        }
        a = a + 1;
    }
    assert(parts.take(parts.len() as int) =~= parts);
    out
}

fn examined_cut_exec(ks: &Vec<Vec<char>>) -> (r: bool)
    ensures
        r == examined_kinds_cut(kinds_view(ks@)),
{
    let ghost kv = kinds_view(ks@);
    let mut i: usize = 0;
    while i < ks.len()
        invariant
            i <= ks@.len(),
            kv == kinds_view(ks@),
            kv.len() == ks@.len(),
            forall|j: int| 0 <= j < i ==> !is_wide_int(#[trigger] kv[j]),
            forall|j: int| 0 <= j < i ==> cuts_at(#[trigger] kv[j], 3),
        decreases ks.len() - i,
    {
        assert(kv[i as int] == ks@[i as int]@);
        if !cuts_at_three(&ks[i]) {
            return false;
        }
        if is_wide_int_exec(&ks[i]) {
            assert forall|x: int|
                0 <= x < kv.len() && (forall|j: int| 0 <= j < x ==> !is_wide_int(#[trigger] kv[j]))
                    implies cuts_at(#[trigger] kv[x], 3) by {
                if x > i {
                    assert(is_wide_int(kv[i as int]));
                }
            }
            return true;
        }
        i = i + 1;
    }
    true
}

/// Whether `generate` can run on `schema` without cutting a parameter type
/// inside a character: true when the schema has a bad id (the error comes
/// first), and otherwise exactly when every module passes
/// [`kinds_cut_cleanly`].
pub fn kinds_sliceable(schema: &Schema) -> (r: bool)
    ensures
        r == (collected(*schema) matches Ok(st) ==> kinds_cut_cleanly(st.modules)),
{
    match collect_exec(schema) {
        Err(_) => true,
        Ok((mods, _)) => {
            let ghost mm = modules_model(mods@);
            let mut a: usize = 0;
            while a < mods.len()
                invariant
                    a <= mods@.len(),
                    mm == modules_model(mods@),
                    mm.len() == mods@.len(),
                    collected(*schema) matches Ok(st) && st.modules == mm,
                    forall|x: int| 0 <= x < a ==> examined_kinds_cut(module_kinds(#[trigger] mm[x])),
                decreases mods.len() - a,
            {
                assert(mm[a as int] == mods@[a as int]@);
                let ks = module_kinds_exec(&mods[a]);
                if !examined_cut_exec(&ks) {
                    assert(!examined_kinds_cut(module_kinds(mm[a as int])));
                    return false;
                }
                a = a + 1;
            }
            true
        },
    }
}

fn push_id_line(out: &mut Vec<char>, indent: &str, id: i32)
    ensures
        final(out)@ == old(out)@ + id_line(indent@, id),
{
    push_str(out, indent);
    push_str(out, "#[id = \"0x");
    push_hex(out, (id as u32) as u64);
    push_str(out, "\"]\n");
    assert(final(out)@ =~= old(out)@ + id_line(indent@, id));
}

fn push_params(
    out: &mut Vec<char>,
    params: &Vec<Parameter>,
    single: bool,
    m: &Option<Vec<char>>,
    ps: &Predicates,
)
    ensures
        final(out)@ == old(out)@ + params_text(params_model(params@), single, chars_opt(*m), ps@),
{
    let ghost pm = params_model(params@);
    let mut i: usize = 0;
    while i < params.len()
        invariant
            pm == params_model(params@),
            pm.len() == params@.len(),
            i <= params.len(),
            out@ == old(out)@ + params_text(pm.take(i as int), single, chars_opt(*m), ps@),
        decreases params.len() - i,
    {
        let ghost before = out@;
        let p = &params[i];
        assert(pm.take(i + 1).drop_last() =~= pm.take(i as int));
        assert(pm.take(i + 1).last() == p@);
        push_str(out, "    ");
        if single {
            push_str(out, "pub ");
        }
        let name = chars_of(p.name.as_str());
        let name_t = translate_id_chars(&name, m);
        push_all(out, &name_t);
        push_str(out, ": ");
        let kind = chars_of(p.kind.as_str());
        let kind_t = translate_typename_chars(&kind, m, ps);
        push_all(out, &kind_t);
        push_str(out, ",\n");
        assert(out@ =~= before + param_line(p@, single, chars_opt(*m), ps@));
        i = i + 1;
    }
    assert(pm.take(pm.len() as int) == pm);
}

fn push_constructor(
    out: &mut Vec<char>,
    c: &Constructor,
    single: bool,
    m: &Option<Vec<char>>,
    ps: &Predicates,
)
    ensures
        final(out)@ == old(out)@ + constructor_text(c@, single, chars_opt(*m), ps@),
{
    let name = chars_of(c.name.as_str());
    let cname = translate_id_chars(&name, m);
    if c.params.len() == 0 {
        push_id_line(out, "  ", c.id);
        push_str(out, "  ");
        push_all(out, &cname);
        push_str(out, ",\n");
        assert(final(out)@ =~= old(out)@ + constructor_text(c@, single, chars_opt(*m), ps@));
    } else if single {
        push_params(out, &c.params, true, m, ps);
    } else {
        push_id_line(out, "  ", c.id);
        push_str(out, "  ");
        push_all(out, &cname);
        push_str(out, " {\n");
        push_params(out, &c.params, false, m, ps);
        push_str(out, "  },\n");
        assert(final(out)@ =~= old(out)@ + constructor_text(c@, single, chars_opt(*m), ps@));
    }
}

fn push_constructors(
    out: &mut Vec<char>,
    cs: &Vec<Constructor>,
    single: bool,
    m: &Option<Vec<char>>,
    ps: &Predicates,
)
    ensures
        final(out)@ == old(out)@ + constructors_text(constructors_model(cs@), single, chars_opt(*m), ps@),
{
    let ghost cm = constructors_model(cs@);
    let mut i: usize = 0;
    while i < cs.len()
        invariant
            cm == constructors_model(cs@),
            cm.len() == cs@.len(),
            i <= cs.len(),
            out@ == old(out)@ + constructors_text(cm.take(i as int), single, chars_opt(*m), ps@),
        decreases cs.len() - i,
    {
        assert(cm.take(i + 1).drop_last() =~= cm.take(i as int));
        assert(cm.take(i + 1).last() == cs@[i as int]@);
        push_constructor(out, &cs[i], single, m, ps);
        assert(out@ =~= old(out)@ + constructors_text(cm.take(i + 1), single, chars_opt(*m), ps@));
        i = i + 1;
    }
    assert(cm.take(cm.len() as int) == cm);
}

fn push_type(out: &mut Vec<char>, t: &TypeDef, m: &Option<Vec<char>>, ps: &Predicates)
    ensures
        final(out)@ == old(out)@ + type_text(t@, chars_opt(*m), ps@),
{
    push_str(out, "#[derive(Debug, Serialize)]\n");
    if t.constructors.len() == 1 {
        assert(t@.constructors[0] == t.constructors@[0]@);
        push_id_line(out, "", t.constructors[0].id);
        if t.constructors[0].params.len() == 0 {
            push_str(out, "pub struct ");
            push_all(out, &t.name);
            push_str(out, ";\n");
        } else {
            push_str(out, "pub struct ");
            push_all(out, &t.name);
            push_str(out, " {\n");
            push_constructors(out, &t.constructors, true, m, ps);
            push_str(out, "}\n");
        }
    } else {
        push_str(out, "pub enum ");
        push_all(out, &t.name);
        push_str(out, " {\n");
        push_constructors(out, &t.constructors, false, m, ps);
        push_str(out, "}\n");
    }
    proof {
        reveal_strlit("");
    }
    assert(final(out)@ =~= old(out)@ + type_text(t@, chars_opt(*m), ps@));
}

fn push_types(out: &mut Vec<char>, ts: &Vec<TypeDef>, m: &Option<Vec<char>>, ps: &Predicates)
    ensures
        final(out)@ == old(out)@ + types_text(types_model(ts@), chars_opt(*m), ps@),
{
    let ghost tm = types_model(ts@);
    let mut i: usize = 0;
    while i < ts.len()
        invariant
            tm == types_model(ts@),
            tm.len() == ts@.len(),
            i <= ts.len(),
            out@ == old(out)@ + types_text(tm.take(i as int), chars_opt(*m), ps@),
        decreases ts.len() - i,
    {
        assert(tm.take(i + 1).drop_last() =~= tm.take(i as int));
        assert(tm.take(i + 1).last() == ts@[i as int]@);
        push_type(out, &ts[i], m, ps);
        assert(out@ =~= old(out)@ + types_text(tm.take(i + 1), chars_opt(*m), ps@));
        i = i + 1;
    }
    assert(tm.take(tm.len() as int) == tm);
}

fn is_wide_int_exec(k: &Vec<char>) -> (r: bool)
    ensures
        r == is_wide_int(k@),
{
    if k.len() < 3 {
        return false;
    }
    if !(k[0] == 'i' && k[1] == 'n' && k[2] == 't') {
        assert(k@.take(3) != seq!['i', 'n', 't']) by {
            if k@.take(3) == seq!['i', 'n', 't'] {
                assert(k@.take(3)[0] == 'i' && k@.take(3)[1] == 'n' && k@.take(3)[2] == 't');
            }
        }
        return false;
    }
    assert(k@.take(3) =~= seq!['i', 'n', 't']);
    let mut rest: Vec<char> = Vec::new();
    push_range(&mut rest, k, 3, k.len());
    assert(rest@ =~= k@.skip(3));
    match parse_unsigned_exec(&rest, 10, 0xffff_ffff_ffff_ffff) {
        Some(b) => b >= 128,
        None => false,
    }
}

fn needs_i128_exec(md: &ModuleDef) -> (r: bool)
    ensures
        r == module_needs_i128(md@),
{
    let ghost mm = md@;
    let mut a: usize = 0;
    while a < md.types.len()
        invariant
            mm == md@,
            mm.types.len() == md.types@.len(),
            a <= md.types.len(),
            forall|x: int, y: int, z: int|
                0 <= x < a && 0 <= y < mm.types[x].constructors.len() && 0 <= z
                    < mm.types[x].constructors[y].params.len() ==> !#[trigger] is_wide_int(
                    mm.types[x].constructors[y].params[z].kind,
                ),
        decreases md.types.len() - a,
    {
        let t = &md.types[a];
        assert(mm.types[a as int] == t@);
        let mut b: usize = 0;
        while b < t.constructors.len()
            invariant
                mm == md@,
                mm.types.len() == md.types@.len(),
                a < md.types@.len(),
                t == md.types@[a as int],
                mm.types[a as int] == t@,
                t@.constructors.len() == t.constructors@.len(),
                b <= t.constructors.len(),
                forall|x: int, y: int, z: int|
                    0 <= x < a && 0 <= y < mm.types[x].constructors.len() && 0 <= z
                        < mm.types[x].constructors[y].params.len() ==> !#[trigger] is_wide_int(
                        mm.types[x].constructors[y].params[z].kind,
                    ),
                forall|y: int, z: int|
                    0 <= y < b && 0 <= z < mm.types[a as int].constructors[y].params.len()
                        ==> !#[trigger] is_wide_int(
                        mm.types[a as int].constructors[y].params[z].kind,
                    ),
            decreases t.constructors.len() - b,
        {
            let c = &t.constructors[b];
            assert(t@.constructors[b as int] == c@);
            let mut d: usize = 0;
            while d < c.params.len()
                invariant
                    mm == md@,
                    a < md.types@.len(),
                    mm.types[a as int] == t@,
                    b < t.constructors@.len(),
                    t@.constructors[b as int] == c@,
                    c@.params.len() == c.params@.len(),
                    d <= c.params.len(),
                    forall|z: int| 0 <= z < d ==> !#[trigger] is_wide_int(c@.params[z].kind),
                decreases c.params.len() - d,
            {
                let kind = chars_of(c.params[d].kind.as_str());
                assert(c@.params[d as int].kind == kind@);
                if is_wide_int_exec(&kind) {
                    assert(is_wide_int(mm.types[a as int].constructors[b as int].params[d as int].kind));
                    return true;
                }
                d = d + 1;
            }
            b = b + 1;
        }
        a = a + 1;
    }
    false
}

fn push_module(out: &mut Vec<char>, md: &ModuleDef, ps: &Predicates)
    ensures
        final(out)@ == old(out)@ + module_text(md@, ps@),
{
    match &md.name {
        Some(n) => {
            push_str(out, "pub mod ");
            push_all(out, n);
            push_str(out, " {\n");
        },
        None => {},
    }
    if needs_i128_exec(md) {
        push_str(out, "use extprim::i128::i128;\n");
    }
    push_types(out, &md.types, &md.name, ps);
    if md.name.is_some() {
        push_str(out, "}\n");
    }
    assert(final(out)@ =~= old(out)@ + module_text(md@, ps@));
}

fn render_exec(mods: &Vec<ModuleDef>, ps: &Predicates) -> (r: Vec<char>)
    ensures
        r@ == modules_text(modules_model(mods@), ps@),
{
    let ghost mm = modules_model(mods@);
    let mut out: Vec<char> = Vec::new();
    let mut i: usize = 0;
    assert(mm.take(0) =~= Seq::<ModuleModel>::empty());
    while i < mods.len()
        invariant
            mm == modules_model(mods@),
            mm.len() == mods@.len(),
            i <= mods.len(),
            out@ == modules_text(mm.take(i as int), ps@),
        decreases mods.len() - i,
    {
        assert(mm.take(i + 1).drop_last() =~= mm.take(i as int));
        assert(mm.take(i + 1).last() == mods@[i as int]@);
        push_module(&mut out, &mods[i], ps);
        i = i + 1;
    }
    assert(mm.take(mm.len() as int) == mm);
    out
}

/// Generates the Rust definitions of `schema`: each kind becomes a type (a
/// struct when it has one constructor, an enum otherwise) and each method a
/// struct, inside a module per namespace; fails when an id is not an `i32`.
pub fn generate(schema: &Schema) -> (r: Result<String, Error>)
    requires
        collected(*schema) matches Ok(st) ==> kinds_cut_cleanly(st.modules),
    ensures
        match generated(*schema) {
            Ok(text) => r matches Ok(s) && s@ == text,
            Err(e) => r == Err::<String, Error>(e),
        },
{
    match collect_exec(schema) {
        Ok((mods, preds)) => {
            let out = render_exec(&mods, &preds);
            Ok(string_from(&out))
        },
        Err(e) => Err(e),
    }
}


/// The types `ts` are told apart by their names, and each has a constructor.
pub open spec fn types_well_formed(ts: Seq<TypeModel>) -> bool {
    &&& forall|a: int, b: int| 0 <= a < b < ts.len() ==> ts[a].name != ts[b].name
    &&& forall|a: int| 0 <= a < ts.len() ==> (#[trigger] ts[a]).constructors.len() > 0
}

/// The modules `mods` are told apart by their names, and so are the types
/// of each.
pub open spec fn modules_well_formed(mods: Seq<ModuleModel>) -> bool {
    &&& forall|i: int, j: int| 0 <= i < j < mods.len() ==> mods[i].name != mods[j].name
    &&& forall|i: int| 0 <= i < mods.len() ==> types_well_formed(#[trigger] mods[i].types)
}

/// No name occurs twice among the keys of `ps`.
pub open spec fn keys_distinct(ps: Seq<(Seq<char>, Seq<char>)>) -> bool {
    forall|i: int, j: int| 0 <= i < j < ps.len() ==> ps[i].0 != ps[j].0
}

proof fn lemma_lookup_absent(ps: Seq<(Seq<char>, Seq<char>)>, k: Seq<char>)
    requires
        lookup(ps, k) is None,
    ensures
        forall|i: int| 0 <= i < ps.len() ==> (#[trigger] ps[i]).0 != k,
    decreases ps.len(),
{
    if ps.len() > 0 {
        lemma_lookup_absent(ps.drop_first(), k);
        assert forall|i: int| 0 <= i < ps.len() implies (#[trigger] ps[i]).0 != k by {
            if i > 0 {
                assert(ps[i] == ps.drop_first()[i - 1]);
            }
        }
    }
}

proof fn lemma_insert_keeps_distinct(ps: Seq<(Seq<char>, Seq<char>)>, k: Seq<char>, v: Seq<char>)
    requires
        keys_distinct(ps),
    ensures
        keys_distinct(insert_if_absent(ps, k, v)),
{
    if lookup(ps, k) is None {
        lemma_lookup_absent(ps, k);
        let q = ps.push((k, v));
        assert forall|i: int, j: int| 0 <= i < j < q.len() implies q[i].0 != q[j].0 by {
            if j == ps.len() {
                assert(q[i] == ps[i]);
            } else {
                assert(q[i] == ps[i] && q[j] == ps[j]);
            }
        }
    }
}

proof fn lemma_file_keeps_well_formed(
    mods: Seq<ModuleModel>,
    key: Option<Seq<char>>,
    name: Seq<char>,
    c: ConstructorModel,
    replace: bool,
)
    requires
        modules_well_formed(mods),
    ensures
        modules_well_formed(file_constructor(mods, key, name, c, replace)),
{
    let i = module_slot(mods, key);
    lemma_first_index_bound(mods, |m: ModuleModel| m.name == key);
    let m = if i < mods.len() {
        mods[i]
    } else {
        ModuleModel { name: key, types: Seq::empty() }
    };
    let j = type_slot(m.types, name);
    lemma_first_index_bound(m.types, |t: TypeModel| t.name == name);
    let t = if j < m.types.len() && !replace {
        TypeModel { name: m.types[j].name, constructors: m.types[j].constructors.push(c) }
    } else {
        TypeModel { name, constructors: seq![c] }
    };
    let types = if j < m.types.len() {
        m.types.update(j, t)
    } else {
        m.types.push(t)
    };
    assert(types_well_formed(m.types)) by {
        if i < mods.len() {
            assert(types_well_formed(mods[i].types));
        }
    }
    assert(types_well_formed(types)) by {
        assert forall|a: int, b: int| 0 <= a < b < types.len() implies types[a].name
            != types[b].name by {
            if j < m.types.len() {
                if a == j {
                    assert(types[b] == m.types[b]);
                } else if b == j {
                    assert(types[a] == m.types[a]);
                } else {
                    assert(types[a] == m.types[a] && types[b] == m.types[b]);
                }
            } else {
                if b == m.types.len() {
                    assert(types[a] == m.types[a]);
                    assert(!(|t: TypeModel| t.name == name)(m.types[a]));
                } else {
                    assert(types[a] == m.types[a] && types[b] == m.types[b]);
                }
            }
        }
        assert forall|a: int| 0 <= a < types.len() implies (#[trigger] types[a]).constructors.len()
            > 0 by {
            if a != j {
                assert(types[a] == m.types[a]);
            }
        }
    }
    let m2 = ModuleModel { name: m.name, types };
    let out = file_constructor(mods, key, name, c, replace);
    assert(out == if i < mods.len() {
        mods.update(i, m2)
    } else {
        mods.push(m2)
    });
    assert forall|x: int, y: int| 0 <= x < y < out.len() implies out[x].name != out[y].name by {
        if i < mods.len() {
            assert(out[x].name == mods[x].name);
            assert(out[y].name == mods[y].name);
        } else if y == mods.len() {
            assert(out[x] == mods[x]);
            assert(!(|m: ModuleModel| m.name == key)(mods[x]));
        } else {
            assert(out[x] == mods[x] && out[y] == mods[y]);
        }
    }
    assert forall|x: int| 0 <= x < out.len() implies types_well_formed(#[trigger] out[x].types) by {
        if x != i {
            assert(out[x] == mods[x]);
        }
    }
}

proof fn lemma_collect_keeps_well_formed(es: Seq<EntryModel>, replace: bool, st: Collected)
    requires
        modules_well_formed(st.modules),
        keys_distinct(st.predicates),
    ensures
        collect_entries(es, replace, st) matches Ok(s) ==> modules_well_formed(s.modules)
            && keys_distinct(s.predicates),
    decreases es.len(),
{
    if es.len() > 0 {
        lemma_collect_keeps_well_formed(es.drop_last(), replace, st);
        if let Ok(s1) = collect_entries(es.drop_last(), replace, st) {
            let e = es.last();
            if let Ok(Some((m, n, c))) = constructor_of(e.id, e.name, e.params, e.kind) {
                lemma_insert_keeps_distinct(s1.predicates, c.name, n);
                lemma_file_keeps_well_formed(s1.modules, m, n, c, replace);
            }
        }
    }
}

/// What the generator gathers behaves as the maps it stands for: no module
/// name occurs twice, no type name occurs twice in a module, every type has
/// a constructor, and every constructor or method name is mapped to one type
/// only (the first one met).
pub proof fn law_collected_is_a_map(schema: Schema)
    ensures
        collected(schema) matches Ok(st) ==> modules_well_formed(st.modules) && keys_distinct(
            st.predicates,
        ),
{
    lemma_collect_keeps_well_formed(constructor_entries(schema), false, nothing_collected());
    if let Ok(st) = collect_entries(constructor_entries(schema), false, nothing_collected()) {
        lemma_collect_keeps_well_formed(method_entries(schema), true, st);
    }
}


/// A field whose type is named by its bare name is written with that type
/// reached through `super::` inside a module, and as it is at the top level.
pub proof fn law_field_type_in_module(
    p: ParamModel,
    single: bool,
    module: Seq<char>,
    ps: Seq<(Seq<char>, Seq<char>)>,
)
    requires
        is_plain_type(p.kind, ps),
    ensures
        param_line(p, single, Some(module), ps) == "    "@ + (if single {
            "pub "@
        } else {
            Seq::empty()
        }) + translated_id(p.name, Some(module)) + ": "@ + "super::"@ + p.kind + ",\n"@,
        param_line(p, single, None, ps) == "    "@ + (if single {
            "pub "@
        } else {
            Seq::empty()
        }) + translated_id(p.name, None) + ": "@ + p.kind + ",\n"@,
{
    law_plain_type(p.kind, ps, module);
    let head = "    "@ + (if single {
        "pub "@
    } else {
        Seq::empty()
    }) + translated_id(p.name, Some(module)) + ": "@;
    assert(head + ("super::"@ + p.kind) + ",\n"@ =~= head + "super::"@ + p.kind + ",\n"@);
}

} // verus!
