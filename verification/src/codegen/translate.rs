//! Translation of TL names and types into Rust names and types.
use vstd::prelude::*;
use vstd::string::*;
use crate::codegen::schema::{
    duplicate_params, opt_view, params_model, Constructor, ConstructorModel, ParamModel, Parameter,
};
use crate::error::Error;
use crate::numeral::{i32_error, parse_i32, parse_i32_exec};
use crate::text::{
    chars_of, contains_run, contains_str, eq_chars, eq_str, find_char, first_index,
    lemma_first_index, lemma_first_index_bound, lemma_without_char_len, push_all, push_range, push_str, remove_char,
    string_from, without_char,
};

verus! {

/// Index of the first `.` in `s`, or `s.len()` when there is none.
pub open spec fn dot_index(s: Seq<char>) -> int {
    first_index(s, |c: char| c == '.')
}

/// `s` split at its first `.`: the part before it (when there is a `.`) and
/// the part after it (all of `s` when there is none).
pub open spec fn split_dot(s: Seq<char>) -> (Option<Seq<char>>, Seq<char>) {
    let i = dot_index(s);
    if i < s.len() {
        (Some(s.take(i)), s.skip(i + 1))
    } else {
        (None, s)
    }
}

/// The Rust path of the TL identifier `id`, seen from module `m`: a dotted
/// name keeps only its last part inside its own module and becomes
/// `module::name` elsewhere; the keyword `type` becomes `type_`.
pub open spec fn translated_id(id: Seq<char>, m: Option<Seq<char>>) -> Seq<char> {
    match split_dot(id) {
        (Some(p), rest) => if m == Some(p) {
            rest
        } else {
            p + "::"@ + rest
        },
        (None, _) => if id == "type"@ {
            "type_"@
        } else {
            id
        },
    }
}

/// The view of an optional character vector.
pub open spec fn chars_opt(m: Option<Vec<char>>) -> Option<Seq<char>> {
    match m {
        Some(v) => Some(v@),
        None => None,
    }
}

/// The characters of an optional string.
pub fn opt_chars(m: &Option<String>) -> (r: Option<Vec<char>>)
    ensures
        chars_opt(r) == opt_view(*m),
{
    match m {
        Some(s) => Some(chars_of(s.as_str())),
        None => None,
    }
}

/// A copy of `v`.
pub fn copy_chars(v: &Vec<char>) -> (r: Vec<char>)
    ensures
        r@ == v@,
{
    let mut r: Vec<char> = Vec::new();
    push_all(&mut r, v);
    assert(r@ == v@);
    r
}

/// Whether the optional module `m` is `Some` and names exactly `v[..k]`.
fn module_is(m: &Option<Vec<char>>, v: &Vec<char>, k: usize) -> (r: bool)
    requires
        k <= v@.len(),
    ensures
        r == (chars_opt(*m) == Some(v@.take(k as int))),
{
    match m {
        Some(mv) => {
            let mut p: Vec<char> = Vec::new();
            push_range(&mut p, v, 0, k);
            assert(p@ == v@.take(k as int));
            eq_chars(mv, &p)
        },
        None => false,
    }
}

/// [`translate_id`] on characters.
pub fn translate_id_chars(id: &Vec<char>, m: &Option<Vec<char>>) -> (r: Vec<char>)
    ensures
        r@ == translated_id(id@, chars_opt(*m)),
{
    let i = find_char(id, '.');
    assert(i == dot_index(id@));
    let mut out: Vec<char> = Vec::new();
    if i < id.len() {
        if module_is(m, id, i) {
            push_range(&mut out, id, i + 1, id.len());
            assert(out@ == id@.skip(i + 1));
        } else {
            push_range(&mut out, id, 0, i);
            push_str(&mut out, "::");
            push_range(&mut out, id, i + 1, id.len());
            assert(id@.subrange(0, i as int) == id@.take(i as int));
            assert(id@.subrange(i + 1, id@.len() as int) == id@.skip(i + 1));
        }
    } else if eq_str(id, "type") {
        push_str(&mut out, "type_");
    } else {
        push_all(&mut out, id);
    }
    out
}

/// Translates a TL identifier (a constructor, method or parameter name) into
/// the Rust identifier or path that stands for it inside `current_module`.
pub fn translate_id(id: &str, current_module: &Option<String>) -> (r: String)
    ensures
        r@ == translated_id(id@, opt_view(*current_module)),
{
    let v = chars_of(id);
    let m = opt_chars(current_module);
    let r = translate_id_chars(&v, &m);
    string_from(&r)
}


/// The first value stored under `k` in the association list `ps`.
pub open spec fn lookup(ps: Seq<(Seq<char>, Seq<char>)>, k: Seq<char>) -> Option<Seq<char>>
    decreases ps.len(),
{
    if ps.len() == 0 {
        None
    } else if ps[0].0 == k {
        Some(ps[0].1)
    } else {
        lookup(ps.drop_first(), k)
    }
}

/// `ps` with `(k, v)` added at the end, unless `k` already has a value.
pub open spec fn insert_if_absent(ps: Seq<(Seq<char>, Seq<char>)>, k: Seq<char>, v: Seq<char>) -> Seq<
    (Seq<char>, Seq<char>),
> {
    if lookup(ps, k) is Some {
        ps
    } else {
        ps.push((k, v))
    }
}

/// The map from constructor and method names to the Rust type that holds
/// them, in the order the names were first met.
pub struct Predicates {
    entries: Vec<(Vec<char>, Vec<char>)>,
}

impl View for Predicates {
    type V = Seq<(Seq<char>, Seq<char>)>;

    closed spec fn view(&self) -> Seq<(Seq<char>, Seq<char>)> {
        self.entries@.map_values(|e: (Vec<char>, Vec<char>)| (e.0@, e.1@))
    }
}

impl Predicates {
    /// An empty map.
    pub fn new() -> (r: Predicates)
        ensures
            r@ == Seq::<(Seq<char>, Seq<char>)>::empty(),
    {
        let r = Predicates { entries: Vec::new() };
        assert(r@ =~= Seq::<(Seq<char>, Seq<char>)>::empty());
        r
    }

    /// The value stored under `key`, on characters.
    pub fn get_chars(&self, key: &Vec<char>) -> (r: Option<Vec<char>>)
        ensures
            chars_opt(r) == lookup(self@, key@),
    {
        let ghost ps = self@;
        let mut i: usize = 0;
        assert(ps.skip(0) == ps);
        while i < self.entries.len()
            invariant
                ps == self@,
                ps.len() == self.entries@.len(),
                i <= self.entries.len(),
                lookup(ps, key@) == lookup(ps.skip(i as int), key@),
            decreases self.entries.len() - i,
        {
            assert(ps.skip(i as int)[0] == ps[i as int]);
            assert(ps[i as int] == (self.entries@[i as int].0@, self.entries@[i as int].1@));
            if eq_chars(&self.entries[i].0, key) {
                return Some(copy_chars(&self.entries[i].1));
            }
            assert(ps.skip(i as int).drop_first() == ps.skip(i + 1));
            i = i + 1;
        }
        assert(ps.skip(i as int).len() == 0);
        None
    }

    /// Stores `value` under `key` unless `key` already has a value, on characters.
    pub fn insert_chars(&mut self, key: &Vec<char>, value: &Vec<char>)
        ensures
            final(self)@ == insert_if_absent(old(self)@, key@, value@),
    {
        if self.get_chars(key).is_none() {
            let ghost before = self@;
            self.entries.push((copy_chars(key), copy_chars(value)));
            assert(self@ =~= before.push((key@, value@)));
        }
    }

    /// The Rust type that holds the constructor or method `key`, if known.
    pub fn get(&self, key: &str) -> (r: Option<String>)
        ensures
            opt_view(r) == lookup(self@, key@),
    {
        let k = chars_of(key);
        match self.get_chars(&k) {
            Some(v) => Some(string_from(&v)),
            None => None,
        }
    }

    /// Records that `key` is held by the Rust type `value`, unless `key` is
    /// already known: the first type recorded for a name stays.
    pub fn insert(&mut self, key: &str, value: &str)
        ensures
            final(self)@ == insert_if_absent(old(self)@, key@, value@),
    {
        let k = chars_of(key);
        let v = chars_of(value);
        self.insert_chars(&k, &v);
    }
}

/// Whether `c` delimits the argument of `Vector<..>`.
pub open spec fn is_angle(c: char) -> bool {
    c == '<' || c == '>'
}

/// The second piece of `t` split at `<` and `>`: the type argument of
/// `Vector<t>` (empty when `t` has no `<` or `>`).
pub open spec fn angle_inner(t: Seq<char>) -> Seq<char> {
    let i = first_index(t, |c: char| is_angle(c));
    if i < t.len() {
        let rest = t.skip(i + 1);
        rest.take(first_index(rest, |c: char| is_angle(c)))
    } else {
        Seq::empty()
    }
}

/// The Rust type that stands for a TL primitive type, if `t` is one.
pub open spec fn primitive_type(t: Seq<char>) -> Option<Seq<char>> {
    if t == "string"@ {
        Some("String"@)
    } else if t == "Bool"@ {
        Some("bool"@)
    } else if t == "int"@ {
        Some("i32"@)
    } else if t == "int128"@ {
        Some("i128"@)
    } else if t == "int256"@ {
        Some("(i128, i128)"@)
    } else if t == "Vec<int>"@ {
        Some("Vec<i32>"@)
    } else if t == "Vec<long>"@ {
        Some("Vec<i64>"@)
    } else if t == "long"@ {
        Some("i64"@)
    } else if t == "double"@ {
        Some("f64"@)
    } else if t == "bytes"@ {
        Some("Vec<u8>"@)
    } else {
        None
    }
}

/// Whether `t` names a vector type.
pub open spec fn is_vector(t: Seq<char>) -> bool {
    t.len() > 0 && (contains_run(t, "Vector<"@) || contains_run(t, "vector<"@))
}

/// The Rust type that stands for the TL type `t` inside module `m`, given the
/// known constructor names `ps`.
pub open spec fn translated_typename(
    t: Seq<char>,
    m: Option<Seq<char>>,
    ps: Seq<(Seq<char>, Seq<char>)>,
) -> Seq<char>
    decreases t.len(),
{
    if t == "!X"@ {
        "Box<::std::any::Any>"@
    } else if t.contains('%') {
        proof {
            lemma_without_char_len(t, '%');
        }
        translated_typename(without_char(t, '%'), m, ps)
    } else if is_vector(t) {
        proof {
            lemma_first_index_bound(t, |c: char| is_angle(c));
            lemma_first_index_bound(
                t.skip(first_index(t, |c: char| is_angle(c)) + 1),
                |c: char| is_angle(c),
            );
        }
        "Vec<"@ + translated_typename(angle_inner(t), m, ps) + ">"@
    } else if t.contains('.') {
        match split_dot(t) {
            (Some(p), rest) => if m == Some(p) {
                rest
            } else if m is Some {
                "super::"@ + p + "::"@ + rest
            } else {
                "self::"@ + p + "::"@ + rest
            },
            (None, rest) => rest,
        }
    } else if lookup(ps, t) is Some {
        lookup(ps, t)->0
    } else if primitive_type(t) is Some {
        primitive_type(t)->0
    } else if m is Some {
        "super::"@ + t
    } else {
        t
    }
}

/// The Rust type for a TL primitive, on characters.
fn primitive_type_chars(t: &Vec<char>) -> (r: Option<Vec<char>>)
    ensures
        chars_opt(r) == primitive_type(t@),
{
    let name: &str = if eq_str(t, "string") {
        "String"
    } else if eq_str(t, "Bool") {
        "bool"
    } else if eq_str(t, "int") {
        "i32"
    } else if eq_str(t, "int128") {
        "i128"
    } else if eq_str(t, "int256") {
        "(i128, i128)"
    } else if eq_str(t, "Vec<int>") {
        "Vec<i32>"
    } else if eq_str(t, "Vec<long>") {
        "Vec<i64>"
    } else if eq_str(t, "long") {
        "i64"
    } else if eq_str(t, "double") {
        "f64"
    } else if eq_str(t, "bytes") {
        "Vec<u8>"
    } else {
        return None;
    };
    Some(chars_of(name))
}

/// Index of the first `<` or `>` in `v`, or `v.len()` when there is none.
fn find_angle(v: &Vec<char>, from: usize) -> (r: usize)
    requires
        from <= v@.len(),
    ensures
        r - from == first_index(v@.skip(from as int), |c: char| is_angle(c)),
        from <= r <= v@.len(),
{
    let ghost s = v@.skip(from as int);
    let mut i: usize = from;
    while i < v.len()
        invariant
            from <= i <= v@.len(),
            s == v@.skip(from as int),
            forall|j: int| 0 <= j < i - from ==> !is_angle(#[trigger] s[j]),
        decreases v.len() - i,
    {
        if v[i] == '<' || v[i] == '>' {
            assert(s[i - from] == v@[i as int]);
            proof {
                lemma_first_index(s, |c: char| is_angle(c), i - from);
            }
            return i;
        }
        assert(s[i - from] == v@[i as int]);
        i = i + 1;
    }
    proof {
        lemma_first_index(s, |c: char| is_angle(c), i - from);
    }
    i
}

/// [`translate_typename`] on characters.
pub fn translate_typename_chars(t: &Vec<char>, m: &Option<Vec<char>>, ps: &Predicates) -> (r: Vec<
    char,
>)
    ensures
        r@ == translated_typename(t@, chars_opt(*m), ps@),
    decreases t@.len(),
{
    let mut out: Vec<char> = Vec::new();
    if eq_str(t, "!X") {
        push_str(&mut out, "Box<::std::any::Any>");
        return out;
    }
    let pct = find_char(t, '%');
    if pct < t.len() {
        assert(t@.contains('%'));
        proof {
            lemma_without_char_len(t@, '%');
        }
        let bare = remove_char(t, '%');
        return translate_typename_chars(&bare, m, ps);
    }
    assert(!t@.contains('%'));
    if contains_str(t, "Vector<") || contains_str(t, "vector<") {
        proof {
            reveal_strlit("Vector<");
            reveal_strlit("vector<");
        }
        assert(t@.len() > 0);
        let i = find_angle(t, 0);
        assert(t@.skip(0) == t@);
        let mut inner: Vec<char> = Vec::new();
        if i < t.len() {
            let j = find_angle(t, i + 1);
            push_range(&mut inner, t, i + 1, j);
            assert(inner@ == t@.skip(i + 1).take(j - (i + 1)));
        }
        assert(inner@ == angle_inner(t@));
        proof {
            lemma_first_index_bound(t@, |c: char| is_angle(c));
        }
        let arg = translate_typename_chars(&inner, m, ps);
        push_str(&mut out, "Vec<");
        push_all(&mut out, &arg);
        push_str(&mut out, ">");
        return out;
    }
    let dot = find_char(t, '.');
    if dot < t.len() {
        assert(t@.contains('.'));
        assert(dot == dot_index(t@));
        assert(t@.subrange(0, dot as int) == t@.take(dot as int));
        assert(t@.subrange(dot + 1, t@.len() as int) == t@.skip(dot + 1));
        if module_is(m, t, dot) {
            push_range(&mut out, t, dot + 1, t.len());
        } else if m.is_some() {
            push_str(&mut out, "super::");
            push_range(&mut out, t, 0, dot);
            push_str(&mut out, "::");
            push_range(&mut out, t, dot + 1, t.len());
        } else {
            push_str(&mut out, "self::");
            push_range(&mut out, t, 0, dot);
            push_str(&mut out, "::");
            push_range(&mut out, t, dot + 1, t.len());
        }
        return out;
    }
    assert(!t@.contains('.')) by {
        if t@.contains('.') {
            let k = choose|k: int| 0 <= k < t@.len() && t@[k] == '.';
            assert(t@[k] == '.');
        }
    }
    match ps.get_chars(t) {
        Some(v) => {
            return v;
        },
        None => {},
    }
    match primitive_type_chars(t) {
        Some(v) => {
            return v;
        },
        None => {},
    }
    if m.is_some() {
        push_str(&mut out, "super::");
    }
    push_all(&mut out, t);
    out
}

/// Translates a TL type (as a parameter of the schema names it) into the Rust
/// type that holds it inside `current_module`, given the map from
/// constructor names to the Rust types that hold them.
pub fn translate_typename(typename: &str, current_module: &Option<String>, predicates: &Predicates) -> (r:
    String)
    ensures
        r@ == translated_typename(typename@, opt_view(*current_module), predicates@),
{
    let t = chars_of(typename);
    let m = opt_chars(current_module);
    let r = translate_typename_chars(&t, &m, predicates);
    string_from(&r)
}


/// The kinds that the generator leaves out: the TL primitives it maps onto
/// Rust types (`Bool`, `True`, `Vector t`, `Null`) and `PeerSettings`, which
/// the schema defines in a form that cannot be used.
pub open spec fn skipped_kind(kind: Seq<char>) -> bool {
    kind == "Bool"@ || kind == "True"@ || kind == "Vector t"@ || kind == "Null"@ || kind
        == "PeerSettings"@
}

/// A constructor found in the schema: the module its kind lives in, the name
/// of its kind inside that module, and the constructor itself.
pub type Found = (Option<String>, String, Constructor);

/// What [`to_constructor`] gives, as text.
pub type FoundModel = (Option<Seq<char>>, Seq<char>, ConstructorModel);

/// The view of a result of [`to_constructor`].
pub open spec fn found_view(r: Result<Option<Found>, Error>) -> Result<Option<FoundModel>, Error> {
    match r {
        Ok(Some((m, n, c))) => Ok(Some((opt_view(m), n@, c@))),
        Ok(None) => Ok(None),
        Err(e) => Err(e),
    }
}

/// What the generator makes of the schema entry `id`, `predicate`, `params`,
/// `kind`: nothing for a skipped kind, an error when `id` is not an `i32`,
/// and otherwise the constructor, filed under the module and name that
/// `kind` splits into at its first `.`.
pub open spec fn constructor_of(
    id: Seq<char>,
    predicate: Seq<char>,
    params: Seq<ParamModel>,
    kind: Seq<char>,
) -> Result<Option<FoundModel>, Error> {
    if skipped_kind(kind) {
        Ok(None)
    } else {
        match parse_i32(id) {
            None => Err(Error::ParseInt(i32_error(id))),
            Some(v) => Ok(
                Some(
                    (
                        split_dot(kind).0,
                        split_dot(kind).1,
                        ConstructorModel { id: v as i32, name: predicate, params },
                    ),
                ),
            ),
        }
    }
}

/// Turns one entry of the schema into a constructor of the generated code:
/// `None` for the kinds the generator leaves out, an error when the id is not
/// a decimal `i32`, and otherwise the module, the type name and the
/// constructor.
pub fn to_constructor(id: &str, predicate: &str, params: &Vec<Parameter>, kind: &str) -> (r: Result<
    Option<Found>,
    Error,
>)
    ensures
        found_view(r) == constructor_of(id@, predicate@, params_model(params@), kind@),
{
    let k = chars_of(kind);
    if eq_str(&k, "Bool") || eq_str(&k, "True") || eq_str(&k, "Vector t") || eq_str(&k, "Null") {
        return Ok(None);
    }
    if eq_str(&k, "PeerSettings") {
        return Ok(None);
    }
    let dot = find_char(&k, '.');
    let mut name: Vec<char> = Vec::new();
    let module: Option<String> = if dot < k.len() {
        let mut pre: Vec<char> = Vec::new();
        push_range(&mut pre, &k, 0, dot);
        push_range(&mut name, &k, dot + 1, k.len());
        assert(pre@ == k@.take(dot as int));
        assert(name@ == k@.skip(dot + 1));
        Some(string_from(&pre))
    } else {
        push_all(&mut name, &k);
        None
    };
    let digits = chars_of(id);
    let value = match parse_i32_exec(&digits) {
        Ok(v) => v,
        Err(kind) => {
            return Err(Error::ParseInt(kind));
        },
    };
    let c = Constructor { id: value, name: string_from(&chars_of(predicate)), params: duplicate_params(params) };
    Ok(Some((module, string_from(&name), c)))
}


/// Whether `t` names a type by its bare name: no `%`, `.`, `<` or `>` in it,
/// not `!X`, not a constructor name of `ps` and not a TL primitive.
pub open spec fn is_plain_type(t: Seq<char>, ps: Seq<(Seq<char>, Seq<char>)>) -> bool {
    &&& t != "!X"@
    &&& forall|i: int|
        0 <= i < t.len() ==> #[trigger] t[i] != '%' && t[i] != '.' && t[i] != '<' && t[i] != '>'
    &&& lookup(ps, t) is None
    &&& primitive_type(t) is None
}

proof fn lemma_no_char(t: Seq<char>, c: char)
    requires
        forall|i: int| 0 <= i < t.len() ==> #[trigger] t[i] != c,
    ensures
        !t.contains(c),
{
}

/// A type named by its bare name keeps its name at the top level, and is
/// reached through `super::` from inside any module.
pub proof fn law_plain_type(t: Seq<char>, ps: Seq<(Seq<char>, Seq<char>)>, module: Seq<char>)
    requires
        is_plain_type(t, ps),
    ensures
        translated_typename(t, None, ps) == t,
        translated_typename(t, Some(module), ps) == "super::"@ + t,
{
    lemma_no_char(t, '%');
    lemma_no_char(t, '.');
    reveal_strlit("Vector<");
    reveal_strlit("vector<");
    assert(!contains_run(t, "Vector<"@)) by {
        if contains_run(t, "Vector<"@) {
            let i = choose|i: int|
                0 <= i && i + "Vector<"@.len() <= t.len() && #[trigger] t.subrange(
                    i,
                    i + "Vector<"@.len(),
                ) == "Vector<"@;
            assert(t.subrange(i, i + 7)[6] == t[i + 6]);
        }
    }
    assert(!contains_run(t, "vector<"@)) by {
        if contains_run(t, "vector<"@) {
            let i = choose|i: int|
                0 <= i && i + "vector<"@.len() <= t.len() && #[trigger] t.subrange(
                    i,
                    i + "vector<"@.len(),
                ) == "vector<"@;
            assert(t.subrange(i, i + 7)[6] == t[i + 6]);
        }
    }
}

/// A vector of `u` (a type with no `%`, `<` or `>`) is translated inside any
/// module `m` into `Vec` of the translation of `u` inside the same module.
pub proof fn law_vector_type(u: Seq<char>, m: Option<Seq<char>>, ps: Seq<(Seq<char>, Seq<char>)>)
    requires
        forall|i: int| 0 <= i < u.len() ==> #[trigger] u[i] != '%' && u[i] != '<' && u[i] != '>',
    ensures
        translated_typename("Vector<"@ + u + ">"@, m, ps) == "Vec<"@ + translated_typename(u, m, ps)
            + ">"@,
{
    reveal_strlit("Vector<");
    reveal_strlit(">");
    reveal_strlit("!X");
    let t = "Vector<"@ + u + ">"@;
    assert(t.len() == u.len() + 8);
    assert(t != "!X"@) by {
        assert(t.len() != "!X"@.len());
    }
    assert forall|i: int| 0 <= i < t.len() implies #[trigger] t[i] != '%' by {
        if 7 <= i < 7 + u.len() {
            assert(t[i] == u[i - 7]);
        }
    }
    lemma_no_char(t, '%');
    assert(t.subrange(0, 0int + "Vector<"@.len()) =~= "Vector<"@);
    assert(contains_run(t, "Vector<"@));
    let p = |c: char| is_angle(c);
    assert forall|j: int| 0 <= j < 6 implies !p(#[trigger] t[j]) by {}
    lemma_first_index(t, p, 6);
    let rest = t.skip(7);
    assert(rest =~= u + ">"@);
    assert forall|j: int| 0 <= j < u.len() implies !p(#[trigger] rest[j]) by {
        assert(rest[j] == u[j]);
    }
    assert(rest[u.len() as int] == '>');
    lemma_first_index(rest, p, u.len() as int);
    assert(rest.take(u.len() as int) =~= u);
    assert(angle_inner(t) == u);
}

/// The keyword `type` becomes `type_` whatever the module.
pub proof fn law_type_keyword(m: Option<Seq<char>>)
    ensures
        translated_id("type"@, m) == "type_"@,
{
    reveal_strlit("type");
    lemma_first_index("type"@, |c: char| c == '.', 4);
}

/// An identifier without a `.` is translated the same way in every module.
pub proof fn law_undotted_id(id: Seq<char>, m1: Option<Seq<char>>, m2: Option<Seq<char>>)
    requires
        !id.contains('.'),
    ensures
        translated_id(id, m1) == translated_id(id, m2),
        id != "type"@ ==> translated_id(id, m1) == id,
{
    assert forall|j: int| 0 <= j < id.len() implies !(|c: char| c == '.')(#[trigger] id[j]) by {
        if id[j] == '.' {
            assert(id.contains('.'));
        }
    }
    lemma_first_index(id, |c: char| c == '.', id.len() as int);
}

} // verus!
