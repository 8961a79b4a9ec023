//! The TL schema as the generator reads it, and the definitions it builds.
use vstd::prelude::*;

verus! {

/// A parameter of a constructor or method: its name and its TL type.
#[derive(Debug)]
pub struct Parameter {
    pub name: String,
    pub kind: String,
}

/// A constructor of the schema: `predicate#id params = kind`.
#[derive(Debug)]
pub struct SchemaConstructor {
    pub id: String,
    pub predicate: String,
    pub params: Vec<Parameter>,
    pub kind: String,
}

/// A method of the schema: `method#id params = kind`.
#[derive(Debug)]
pub struct SchemaMethod {
    pub id: String,
    pub method: String,
    pub params: Vec<Parameter>,
    pub kind: String,
}

/// The whole schema.
#[derive(Debug)]
pub struct Schema {
    pub constructors: Vec<SchemaConstructor>,
    pub methods: Vec<SchemaMethod>,
}

/// A constructor as the generator keeps it: its id, its name and its parameters.
#[derive(Debug)]
pub struct Constructor {
    pub id: i32,
    pub name: String,
    pub params: Vec<Parameter>,
}

/// A parameter, as text.
#[verifier::ext_equal]
pub struct ParamModel {
    pub name: Seq<char>,
    pub kind: Seq<char>,
}

/// A constructor, as text and number.
#[verifier::ext_equal]
pub struct ConstructorModel {
    pub id: i32,
    pub name: Seq<char>,
    pub params: Seq<ParamModel>,
}

impl View for Parameter {
    type V = ParamModel;

    open spec fn view(&self) -> ParamModel {
        ParamModel { name: self.name@, kind: self.kind@ }
    }
}

/// The parameters `ps`, as text.
pub open spec fn params_model(ps: Seq<Parameter>) -> Seq<ParamModel> {
    ps.map_values(|p: Parameter| p@)
}

impl View for Constructor {
    type V = ConstructorModel;

    open spec fn view(&self) -> ConstructorModel {
        ConstructorModel { id: self.id, name: self.name@, params: params_model(self.params@) }
    }
}

/// The view of an optional string.
pub open spec fn opt_view(o: Option<String>) -> Option<Seq<char>> {
    match o {
        Some(s) => Some(s@),
        None => None,
    }
}

impl Parameter {
    /// A copy of this parameter.
    pub fn duplicate(&self) -> (r: Parameter)
        ensures
            r@ == self@,
    {
        Parameter { name: self.name.clone(), kind: self.kind.clone() }
    }
}

/// A copy of the parameters `ps`.
pub fn duplicate_params(ps: &Vec<Parameter>) -> (r: Vec<Parameter>)
    ensures
        params_model(r@) == params_model(ps@),
{
    let mut r: Vec<Parameter> = Vec::new();
    let mut i: usize = 0;
    while i < ps.len()
        invariant
            i <= ps.len(),
            r@.len() == i,
            params_model(r@) =~= params_model(ps@.take(i as int)),
        decreases ps.len() - i,
    {
        let p = ps[i].duplicate();
        let ghost before = r@;
        r.push(p);
        assert forall|k: int| 0 <= k < i + 1 implies #[trigger] params_model(r@)[k]
            == params_model(ps@.take(i + 1))[k] by {
            assert(ps@.take(i + 1)[k] == ps@[k]);
            if k < i {
                assert(r@[k] == before[k]);
                assert(ps@.take(i as int)[k] == ps@[k]);
                assert(params_model(before)[k] == params_model(ps@.take(i as int))[k]);
                assert(params_model(before)[k] == before[k]@);
                assert(params_model(ps@.take(i as int))[k] == ps@[k]@);
            } else {
                assert(r@[k] == p);
            }
        }
        assert(params_model(r@).len() == params_model(ps@.take(i + 1)).len());
        assert(params_model(r@) =~= params_model(ps@.take(i + 1)));
        i = i + 1;
    }
    assert(ps@.take(ps.len() as int) == ps@);
    r
}

} // verus!
