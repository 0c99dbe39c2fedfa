//! The schema: constructors and methods, each with typed parameters.
use vstd::prelude::*;

verus! {

/// A named, typed field of a constructor or a method.
pub struct Parameter {
    pub name: String,
    /// A type reference: `Ident`, `module.Ident`, or `Vector<...>`.
    pub kind: String,
}

/// One concrete shape that a type may take on the wire.
pub struct Constructor {
    pub id: i32,
    pub predicate: String,
    pub params: Vec<Parameter>,
    /// The type this constructor belongs to: `TypeName` or `module.TypeName`.
    pub kind: String,
}

/// A remote call: shaped like a constructor, named by `method`.
pub struct Method {
    pub id: i32,
    pub method: String,
    pub params: Vec<Parameter>,
    pub kind: String,
}

/// A parsed schema.
pub struct Schema {
    pub constructors: Vec<Constructor>,
    pub methods: Vec<Method>,
}

/// A parameter as a pair of character sequences: its name and its type.
pub type ParamView = (Seq<char>, Seq<char>);

impl View for Parameter {
    type V = ParamView;

    open spec fn view(&self) -> ParamView {
        (self.name@, self.kind@)
    }
}

pub open spec fn params_view(ps: Seq<Parameter>) -> Seq<ParamView> {
    ps.map_values(|p: Parameter| p@)
}

/// A constructor as its identifier, predicate, parameters and type.
pub struct ConstructorView {
    pub id: i32,
    pub predicate: Seq<char>,
    pub params: Seq<ParamView>,
    pub kind: Seq<char>,
}

impl View for Constructor {
    type V = ConstructorView;

    open spec fn view(&self) -> ConstructorView {
        ConstructorView {
            id: self.id,
            predicate: self.predicate@,
            params: params_view(self.params@),
            kind: self.kind@,
        }
    }
}

pub open spec fn constructors_view(cs: Seq<Constructor>) -> Seq<ConstructorView> {
    cs.map_values(|c: Constructor| c@)
}

impl Parameter {
    pub fn new(name: &str, kind: &str) -> (r: Parameter)
        ensures
            r.name@ == name@,
            r.kind@ == kind@,
    {
        Parameter { name: name.to_owned(), kind: kind.to_owned() }
    }

    pub fn clone_param(&self) -> (r: Parameter)
        ensures
            r@ == self@,
    {
        Parameter { name: self.name.clone(), kind: self.kind.clone() }
    }
}

} // verus!
