//! Grouping of constructors into types, and of types into modules.
use vstd::prelude::*;
use vstd::string::StrSliceExecFns;
use crate::schema::{Constructor, ConstructorView, Parameter, ParamView, params_view, constructors_view};
use crate::translate::{first_pos, find_char, module_view, str_eq};

verus! {

/// One shape of a generated type: the constructor's predicate, identifier
/// and parameters.
pub struct Variant {
    pub name: String,
    pub id: i32,
    pub params: Vec<Parameter>,
}

/// The constructors that share one type name, in schema order.
pub struct Type {
    pub name: String,
    pub constructors: Vec<Variant>,
}

/// The types of one module, in order of first appearance; `None` names the
/// root module.
pub struct Module {
    pub name: Option<String>,
    pub types: Vec<Type>,
}

pub struct VariantView {
    pub name: Seq<char>,
    pub id: i32,
    pub params: Seq<ParamView>,
}

pub struct TypeView {
    pub name: Seq<char>,
    pub variants: Seq<VariantView>,
}

pub struct ModuleView {
    pub name: Option<Seq<char>>,
    pub types: Seq<TypeView>,
}

impl View for Variant {
    type V = VariantView;

    open spec fn view(&self) -> VariantView {
        VariantView { name: self.name@, id: self.id, params: params_view(self.params@) }
    }
}

impl View for Type {
    type V = TypeView;

    open spec fn view(&self) -> TypeView {
        TypeView { name: self.name@, variants: variants_view(self.constructors@) }
    }
}

impl View for Module {
    type V = ModuleView;

    open spec fn view(&self) -> ModuleView {
        ModuleView {
            name: module_view(&self.name),
            types: types_view(self.types@),
        }
    }
}

pub open spec fn variants_view(vs: Seq<Variant>) -> Seq<VariantView> {
    vs.map_values(|v: Variant| v@)
}

pub open spec fn types_view(ts: Seq<Type>) -> Seq<TypeView> {
    ts.map_values(|t: Type| t@)
}

pub open spec fn modules_view(ms: Seq<Module>) -> Seq<ModuleView> {
    ms.map_values(|m: Module| m@)
}

pub open spec fn strings_view(ss: Seq<String>) -> Seq<Seq<char>> {
    ss.map_values(|s: String| s@)
}

/// The four kinds that stand for built-in types and are never generated.
pub open spec fn is_builtin(k: Seq<char>) -> bool {
    k == "Bool"@ || k == "True"@ || k == "Vector t"@ || k == "Null"@
}

/// Whether constructors of kind `k` are generated, given the excluded kinds.
pub open spec fn kept(k: Seq<char>, excluded: Seq<Seq<char>>) -> bool {
    !is_builtin(k) && !excluded.contains(k)
}

/// The module part of a kind: what precedes its first `.`, if any.
pub open spec fn kind_module(k: Seq<char>) -> Option<Seq<char>> {
    match first_pos(k, '.') {
        Some(i) => Some(k.subrange(0, i)),
        None => None,
    }
}

/// The type-name part of a kind: what follows its first `.`, or all of it.
pub open spec fn kind_name(k: Seq<char>) -> Seq<char> {
    match first_pos(k, '.') {
        Some(i) => k.subrange(i + 1, k.len() as int),
        None => k,
    }
}

pub open spec fn variant_of(c: ConstructorView) -> VariantView {
    VariantView { name: c.predicate, id: c.id, params: c.params }
}

/// The first module named `m`.
pub open spec fn module_index(ms: Seq<ModuleView>, m: Option<Seq<char>>) -> Option<int>
    decreases ms.len(),
{
    if ms.len() == 0 {
        None
    } else if ms[0].name == m {
        Some(0)
    } else {
        match module_index(ms.drop_first(), m) {
            Some(i) => Some(i + 1),
            None => None,
        }
    }
}

/// The first type named `t`.
pub open spec fn type_index(ts: Seq<TypeView>, t: Seq<char>) -> Option<int>
    decreases ts.len(),
{
    if ts.len() == 0 {
        None
    } else if ts[0].name == t {
        Some(0)
    } else {
        match type_index(ts.drop_first(), t) {
            Some(i) => Some(i + 1),
            None => None,
        }
    }
}

/// `v` added to the type named `t`, or to a new type of that name at the end.
pub open spec fn add_to_types(ts: Seq<TypeView>, t: Seq<char>, v: VariantView) -> Seq<TypeView> {
    match type_index(ts, t) {
        Some(j) => ts.update(j, TypeView { name: t, variants: ts[j].variants.push(v) }),
        None => ts.push(TypeView { name: t, variants: seq![v] }),
    }
}

/// The modules after placing constructor `c`, unless its kind is not kept.
pub open spec fn place(ms: Seq<ModuleView>, c: ConstructorView, excluded: Seq<Seq<char>>) -> Seq<ModuleView> {
    if !kept(c.kind, excluded) {
        ms
    } else {
        let m = kind_module(c.kind);
        let t = kind_name(c.kind);
        match module_index(ms, m) {
            Some(i) => ms.update(i, ModuleView { name: m, types: add_to_types(ms[i].types, t, variant_of(c)) }),
            None => {
                let fresh = ModuleView { name: m, types: seq![TypeView { name: t, variants: seq![variant_of(c)] }] };
                if m is None {
                    seq![fresh] + ms
                } else {
                    ms.push(fresh)
                }
            },
        }
    }
}

/// The module tree of a constructor list: each kept constructor, in order,
/// joins the type of its name in the module of its kind. The root module
/// comes first; the other modules, and the types of each module, stand in
/// order of first appearance.
pub open spec fn group(cs: Seq<ConstructorView>, excluded: Seq<Seq<char>>) -> Seq<ModuleView>
    decreases cs.len(),
{
    if cs.len() == 0 {
        Seq::empty()
    } else {
        place(group(cs.drop_last(), excluded), cs.last(), excluded)
    }
}

proof fn lemma_module_index(ms: Seq<ModuleView>, m: Option<Seq<char>>, i: int)
    requires
        0 <= i <= ms.len(),
        forall|j: int| 0 <= j < i ==> ms[j].name != m,
    ensures
        i < ms.len() && ms[i].name == m ==> module_index(ms, m) == Some(i),
        i == ms.len() ==> module_index(ms, m) is None,
    decreases i,
{
    if i > 0 {
        lemma_module_index(ms.drop_first(), m, i - 1);
    }
}

proof fn lemma_type_index(ts: Seq<TypeView>, t: Seq<char>, i: int)
    requires
        0 <= i <= ts.len(),
        forall|j: int| 0 <= j < i ==> ts[j].name != t,
    ensures
        i < ts.len() && ts[i].name == t ==> type_index(ts, t) == Some(i),
        i == ts.len() ==> type_index(ts, t) is None,
    decreases i,
{
    if i > 0 {
        lemma_type_index(ts.drop_first(), t, i - 1);
    }
}

fn clone_params(ps: &Vec<Parameter>) -> (r: Vec<Parameter>)
    ensures
        params_view(r@) == params_view(ps@),
{
    let mut r: Vec<Parameter> = Vec::new();
    let mut i: usize = 0;
    while i < ps.len()
        invariant
            i <= ps@.len(),
            r@.len() == i,
            forall|j: int| 0 <= j < i ==> #[trigger] r@[j]@ == ps@[j]@,
        decreases ps@.len() - i,
    {
        let p = ps[i].clone_param();
        assert(p@ == ps@[i as int]@);
        r.push(p);
        i = i + 1;
    }
    assert(params_view(r@) =~= params_view(ps@));
    r
}

fn is_kept(kind: &String, excluded: &[String]) -> (r: bool)
    ensures
        r == kept(kind@, strings_view(excluded@)),
{
    let k = kind.as_str();
    if str_eq(k, "Bool") || str_eq(k, "True") || str_eq(k, "Vector t") || str_eq(k, "Null") {
        return false;
    }
    let mut i: usize = 0;
    while i < excluded.len()
        invariant
            i <= excluded@.len(),
            forall|j: int| 0 <= j < i ==> excluded@[j]@ != kind@,
            k@ == kind@,
        decreases excluded@.len() - i,
    {
        if str_eq(excluded[i].as_str(), k) {
            assert(strings_view(excluded@)[i as int] == kind@);
            return false;
        }
        i = i + 1;
    }
    assert(!strings_view(excluded@).contains(kind@));
    true
}

/// Splits a kind at its first `.` into a module and a type name.
fn split_kind(kind: &String) -> (r: (Option<String>, String))
    ensures
        match r.0 {
            Some(s) => kind_module(kind@) == Some(s@),
            None => kind_module(kind@) is None,
        },
        r.1@ == kind_name(kind@),
{
    let k = kind.as_str();
    match find_char(k, '.') {
        Some(dot) => {
            let n = k.unicode_len();
            (Some(k.substring_char(0, dot).to_owned()), k.substring_char(dot + 1, n).to_owned())
        },
        None => (None, kind.clone()),
    }
}

fn same_module(a: &Option<String>, b: &Option<String>) -> (r: bool)
    ensures
        r == (module_view(a) == module_view(b)),
{
    match (a, b) {
        (Some(x), Some(y)) => str_eq(x.as_str(), y.as_str()),
        (None, None) => true,
        _ => false,
    }
}

fn add_variant(types: &mut Vec<Type>, name: String, v: Variant)
    ensures
        types_view(final(types)@) == add_to_types(
            types_view(old(types)@),
            name@,
            v@,
        ),
{
    let ghost before = types_view(types@);
    let mut j: usize = 0;
    while j < types.len()
        invariant
            j <= types@.len(),
            types_view(types@) == before,
            before == types_view(old(types)@),
            forall|k: int| 0 <= k < j ==> before[k].name != name@,
        decreases types@.len() - j,
    {
        assert(before[j as int].name == types@[j as int].name@);
        if str_eq(types[j].name.as_str(), name.as_str()) {
            proof {
                lemma_type_index(before, name@, j as int);
            }
            let ghost old_types = types@;
            let mut ty = types.remove(j);
            assert(ty@ == before[j as int]);
            assert(ty.name@ == name@);
            ty.constructors.push(v);
            let ghost tyv = ty@;
            types.insert(j, ty);
            proof {
                assert(tyv.variants =~= before[j as int].variants.push(v@));
                assert(tyv == TypeView { name: name@, variants: before[j as int].variants.push(v@) });
                assert(types_view(types@) =~= before.update(j as int, tyv));
            }
            return;
        }
        j = j + 1;
    }
    proof {
        lemma_type_index(before, name@, j as int);
    }
    let mut cs: Vec<Variant> = Vec::new();
    cs.push(v);
    types.push(Type { name, constructors: cs });
    proof {
        assert(variants_view(cs@) =~= seq![v@]);
        assert(types_view(types@) =~= add_to_types(before, name@, v@));
    }
}

fn find_module(modules: &Vec<Module>, m: &Option<String>) -> (r: Option<usize>)
    ensures
        match r {
            Some(k) => k < modules@.len() && module_index(modules_view(modules@), module_view(m))
                == Some(k as int) && modules_view(modules@)[k as int].name == module_view(m),
            None => module_index(modules_view(modules@), module_view(m)) is None,
        },
{
    let ghost ms = modules_view(modules@);
    let mut k: usize = 0;
    while k < modules.len()
        invariant
            k <= modules@.len(),
            ms == modules_view(modules@),
            forall|x: int| 0 <= x < k ==> ms[x].name != module_view(m),
        decreases modules@.len() - k,
    {
        if same_module(&modules[k].name, m) {
            proof {
                lemma_module_index(ms, module_view(m), k as int);
            }
            return Some(k);
        }
        k = k + 1;
    }
    proof {
        lemma_module_index(ms, module_view(m), k as int);
    }
    None
}

/// Groups the constructors by module and type name, skipping the built-in
/// kinds and the kinds listed in `excluded`. The root module comes first;
/// other modules and the types stand in order of first appearance,
/// constructors in schema order.
pub fn aggregate(constructors: &Vec<Constructor>, excluded: &[String]) -> (r: Vec<Module>)
    ensures
        modules_view(r@) == group(constructors_view(constructors@), strings_view(excluded@)),
{
    let ghost ex = strings_view(excluded@);
    let mut modules: Vec<Module> = Vec::new();
    let mut i: usize = 0;
    while i < constructors.len()
        invariant
            i <= constructors@.len(),
            ex == strings_view(excluded@),
            modules_view(modules@) == group(constructors_view(constructors@.take(i as int)), ex),
        decreases constructors@.len() - i,
    {
        let c = &constructors[i];
        let ghost prev = modules_view(modules@);
        proof {
            let s = constructors_view(constructors@.take(i + 1));
            assert(s.drop_last() =~= constructors_view(constructors@.take(i as int)));
            assert(s.last() == c@);
        }
        if is_kept(&c.kind, excluded) {
            let (m, t) = split_kind(&c.kind);
            let v = Variant { name: c.predicate.clone(), id: c.id, params: clone_params(&c.params) };
            let ghost mv = module_view(&m);
            assert(mv == kind_module(c.kind@));
            let found = find_module(&modules, &m);
            if let Some(k) = found {
                let ghost tv = t@;
                let ghost vv = v@;
                let mut md = modules.remove(k);
                assert(md@ == prev[k as int]);
                add_variant(&mut md.types, t, v);
                let ghost mdv = md@;
                modules.insert(k, md);
                proof {
                    assert(mdv == ModuleView { name: mv, types: add_to_types(prev[k as int].types, tv, vv) });
                    assert(vv == variant_of(c@));
                    assert(modules_view(modules@) =~= prev.update(k as int, mdv));
                    assert(modules_view(modules@) =~= place(prev, c@, ex));
                }
            } else {
                let mut ts: Vec<Type> = Vec::new();
                let mut cs: Vec<Variant> = Vec::new();
                cs.push(v);
                ts.push(Type { name: t, constructors: cs });
                if m.is_none() {
                    modules.insert(0, Module { name: m, types: ts });
                } else {
                    modules.push(Module { name: m, types: ts });
                }
                proof {
                    assert(variants_view(cs@) =~= seq![variant_of(c@)]);
                    assert(types_view(ts@) =~= seq![TypeView { name: kind_name(c.kind@), variants: seq![variant_of(c@)] }]);
                    assert(modules_view(modules@) =~= place(prev, c@, ex));
                }
            }
        }
        i = i + 1;
    }
    assert(constructors@.take(i as int) =~= constructors@);
    modules
}

/// The identifiers of a type's constructors, in order, as the table that
/// the decoder looks a tagged union's discriminator up in.
pub fn discriminators(t: &Type) -> (r: Vec<u32>)
    ensures
        r@.len() == t.constructors@.len(),
        forall|i: int| 0 <= i < r@.len() ==> r@[i] == t.constructors@[i].id as u32,
{
    let mut r: Vec<u32> = Vec::new();
    let mut i: usize = 0;
    while i < t.constructors.len()
        invariant
            i <= t.constructors@.len(),
            r@.len() == i,
            forall|k: int| 0 <= k < i ==> r@[k] == t.constructors@[k].id as u32,
        decreases t.constructors@.len() - i,
    {
        r.push(t.constructors[i].id as u32);
        i = i + 1;
    }
    r
}

/// Every type of a module tree has at least one constructor.
pub proof fn lemma_group_types_nonempty(cs: Seq<ConstructorView>, excluded: Seq<Seq<char>>)
    ensures
        forall|i: int, j: int|
            0 <= i < group(cs, excluded).len() && 0 <= j < group(cs, excluded)[i].types.len()
                ==> #[trigger] group(cs, excluded)[i].types[j].variants.len() >= 1,
    decreases cs.len(),
{
    if cs.len() > 0 {
        lemma_group_types_nonempty(cs.drop_last(), excluded);
        let prev = group(cs.drop_last(), excluded);
        let c = cs.last();
        if kept(c.kind, excluded) {
            match module_index(prev, kind_module(c.kind)) {
                Some(i) => {
                    lemma_module_index_bound(prev, kind_module(c.kind));
                    lemma_type_index_bound(prev[i].types, kind_name(c.kind));
                },
                None => {},
            }
        }
    }
}

proof fn lemma_module_index_bound(ms: Seq<ModuleView>, m: Option<Seq<char>>)
    ensures
        module_index(ms, m) matches Some(i) ==> 0 <= i < ms.len() && ms[i].name == m,
    decreases ms.len(),
{
    if ms.len() > 0 {
        lemma_module_index_bound(ms.drop_first(), m);
    }
}

proof fn lemma_type_index_bound(ts: Seq<TypeView>, t: Seq<char>)
    ensures
        type_index(ts, t) matches Some(j) ==> 0 <= j < ts.len() && ts[j].name == t,
    decreases ts.len(),
{
    if ts.len() > 0 {
        lemma_type_index_bound(ts.drop_first(), t);
    }
}

} // verus!
