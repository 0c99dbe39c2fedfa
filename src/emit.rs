//! Emission of type declarations for a module tree.
use vstd::prelude::*;
use vstd::string::{StrSliceExecFns, StringExecFns};
use crate::aggregate::{Module, ModuleView, Type, TypeView, Variant, VariantView, aggregate, group, modules_view, types_view, variants_view, strings_view};
use crate::schema::{Parameter, ParamView, Schema, params_view, constructors_view};
use crate::translate::{ident, module_view, translate_id, translate_typename, type_ref};

verus! {

/// The field line of parameter `p` inside module `m`.
pub open spec fn param_line(p: ParamView, m: Option<Seq<char>>) -> Seq<char> {
    "    "@ + ident(p.0, m) + ": "@ + type_ref(p.1, m) + ",\n"@
}

pub open spec fn params_text(ps: Seq<ParamView>, m: Option<Seq<char>>) -> Seq<char>
    decreases ps.len(),
{
    if ps.len() == 0 {
        Seq::empty()
    } else {
        params_text(ps.drop_last(), m) + param_line(ps.last(), m)
    }
}

/// A constructor's part of its type's declaration: a bare variant where it
/// has no parameters, its fields where it is the type's only constructor,
/// and a variant with named fields otherwise.
pub open spec fn variant_text(v: VariantView, m: Option<Seq<char>>, multi: bool) -> Seq<char> {
    if !multi {
        params_text(v.params, m)
    } else if v.params.len() == 0 {
        id_line(v.id) + "  "@ + ident(v.name, m) + ",\n"@
    } else {
        id_line(v.id) + "  "@ + ident(v.name, m) + " {\n"@ + params_text(v.params, m) + "  },\n"@
    }
}

/// `16` raised to `k`.
pub open spec fn pow16(k: nat) -> nat
    decreases k,
{
    if k == 0 {
        1
    } else {
        16 * pow16((k - 1) as nat)
    }
}

/// The lower-case hexadecimal digit of `d`, below sixteen.
pub open spec fn hex_digit(d: nat) -> char {
    "0123456789abcdef"@[d as int]
}

/// The eight hexadecimal digits of `v`, most significant first.
pub open spec fn hex8(v: u32) -> Seq<char> {
    Seq::new(8, |i: int| hex_digit((v as nat / pow16((7 - i) as nat)) % 16))
}

/// The attribute line that records a variant's constructor identifier,
/// written as the identifier's 32 bits in hexadecimal.
pub open spec fn id_line(id: i32) -> Seq<char> {
    "  #[id(0x"@ + hex8(id as u32) + ")]\n"@
}

pub open spec fn variants_text(vs: Seq<VariantView>, m: Option<Seq<char>>, multi: bool) -> Seq<char>
    decreases vs.len(),
{
    if vs.len() == 0 {
        Seq::empty()
    } else {
        variants_text(vs.drop_last(), m, multi) + variant_text(vs.last(), m, multi)
    }
}

/// The declaration of a type: a unit struct for one constructor without
/// parameters, a struct for one constructor, an enum for several.
pub open spec fn type_text(t: TypeView, m: Option<Seq<char>>) -> Seq<char> {
    let derive = "#[derive(Debug, Deserialize, Serialize)]\n"@;
    if t.variants.len() == 1 && t.variants[0].params.len() == 0 {
        derive + "pub struct "@ + t.name + ";\n"@
    } else if t.variants.len() == 1 {
        derive + "pub struct "@ + t.name + " {\n"@ + variants_text(t.variants, m, false) + "}\n\n"@
    } else {
        derive + "pub enum "@ + t.name + " {\n"@ + variants_text(t.variants, m, true) + "}\n\n"@
    }
}

pub open spec fn types_text(ts: Seq<TypeView>, m: Option<Seq<char>>) -> Seq<char>
    decreases ts.len(),
{
    if ts.len() == 0 {
        Seq::empty()
    } else {
        types_text(ts.drop_last(), m) + type_text(ts.last(), m)
    }
}

/// A module's declarations, inside a `pub mod` block unless it is the root.
pub open spec fn module_text(md: ModuleView) -> Seq<char> {
    match md.name {
        Some(n) => "pub mod "@ + n + " {\n\n"@ + types_text(md.types, md.name) + "}\n\n"@,
        None => types_text(md.types, md.name),
    }
}

pub open spec fn modules_text(ms: Seq<ModuleView>) -> Seq<char>
    decreases ms.len(),
{
    if ms.len() == 0 {
        Seq::empty()
    } else {
        modules_text(ms.drop_last()) + module_text(ms.last())
    }
}

/// The generated declarations for the constructors of a schema, leaving out
/// the excluded kinds.
pub open spec fn schema_text(s: Seq<crate::schema::ConstructorView>, excluded: Seq<Seq<char>>) -> Seq<char> {
    modules_text(group(s, excluded))
}

fn emit_params(out: &mut String, ps: &Vec<Parameter>, m: &Option<String>)
    ensures
        final(out)@ == old(out)@ + params_text(params_view(ps@), module_view(m)),
{
    let ghost start = out@;
    let ghost mv = module_view(m);
    let mut i: usize = 0;
    while i < ps.len()
        invariant
            i <= ps@.len(),
            mv == module_view(m),
            out@ == start + params_text(params_view(ps@.take(i as int)), mv),
        decreases ps@.len() - i,
    {
        let ghost before = out@;
        let name = translate_id(ps[i].name.as_str(), m);
        let kind = translate_typename(ps[i].kind.as_str(), m);
        out.append("    ");
        out.append(name.as_str());
        out.append(": ");
        out.append(kind.as_str());
        out.append(",\n");
        proof {
            let s = params_view(ps@.take(i + 1));
            assert(s.drop_last() =~= params_view(ps@.take(i as int)));
            assert(s.last() == ps@[i as int]@);
            assert(out@ =~= before + param_line(ps@[i as int]@, mv));
        }
        i = i + 1;
    }
    assert(ps@.take(i as int) =~= ps@);
}

fn emit_variant(out: &mut String, v: &Variant, m: &Option<String>, multi: bool)
    ensures
        final(out)@ == old(out)@ + variant_text(v@, module_view(m), multi),
{
    let ghost start = out@;
    if !multi {
        emit_params(out, &v.params, m);
    } else if v.params.len() == 0 {
        emit_id_line(out, v.id);
        let name = translate_id(v.name.as_str(), m);
        out.append("  ");
        out.append(name.as_str());
        out.append(",\n");
        assert(out@ =~= start + variant_text(v@, module_view(m), multi));
    } else {
        emit_id_line(out, v.id);
        let name = translate_id(v.name.as_str(), m);
        out.append("  ");
        out.append(name.as_str());
        out.append(" {\n");
        emit_params(out, &v.params, m);
        out.append("  },\n");
        assert(out@ =~= start + variant_text(v@, module_view(m), multi));
    }
}

proof fn lemma_pow16_positive(k: nat)
    ensures
        pow16(k) >= 1,
    decreases k,
{
    if k > 0 {
        lemma_pow16_positive((k - 1) as nat);
    }
}

fn emit_id_line(out: &mut String, id: i32)
    ensures
        final(out)@ == old(out)@ + id_line(id),
{
    let ghost start = out@;
    let v: u32 = #[verifier::truncate] (id as u32);
    let digits = "0123456789abcdef";
    proof {
        reveal_strlit("0123456789abcdef");
        reveal_with_fuel(pow16, 8);
    }
    out.append("  #[id(0x");
    let ghost head = out@;
    let mut div: u32 = 0x1000_0000;
    let mut i: usize = 0;
    while i < 8
        invariant
            i <= 8,
            digits@ == "0123456789abcdef"@,
            digits@.len() == 16,
            i < 8 ==> div as nat == pow16((7 - i) as nat),
            i < 8 ==> div >= 1,
            out@ == head + hex8(v).take(i as int),
        decreases 8 - i,
    {
        let d = ((v / div) % 16) as usize;
        out.append(digits.substring_char(d, d + 1));
        proof {
            assert(digits@.subrange(d as int, d + 1) =~= seq![hex_digit(d as nat)]);
            assert(hex8(v).take(i + 1) =~= hex8(v).take(i as int).push(hex_digit(d as nat)));
        }
        if i < 7 {
            proof {
                let p = pow16((6 - i) as nat);
                assert(pow16((7 - i) as nat) == 16 * p);
                assert((16 * p) / 16 == p) by (nonlinear_arith);
                lemma_pow16_positive((6 - i) as nat);
            }
            div = div / 16;
        }
        i = i + 1;
    }
    out.append(")]\n");
    assert(hex8(v).take(8) =~= hex8(v));
    assert(out@ =~= start + id_line(id));
}

fn emit_type(out: &mut String, t: &Type, m: &Option<String>)
    requires
        t.constructors@.len() >= 1,
    ensures
        final(out)@ == old(out)@ + type_text(t@, module_view(m)),
{
    let ghost start = out@;
    let ghost mv = module_view(m);
    let n = t.constructors.len();
    out.append("#[derive(Debug, Deserialize, Serialize)]\n");
    if n == 1 && t.constructors[0].params.len() == 0 {
        out.append("pub struct ");
        out.append(t.name.as_str());
        out.append(";\n");
        assert(out@ =~= start + type_text(t@, mv));
        return;
    }
    if n == 1 {
        out.append("pub struct ");
    } else {
        out.append("pub enum ");
    }
    out.append(t.name.as_str());
    out.append(" {\n");
    let ghost head = out@;
    let multi = n > 1;
    let mut i: usize = 0;
    while i < n
        invariant
            n == t.constructors@.len(),
            i <= n,
            mv == module_view(m),
            out@ == head + variants_text(variants_view(t.constructors@.take(i as int)), mv, multi),
        decreases n - i,
    {
        let ghost before = out@;
        emit_variant(out, &t.constructors[i], m, multi);
        proof {
            let s = variants_view(t.constructors@.take(i + 1));
            assert(s.drop_last() =~= variants_view(t.constructors@.take(i as int)));
            assert(s.last() == t.constructors@[i as int]@);
        }
        i = i + 1;
    }
    assert(t.constructors@.take(i as int) =~= t.constructors@);
    out.append("}\n\n");
    assert(out@ =~= start + type_text(t@, mv));
}

fn emit_module(out: &mut String, md: &Module)
    requires
        forall|j: int| 0 <= j < md.types@.len() ==> md.types@[j].constructors@.len() >= 1,
    ensures
        final(out)@ == old(out)@ + module_text(md@),
{
    let ghost start = out@;
    let ghost mv = module_view(&md.name);
    match &md.name {
        Some(n) => {
            out.append("pub mod ");
            out.append(n.as_str());
            out.append(" {\n\n");
        },
        None => {},
    }
    let ghost head = out@;
    let mut i: usize = 0;
    while i < md.types.len()
        invariant
            i <= md.types@.len(),
            mv == module_view(&md.name),
            forall|j: int| 0 <= j < md.types@.len() ==> md.types@[j].constructors@.len() >= 1,
            out@ == head + types_text(types_view(md.types@.take(i as int)), mv),
        decreases md.types@.len() - i,
    {
        emit_type(out, &md.types[i], &md.name);
        proof {
            let s = types_view(md.types@.take(i + 1));
            assert(s.drop_last() =~= types_view(md.types@.take(i as int)));
            assert(s.last() == md.types@[i as int]@);
        }
        i = i + 1;
    }
    assert(md.types@.take(i as int) =~= md.types@);
    if md.name.is_some() {
        out.append("}\n\n");
    }
    assert(out@ =~= start + module_text(md@));
}

/// Why a schema cannot be translated.
#[derive(Debug, PartialEq, Eq)]
pub enum GenerateError {
    /// Two constructors of the schema, named by their predicates in schema
    /// order, carry the identifier `id`.
    DuplicateId { id: i32, first: String, second: String },
    /// Two constructors of one type translate to this identifier.
    DuplicateVariant(String),
}

/// No two constructors carry the same identifier.
pub open spec fn ids_distinct(cs: Seq<crate::schema::ConstructorView>) -> bool {
    forall|i: int, j: int| 0 <= i < j < cs.len() ==> cs[i].id != cs[j].id
}

/// No two constructors of type `t` translate to the same identifier in `m`.
pub open spec fn names_distinct(t: TypeView, m: Option<Seq<char>>) -> bool {
    forall|i: int, j: int|
        0 <= i < j < t.variants.len() ==> ident(t.variants[i].name, m) != ident(t.variants[j].name, m)
}

/// Two constructors of type `t` translate to `n` in `m`.
pub open spec fn shared_name(t: TypeView, m: Option<Seq<char>>, n: Seq<char>) -> bool {
    exists|i: int, j: int|
        0 <= i < j < t.variants.len() && ident(t.variants[i].name, m) == n && ident(t.variants[j].name, m) == n
}

/// Two constructors of one type of the tree translate to `n`.
pub open spec fn tree_shared_name(ms: Seq<ModuleView>, n: Seq<char>) -> bool {
    exists|a: int, b: int|
        0 <= a < ms.len() && 0 <= b < ms[a].types.len() && shared_name(ms[a].types[b], ms[a].name, n)
}

pub open spec fn tree_names_distinct(ms: Seq<ModuleView>) -> bool {
    forall|i: int, j: int|
        0 <= i < ms.len() && 0 <= j < ms[i].types.len() ==> names_distinct(ms[i].types[j], ms[i].name)
}

/// The positions of two constructors that share an identifier, if any.
fn find_duplicate_id(cs: &Vec<crate::schema::Constructor>) -> (r: Option<(usize, usize)>)
    ensures
        r is None <==> ids_distinct(constructors_view(cs@)),
        r matches Some((i, j)) ==> i < j < cs@.len() && cs@[i as int].id == cs@[j as int].id,
{
    let n = cs.len();
    let mut i: usize = 0;
    while i < n
        invariant
            n == cs@.len(),
            i <= n,
            forall|a: int, b: int| 0 <= a < b < n && a < i ==> cs@[a].id != cs@[b].id,
        decreases n - i,
    {
        let mut j: usize = i + 1;
        while j < n
            invariant
                n == cs@.len(),
                i < n,
                i + 1 <= j <= n,
                forall|a: int, b: int| 0 <= a < b < n && a < i ==> cs@[a].id != cs@[b].id,
                forall|b: int| i < b < j ==> cs@[i as int].id != cs@[b].id,
            decreases n - j,
        {
            if cs[i].id == cs[j].id {
                proof {
                    let cv = constructors_view(cs@);
                    assert(cv[i as int].id == cv[j as int].id);
                }
                return Some((i, j));
            }
            j = j + 1;
        }
        i = i + 1;
    }
    proof {
        let cv = constructors_view(cs@);
        assert forall|a: int, b: int| 0 <= a < b < cv.len() implies cv[a].id != cv[b].id by {
            assert(cv[a].id == cs@[a].id);
            assert(cv[b].id == cs@[b].id);
        }
    }
    None
}

/// An identifier that two constructors of `t` translate to, if any.
fn find_duplicate_variant(t: &Type, m: &Option<String>) -> (r: Option<String>)
    ensures
        r is None <==> names_distinct(t@, module_view(m)),
        r matches Some(n) ==> shared_name(t@, module_view(m), n@),
{
    let ghost mv = module_view(m);
    let ghost vs = t@.variants;
    let n = t.constructors.len();
    let mut names: Vec<String> = Vec::new();
    let mut k: usize = 0;
    while k < n
        invariant
            n == t.constructors@.len(),
            k <= n,
            mv == module_view(m),
            vs == t@.variants,
            names@.len() == k,
            forall|x: int| 0 <= x < k ==> #[trigger] names@[x]@ == ident(vs[x].name, mv),
        decreases n - k,
    {
        let name = translate_id(t.constructors[k].name.as_str(), m);
        names.push(name);
        k = k + 1;
    }
    let mut i: usize = 0;
    while i < n
        invariant
            n == names@.len(),
            n == vs.len(),
            mv == module_view(m),
            vs == t@.variants,
            i <= n,
            forall|x: int| 0 <= x < n ==> #[trigger] names@[x]@ == ident(vs[x].name, mv),
            forall|a: int, b: int|
                0 <= a < b < n && a < i ==> ident(vs[a].name, mv) != ident(vs[b].name, mv),
        decreases n - i,
    {
        let mut j: usize = i + 1;
        while j < n
            invariant
                n == names@.len(),
                n == vs.len(),
                mv == module_view(m),
                vs == t@.variants,
                i < n,
                i + 1 <= j <= n,
                forall|x: int| 0 <= x < n ==> #[trigger] names@[x]@ == ident(vs[x].name, mv),
                forall|a: int, b: int|
                    0 <= a < b < n && a < i ==> ident(vs[a].name, mv) != ident(vs[b].name, mv),
                forall|b: int| i < b < j ==> ident(vs[i as int].name, mv) != ident(vs[b].name, mv),
            decreases n - j,
        {
            if crate::translate::str_eq(names[i].as_str(), names[j].as_str()) {
                assert(names@[i as int]@ == ident(vs[i as int].name, mv));
                assert(names@[j as int]@ == ident(vs[j as int].name, mv));
                assert(ident(t@.variants[i as int].name, mv) == ident(t@.variants[j as int].name, mv));
                return Some(names[i].clone());
            }
            assert(names@[j as int]@ == ident(vs[j as int].name, mv));
            j = j + 1;
        }
        i = i + 1;
    }
    None
}

/// An identifier that two constructors of one type translate to, if any.
fn find_duplicate_in_tree(ms: &Vec<Module>) -> (r: Option<String>)
    ensures
        r is None <==> tree_names_distinct(modules_view(ms@)),
        r matches Some(n) ==> tree_shared_name(modules_view(ms@), n@),
{
    let ghost mv = modules_view(ms@);
    let mut i: usize = 0;
    while i < ms.len()
        invariant
            i <= ms@.len(),
            mv == modules_view(ms@),
            forall|a: int, b: int|
                0 <= a < i && 0 <= b < mv[a].types.len() ==> names_distinct(mv[a].types[b], mv[a].name),
        decreases ms@.len() - i,
    {
        let md = &ms[i];
        let mut j: usize = 0;
        while j < md.types.len()
            invariant
                i < ms@.len(),
                md == ms@[i as int],
                mv == modules_view(ms@),
                j <= md.types@.len(),
                forall|a: int, b: int|
                    0 <= a < i && 0 <= b < mv[a].types.len() ==> names_distinct(mv[a].types[b], mv[a].name),
                forall|b: int| 0 <= b < j ==> names_distinct(mv[i as int].types[b], mv[i as int].name),
            decreases md.types@.len() - j,
        {
            assert(mv[i as int].types[j as int] == md.types@[j as int]@);
            match find_duplicate_variant(&md.types[j], &md.name) {
                Some(name) => {
                    assert(shared_name(mv[i as int].types[j as int], mv[i as int].name, name@));
                    return Some(name);
                },
                None => {},
            }
            j = j + 1;
        }
        i = i + 1;
    }
    None
}

/// Translates the constructors of a schema into type declarations, leaving
/// out the built-in kinds and the kinds in `excluded`. Fails where two
/// constructors share an identifier, or where two constructors of one type
/// translate to the same name.
pub fn generate(schema: &Schema, excluded: &[String]) -> (r: Result<String, GenerateError>)
    ensures
        ({
            let cv = constructors_view(schema.constructors@);
            let tree = group(cv, strings_view(excluded@));
            &&& r is Ok <==> ids_distinct(cv) && tree_names_distinct(tree)
            &&& r is Ok ==> r->Ok_0@ == modules_text(tree)
            &&& !ids_distinct(cv) ==> (r matches Err(GenerateError::DuplicateId { id, first, second })
                && exists|i: int, j: int|
                0 <= i < j < cv.len() && cv[i].id == id && cv[j].id == id && cv[i].predicate == first@
                    && cv[j].predicate == second@)
            &&& ids_distinct(cv) && !tree_names_distinct(tree) ==> (r matches Err(
                GenerateError::DuplicateVariant(n),
            ) && tree_shared_name(tree, n@))
        }),
{
    let ghost cv = constructors_view(schema.constructors@);
    match find_duplicate_id(&schema.constructors) {
        Some((i, j)) => {
            let id = schema.constructors[i].id;
            let first = schema.constructors[i].predicate.clone();
            let second = schema.constructors[j].predicate.clone();
            proof {
                assert(cv[i as int].id == id && cv[j as int].id == id);
                assert(cv[i as int].predicate == first@ && cv[j as int].predicate == second@);
            }
            return Err(GenerateError::DuplicateId { id, first, second });
        },
        None => {},
    }
    let modules = aggregate(&schema.constructors, excluded);
    match find_duplicate_in_tree(&modules) {
        Some(name) => {
            return Err(GenerateError::DuplicateVariant(name));
        },
        None => {},
    }
    let ghost tree = modules_view(modules@);
    proof {
        crate::aggregate::lemma_group_types_nonempty(cv, strings_view(excluded@));
    }
    let mut out = String::new();
    let mut i: usize = 0;
    while i < modules.len()
        invariant
            i <= modules@.len(),
            tree == modules_view(modules@),
            forall|a: int, b: int|
                0 <= a < tree.len() && 0 <= b < tree[a].types.len() ==> #[trigger] tree[a].types[b].variants.len() >= 1,
            out@ == modules_text(modules_view(modules@.take(i as int))),
        decreases modules@.len() - i,
    {
        proof {
            assert forall|j: int| 0 <= j < modules@[i as int].types@.len() implies modules@[i as int].types@[j].constructors@.len() >= 1 by {
                assert(tree[i as int].types[j] == modules@[i as int].types@[j]@);
                assert(tree[i as int].types[j].variants.len() >= 1);
            }
        }
        emit_module(&mut out, &modules[i]);
        proof {
            let s = modules_view(modules@.take(i + 1));
            assert(s.drop_last() =~= modules_view(modules@.take(i as int)));
            assert(s.last() == modules@[i as int]@);
        }
        i = i + 1;
    }
    assert(modules@.take(i as int) =~= modules@);
    Ok(out)
}

/// Translation is deterministic: two schemas with the same constructors,
/// under the same exclusions, give the same declarations, character for
/// character.
pub proof fn lemma_generate_deterministic(
    a: Seq<crate::schema::ConstructorView>,
    b: Seq<crate::schema::ConstructorView>,
    excluded: Seq<Seq<char>>,
)
    requires
        a == b,
    ensures
        group(a, excluded) == group(b, excluded),
        schema_text(a, excluded) == schema_text(b, excluded),
{
}

} // verus!
