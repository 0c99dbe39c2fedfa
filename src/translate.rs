//! Translation of schema type references and identifiers into names of the
//! generated code.
use vstd::prelude::*;
use vstd::string::{StrSliceExecFns, StringExecFns};

verus! {

/// The position of the first `c` in `s`.
pub open spec fn first_pos(s: Seq<char>, c: char) -> Option<int>
    decreases s.len(),
{
    if s.len() == 0 {
        None
    } else if s[0] == c {
        Some(0)
    } else {
        match first_pos(s.drop_first(), c) {
            Some(i) => Some(i + 1),
            None => None,
        }
    }
}

pub proof fn lemma_first_pos(s: Seq<char>, c: char, i: int)
    requires
        0 <= i <= s.len(),
        forall|j: int| 0 <= j < i ==> s[j] != c,
    ensures
        i < s.len() && s[i] == c ==> first_pos(s, c) == Some(i),
        i == s.len() ==> first_pos(s, c) is None,
    decreases i,
{
    if i > 0 {
        lemma_first_pos(s.drop_first(), c, i - 1);
    } else if s.len() > 0 {
    }
}

/// The module a code unit is generated in, as characters.
pub open spec fn module_view(m: &Option<String>) -> Option<Seq<char>> {
    match m {
        Some(s) => Some(s@),
        None => None,
    }
}

/// A reference to `name` of module `module` as seen from `current`: bare
/// inside that module, qualified as `lead` `module::name` elsewhere.
pub open spec fn qualified(module: Seq<char>, name: Seq<char>, current: Option<Seq<char>>, lead: Seq<char>) -> Seq<char> {
    if current == Some(module) {
        name
    } else {
        lead + module + "::"@ + name
    }
}

/// Whether `t` reads `Vector<X>`.
pub open spec fn is_vector(t: Seq<char>) -> bool {
    t.len() >= 8 && t.subrange(0, 7) == "Vector<"@ && t.last() == '>'
}

/// The `X` of `Vector<X>`.
pub open spec fn vector_arg(t: Seq<char>) -> Seq<char> {
    t.subrange(7, t.len() - 1)
}

/// The type that an unqualified, non-generic schema type becomes.
pub open spec fn primitive_type(t: Seq<char>) -> Seq<char> {
    if t == "string"@ {
        "String"@
    } else if t == "Bool"@ {
        "bool"@
    } else if t == "int"@ {
        "i32"@
    } else if t == "long"@ {
        "i64"@
    } else if t == "double"@ {
        "f64"@
    } else if t == "bytes"@ {
        "Vec<u8>"@
    } else {
        "::"@ + t
    }
}

/// The generated type for the schema type reference `t`, seen from module
/// `current`.
pub open spec fn type_ref(t: Seq<char>, current: Option<Seq<char>>) -> Seq<char>
    decreases t.len(),
{
    if is_vector(t) {
        "Vec<"@ + type_ref(vector_arg(t), current) + ">"@
    } else {
        match first_pos(t, '.') {
            Some(i) => qualified(t.subrange(0, i), t.subrange(i + 1, t.len() as int), current, "::"@),
            None => primitive_type(t),
        }
    }
}

/// The generated identifier for the schema identifier `id`, seen from module
/// `current`. A bare identifier that is the keyword `type` followed by any
/// number of `_` gets one more `_`, so `type` becomes `type_`, `type_`
/// becomes `type__`, and no two bare identifiers meet.
pub open spec fn ident(id: Seq<char>, current: Option<Seq<char>>) -> Seq<char> {
    match first_pos(id, '.') {
        Some(i) => qualified(id.subrange(0, i), id.subrange(i + 1, id.len() as int), current, ""@),
        None => escape_keyword(id),
    }
}

/// Whether `id` is the keyword `type` followed by zero or more `_`.
pub open spec fn is_escaped_keyword(id: Seq<char>) -> bool {
    id.len() >= 4 && id.subrange(0, 4) == "type"@ && forall|i: int| 4 <= i < id.len() ==> id[i] == '_'
}

/// A bare identifier with the keyword escape applied.
pub open spec fn escape_keyword(id: Seq<char>) -> Seq<char> {
    if is_escaped_keyword(id) {
        id + "_"@
    } else {
        id
    }
}

/// The keyword escape is reversible: distinct bare identifiers stay distinct.
pub proof fn lemma_escape_keyword_injective(a: Seq<char>, b: Seq<char>)
    ensures
        escape_keyword(a) == escape_keyword(b) ==> a == b,
{
    reveal_strlit("_");
    if escape_keyword(a) == escape_keyword(b) {
        if is_escaped_keyword(a) && !is_escaped_keyword(b) {
            lemma_escape_shifted(a, b);
        } else if !is_escaped_keyword(a) && is_escaped_keyword(b) {
            lemma_escape_shifted(b, a);
        } else if is_escaped_keyword(a) && is_escaped_keyword(b) {
            assert(a =~= (a + "_"@).subrange(0, a.len() as int));
            assert(b =~= (b + "_"@).subrange(0, b.len() as int));
        }
    }
}

proof fn lemma_escape_shifted(a: Seq<char>, b: Seq<char>)
    requires
        is_escaped_keyword(a),
        b == a + "_"@,
    ensures
        is_escaped_keyword(b),
{
    reveal_strlit("_");
    assert(b.subrange(0, 4) =~= a.subrange(0, 4));
    assert forall|i: int| 4 <= i < b.len() implies b[i] == '_' by {
        if i < a.len() {
            assert(b[i] == a[i]);
        }
    }
}

/// Two distinct identifiers without a `.` translate to distinct
/// identifiers, in any module.
pub proof fn lemma_ident_injective(a: Seq<char>, b: Seq<char>, current: Option<Seq<char>>)
    requires
        first_pos(a, '.') is None,
        first_pos(b, '.') is None,
        a != b,
    ensures
        ident(a, current) != ident(b, current),
{
    lemma_escape_keyword_injective(a, b);
}

/// Whether two strings hold the same characters.
pub fn str_eq(a: &str, b: &str) -> (r: bool)
    ensures
        r == (a@ == b@),
{
    let n = a.unicode_len();
    if n != b.unicode_len() {
        return false;
    }
    let mut i: usize = 0;
    while i < n
        invariant
            n == a@.len(),
            n == b@.len(),
            i <= n,
            forall|j: int| 0 <= j < i ==> a@[j] == b@[j],
        decreases n - i,
    {
        if a.get_char(i) != b.get_char(i) {
            return false;
        }
        i = i + 1;
    }
    assert(a@ =~= b@);
    true
}

/// The position of the first `c` in `s`.
pub fn find_char(s: &str, c: char) -> (r: Option<usize>)
    ensures
        match r {
            Some(i) => i < s@.len() && first_pos(s@, c) == Some(i as int),
            None => first_pos(s@, c) is None,
        },
{
    let n = s.unicode_len();
    let mut i: usize = 0;
    while i < n
        invariant
            n == s@.len(),
            i <= n,
            forall|j: int| 0 <= j < i ==> s@[j] != c,
        decreases n - i,
    {
        if s.get_char(i) == c {
            proof {
                lemma_first_pos(s@, c, i as int);
            }
            return Some(i);
        }
        i = i + 1;
    }
    proof {
        lemma_first_pos(s@, c, i as int);
    }
    None
}

fn module_eq(current: &Option<String>, name: &str) -> (r: bool)
    ensures
        r == (module_view(current) == Some(name@)),
{
    match current {
        Some(m) => str_eq(m.as_str(), name),
        None => false,
    }
}

/// `module::name` as seen from `current`, after `lead`.
fn qualify(s: &str, dot: usize, current: &Option<String>, lead: &str) -> (r: String)
    requires
        dot < s@.len(),
    ensures
        r@ == qualified(s@.subrange(0, dot as int), s@.subrange(dot + 1, s@.len() as int), module_view(current), lead@),
{
    let n = s.unicode_len();
    let module = s.substring_char(0, dot);
    let name = s.substring_char(dot + 1, n);
    if module_eq(current, module) {
        name.to_owned()
    } else {
        let r = String::from_str(lead).concat(module).concat("::").concat(name);
        r
    }
}

/// Translates a schema type reference into a generated type, seen from
/// module `current_module`: `Vector<X>` becomes `Vec<` the translation of
/// `X` `>` at any depth; `module.Name` becomes `Name` inside that module and
/// `::module::Name` elsewhere; the primitive names map to their types; any
/// other name becomes `::Name`.
pub fn translate_typename(typename: &str, current_module: &Option<String>) -> (r: String)
    ensures
        r@ == type_ref(typename@, module_view(current_module)),
    decreases typename@.len(),
{
    let n = typename.unicode_len();
    proof {
        reveal_strlit("Vector<");
    }
    if n >= 8 && typename.get_char(n - 1) == '>' && str_eq(typename.substring_char(0, 7), "Vector<") {
        let inner = translate_typename(typename.substring_char(7, n - 1), current_module);
        return String::from_str("Vec<").concat(inner.as_str()).concat(">");
    }
    match find_char(typename, '.') {
        Some(dot) => qualify(typename, dot, current_module, "::"),
        None => {
            if str_eq(typename, "string") {
                String::from_str("String")
            } else if str_eq(typename, "Bool") {
                String::from_str("bool")
            } else if str_eq(typename, "int") {
                String::from_str("i32")
            } else if str_eq(typename, "long") {
                String::from_str("i64")
            } else if str_eq(typename, "double") {
                String::from_str("f64")
            } else if str_eq(typename, "bytes") {
                String::from_str("Vec<u8>")
            } else {
                String::from_str("::").concat(typename)
            }
        },
    }
}

fn is_keyword_form(id: &str) -> (r: bool)
    ensures
        r == is_escaped_keyword(id@),
{
    let n = id.unicode_len();
    if n < 4 || !str_eq(id.substring_char(0, 4), "type") {
        return false;
    }
    let mut i: usize = 4;
    while i < n
        invariant
            n == id@.len(),
            4 <= i <= n,
            forall|j: int| 4 <= j < i ==> id@[j] == '_',
        decreases n - i,
    {
        if id.get_char(i) != '_' {
            return false;
        }
        i = i + 1;
    }
    true
}

/// Translates a schema identifier: `module.name` as for type references but
/// without the leading `::`; `type` followed by any number of `_` gets one
/// more `_`; any other identifier stays as it is.
pub fn translate_id(id: &str, current_module: &Option<String>) -> (r: String)
    ensures
        r@ == ident(id@, module_view(current_module)),
{
    match find_char(id, '.') {
        Some(dot) => qualify(id, dot, current_module, ""),
        None => {
            if is_keyword_form(id) {
                id.to_owned().concat("_")
            } else {
                id.to_owned()
            }
        },
    }
}

/// A sequence wrapper translates to the sequence type of its argument's
/// translation, so wrappers nest to any depth.
pub proof fn lemma_vector_nests(t: Seq<char>, current: Option<Seq<char>>)
    ensures
        type_ref("Vector<"@ + t + ">"@, current) == "Vec<"@ + type_ref(t, current) + ">"@,
{
    reveal_strlit("Vector<");
    reveal_strlit(">");
    let w = "Vector<"@ + t + ">"@;
    assert(w.subrange(0, 7) =~= "Vector<"@);
    assert(vector_arg(w) =~= t);
}

} // verus!
