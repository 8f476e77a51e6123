//! The three generators: ordering and equality (`cmp_by`), hashing
//! (`hash_by`), and both at once (`sort_by`).
use vstd::prelude::*;
use crate::grammar::{parse_list, parse_selector_list, texts};
use crate::render::{hash_impl, ord_impls, render_hash_impl, render_ord_impls};
use crate::resolve::{
    count_markers, decimal, decimal_text, extend_texts, marker_count, resolve, resolve_selectors,
};

verus! {

/// The structural kind of an annotated type.
#[derive(Clone, Copy, PartialEq, Eq, Structural)]
pub enum Shape {
    /// A struct with named fields.
    Named,
    /// A tuple struct.
    Positional,
    /// A struct without fields.
    Unit,
    /// An enum.
    Enum,
    /// A union.
    Union,
}

/// Which implementations are generated, under which annotation name.
#[derive(Clone, Copy, PartialEq, Eq, Structural)]
pub enum Generator {
    /// `Eq`, `PartialEq`, `PartialOrd` and `Ord`, under `cmp_by`.
    CmpBy,
    /// `Hash`, under `hash_by`.
    HashBy,
    /// `Hash` and the four comparison traits, under `sort_by`.
    SortBy,
}

/// One attribute attached to a type: its name and the text of its arguments,
/// such as `cmp_by` and `(a, b())`.
pub struct Attribute {
    pub path: String,
    pub args: String,
}

/// A declared field: its name (empty for a positional field) and the names of
/// the attributes attached to it.
pub struct Field {
    pub name: String,
    pub attrs: Vec<String>,
}

/// What the generators read of an annotated type, in declaration order.
pub struct TypeDescription {
    pub name: String,
    pub shape: Shape,
    pub attrs: Vec<Attribute>,
    pub fields: Vec<Field>,
}

/// Why no implementation was generated.
#[derive(Clone, Copy, PartialEq, Eq, Structural, Debug)]
pub enum GenError {
    /// The arguments of the type attribute at this index are not a selector
    /// list, or repeat the field marker where it is recognized.
    Grammar { attr: usize },
    /// The type is neither a struct with fields nor an enum.
    Shape,
    /// The field at this index carries the marker more than once.
    DuplicateMarker { field: usize },
    /// No selector remains to compare or hash on.
    NoSelector,
}

/// The annotation name of a generator.
pub open spec fn marker_name(g: Generator) -> Seq<char> {
    match g {
        Generator::CmpBy => "cmp_by"@,
        Generator::HashBy => "hash_by"@,
        Generator::SortBy => "sort_by"@,
    }
}

/// The selectors of all type attributes named `m`, concatenated in
/// attachment order, or the index of the first one whose arguments are not
/// a selector list or, where the field marker is recognized (`marker`),
/// bring the marker a second time.
pub open spec fn type_level(attrs: Seq<Attribute>, m: Seq<char>, marker: bool) -> Result<
    Seq<Seq<char>>,
    nat,
>
    decreases attrs.len(),
{
    if attrs.len() == 0 {
        Ok(Seq::empty())
    } else {
        match type_level(attrs.drop_last(), m, marker) {
            Err(i) => Err(i),
            Ok(v) => if attrs.last().path@ != m {
                Ok(v)
            } else {
                match parse_list(attrs.last().args@) {
                    Some(w) => if marker && marker_count(v + w) >= 2 {
                        Err((attrs.len() - 1) as nat)
                    } else {
                        Ok(v + w)
                    },
                    None => Err((attrs.len() - 1) as nat),
                }
            },
        }
    }
}

/// How many of `attrs` are `m`.
pub open spec fn count_marks(attrs: Seq<Seq<char>>, m: Seq<char>) -> nat
    decreases attrs.len(),
{
    if attrs.len() == 0 {
        0
    } else {
        count_marks(attrs.drop_last(), m) + if attrs.last() == m { 1nat } else { 0nat }
    }
}

/// The selector of the field at index `i`: its name, or its position.
pub open spec fn member(f: Field, i: nat, positional: bool) -> Seq<char> {
    if positional { decimal(i) } else { f.name@ }
}

/// The selectors of the fields marked with `m`, in declaration order, or the
/// index of the first field marked more than once.
pub open spec fn field_selectors(fields: Seq<Field>, m: Seq<char>, positional: bool) -> Result<
    Seq<Seq<char>>,
    nat,
>
    decreases fields.len(),
{
    if fields.len() == 0 {
        Ok(Seq::empty())
    } else {
        let i = (fields.len() - 1) as nat;
        let k = count_marks(texts(fields.last().attrs@), m);
        match field_selectors(fields.drop_last(), m, positional) {
            Err(e) => Err(e),
            Ok(v) => if k >= 2 {
                Err(i)
            } else if k == 1 {
                Ok(v.push(member(fields.last(), i, positional)))
            } else {
                Ok(v)
            },
        }
    }
}

/// The field selectors of a type of shape `s`: none for an enum, whose
/// fields are never marked.
pub open spec fn shape_selectors(s: Shape, fields: Seq<Field>, m: Seq<char>) -> Result<
    Seq<Seq<char>>,
    GenError,
> {
    match s {
        Shape::Named => match field_selectors(fields, m, false) {
            Ok(v) => Ok(v),
            Err(i) => Err(GenError::DuplicateMarker { field: i as usize }),
        },
        Shape::Positional => match field_selectors(fields, m, true) {
            Ok(v) => Ok(v),
            Err(i) => Err(GenError::DuplicateMarker { field: i as usize }),
        },
        Shape::Enum => Ok(Seq::empty()),
        _ => Err(GenError::Shape),
    }
}

/// The generated text, from the ordering and the hashing sequences.
pub open spec fn emit(g: Generator, name: Seq<char>, ord: Seq<Seq<char>>, hash: Seq<Seq<char>>) -> Seq<
    char,
> {
    match g {
        Generator::CmpBy => ord_impls(name, ord),
        Generator::HashBy => hash_impl(name, hash),
        Generator::SortBy => hash_impl(name, hash) + ord_impls(name, ord),
    }
}

/// The ordering sequence: the field marker is recognized.
pub open spec fn ord_sequence(tl: Seq<Seq<char>>, fs: Seq<Seq<char>>) -> Seq<Seq<char>> {
    resolve(tl, fs, true)
}

/// The hashing sequence: type-level selectors, then field selectors.
pub open spec fn hash_sequence(tl: Seq<Seq<char>>, fs: Seq<Seq<char>>) -> Seq<Seq<char>> {
    resolve(tl, fs, false)
}

/// Whether a generator needs the ordering (resp. hashing) sequence.
pub open spec fn orders(g: Generator) -> bool {
    g != Generator::HashBy
}

pub open spec fn hashes(g: Generator) -> bool {
    g != Generator::CmpBy
}

/// What generator `g` produces for the type `d`. Errors come in this order:
/// grammar errors of type attributes, the shape, duplicate field markers,
/// and an empty selector sequence.
pub open spec fn generate(g: Generator, d: TypeDescription) -> Result<Seq<char>, GenError> {
    let m = marker_name(g);
    match type_level(d.attrs@, m, orders(g)) {
        Err(i) => Err(GenError::Grammar { attr: i as usize }),
        Ok(tl) => match shape_selectors(d.shape, d.fields@, m) {
            Err(e) => Err(e),
            Ok(fs) => if (orders(g) && ord_sequence(tl, fs).len() == 0) || (hashes(g)
                && hash_sequence(tl, fs).len() == 0) {
                Err(GenError::NoSelector)
            } else {
                Ok(emit(g, d.name@, ord_sequence(tl, fs), hash_sequence(tl, fs)))
            },
        },
    }
}

fn marker_of(g: Generator) -> (r: String)
    ensures
        r@ == marker_name(g),
{
    match g {
        Generator::CmpBy => "cmp_by".to_owned(),
        Generator::HashBy => "hash_by".to_owned(),
        Generator::SortBy => "sort_by".to_owned(),
    }
}

fn collect_type_level(attrs: &Vec<Attribute>, m: &String, marker: bool) -> (r: Result<
    Vec<String>,
    usize,
>)
    ensures
        match type_level(attrs@, m@, marker) {
            Ok(v) => r is Ok && texts(r->Ok_0@) == v,
            Err(i) => r == Err::<Vec<String>, usize>(i as usize),
        },
{
    let mut out: Vec<String> = Vec::new();
    let mut j: usize = 0;
    proof {
        assert(attrs@.take(0) =~= Seq::<Attribute>::empty());
        assert(texts(out@) =~= Seq::<Seq<char>>::empty());
    }
    while j < attrs.len()
        invariant
            j <= attrs.len(),
            type_level(attrs@.take(j as int), m@, marker) == Ok::<Seq<Seq<char>>, nat>(texts(out@)),
        decreases attrs.len() - j,
    {
        proof {
            assert(attrs@.take(j + 1).drop_last() =~= attrs@.take(j as int));
            assert(attrs@.take(j + 1).last() == attrs@[j as int]);
        }
        if attrs[j].path == *m {
            match parse_selector_list(attrs[j].args.as_str()) {
                Some(v) => {
                    extend_texts(&mut out, &v);
                    if marker && count_markers(&out) >= 2 {
                        proof {
                            lemma_type_level_err_stays(attrs@, m@, marker, j + 1);
                            assert(attrs@.take(attrs@.len() as int) =~= attrs@);
                        }
                        return Err(j);
                    }
                },
                None => {
                    proof {
                        lemma_type_level_err_stays(attrs@, m@, marker, j + 1);
                        assert(attrs@.take(attrs@.len() as int) =~= attrs@);
                    }
                    return Err(j);
                },
            }
        }
        j = j + 1;
    }
    proof {
        assert(attrs@.take(attrs@.len() as int) =~= attrs@);
    }
    Ok(out)
}

proof fn lemma_type_level_err_stays(attrs: Seq<Attribute>, m: Seq<char>, marker: bool, k: int)
    requires
        0 < k <= attrs.len(),
        type_level(attrs.take(k), m, marker) is Err,
    ensures
        type_level(attrs, m, marker) == type_level(attrs.take(k), m, marker),
    decreases attrs.len() - k,
{
    if k < attrs.len() {
        assert(attrs.take(k + 1).drop_last() =~= attrs.take(k));
        lemma_type_level_err_stays(attrs, m, marker, k + 1);
    } else {
        assert(attrs.take(k) =~= attrs);
    }
}

fn count_marks_exec(attrs: &Vec<String>, m: &String) -> (r: usize)
    ensures
        r == count_marks(texts(attrs@), m@),
{
    let ghost ts = texts(attrs@);
    let mut n: usize = 0;
    let mut j: usize = 0;
    proof {
        assert(ts.take(0) =~= Seq::<Seq<char>>::empty());
    }
    while j < attrs.len()
        invariant
            j <= attrs.len(),
            ts == texts(attrs@),
            n == count_marks(ts.take(j as int), m@),
            n <= j,
        decreases attrs.len() - j,
    {
        proof {
            assert(ts.take(j + 1).drop_last() =~= ts.take(j as int));
            assert(ts.take(j + 1).last() == attrs@[j as int]@);
        }
        if attrs[j] == *m {
            n = n + 1;
        }
        j = j + 1;
    }
    proof {
        assert(ts.take(attrs@.len() as int) =~= ts);
    }
    n
}

pub(crate) proof fn lemma_field_err_stays(fields: Seq<Field>, m: Seq<char>, p: bool, k: int)
    requires
        0 < k <= fields.len(),
        field_selectors(fields.take(k), m, p) is Err,
    ensures
        field_selectors(fields, m, p) == field_selectors(fields.take(k), m, p),
    decreases fields.len() - k,
{
    if k < fields.len() {
        assert(fields.take(k + 1).drop_last() =~= fields.take(k));
        lemma_field_err_stays(fields, m, p, k + 1);
    } else {
        assert(fields.take(k) =~= fields);
    }
}

fn scan_fields(fields: &Vec<Field>, m: &String, positional: bool) -> (r: Result<Vec<String>, usize>)
    ensures
        match field_selectors(fields@, m@, positional) {
            Ok(v) => r is Ok && texts(r->Ok_0@) == v,
            Err(i) => r == Err::<Vec<String>, usize>(i as usize),
        },
{
    let mut out: Vec<String> = Vec::new();
    let mut j: usize = 0;
    proof {
        assert(fields@.take(0) =~= Seq::<Field>::empty());
        assert(texts(out@) =~= Seq::<Seq<char>>::empty());
    }
    while j < fields.len()
        invariant
            j <= fields.len(),
            field_selectors(fields@.take(j as int), m@, positional) == Ok::<Seq<Seq<char>>, nat>(
                texts(out@),
            ),
        decreases fields.len() - j,
    {
        proof {
            assert(fields@.take(j + 1).drop_last() =~= fields@.take(j as int));
            assert(fields@.take(j + 1).last() == fields@[j as int]);
        }
        let k = count_marks_exec(&fields[j].attrs, m);
        if k >= 2 {
            proof {
                lemma_field_err_stays(fields@, m@, positional, j + 1);
            }
            return Err(j);
        } else if k == 1 {
            let sel = if positional {
                decimal_text(j)
            } else {
                fields[j].name.clone()
            };
            let ghost prev = texts(out@);
            out.push(sel);
            proof {
                assert(texts(out@) =~= prev.push(sel@));
            }
        }
        j = j + 1;
    }
    proof {
        assert(fields@.take(fields@.len() as int) =~= fields@);
    }
    Ok(out)
}

/// Runs generator `g` on the type `d`: the generated implementations, or the
/// reason there are none.
pub fn generate_impls(g: Generator, d: &TypeDescription) -> (r: Result<String, GenError>)
    ensures
        match generate(g, *d) {
            Ok(t) => r is Ok && r->Ok_0@ == t,
            Err(e) => r == Err::<String, GenError>(e),
        },
{
    let m = marker_of(g);
    let orders = match g {
        Generator::HashBy => false,
        _ => true,
    };
    let tl = match collect_type_level(&d.attrs, &m, orders) {
        Ok(v) => v,
        Err(i) => {
            return Err(GenError::Grammar { attr: i });
        },
    };
    let fs = match d.shape {
        Shape::Named => match scan_fields(&d.fields, &m, false) {
            Ok(v) => v,
            Err(i) => {
                return Err(GenError::DuplicateMarker { field: i });
            },
        },
        Shape::Positional => match scan_fields(&d.fields, &m, true) {
            Ok(v) => v,
            Err(i) => {
                return Err(GenError::DuplicateMarker { field: i });
            },
        },
        Shape::Enum => {
            let v: Vec<String> = Vec::new();
            proof {
                assert(texts(v@) =~= Seq::<Seq<char>>::empty());
            }
            v
        },
        _ => {
            return Err(GenError::Shape);
        },
    };
    let ord = resolve_selectors(&tl, &fs, true);
    let hash = resolve_selectors(&tl, &fs, false);
    let hashes = match g {
        Generator::CmpBy => false,
        _ => true,
    };
    if (orders && ord.len() == 0) || (hashes && hash.len() == 0) {
        return Err(GenError::NoSelector);
    }
    let name = d.name.as_str();
    match g {
        Generator::CmpBy => Ok(render_ord_impls(name, &ord)),
        Generator::HashBy => Ok(render_hash_impl(name, &hash)),
        Generator::SortBy => {
            let mut out = render_hash_impl(name, &hash);
            let rest = render_ord_impls(name, &ord);
            out.append(rest.as_str());
            Ok(out)
        },
    }
}

/// Derives `Eq`, `PartialEq`, `PartialOrd` and `Ord` from `cmp_by` annotations.
pub fn cmp_by_derive(d: &TypeDescription) -> (r: Result<String, GenError>)
    ensures
        match generate(Generator::CmpBy, *d) {
            Ok(t) => r is Ok && r->Ok_0@ == t,
            Err(e) => r == Err::<String, GenError>(e),
        },
{
    generate_impls(Generator::CmpBy, d)
}

/// Derives `Hash` from `hash_by` annotations.
pub fn hash_by_derive(d: &TypeDescription) -> (r: Result<String, GenError>)
    ensures
        match generate(Generator::HashBy, *d) {
            Ok(t) => r is Ok && r->Ok_0@ == t,
            Err(e) => r == Err::<String, GenError>(e),
        },
{
    generate_impls(Generator::HashBy, d)
}

/// Derives `Hash` and the four comparison traits from `sort_by` annotations.
pub fn impl_sort_by_derive(d: &TypeDescription) -> (r: Result<String, GenError>)
    ensures
        match generate(Generator::SortBy, *d) {
            Ok(t) => r is Ok && r->Ok_0@ == t,
            Err(e) => r == Err::<String, GenError>(e),
        },
{
    generate_impls(Generator::SortBy, d)
}

} // verus!
