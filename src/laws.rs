//! What the generated implementations mean, and laws of resolution.
use vstd::prelude::*;
use core::cmp::Ordering;
use crate::derive::{
    count_marks, field_selectors, generate, hash_sequence, marker_name, ord_sequence, orders,
    shape_selectors, type_level, Attribute, Field, GenError, Generator, Shape, TypeDescription,
};
use crate::grammar::texts;
use crate::resolve::{expand, has_marker, marker_text};

verus! {

/// `a.then_with(|| b)`: `a`, unless it is `Equal`.
pub open spec fn then_with(a: Ordering, b: Ordering) -> Ordering {
    if a == Ordering::Equal { b } else { a }
}

/// The value of the generated comparison chain
/// `c0.then_with(|| c1).then_with(|| c2)...`, where `cmps[i]` is the
/// comparison of the values of the `i`-th selector on the two instances.
pub open spec fn chain_value(cmps: Seq<Ordering>) -> Ordering
    decreases cmps.len(),
{
    if cmps.len() == 0 {
        Ordering::Equal
    } else {
        then_with(chain_value(cmps.drop_last()), cmps.last())
    }
}

/// Lexicographic comparison: the first comparison that is not `Equal`.
pub open spec fn lexicographic(cmps: Seq<Ordering>) -> Ordering
    decreases cmps.len(),
{
    if cmps.len() == 0 {
        Ordering::Equal
    } else if cmps[0] != Ordering::Equal {
        cmps[0]
    } else {
        lexicographic(cmps.skip(1))
    }
}

proof fn lemma_lexicographic_push(s: Seq<Ordering>, x: Ordering)
    ensures
        lexicographic(s.push(x)) == then_with(lexicographic(s), x),
    decreases s.len(),
{
    assert(s.push(x)[0] == if s.len() > 0 { s[0] } else { x });
    if s.len() > 0 {
        assert(s.push(x).skip(1) =~= s.skip(1).push(x));
        lemma_lexicographic_push(s.skip(1), x);
        if s[0] == Ordering::Equal {
            assert(lexicographic(s.push(x)) == lexicographic(s.skip(1).push(x)));
            assert(lexicographic(s) == lexicographic(s.skip(1)));
        }
    } else {
        assert(s.push(x).skip(1) =~= Seq::<Ordering>::empty());
        assert(lexicographic(Seq::<Ordering>::empty()) == Ordering::Equal);
        assert(lexicographic(s) == Ordering::Equal);
    }
}

/// The comparison chain orders lexicographically over its selectors, highest
/// priority first.
pub proof fn law_chain_is_lexicographic(cmps: Seq<Ordering>)
    ensures
        chain_value(cmps) == lexicographic(cmps),
    decreases cmps.len(),
{
    if cmps.len() > 0 {
        law_chain_is_lexicographic(cmps.drop_last());
        lemma_lexicographic_push(cmps.drop_last(), cmps.last());
        assert(cmps.drop_last().push(cmps.last()) =~= cmps);
    }
}

/// The chain short-circuits: once the selector at `k` differs, after equal
/// ones, it decides the result, whatever the later selectors compare to.
pub proof fn law_chain_short_circuits(a: Seq<Ordering>, b: Seq<Ordering>, k: int)
    requires
        0 <= k < a.len(),
        k < b.len(),
        a.take(k + 1) == b.take(k + 1),
        forall|i: int| 0 <= i < k ==> a[i] == Ordering::Equal,
        a[k] != Ordering::Equal,
    ensures
        chain_value(a) == a[k],
        chain_value(b) == a[k],
{
    lemma_lexicographic_at(a, k);
    assert(a.take(k + 1)[k] == b[k]);
    assert forall|i: int| 0 <= i < k implies b[i] == Ordering::Equal by {
        assert(a.take(k + 1)[i] == a[i]);
        assert(b.take(k + 1)[i] == b[i]);
    }
    lemma_lexicographic_at(b, k);
    law_chain_is_lexicographic(a);
    law_chain_is_lexicographic(b);
}

proof fn lemma_lexicographic_at(a: Seq<Ordering>, k: int)
    requires
        0 <= k < a.len(),
        forall|i: int| 0 <= i < k ==> a[i] == Ordering::Equal,
        a[k] != Ordering::Equal,
    ensures
        lexicographic(a) == a[k],
    decreases k,
{
    if k > 0 {
        assert(a[0] == Ordering::Equal);
        lemma_lexicographic_at(a.skip(1), k - 1);
    }
}

/// Without type-level selectors, both the ordering and the hashing sequence
/// are exactly the marked fields, in declaration order.
pub proof fn law_fields_only(fs: Seq<Seq<char>>)
    ensures
        ord_sequence(Seq::empty(), fs) == fs,
        hash_sequence(Seq::empty(), fs) == fs,
{
    assert(!has_marker(Seq::<Seq<char>>::empty()));
    assert(Seq::<Seq<char>>::empty() + fs =~= fs);
}

/// Without the field marker, type-level selectors come first and the field
/// selectors follow. Hashing always merges this way.
pub proof fn law_type_level_first(items: Seq<Seq<char>>, fs: Seq<Seq<char>>)
    ensures
        !has_marker(items) ==> ord_sequence(items, fs) == items + fs,
        hash_sequence(items, fs) == items + fs,
{
}

proof fn lemma_expand_plain(items: Seq<Seq<char>>, fs: Seq<Seq<char>>)
    requires
        forall|j: int| 0 <= j < items.len() ==> items[j] != marker_text(),
    ensures
        expand(items, fs) == items,
    decreases items.len(),
{
    if items.len() > 0 {
        lemma_expand_plain(items.drop_last(), fs);
        assert(items.drop_last().push(items.last()) =~= items);
    }
}

proof fn lemma_expand_concat(a: Seq<Seq<char>>, b: Seq<Seq<char>>, fs: Seq<Seq<char>>)
    ensures
        expand(a + b, fs) == expand(a, fs) + expand(b, fs),
    decreases b.len(),
{
    if b.len() == 0 {
        assert(a + b =~= a);
        assert(expand(a, fs) + expand(b, fs) =~= expand(a, fs));
    } else {
        assert((a + b).drop_last() =~= a + b.drop_last());
        lemma_expand_concat(a, b.drop_last(), fs);
        if b.last() == marker_text() {
            assert(expand(a + b, fs) =~= expand(a, fs) + expand(b, fs));
        } else {
            assert(expand(a + b, fs) =~= expand(a, fs) + expand(b, fs));
        }
    }
}

proof fn lemma_has_marker_at(items: Seq<Seq<char>>, i: int)
    requires
        0 <= i < items.len(),
        items[i] == marker_text(),
    ensures
        has_marker(items),
    decreases items.len(),
{
    if i < items.len() - 1 {
        lemma_has_marker_at(items.drop_last(), i);
    }
}

/// With the field marker once, at index `i`, the field selectors take its
/// place: items before it keep their precedence, items after it follow.
pub proof fn law_marker_in_place(items: Seq<Seq<char>>, fs: Seq<Seq<char>>, i: int)
    requires
        0 <= i < items.len(),
        items[i] == marker_text(),
        forall|j: int| 0 <= j < items.len() && j != i ==> items[j] != marker_text(),
    ensures
        ord_sequence(items, fs) == items.take(i) + fs + items.skip(i + 1),
{
    lemma_has_marker_at(items, i);
    let pre = items.take(i);
    let post = items.skip(i + 1);
    let mid = seq![marker_text()];
    assert(items =~= pre + mid + post);
    lemma_expand_concat(pre + mid, post, fs);
    lemma_expand_concat(pre, mid, fs);
    lemma_expand_plain(pre, fs);
    lemma_expand_plain(post, fs);
    assert(mid.drop_last() =~= Seq::<Seq<char>>::empty());
    assert(mid.last() == marker_text());
    assert(expand(mid.drop_last(), fs) + fs =~= fs);
    assert(expand(mid, fs) =~= fs);
}

/// With no type-level selector and no marked field there is nothing to
/// compare or hash on: generation fails rather than emitting a trivial
/// implementation.
pub proof fn law_empty_selection_fails(g: Generator, d: TypeDescription)
    requires
        type_level(d.attrs@, marker_name(g), orders(g)) == Ok::<Seq<Seq<char>>, nat>(Seq::empty()),
        shape_selectors(d.shape, d.fields@, marker_name(g)) == Ok::<Seq<Seq<char>>, GenError>(
            Seq::empty(),
        ),
    ensures
        generate(g, d) == Err::<Seq<char>, GenError>(GenError::NoSelector),
{
    law_fields_only(Seq::empty());
}

proof fn lemma_scan_outcome(fields: Seq<Field>, m: Seq<char>, p: bool)
    ensures
        match field_selectors(fields, m, p) {
            Ok(_) => forall|k: int|
                0 <= k < fields.len() ==> count_marks(texts(#[trigger] fields[k].attrs@), m) < 2,
            Err(j) => j < fields.len() && count_marks(texts(fields[j as int].attrs@), m) >= 2
                && forall|k: int|
                0 <= k < j ==> count_marks(texts(#[trigger] fields[k].attrs@), m) < 2,
        },
    decreases fields.len(),
{
    if fields.len() > 0 {
        let init = fields.drop_last();
        let n = fields.len() - 1;
        lemma_scan_outcome(init, m, p);
        assert(fields.last() == fields[n]);
        match field_selectors(init, m, p) {
            Ok(_) => {
                if count_marks(texts(fields[n].attrs@), m) < 2 {
                    assert forall|k: int| 0 <= k < fields.len() implies count_marks(
                        texts(#[trigger] fields[k].attrs@),
                        m,
                    ) < 2 by {
                        if k < n {
                            assert(init[k] == fields[k]);
                        }
                    }
                } else {
                    assert forall|k: int| 0 <= k < n implies count_marks(
                        texts(#[trigger] fields[k].attrs@),
                        m,
                    ) < 2 by {
                        assert(init[k] == fields[k]);
                    }
                }
            },
            Err(j) => {
                assert(init[j as int] == fields[j as int]);
                assert forall|k: int| 0 <= k < j implies count_marks(
                    texts(#[trigger] fields[k].attrs@),
                    m,
                ) < 2 by {
                    assert(init[k] == fields[k]);
                }
            },
        }
    }
}

/// A field marked more than once fails generation: the error names the
/// first such field in declaration order. This holds once the type-level
/// attributes are well formed, whose errors are reported first.
pub proof fn law_duplicate_marker_fails(g: Generator, d: TypeDescription, i: int)
    requires
        type_level(d.attrs@, marker_name(g), orders(g)) is Ok,
        d.shape == Shape::Named || d.shape == Shape::Positional,
        0 <= i < d.fields@.len(),
        count_marks(texts(d.fields@[i].attrs@), marker_name(g)) >= 2,
    ensures
        exists|j: int|
            0 <= j <= i && count_marks(texts(d.fields@[j].attrs@), marker_name(g)) >= 2 && (forall|
                k: int,
            |
                0 <= k < j ==> count_marks(texts(#[trigger] d.fields@[k].attrs@), marker_name(g))
                    < 2) && generate(g, d) == Err::<Seq<char>, GenError>(
                GenError::DuplicateMarker { field: j as usize },
            ),
{
    let fields = d.fields@;
    let m = marker_name(g);
    let p = d.shape == Shape::Positional;
    lemma_scan_outcome(fields, m, p);
    match field_selectors(fields, m, p) {
        Ok(_) => {
            assert(count_marks(texts(fields[i].attrs@), m) < 2);
        },
        Err(j) => {
            if j > i {
                assert(count_marks(texts(fields[i].attrs@), m) < 2);
            }
            assert(0 <= j <= i && count_marks(texts(d.fields@[j as int].attrs@), m) >= 2);
        },
    }
}

/// Whether two attribute lists hold the same texts.
pub open spec fn same_attrs(a: Seq<Attribute>, b: Seq<Attribute>) -> bool {
    a.len() == b.len() && forall|i: int|
        0 <= i < a.len() ==> (#[trigger] a[i]).path@ == b[i].path@ && a[i].args@ == b[i].args@
}

/// Whether two field lists hold the same names and attribute names.
pub open spec fn same_fields(a: Seq<Field>, b: Seq<Field>) -> bool {
    a.len() == b.len() && forall|i: int|
        0 <= i < a.len() ==> (#[trigger] a[i]).name@ == b[i].name@ && texts(a[i].attrs@) == texts(
            b[i].attrs@,
        )
}

/// Whether two type descriptions hold the same annotation text.
pub open spec fn same_text(d1: TypeDescription, d2: TypeDescription) -> bool {
    d1.name@ == d2.name@ && d1.shape == d2.shape && same_attrs(d1.attrs@, d2.attrs@)
        && same_fields(d1.fields@, d2.fields@)
}

proof fn lemma_type_level_text(a: Seq<Attribute>, b: Seq<Attribute>, m: Seq<char>, marker: bool)
    requires
        same_attrs(a, b),
    ensures
        type_level(a, m, marker) == type_level(b, m, marker),
    decreases a.len(),
{
    if a.len() > 0 {
        assert(same_attrs(a.drop_last(), b.drop_last()));
        lemma_type_level_text(a.drop_last(), b.drop_last(), m, marker);
        assert(a.last() == a[a.len() - 1]);
    }
}

proof fn lemma_fields_text(a: Seq<Field>, b: Seq<Field>, m: Seq<char>, p: bool)
    requires
        same_fields(a, b),
    ensures
        field_selectors(a, m, p) == field_selectors(b, m, p),
    decreases a.len(),
{
    if a.len() > 0 {
        assert(same_fields(a.drop_last(), b.drop_last()));
        lemma_fields_text(a.drop_last(), b.drop_last(), m, p);
        assert(a.last() == a[a.len() - 1]);
    }
}

/// Generation is deterministic: the same annotation text, resolved again,
/// gives the same selector sequences and the same output.
pub proof fn law_same_text_same_result(g: Generator, d1: TypeDescription, d2: TypeDescription)
    requires
        same_text(d1, d2),
    ensures
        generate(g, d1) == generate(g, d2),
{
    let m = marker_name(g);
    lemma_type_level_text(d1.attrs@, d2.attrs@, m, orders(g));
    lemma_fields_text(d1.fields@, d2.fields@, m, false);
    lemma_fields_text(d1.fields@, d2.fields@, m, true);
    assert(shape_selectors(d1.shape, d1.fields@, m) == shape_selectors(d2.shape, d2.fields@, m));
}

} // verus!
