//! Merging the type-level selector list with the selectors of marked fields.
use vstd::prelude::*;
use vstd::string::StrSliceExecFns;
use crate::grammar::texts;

verus! {

/// The reserved item that stands for the selectors of the marked fields.
pub open spec fn marker_text() -> Seq<char> {
    "_fields"@
}

/// Whether some item of `items` is the field marker.
pub open spec fn has_marker(items: Seq<Seq<char>>) -> bool
    decreases items.len(),
{
    items.len() > 0 && (has_marker(items.drop_last()) || items.last() == marker_text())
}

/// How many items of `items` are the field marker.
pub open spec fn marker_count(items: Seq<Seq<char>>) -> nat
    decreases items.len(),
{
    if items.len() == 0 {
        0
    } else {
        marker_count(items.drop_last()) + if items.last() == marker_text() { 1nat } else { 0nat }
    }
}

/// `items` with each field marker replaced, in place, by `fields`.
pub open spec fn expand(items: Seq<Seq<char>>, fields: Seq<Seq<char>>) -> Seq<Seq<char>>
    decreases items.len(),
{
    if items.len() == 0 {
        Seq::empty()
    } else if items.last() == marker_text() {
        expand(items.drop_last(), fields) + fields
    } else {
        expand(items.drop_last(), fields).push(items.last())
    }
}

/// The resolved selector sequence. Where the marker is recognized and
/// present, the field selectors take its place; otherwise they follow the
/// type-level selectors.
pub open spec fn resolve(items: Seq<Seq<char>>, fields: Seq<Seq<char>>, marker: bool) -> Seq<
    Seq<char>,
> {
    if marker && has_marker(items) {
        expand(items, fields)
    } else {
        items + fields
    }
}

/// Appends clones of `more` to `out`.
pub fn extend_texts(out: &mut Vec<String>, more: &Vec<String>)
    ensures
        texts(final(out)@) == texts(old(out)@) + texts(more@),
{
    let ghost start = texts(out@);
    let mut k: usize = 0;
    while k < more.len()
        invariant
            k <= more.len(),
            texts(out@) == start + texts(more@).take(k as int),
        decreases more.len() - k,
    {
        let ghost prev = texts(out@);
        let s = more[k].clone();
        out.push(s);
        proof {
            assert(texts(more@)[k as int] == s@);
            assert(texts(out@) =~= prev.push(s@));
            assert(texts(more@).take(k + 1) =~= texts(more@).take(k as int).push(s@));
            assert(texts(out@) =~= texts(out@.drop_last()).push(s@));
        }
        k = k + 1;
    }
    proof {
        assert(texts(more@).take(more@.len() as int) =~= texts(more@));
    }
}

/// Whether `s` is the field marker.
pub fn is_marker(s: &String) -> (r: bool)
    ensures
        r == (s@ == marker_text()),
{
    let m = "_fields".to_owned();
    *s == m
}

/// Counts the field markers among `items`.
pub fn count_markers(items: &Vec<String>) -> (r: usize)
    ensures
        r == marker_count(texts(items@)),
{
    let ghost ts = texts(items@);
    let mut n: usize = 0;
    let mut j: usize = 0;
    proof {
        assert(ts.take(0) =~= Seq::<Seq<char>>::empty());
    }
    while j < items.len()
        invariant
            j <= items.len(),
            ts == texts(items@),
            n == marker_count(ts.take(j as int)),
            n <= j,
        decreases items.len() - j,
    {
        proof {
            assert(ts.take(j + 1).drop_last() =~= ts.take(j as int));
            assert(ts.take(j + 1).last() == items@[j as int]@);
        }
        if is_marker(&items[j]) {
            n = n + 1;
        }
        j = j + 1;
    }
    proof {
        assert(ts.take(items@.len() as int) =~= ts);
    }
    n
}

/// Merges type-level selectors with field selectors; `marker` tells whether
/// the field marker is recognized (ordering) or is an ordinary item (hashing).
pub fn resolve_selectors(items: &Vec<String>, fields: &Vec<String>, marker: bool) -> (r: Vec<
    String,
>)
    ensures
        texts(r@) == resolve(texts(items@), texts(fields@), marker),
{
    let ghost it = texts(items@);
    let ghost fs = texts(fields@);
    let mut out: Vec<String> = Vec::new();
    let mut found = false;
    let mut j: usize = 0;
    proof {
        assert(it.take(0) =~= Seq::<Seq<char>>::empty());
        assert(texts(out@) =~= Seq::<Seq<char>>::empty());
    }
    while j < items.len()
        invariant
            j <= items.len(),
            it == texts(items@),
            fs == texts(fields@),
            texts(out@) == expand(it.take(j as int), fs),
            found == has_marker(it.take(j as int)),
        decreases items.len() - j,
    {
        proof {
            assert(it.take(j + 1).drop_last() =~= it.take(j as int));
            assert(it.take(j + 1).last() == it[j as int]);
        }
        if is_marker(&items[j]) {
            extend_texts(&mut out, fields);
            found = true;
        } else {
            let ghost prev = texts(out@);
            let s = items[j].clone();
            out.push(s);
            proof {
                assert(it[j as int] == s@);
                assert(texts(out@) =~= prev.push(s@));
                assert(texts(out@) =~= texts(out@.drop_last()).push(s@));
            }
        }
        j = j + 1;
    }
    proof {
        assert(it.take(items@.len() as int) =~= it);
    }
    if marker && found {
        out
    } else {
        let mut all: Vec<String> = Vec::new();
        proof {
            assert(texts(all@) =~= Seq::<Seq<char>>::empty());
        }
        extend_texts(&mut all, items);
        extend_texts(&mut all, fields);
        proof {
            assert(Seq::<Seq<char>>::empty() + it =~= it);
        }
        all
    }
}

/// The decimal digits of `n`, most significant first.
pub open spec fn decimal(n: nat) -> Seq<char>
    decreases n,
{
    let d = "0123456789"@.subrange((n % 10) as int, (n % 10) as int + 1);
    if n < 10 {
        d
    } else {
        decimal(n / 10) + d
    }
}

/// The decimal text of `n`, the selector of a positional field.
pub fn decimal_text(n: usize) -> (r: String)
    ensures
        r@ == decimal(n as nat),
    decreases n,
{
    let digits = "0123456789";
    proof {
        reveal_strlit("0123456789");
    }
    let d = n % 10;
    let one = digits.substring_char(d, d + 1);
    if n < 10 {
        one.to_owned()
    } else {
        let mut s = decimal_text(n / 10);
        s.append(one);
        s
    }
}

} // verus!
