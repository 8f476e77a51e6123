//! The text of the generated trait implementations.
use vstd::prelude::*;
use vstd::string::StringExecFns;
use crate::grammar::texts;

verus! {

/// The first link of the comparison chain.
pub open spec fn ord_first(s: Seq<char>) -> Seq<char> {
    "core::cmp::Ord::cmp(&self."@ + s + ", &other."@ + s + ")"@
}

/// A later link of the comparison chain, consulted only on equality.
pub open spec fn ord_next(s: Seq<char>) -> Seq<char> {
    "\n            .then_with(|| self."@ + s + ".cmp(&other."@ + s + "))"@
}

/// The comparison chain over `sels`, highest priority first.
pub open spec fn ord_chain(sels: Seq<Seq<char>>) -> Seq<char>
    decreases sels.len(),
{
    if sels.len() == 0 {
        Seq::empty()
    } else if sels.len() == 1 {
        ord_first(sels[0])
    } else {
        ord_chain(sels.drop_last()) + ord_next(sels.last())
    }
}

/// One hash-state update statement per selector, in order.
pub open spec fn hash_lines(sels: Seq<Seq<char>>) -> Seq<char>
    decreases sels.len(),
{
    if sels.len() == 0 {
        Seq::empty()
    } else {
        hash_lines(sels.drop_last()) + "        self."@ + sels.last() + ".hash(state);\n"@
    }
}

/// The `Hash` implementation for the type `name`.
pub open spec fn hash_impl(name: Seq<char>, sels: Seq<Seq<char>>) -> Seq<char> {
    "impl std::hash::Hash for "@ + name
        + " {\n    fn hash<H: std::hash::Hasher>(&self, state: &mut H) {\n"@ + hash_lines(sels)
        + "    }\n}\n"@
}

/// The `Eq`, `PartialEq`, `PartialOrd` and `Ord` implementations for the type
/// `name`: equality is "the ordering is equal", and the partial ordering is
/// always the total one.
pub open spec fn ord_impls(name: Seq<char>, sels: Seq<Seq<char>>) -> Seq<char> {
    "impl core::cmp::Eq for "@ + name + " {}\nimpl core::cmp::PartialEq<Self> for "@ + name
        + " {\n    fn eq(&self, other: &Self) -> bool {\n        self.cmp(other).is_eq()\n    }\n}\nimpl core::cmp::PartialOrd<Self> for "@
        + name
        + " {\n    fn partial_cmp(&self, other: &Self) -> core::option::Option<core::cmp::Ordering> {\n        std::option::Option::Some(self.cmp(other))\n    }\n}\nimpl core::cmp::Ord for "@
        + name + " {\n    fn cmp(&self, other: &Self) -> core::cmp::Ordering {\n        "@
        + ord_chain(sels) + "\n    }\n}\n"@
}

pub fn render_ord_chain(sels: &Vec<String>) -> (r: String)
    ensures
        r@ == ord_chain(texts(sels@)),
{
    let ghost ts = texts(sels@);
    let mut out = String::new();
    let mut k: usize = 0;
    proof {
        assert(ts.take(0) =~= Seq::<Seq<char>>::empty());
    }
    while k < sels.len()
        invariant
            k <= sels.len(),
            ts == texts(sels@),
            out@ == ord_chain(ts.take(k as int)),
        decreases sels.len() - k,
    {
        let s = sels[k].as_str();
        let ghost prev = out@;
        proof {
            assert(ts[k as int] == s@);
            assert(ts.take(k + 1).drop_last() =~= ts.take(k as int));
            assert(ts.take(k + 1).last() == s@);
        }
        if k == 0 {
            out.append("core::cmp::Ord::cmp(&self.");
            out.append(s);
            out.append(", &other.");
            out.append(s);
            out.append(")");
            assert(out@ =~= prev + ord_first(s@));
        } else {
            out.append("\n            .then_with(|| self.");
            out.append(s);
            out.append(".cmp(&other.");
            out.append(s);
            out.append("))");
            assert(out@ =~= prev + ord_next(s@));
        }
        k = k + 1;
    }
    proof {
        assert(ts.take(sels@.len() as int) =~= ts);
    }
    out
}

pub fn render_hash_lines(sels: &Vec<String>) -> (r: String)
    ensures
        r@ == hash_lines(texts(sels@)),
{
    let ghost ts = texts(sels@);
    let mut out = String::new();
    let mut k: usize = 0;
    proof {
        assert(ts.take(0) =~= Seq::<Seq<char>>::empty());
    }
    while k < sels.len()
        invariant
            k <= sels.len(),
            ts == texts(sels@),
            out@ == hash_lines(ts.take(k as int)),
        decreases sels.len() - k,
    {
        let s = sels[k].as_str();
        let ghost prev = out@;
        proof {
            assert(ts[k as int] == s@);
            assert(ts.take(k + 1).drop_last() =~= ts.take(k as int));
            assert(ts.take(k + 1).last() == s@);
        }
        out.append("        self.");
        out.append(s);
        out.append(".hash(state);\n");
        assert(out@ =~= prev + "        self."@ + s@ + ".hash(state);\n"@);
        k = k + 1;
    }
    proof {
        assert(ts.take(sels@.len() as int) =~= ts);
    }
    out
}

pub fn render_hash_impl(name: &str, sels: &Vec<String>) -> (r: String)
    ensures
        r@ == hash_impl(name@, texts(sels@)),
{
    let lines = render_hash_lines(sels);
    let mut out = String::new();
    out.append("impl std::hash::Hash for ");
    out.append(name);
    out.append(" {\n    fn hash<H: std::hash::Hasher>(&self, state: &mut H) {\n");
    out.append(lines.as_str());
    out.append("    }\n}\n");
    assert(out@ =~= hash_impl(name@, texts(sels@)));
    out
}

pub fn render_ord_impls(name: &str, sels: &Vec<String>) -> (r: String)
    ensures
        r@ == ord_impls(name@, texts(sels@)),
{
    let chain = render_ord_chain(sels);
    let mut out = String::new();
    out.append("impl core::cmp::Eq for ");
    out.append(name);
    out.append(" {}\nimpl core::cmp::PartialEq<Self> for ");
    out.append(name);
    out.append(
        " {\n    fn eq(&self, other: &Self) -> bool {\n        self.cmp(other).is_eq()\n    }\n}\nimpl core::cmp::PartialOrd<Self> for ",
    );
    out.append(name);
    out.append(
        " {\n    fn partial_cmp(&self, other: &Self) -> core::option::Option<core::cmp::Ordering> {\n        std::option::Option::Some(self.cmp(other))\n    }\n}\nimpl core::cmp::Ord for ",
    );
    out.append(name);
    out.append(" {\n    fn cmp(&self, other: &Self) -> core::cmp::Ordering {\n        ");
    out.append(chain.as_str());
    out.append("\n    }\n}\n");
    assert(out@ =~= ord_impls(name@, texts(sels@)));
    out
}

} // verus!
