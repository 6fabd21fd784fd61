//! The store's upsert semantics, as a model, and why a transaction built
//! here can be applied twice with the effect of once.
//!
//! Each binding resolves to the nodes that carry its key; when none does,
//! the store allocates one fresh node for it. The statements are then added
//! to the store's set of triples for every node their variables resolve to.
use crate::dql::{Binding, Nquad, Object};
use vstd::prelude::*;

verus! {

/// The object of a stored triple.
pub enum Stored {
    Node(nat),
    Text(Seq<char>),
}

/// The store: its triples, and the next handle it will allocate.
pub struct Graph {
    pub next: nat,
    pub triples: Set<(nat, Seq<char>, Stored)>,
}

/// The nodes that carry the key of `b`.
pub open spec fn matching(g: Graph, b: Binding) -> Set<nat> {
    Set::new(|h: nat| g.triples.contains((h, b.predicate, Stored::Text(b.key))))
}

/// How many of `bs` match no node.
pub open spec fn fresh_count(g: Graph, bs: Seq<Binding>) -> nat
    decreases bs.len(),
{
    if bs.len() == 0 {
        0
    } else {
        fresh_count(g, bs.drop_last()) + if matching(g, bs.last()).is_empty() {
            1nat
        } else {
            0nat
        }
    }
}

/// The nodes the binding at position `i` resolves to.
pub open spec fn handles(g: Graph, bs: Seq<Binding>, i: int) -> Set<nat> {
    if matching(g, bs[i]).is_empty() {
        set![g.next + fresh_count(g, bs.take(i))]
    } else {
        matching(g, bs[i])
    }
}

/// The nodes a variable resolves to.
pub open spec fn env(g: Graph, bs: Seq<Binding>, var: Seq<char>) -> Set<nat> {
    Set::new(|h: nat| exists|i: int| 0 <= i < bs.len() && bs[i].var == var && #[trigger] handles(g, bs, i).contains(h))
}

pub open spec fn object_matches(g: Graph, bs: Seq<Binding>, o: Object, s: Stored) -> bool {
    match o {
        Object::Node(v) => s matches Stored::Node(h) && env(g, bs, v).contains(h),
        Object::Value(x) => s == Stored::Text(x),
    }
}

/// The triples the statements assert.
pub open spec fn asserted(g: Graph, bs: Seq<Binding>, qs: Seq<Nquad>) -> Set<(nat, Seq<char>, Stored)> {
    Set::new(
        |t: (nat, Seq<char>, Stored)|
            exists|k: int|
                0 <= k < qs.len() && env(g, bs, (#[trigger] qs[k]).subject).contains(t.0) && t.1
                    == qs[k].predicate && object_matches(g, bs, qs[k].object, t.2),
    )
}

/// The store after one transaction.
pub open spec fn apply(g: Graph, bs: Seq<Binding>, qs: Seq<Nquad>) -> Graph {
    Graph { next: g.next + fresh_count(g, bs), triples: g.triples.union(asserted(g, bs, qs)) }
}

/// The statement that gives the variable of `b` its key.
pub open spec fn key_statement(b: Binding) -> Nquad {
    Nquad { subject: b.var, predicate: b.predicate, object: Object::Value(b.key) }
}

/// A transaction whose bindings are told apart by variable and by key, that
/// asserts each binding's key on its variable, and whose only literal
/// statements on a key predicate are such key statements.
pub open spec fn well_formed(bs: Seq<Binding>, qs: Seq<Nquad>) -> bool {
    &&& forall|i: int, j: int|
        0 <= i < bs.len() && 0 <= j < bs.len() && i != j ==> (#[trigger] bs[i]).var != (#[trigger] bs[j]).var
    &&& forall|i: int, j: int|
        0 <= i < bs.len() && 0 <= j < bs.len() && i != j ==> (#[trigger] bs[i]).predicate != (
        #[trigger] bs[j]).predicate || bs[i].key != bs[j].key
    &&& forall|i: int| 0 <= i < bs.len() ==> qs.contains(key_statement(#[trigger] bs[i]))
    &&& forall|k: int, i: int|
        0 <= k < qs.len() && 0 <= i < bs.len() && (#[trigger] qs[k]).object is Value
            && qs[k].predicate == (#[trigger] bs[i]).predicate ==> exists|j: int|
            0 <= j < bs.len() && #[trigger] key_statement(bs[j]) == qs[k]
}

proof fn lemma_env_is_handles(g: Graph, bs: Seq<Binding>, qs: Seq<Nquad>, i: int)
    requires
        well_formed(bs, qs),
        0 <= i < bs.len(),
    ensures
        env(g, bs, bs[i].var) == handles(g, bs, i),
{
    assert forall|h: nat| env(g, bs, bs[i].var).contains(h) implies handles(g, bs, i).contains(h) by {
        let j = choose|j: int| 0 <= j < bs.len() && bs[j].var == bs[i].var && #[trigger] handles(g, bs, j).contains(h);
        assert(bs[j].var == bs[i].var);
    }
    assert(env(g, bs, bs[i].var) =~= handles(g, bs, i));
}

proof fn lemma_no_fresh(g: Graph, bs: Seq<Binding>)
    requires
        forall|i: int| 0 <= i < bs.len() ==> !(#[trigger] matching(g, bs[i])).is_empty(),
    ensures
        fresh_count(g, bs) == 0,
    decreases bs.len(),
{
    if bs.len() > 0 {
        assert(matching(g, bs[bs.len() - 1]) == matching(g, bs.last()));
        lemma_no_fresh(g, bs.drop_last());
    }
}

/// After one application every binding matches exactly the nodes it
/// resolved to.
#[verifier::rlimit(40)]
proof fn lemma_resolved(g: Graph, bs: Seq<Binding>, qs: Seq<Nquad>, i: int)
    requires
        well_formed(bs, qs),
        0 <= i < bs.len(),
    ensures
        matching(apply(g, bs, qs), bs[i]) == handles(g, bs, i),
{
    let g1 = apply(g, bs, qs);
    let b = bs[i];
    lemma_env_is_handles(g, bs, qs, i);
    assert forall|h: nat| handles(g, bs, i).contains(h) implies matching(g1, b).contains(h) by {
        assert(qs.contains(key_statement(b)));
        let k = choose|k: int| 0 <= k < qs.len() && qs[k] == key_statement(b);
        assert(asserted(g, bs, qs).contains((h, b.predicate, Stored::Text(b.key))));
    }
    assert forall|h: nat| matching(g1, b).contains(h) implies handles(g, bs, i).contains(h) by {
        let t = (h, b.predicate, Stored::Text(b.key));
        if g.triples.contains(t) {
            assert(matching(g, b).contains(h));
        } else {
            assert(asserted(g, bs, qs).contains(t));
            let k = choose|k: int|
                0 <= k < qs.len() && env(g, bs, (#[trigger] qs[k]).subject).contains(t.0) && t.1
                    == qs[k].predicate && object_matches(g, bs, qs[k].object, t.2);
            assert(qs[k].object is Value);
            let j = choose|j: int| 0 <= j < bs.len() && #[trigger] key_statement(bs[j]) == qs[k];
            assert(bs[j].predicate == b.predicate && bs[j].key == b.key);
            assert(j == i);
        }
    }
    assert(matching(g1, b) =~= handles(g, bs, i));
}

/// Applying a well-formed transaction a second time changes nothing, and
/// every binding resolves to the same nodes both times.
#[verifier::rlimit(40)]
pub proof fn lemma_apply_idempotent(g: Graph, bs: Seq<Binding>, qs: Seq<Nquad>)
    requires
        well_formed(bs, qs),
    ensures
        apply(apply(g, bs, qs), bs, qs) == apply(g, bs, qs),
        forall|i: int| 0 <= i < bs.len() ==> #[trigger] handles(apply(g, bs, qs), bs, i) == handles(g, bs, i),
{
    let g1 = apply(g, bs, qs);
    assert forall|i: int| 0 <= i < bs.len() implies !(#[trigger] matching(g1, bs[i])).is_empty() by {
        lemma_resolved(g, bs, qs, i);
        if matching(g, bs[i]).is_empty() {
            assert(handles(g, bs, i).contains(g.next + fresh_count(g, bs.take(i))));
        } else {
            let h = matching(g, bs[i]).choose();
            assert(handles(g, bs, i).contains(h));
        }
    }
    assert forall|i: int| 0 <= i < bs.len() implies #[trigger] handles(g1, bs, i) == handles(g, bs, i) by {
        lemma_resolved(g, bs, qs, i);
        assert(!matching(g1, bs[i]).is_empty());
    }
    lemma_no_fresh(g1, bs);
    assert forall|v: Seq<char>| #[trigger] env(g1, bs, v) == env(g, bs, v) by {
        assert forall|h: nat| env(g1, bs, v).contains(h) implies env(g, bs, v).contains(h) by {
            let i = choose|i: int| 0 <= i < bs.len() && bs[i].var == v && #[trigger] handles(g1, bs, i).contains(h);
            assert(handles(g, bs, i).contains(h));
        }
        assert forall|h: nat| env(g, bs, v).contains(h) implies env(g1, bs, v).contains(h) by {
            let i = choose|i: int| 0 <= i < bs.len() && bs[i].var == v && #[trigger] handles(g, bs, i).contains(h);
            assert(handles(g1, bs, i).contains(h));
        }
        assert(env(g1, bs, v) =~= env(g, bs, v));
    }
    assert(asserted(g1, bs, qs) =~= asserted(g, bs, qs));
    assert(g1.triples.union(asserted(g1, bs, qs)) =~= g1.triples);
}

} // verus!
