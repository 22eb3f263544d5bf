//! The ordered entry set: the complete, filled collection of entries for
//! one invocation, kept strictly sorted by the name order, with the walk
//! that conforms each entry and concatenates the final token sequence.

use vstd::prelude::*;

use crate::entry::{
    entry_tokens, tokens_result, Entry, EntryV, Error, ErrorKind, ErrorV, Transformable,
};
use crate::name::{
    lemma_name_eq_is_eq, lemma_name_order_antisymmetric, lemma_name_order_irreflexive,
    lemma_name_order_total, name_eq, name_lt, name_valid, NameV,
};

verus! {

/// Entries are in strictly ascending name order: no two share a name.
pub open spec fn sorted_strict(s: Seq<EntryV>) -> bool {
    forall|i: int, j: int|
        0 <= i < j < s.len() ==> name_lt(s[i].target_name, s[j].target_name)
}

/// Every entry's name may take part in ordering.
pub open spec fn all_valid(s: Seq<EntryV>) -> bool {
    forall|i: int| 0 <= i < s.len() ==> name_valid(s[i].target_name)
}

/// Insertion into a strictly sorted sequence at the unique position the
/// name order dictates; nothing when an entry of the same name is present.
pub open spec fn spec_insert(s: Seq<EntryV>, e: EntryV) -> Option<Seq<EntryV>>
    decreases s.len(),
{
    if s.len() == 0 {
        Some(seq![e])
    } else if name_lt(e.target_name, s[0].target_name) {
        Some(seq![e] + s)
    } else if name_eq(e.target_name, s[0].target_name) {
        None
    } else {
        match spec_insert(s.drop_first(), e) {
            Some(r) => Some(seq![s[0]] + r),
            None => None,
        }
    }
}

/// Insertion keeps the set strictly sorted and valid, grows it by one,
/// and fails exactly when an entry of the same name is already present.
pub proof fn lemma_insert_props(s: Seq<EntryV>, e: EntryV)
    requires
        sorted_strict(s),
        all_valid(s),
        name_valid(e.target_name),
    ensures
        match spec_insert(s, e) {
            Some(r) => sorted_strict(r) && all_valid(r) && r.len() == s.len() + 1,
            None => exists|i: int|
                0 <= i < s.len() && name_eq(#[trigger] s[i].target_name, e.target_name),
        },
    decreases s.len(),
{
    if s.len() == 0 {
    } else if name_lt(e.target_name, s[0].target_name) {
        let r = seq![e] + s;
        assert forall|i: int, j: int| 0 <= i < j < r.len() implies name_lt(
            r[i].target_name,
            r[j].target_name,
        ) by {
            if i == 0 {
                if j > 1 {
                    crate::name::lemma_name_order_transitive(
                        e.target_name,
                        s[0].target_name,
                        s[j - 1].target_name,
                    );
                }
            }
        }
    } else if name_eq(e.target_name, s[0].target_name) {
        assert(name_eq(s[0].target_name, e.target_name));
    } else {
        lemma_insert_props(s.drop_first(), e);
        match spec_insert(s.drop_first(), e) {
            Some(r0) => {
                let r = seq![s[0]] + r0;
                // the head sorts before the inserted entry and before every tail entry
                lemma_name_order_total(e.target_name, s[0].target_name);
                lemma_name_eq_is_eq(e.target_name, s[0].target_name);
                assert(name_lt(s[0].target_name, e.target_name));
                lemma_insert_position(s.drop_first(), e);
                assert forall|i: int, j: int| 0 <= i < j < r.len() implies name_lt(
                    r[i].target_name,
                    r[j].target_name,
                ) by {
                    if i == 0 {
                        assert(name_valid(r[j].target_name));
                    }
                }
            },
            None => {
                let i0 = choose|i: int|
                    0 <= i < s.drop_first().len() && name_eq(
                        #[trigger] s.drop_first()[i].target_name,
                        e.target_name,
                    );
                assert(s[i0 + 1] == s.drop_first()[i0]);
            },
        }
    }
}

/// Every entry of a successful insertion is either the inserted entry or
/// one of the original ones.
proof fn lemma_insert_position(s: Seq<EntryV>, e: EntryV)
    ensures
        match spec_insert(s, e) {
            Some(r) => forall|j: int|
                0 <= j < r.len() ==> (#[trigger] r[j] == e || exists|i: int|
                    0 <= i < s.len() && r[j] == #[trigger] s[i]),
            None => true,
        },
    decreases s.len(),
{
    if s.len() == 0 {
    } else if name_lt(e.target_name, s[0].target_name) {
        let r = seq![e] + s;
        assert forall|j: int| 0 <= j < r.len() implies (#[trigger] r[j] == e || exists|i: int|
            0 <= i < s.len() && r[j] == #[trigger] s[i]) by {
            if j > 0 {
                assert(r[j] == s[j - 1]);
            }
        }
    } else if name_eq(e.target_name, s[0].target_name) {
    } else {
        lemma_insert_position(s.drop_first(), e);
        if let Some(r0) = spec_insert(s.drop_first(), e) {
            let r = seq![s[0]] + r0;
            assert forall|j: int| 0 <= j < r.len() implies (#[trigger] r[j] == e || exists|i: int|
                0 <= i < s.len() && r[j] == #[trigger] s[i]) by {
                if j == 0 {
                    assert(r[j] == s[0]);
                } else {
                    assert(r[j] == r0[j - 1]);
                    if r0[j - 1] != e {
                        let i0 = choose|i: int|
                            0 <= i < s.drop_first().len() && r0[j - 1] == #[trigger] s.drop_first()[i];
                        assert(s.drop_first()[i0] == s[i0 + 1]);
                    }
                }
            }
        }
    }
}

/// Inserting at a position whose predecessors all sort before the entry
/// and whose successor sorts after it is insertion at that position.
proof fn lemma_spec_insert_at(s: Seq<EntryV>, e: EntryV, k: int)
    requires
        sorted_strict(s),
        all_valid(s),
        name_valid(e.target_name),
        0 <= k <= s.len(),
        forall|i: int| 0 <= i < k ==> name_lt(#[trigger] s[i].target_name, e.target_name),
        k < s.len() ==> name_lt(e.target_name, s[k].target_name),
    ensures
        spec_insert(s, e) == Some(s.insert(k, e)),
    decreases k,
{
    if s.len() == 0 {
        assert(seq![e] =~= s.insert(0, e));
    } else if k == 0 {
        assert(name_lt(e.target_name, s[0].target_name));
        assert(seq![e] + s =~= s.insert(0, e));
    } else {
        assert(name_lt(s[0].target_name, e.target_name));
        lemma_name_order_antisymmetric(e.target_name, s[0].target_name);
        lemma_name_eq_is_eq(e.target_name, s[0].target_name);
        lemma_name_order_irreflexive(e.target_name);
        assert(!name_eq(e.target_name, s[0].target_name));
        let t = s.drop_first();
        assert forall|i: int| 0 <= i < k - 1 implies name_lt(
            #[trigger] t[i].target_name,
            e.target_name,
        ) by {
            assert(t[i] == s[i + 1]);
        }
        lemma_spec_insert_at(t, e, k - 1);
        assert(seq![s[0]] + t.insert(k - 1, e) =~= s.insert(k, e));
    }
}

/// When an entry of the same name stands at some position, insertion fails.
proof fn lemma_spec_insert_dup(s: Seq<EntryV>, e: EntryV, k: int)
    requires
        sorted_strict(s),
        all_valid(s),
        name_valid(e.target_name),
        0 <= k < s.len(),
        forall|i: int| 0 <= i < k ==> name_lt(#[trigger] s[i].target_name, e.target_name),
        name_eq(s[k].target_name, e.target_name),
    ensures
        spec_insert(s, e) == None::<Seq<EntryV>>,
    decreases k,
{
    lemma_name_eq_is_eq(s[k].target_name, e.target_name);
    if k == 0 {
        lemma_name_order_irreflexive(e.target_name);
        assert(!name_lt(e.target_name, s[0].target_name));
        assert(name_eq(e.target_name, s[0].target_name));
    } else {
        assert(name_lt(s[0].target_name, e.target_name));
        lemma_name_order_antisymmetric(e.target_name, s[0].target_name);
        lemma_name_eq_is_eq(e.target_name, s[0].target_name);
        lemma_name_order_irreflexive(e.target_name);
        let t = s.drop_first();
        assert forall|i: int| 0 <= i < k - 1 implies name_lt(
            #[trigger] t[i].target_name,
            e.target_name,
        ) by {
            assert(t[i] == s[i + 1]);
        }
        assert(t[k - 1] == s[k]);
        lemma_spec_insert_dup(t, e, k - 1);
    }
}

/// Appending an entry that sorts after every element is insertion at the
/// end.
proof fn lemma_insert_append(s: Seq<EntryV>, e: EntryV)
    requires
        sorted_strict(s),
        all_valid(s),
        name_valid(e.target_name),
        forall|i: int| 0 <= i < s.len() ==> name_lt(#[trigger] s[i].target_name, e.target_name),
    ensures
        spec_insert(s, e) == Some(s.push(e)),
    decreases s.len(),
{
    if s.len() == 0 {
        assert(seq![e] =~= s.push(e));
    } else {
        assert(name_lt(s[0].target_name, e.target_name));
        lemma_name_order_antisymmetric(e.target_name, s[0].target_name);
        lemma_name_eq_is_eq(e.target_name, s[0].target_name);
        lemma_name_order_irreflexive(e.target_name);
        let t = s.drop_first();
        assert forall|i: int| 0 <= i < t.len() implies name_lt(
            #[trigger] t[i].target_name,
            e.target_name,
        ) by {
            assert(t[i] == s[i + 1]);
        }
        lemma_insert_append(t, e);
        assert(seq![s[0]] + t.push(e) =~= s.push(e));
    }
}

/// Sorting a sequence of entries: inserting each in turn into an ordered
/// set, which fails exactly when two of them share a name.
pub open spec fn spec_sort(s: Seq<EntryV>) -> Option<Seq<EntryV>>
    decreases s.len(),
{
    if s.len() == 0 {
        Some(seq![])
    } else {
        match spec_sort(s.drop_last()) {
            Some(r) => spec_insert(r, s.last()),
            None => None,
        }
    }
}

/// Law: sorting is idempotent — inserting the elements of an already
/// strictly sorted entry sequence, in order, reproduces it unchanged.
pub proof fn lemma_sort_idempotent(s: Seq<EntryV>)
    requires
        sorted_strict(s),
        all_valid(s),
    ensures
        spec_sort(s) == Some(s),
    decreases s.len(),
{
    if s.len() == 0 {
        assert(seq![] =~= s);
    } else {
        let t = s.drop_last();
        assert forall|i: int| 0 <= i < t.len() implies name_valid(
            #[trigger] t[i].target_name,
        ) && name_lt(t[i].target_name, s.last().target_name) by {
            assert(t[i] == s[i]);
        }
        lemma_sort_idempotent(t);
        lemma_insert_append(t, s.last());
        assert(t.push(s.last()) =~= s);
    }
}

/// Insertion carried through a possibly failed earlier insertion.
pub open spec fn opt_insert(o: Option<Seq<EntryV>>, e: EntryV) -> Option<Seq<EntryV>> {
    match o {
        Some(s) => spec_insert(s, e),
        None => None,
    }
}

/// One unfolding of insertion into a sequence with an explicit head.
proof fn lemma_insert_unfold_cons(h: EntryV, r: Seq<EntryV>, x: EntryV)
    ensures
        spec_insert(seq![h] + r, x) == (if name_lt(x.target_name, h.target_name) {
            Some(seq![x] + (seq![h] + r))
        } else if name_eq(x.target_name, h.target_name) {
            None
        } else {
            match spec_insert(r, x) {
                Some(q) => Some(seq![h] + q),
                None => None,
            }
        }),
{
    let s2 = seq![h] + r;
    assert(s2.len() > 0);
    assert(s2[0] == h);
    assert(s2.drop_first() =~= r);
}

/// Law: the order in which two differently named entries are inserted
/// does not matter — filling and placing entries in any order yields the
/// same ordered set, or the same failure.
pub proof fn lemma_insert_commutes(s: Seq<EntryV>, a: EntryV, b: EntryV)
    requires
        sorted_strict(s),
        all_valid(s),
        name_valid(a.target_name),
        name_valid(b.target_name),
        !name_eq(a.target_name, b.target_name),
    ensures
        opt_insert(spec_insert(s, a), b) == opt_insert(spec_insert(s, b), a),
    decreases s.len(),
{
    lemma_name_eq_is_eq(a.target_name, b.target_name);
    lemma_name_order_total(a.target_name, b.target_name);
    lemma_name_order_antisymmetric(a.target_name, b.target_name);
    if s.len() == 0 {
        assert(spec_insert(s, a) == Some(seq![a]));
        assert(spec_insert(s, b) == Some(seq![b]));
        assert(seq![a] =~= seq![a] + Seq::<EntryV>::empty());
        assert(seq![b] =~= seq![b] + Seq::<EntryV>::empty());
        lemma_insert_unfold_cons(a, Seq::<EntryV>::empty(), b);
        lemma_insert_unfold_cons(b, Seq::<EntryV>::empty(), a);
        if name_lt(a.target_name, b.target_name) {
            assert(spec_insert(seq![a], b) == Some(seq![a] + seq![b]));
            assert(spec_insert(seq![b], a) == Some(seq![a] + (seq![b] + Seq::<EntryV>::empty())));
            assert(seq![a] + (seq![b] + Seq::<EntryV>::empty()) =~= seq![a] + seq![b]);
        } else {
            assert(spec_insert(seq![b], a) == Some(seq![b] + seq![a]));
            assert(spec_insert(seq![a], b) == Some(seq![b] + (seq![a] + Seq::<EntryV>::empty())));
            assert(seq![b] + (seq![a] + Seq::<EntryV>::empty()) =~= seq![b] + seq![a]);
        }
    } else {
        let h = s[0];
        let t = s.drop_first();
        assert(seq![h] + t =~= s);
        assert forall|i: int| 0 <= i < t.len() implies name_valid(#[trigger] t[i].target_name) by {
            assert(t[i] == s[i + 1]);
        }
        assert forall|i: int, j: int| 0 <= i < j < t.len() implies name_lt(
            t[i].target_name,
            t[j].target_name,
        ) by {
            assert(t[i] == s[i + 1]);
            assert(t[j] == s[j + 1]);
        }
        lemma_name_order_total(a.target_name, h.target_name);
        lemma_name_order_total(b.target_name, h.target_name);
        lemma_name_order_antisymmetric(a.target_name, h.target_name);
        lemma_name_order_antisymmetric(b.target_name, h.target_name);
        lemma_name_eq_is_eq(a.target_name, h.target_name);
        lemma_name_eq_is_eq(b.target_name, h.target_name);
        if name_lt(a.target_name, h.target_name) && name_lt(b.target_name, h.target_name) {
            // both stand before the head: they meet each other at the front
            assert(spec_insert(s, a) == Some(seq![a] + s));
            assert(spec_insert(s, b) == Some(seq![b] + s));
            lemma_insert_unfold_cons(a, s, b);
            lemma_insert_unfold_cons(b, s, a);
            if name_lt(a.target_name, b.target_name) {
                assert(spec_insert(seq![b] + s, a) == Some(seq![a] + (seq![b] + s)));
                assert(spec_insert(seq![a] + s, b) == (match spec_insert(s, b) {
                    Some(q) => Some(seq![a] + q),
                    None => None,
                }));
                assert(seq![a] + (seq![b] + s) =~= seq![a] + (seq![b] + s));
            } else {
                assert(spec_insert(seq![a] + s, b) == Some(seq![b] + (seq![a] + s)));
                assert(spec_insert(seq![b] + s, a) == (match spec_insert(s, a) {
                    Some(q) => Some(seq![b] + q),
                    None => None,
                }));
            }
        } else if name_lt(a.target_name, h.target_name) {
            // a stands before the head, b does not
            assert(spec_insert(s, a) == Some(seq![a] + s));
            lemma_insert_unfold_cons(a, s, b);
            if name_eq(b.target_name, h.target_name) {
                assert(spec_insert(s, b) == None::<Seq<EntryV>>);
                assert(name_lt(a.target_name, b.target_name));
                assert(spec_insert(seq![a] + s, b) == None::<Seq<EntryV>>);
            } else {
                assert(name_lt(h.target_name, b.target_name));
                crate::name::lemma_name_order_transitive(
                    a.target_name,
                    h.target_name,
                    b.target_name,
                );
                assert(spec_insert(seq![a] + s, b) == (match spec_insert(s, b) {
                    Some(q) => Some(seq![a] + q),
                    None => None,
                }));
                match spec_insert(s, b) {
                    Some(q) => {
                        lemma_insert_props(s, b);
                        lemma_spec_insert_at_head(s, b, a);
                    },
                    None => {},
                }
            }
        } else if name_lt(b.target_name, h.target_name) {
            // b stands before the head, a does not: the mirror image
            assert(spec_insert(s, b) == Some(seq![b] + s));
            lemma_insert_unfold_cons(b, s, a);
            if name_eq(a.target_name, h.target_name) {
                assert(spec_insert(s, a) == None::<Seq<EntryV>>);
                assert(name_lt(b.target_name, a.target_name));
                assert(spec_insert(seq![b] + s, a) == None::<Seq<EntryV>>);
            } else {
                assert(name_lt(h.target_name, a.target_name));
                crate::name::lemma_name_order_transitive(
                    b.target_name,
                    h.target_name,
                    a.target_name,
                );
                assert(spec_insert(seq![b] + s, a) == (match spec_insert(s, a) {
                    Some(q) => Some(seq![b] + q),
                    None => None,
                }));
                match spec_insert(s, a) {
                    Some(q) => {
                        lemma_insert_props(s, a);
                        lemma_spec_insert_at_head(s, a, b);
                    },
                    None => {},
                }
            }
        } else if name_eq(a.target_name, h.target_name) {
            // a collides with the head: both orders fail
            assert(spec_insert(s, a) == None::<Seq<EntryV>>);
            assert(!name_eq(b.target_name, h.target_name));
            assert(name_lt(h.target_name, b.target_name));
            match spec_insert(s, b) {
                Some(q) => {
                    assert(q =~= seq![h] + spec_insert(t, b)->Some_0);
                    lemma_insert_unfold_cons(h, spec_insert(t, b)->Some_0, a);
                },
                None => {},
            }
        } else if name_eq(b.target_name, h.target_name) {
            // b collides with the head: both orders fail
            assert(spec_insert(s, b) == None::<Seq<EntryV>>);
            assert(name_lt(h.target_name, a.target_name));
            match spec_insert(s, a) {
                Some(q) => {
                    assert(q =~= seq![h] + spec_insert(t, a)->Some_0);
                    lemma_insert_unfold_cons(h, spec_insert(t, a)->Some_0, b);
                },
                None => {},
            }
        } else {
            // both stand past the head: commute in the tail
            assert(name_lt(h.target_name, a.target_name));
            assert(name_lt(h.target_name, b.target_name));
            lemma_insert_commutes(t, a, b);
            match spec_insert(t, a) {
                Some(ra) => {
                    assert(spec_insert(s, a) == Some(seq![h] + ra));
                    lemma_insert_unfold_cons(h, ra, b);
                },
                None => {
                    assert(spec_insert(s, a) == None::<Seq<EntryV>>);
                },
            }
            match spec_insert(t, b) {
                Some(rb) => {
                    assert(spec_insert(s, b) == Some(seq![h] + rb));
                    lemma_insert_unfold_cons(h, rb, a);
                },
                None => {
                    assert(spec_insert(s, b) == None::<Seq<EntryV>>);
                },
            }
        }
    }
}

/// Inserting past a front element that sorts before the inserted entry
/// leaves that front element in place.
proof fn lemma_spec_insert_at_head(s: Seq<EntryV>, x: EntryV, front: EntryV)
    requires
        spec_insert(s, x) is Some,
        name_valid(front.target_name),
        name_valid(x.target_name),
        name_lt(front.target_name, x.target_name),
    ensures
        spec_insert(seq![front] + s, x) == Some(seq![front] + spec_insert(s, x)->Some_0),
{
    lemma_name_order_antisymmetric(front.target_name, x.target_name);
    lemma_name_eq_is_eq(x.target_name, front.target_name);
    lemma_name_order_irreflexive(x.target_name);
    lemma_insert_unfold_cons(front, s, x);
}

/// A name stands for a positional argument.
pub open spec fn is_positional(n: NameV) -> bool {
    n is Blank
}

/// A name stands for a flag argument, short or long.
pub open spec fn is_flag(n: NameV) -> bool {
    n is Short || n is Long
}

/// Law: in any strictly sorted entry set — hence in every set an
/// invocation builds, whatever order its entries were filled and inserted
/// in — every positional entry stands before every flag entry, and two
/// positionals stand in the order of their indices; the build walks the
/// set in order, so their tokens appear in the same order.
pub proof fn lemma_positionals_precede_flags(s: Seq<EntryV>)
    requires
        sorted_strict(s),
    ensures
        forall|i: int, j: int|
            0 <= i < s.len() && 0 <= j < s.len() && is_positional(#[trigger] s[i].target_name)
                && is_flag(#[trigger] s[j].target_name) ==> i < j,
        forall|i: int, j: int|
            0 <= i < s.len() && 0 <= j < s.len() && is_positional(#[trigger] s[i].target_name)
                && is_positional(#[trigger] s[j].target_name)
                && s[i].target_name->Blank_0 < s[j].target_name->Blank_0 ==> i < j,
{
    assert forall|i: int, j: int|
        0 <= i < s.len() && 0 <= j < s.len() && is_positional(#[trigger] s[i].target_name)
            && is_flag(#[trigger] s[j].target_name) implies i < j by {
        if j < i {
            assert(name_lt(s[j].target_name, s[i].target_name));
        }
    }
    assert forall|i: int, j: int|
        0 <= i < s.len() && 0 <= j < s.len() && is_positional(#[trigger] s[i].target_name)
            && is_positional(#[trigger] s[j].target_name) && s[i].target_name->Blank_0
            < s[j].target_name->Blank_0 implies i < j by {
        if j < i {
            assert(name_lt(s[j].target_name, s[i].target_name));
        }
    }
}

/// The complete, filled collection of entries for one invocation, kept
/// strictly sorted by the name order; no two entries share a name.
pub struct OrderedEntries {
    entries: Vec<Entry>,
}

impl View for OrderedEntries {
    type V = Seq<EntryV>;

    closed spec fn view(&self) -> Seq<EntryV> {
        self.entries.deep_view()
    }
}

impl OrderedEntries {
    /// The set is strictly sorted and every name in it is valid.
    pub open spec fn wf(&self) -> bool {
        sorted_strict(self@) && all_valid(self@)
    }

    /// An empty ordered entry set.
    pub fn new() -> (r: OrderedEntries)
        ensures
            r@ == Seq::<EntryV>::empty(),
            r.wf(),
    {
        let r = OrderedEntries { entries: Vec::new() };
        proof {
            assert(r@ =~= Seq::<EntryV>::empty());
        }
        r
    }

    /// How many entries the set holds.
    pub fn len(&self) -> (r: usize)
        ensures
            r == self@.len(),
    {
        self.entries.len()
    }

    /// Places an entry at the unique position the name order dictates; an
    /// entry whose name is already present is a duplicate-name error and
    /// leaves the set unchanged.
    pub fn insert(&mut self, e: Entry) -> (r: Result<(), Error>)
        requires
            old(self).wf(),
            name_valid(e@.target_name),
        ensures
            final(self).wf(),
            (match spec_insert(old(self)@, e@) {
                Some(s) => r is Ok && final(self)@ == s,
                None => (r is Err && r->Err_0@ == ErrorV::DuplicateName(e@.target_name)
                    && final(self)@ == old(self)@),
            }),
    {
        let ghost s = self@;
        let n = self.entries.len();
        let mut i: usize = 0;
        loop
            invariant
                self == old(self),
                s == self@,
                i <= n,
                n == self@.len(),
                self.wf(),
                name_valid(e@.target_name),
                forall|j: int| 0 <= j < i ==> name_lt(#[trigger] s[j].target_name, e@.target_name),
            ensures
                self == old(self),
                s == self@,
                i <= n,
                forall|j: int| 0 <= j < i ==> name_lt(#[trigger] s[j].target_name, e@.target_name),
                i < n ==> !name_lt(s[i as int].target_name, e@.target_name),
            decreases n - i,
        {
            if i >= n {
                break ;
            }
            let cur = &self.entries[i];
            proof {
                assert(cur.deep_view() == s[i as int]);
            }
            if cur.precedes(&e) {
                i = i + 1;
            } else {
                break ;
            }
        }
        if i < n {
            let cur = &self.entries[i];
            proof {
                assert(cur.deep_view() == s[i as int]);
            }
            if cur.same_name(&e) {
                proof {
                    assert(name_eq(s[i as int].target_name, e@.target_name));
                    lemma_spec_insert_dup(s, e@, i as int);
                }
                return Err(Error { kind: ErrorKind::DuplicateName(e.target_name) });
            }
            proof {
                lemma_name_order_total(e@.target_name, s[i as int].target_name);
                lemma_name_eq_is_eq(e@.target_name, s[i as int].target_name);
                assert(name_lt(e@.target_name, s[i as int].target_name));
            }
        }
        proof {
            lemma_spec_insert_at(s, e@, i as int);
            lemma_insert_props(s, e@);
        }
        self.entries.insert(i, e);
        proof {
            assert(self@ =~= s.insert(i as int, e@));
        }
        Ok(())
    }

    /// Walks the set in order, conforms each entry and renders it under
    /// its name, concatenating everything into the final token sequence;
    /// the first failing entry aborts the whole build.
    pub fn conform_all(self) -> (r: Result<Vec<String>, Error>)
        ensures
            tokens_result(r) == spec_build(self@),
    {
        let ghost s = self@;
        let mut entries = self.entries;
        let mut acc: Vec<String> = Vec::new();
        let mut failure: Option<Error> = None;
        let ghost mut i: int = 0;
        proof {
            assert(entries.deep_view() =~= s.subrange(0, s.len() as int));
            assert(acc.deep_view() =~~= Seq::<Seq<char>>::empty());
        }
        loop
            invariant_except_break
                0 <= i <= s.len(),
                failure is None,
                entries.deep_view() == s.subrange(i, s.len() as int),
                spec_build(s) == (match spec_build_from(s, i) {
                    Ok(r) => Ok::<Seq<Seq<char>>, ErrorV>(acc.deep_view() + r),
                    Err(x) => Err::<Seq<Seq<char>>, ErrorV>(x),
                }),
            ensures
                (match failure {
                    None => spec_build(s) == Ok::<Seq<Seq<char>>, ErrorV>(acc.deep_view()),
                    Some(x) => spec_build(s) == Err::<Seq<Seq<char>>, ErrorV>(x@),
                }),
            decreases s.len() - i,
        {
            if entries.len() == 0 {
                proof {
                    assert(entries.deep_view().len() == 0);
                    assert(s.subrange(i, s.len() as int).len() == 0);
                    assert(i == s.len());
                    assert(spec_build_from(s, i) == Ok::<Seq<Seq<char>>, ErrorV>(
                        Seq::<Seq<char>>::empty(),
                    ));
                    assert(acc.deep_view() + Seq::<Seq<char>>::empty() =~~= acc.deep_view());
                }
                break ;
            }
            proof {
                assert(entries.deep_view().len() == entries@.len());
                assert(entries.deep_view()[0] == s.subrange(i, s.len() as int)[0]);
            }
            let ghost entsnap = entries@;
            let e = entries.remove(0);
            proof {
                assert(e.deep_view() == s[i]);
                assert forall|k: int|
                    0 <= k < entries@.len() implies #[trigger] entries.deep_view()[k] == s.subrange(
                    i + 1,
                    s.len() as int,
                )[k] by {
                    assert(entries@[k] == entsnap[k + 1]);
                    assert(entries.deep_view()[k] == entries@[k].deep_view());
                    assert(entsnap[k + 1].deep_view() == s.subrange(i, s.len() as int)[k + 1]);
                }
                assert(entries.deep_view() =~= s.subrange(i + 1, s.len() as int));
            }
            let n = e.target_name.duplicate();
            match e.conform() {
                Err(x) => {
                    failure = Some(x);
                    break ;
                },
                Ok(q) => {
                    let mut t = n.name(q);
                    let ghost before = acc.deep_view();
                    let ghost nt = t.deep_view();
                    acc.append(&mut t);
                    proof {
                        assert(acc.deep_view() =~~= before + nt);
                        assert(entry_tokens(s[i]) == Ok::<Seq<Seq<char>>, ErrorV>(nt));
                        let iold = i;
                        i = i + 1;
                        assert(entries.deep_view() =~= s.subrange(i, s.len() as int));
                        match spec_build_from(s, i) {
                            Ok(r2) => {
                                assert(spec_build_from(s, iold) == Ok::<Seq<Seq<char>>, ErrorV>(
                                    nt + r2,
                                ));
                                assert(before + (nt + r2) =~~= (before + nt) + r2);
                            },
                            Err(_) => {},
                        }
                    }
                },
            }
        }
        match failure {
            Some(x) => Err(x),
            None => Ok(acc),
        }
    }

    /// Hands the entries out, in order.
    pub fn into_vec(self) -> (r: Vec<Entry>)
        ensures
            r.deep_view() == self@,
    {
        self.entries
    }
}

/// The tokens one conformed entry contributes, as `entry_tokens` gives
/// them on success.
spec fn name_tokens_of(e: EntryV) -> Seq<Seq<char>> {
    match entry_tokens(e) {
        Ok(t) => t,
        Err(_) => seq![],
    }
}

/// The token sequence built from the entries at positions `i` onward: each
/// entry's contribution in order, the first failure aborting the build.
pub open spec fn spec_build_from(s: Seq<EntryV>, i: int) -> Result<Seq<Seq<char>>, ErrorV>
    decreases s.len() - i,
{
    if i < 0 || i >= s.len() {
        Ok(seq![])
    } else {
        match entry_tokens(s[i]) {
            Ok(t) => match spec_build_from(s, i + 1) {
                Ok(r) => Ok(t + r),
                Err(x) => Err(x),
            },
            Err(x) => Err(x),
        }
    }
}

/// The token sequence built from an ordered entry set: each entry's
/// contribution in order, the first failure aborting the whole build.
pub open spec fn spec_build(s: Seq<EntryV>) -> Result<Seq<Seq<char>>, ErrorV> {
    spec_build_from(s, 0)
}

/// The token sequence a populated entry set builds, or the failure that
/// population itself reported.
pub open spec fn spec_generate_from(p: Result<Seq<EntryV>, ErrorV>) -> Result<
    Seq<Seq<char>>,
    ErrorV,
> {
    match p {
        Ok(s) => spec_build(s),
        Err(e) => Err(e),
    }
}

/// A schema that converts one kind of typed input into the token sequence
/// of an external command's invocation.
pub trait Convertible<T: View> {
    /// The model of the filled, ordered entry set this schema produces
    /// from the given input, or of the failure population reports.
    spec fn spec_populate(&self, with: T::V) -> Result<Seq<EntryV>, ErrorV>;

    /// Populates the schema's entries from the typed input and returns
    /// the ordered entry bundle.
    fn populate(&self, with: &T) -> (r: Result<OrderedEntries, Error>)
        ensures
            (match r {
                Ok(o) => o.wf() && self.spec_populate(with@) == Ok::<Seq<EntryV>, ErrorV>(o@),
                Err(e) => self.spec_populate(with@) == Err::<Seq<EntryV>, ErrorV>(e@),
            }),
    ;

    /// Takes the typed input and converts it into the complete command
    /// token sequence.
    fn generate(&self, with: &T) -> (r: Result<Vec<String>, Error>)
        ensures
            tokens_result(r) == spec_generate_from(self.spec_populate(with@)),
    ;
}

} // verus!
