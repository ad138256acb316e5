use vstd::prelude::*;

use crate::text::{lex_lt, lemma_lex_irrefl, lemma_lex_connex};

verus! {

/// The ghost value of one stored record: its name and its status.
pub open spec fn pair_view(p: (String, bool)) -> (Seq<char>, bool) {
    (p.0@, p.1)
}

/// The ghost sequence of records held by a record vector.
pub open spec fn pairs_view(s: Seq<(String, bool)>) -> Seq<(Seq<char>, bool)> {
    s.map_values(|p: (String, bool)| pair_view(p))
}

/// Record names are strictly ascending under `lex_lt`; in particular
/// they are pairwise distinct.
pub open spec fn sorted_by_name(s: Seq<(Seq<char>, bool)>) -> bool {
    forall|i: int, j: int| 0 <= i < j < s.len() ==> lex_lt(s[i].0, s[j].0)
}

/// Every record name is non-empty.
pub open spec fn names_nonempty(s: Seq<(Seq<char>, bool)>) -> bool {
    forall|i: int| 0 <= i < s.len() ==> s[i].0.len() > 0
}

/// No record name contains a NUL character; formats that store names
/// as NUL-terminated strings can encode exactly these.
pub open spec fn names_nul_free(s: Seq<(Seq<char>, bool)>) -> bool {
    forall|i: int| 0 <= i < s.len() ==> !s[i].0.contains('\u{0}')
}

/// The name-to-status mapping described by a record sequence.
pub open spec fn map_of(s: Seq<(Seq<char>, bool)>) -> Map<Seq<char>, bool>
    decreases s.len(),
{
    if s.len() == 0 {
        Map::empty()
    } else {
        map_of(s.drop_last()).insert(s.last().0, s.last().1)
    }
}

/// A name is in the mapping exactly when some record carries it.
pub proof fn lemma_map_of_contains(s: Seq<(Seq<char>, bool)>, k: Seq<char>)
    ensures
        map_of(s).contains_key(k) <==> exists|i: int| 0 <= i <= s.len() - 1 && s[i].0 == k,
    decreases s.len(),
{
    if s.len() > 0 {
        lemma_map_of_contains(s.drop_last(), k);
        if s.last().0 == k {
            assert(s[s.len() - 1].0 == k);
        } else if map_of(s).contains_key(k) {
            let i = choose|i: int| 0 <= i <= s.drop_last().len() - 1 && s.drop_last()[i].0 == k;
            assert(s[i].0 == k);
        } else if exists|i: int| 0 <= i <= s.len() - 1 && s[i].0 == k {
            let i = choose|i: int| 0 <= i <= s.len() - 1 && s[i].0 == k;
            assert(s.drop_last()[i].0 == k);
        }
    }
}

/// The mapping is finite.
pub proof fn lemma_map_of_finite(s: Seq<(Seq<char>, bool)>)
    ensures
        map_of(s).dom().finite(),
    decreases s.len(),
{
    if s.len() > 0 {
        lemma_map_of_finite(s.drop_last());
    }
}

/// With distinct names, the mapping has one entry per record.
pub proof fn lemma_map_of_len(s: Seq<(Seq<char>, bool)>)
    requires
        sorted_by_name(s),
    ensures
        map_of(s).dom().finite(),
        map_of(s).len() == s.len(),
    decreases s.len(),
{
    lemma_map_of_finite(s);
    if s.len() > 0 {
        assert(sorted_by_name(s.drop_last()));
        lemma_map_of_len(s.drop_last());
        lemma_map_of_contains(s.drop_last(), s.last().0);
        if map_of(s.drop_last()).contains_key(s.last().0) {
            let i = choose|i: int|
                0 <= i <= s.drop_last().len() - 1 && s.drop_last()[i].0 == s.last().0;
            assert(lex_lt(s[i].0, s.last().0));
            lemma_lex_irrefl(s.last().0);
        }
    }
}

/// Each record's status is what the mapping assigns to its name.
pub proof fn lemma_map_of_index(s: Seq<(Seq<char>, bool)>, i: int)
    requires
        sorted_by_name(s),
        0 <= i < s.len(),
    ensures
        map_of(s).contains_key(s[i].0),
        map_of(s)[s[i].0] == s[i].1,
    decreases s.len(),
{
    if i == s.len() - 1 {
    } else {
        assert(sorted_by_name(s.drop_last()));
        assert(s.drop_last()[i] == s[i]);
        lemma_map_of_index(s.drop_last(), i);
        if s[i].0 == s.last().0 {
            assert(lex_lt(s[i].0, s.last().0));
            lemma_lex_irrefl(s[i].0);
        }
    }
}

/// Inserting a record with a fresh name inserts one mapping entry.
pub proof fn lemma_map_of_insert(s: Seq<(Seq<char>, bool)>, idx: int, k: Seq<char>, v: bool)
    requires
        0 <= idx <= s.len(),
        forall|i: int| 0 <= i < s.len() ==> s[i].0 != k,
    ensures
        map_of(s.insert(idx, (k, v))) == map_of(s).insert(k, v),
    decreases s.len(),
{
    let t = s.insert(idx, (k, v));
    if idx == s.len() {
        assert(t.drop_last() =~= s);
        assert(t.last() == (k, v));
    } else {
        assert(t.last() == s.last());
        assert(t.drop_last() =~= s.drop_last().insert(idx, (k, v)));
        lemma_map_of_insert(s.drop_last(), idx, k, v);
        assert(map_of(t) == map_of(s.drop_last()).insert(k, v).insert(s.last().0, s.last().1));
        assert(s[s.len() - 1].0 != k);
        assert(map_of(s.drop_last()).insert(k, v).insert(s.last().0, s.last().1) =~= map_of(
            s.drop_last(),
        ).insert(s.last().0, s.last().1).insert(k, v));
    }
}

/// Overwriting the status of the record at `idx` updates its mapping entry.
pub proof fn lemma_map_of_update(s: Seq<(Seq<char>, bool)>, idx: int, v: bool)
    requires
        sorted_by_name(s),
        0 <= idx < s.len(),
    ensures
        map_of(s.update(idx, (s[idx].0, v))) == map_of(s).insert(s[idx].0, v),
    decreases s.len(),
{
    let t = s.update(idx, (s[idx].0, v));
    if idx == s.len() - 1 {
        assert(t.drop_last() =~= s.drop_last());
        assert(t.last() == (s[idx].0, v));
        assert(map_of(s.drop_last()).insert(s[idx].0, v) =~= map_of(s.drop_last()).insert(
            s[idx].0,
            s[idx].1,
        ).insert(s[idx].0, v));
    } else {
        assert(sorted_by_name(s.drop_last()));
        assert(s.drop_last()[idx] == s[idx]);
        assert(t.drop_last() =~= s.drop_last().update(idx, (s[idx].0, v)));
        assert(t.last() == s.last());
        lemma_map_of_update(s.drop_last(), idx, v);
        if s[idx].0 == s.last().0 {
            assert(lex_lt(s[idx].0, s.last().0));
            lemma_lex_irrefl(s[idx].0);
        }
        assert(map_of(s.drop_last()).insert(s[idx].0, v).insert(s.last().0, s.last().1) =~= map_of(
            s.drop_last(),
        ).insert(s.last().0, s.last().1).insert(s[idx].0, v));
    }
}

/// Removing the record at `idx` removes its mapping entry.
pub proof fn lemma_map_of_remove(s: Seq<(Seq<char>, bool)>, idx: int)
    requires
        sorted_by_name(s),
        0 <= idx < s.len(),
    ensures
        map_of(s.remove(idx)) == map_of(s).remove(s[idx].0),
    decreases s.len(),
{
    let t = s.remove(idx);
    if idx == s.len() - 1 {
        assert(t =~= s.drop_last());
        lemma_map_of_contains(s.drop_last(), s[idx].0);
        if map_of(s.drop_last()).contains_key(s[idx].0) {
            let i = choose|i: int|
                0 <= i <= s.drop_last().len() - 1 && s.drop_last()[i].0 == s[idx].0;
            assert(lex_lt(s[i].0, s[idx].0));
            lemma_lex_irrefl(s[idx].0);
        }
        assert(map_of(s.drop_last()).insert(s[idx].0, s[idx].1).remove(s[idx].0) =~= map_of(
            s.drop_last(),
        ));
    } else {
        assert(sorted_by_name(s.drop_last()));
        assert(s.drop_last()[idx] == s[idx]);
        assert(t.last() == s.last());
        assert(t.drop_last() =~= s.drop_last().remove(idx));
        lemma_map_of_remove(s.drop_last(), idx);
        if s[idx].0 == s.last().0 {
            assert(lex_lt(s[idx].0, s.last().0));
            lemma_lex_irrefl(s[idx].0);
        }
        assert(map_of(s.drop_last()).remove(s[idx].0).insert(s.last().0, s.last().1) =~= map_of(
            s.drop_last(),
        ).insert(s.last().0, s.last().1).remove(s[idx].0));
    }
}

/// The mapping obtained by upserting each record in turn, front to
/// back, skipping records with an empty name; what hydrating a store
/// from decoded pairs produces.
pub open spec fn load_map(s: Seq<(Seq<char>, bool)>) -> Map<Seq<char>, bool>
    decreases s.len(),
{
    if s.len() == 0 {
        Map::empty()
    } else if s.last().0.len() == 0 {
        load_map(s.drop_last())
    } else {
        load_map(s.drop_last()).insert(s.last().0, s.last().1)
    }
}

/// On records whose names are all non-empty, hydration reproduces the
/// described mapping exactly.
pub proof fn lemma_load_map_wf(s: Seq<(Seq<char>, bool)>)
    requires
        names_nonempty(s),
    ensures
        load_map(s) == map_of(s),
    decreases s.len(),
{
    if s.len() > 0 {
        assert(names_nonempty(s.drop_last()));
        lemma_load_map_wf(s.drop_last());
    }
}

} // verus!
