use vstd::prelude::*;

use crate::action_payload::ActionPayload;
use crate::command_error::CommandError;
use crate::cereal::{spec_all_encodings, EncodingType};
use crate::harness::DebugOutcome;
use crate::store_model::names_nul_free;
use crate::text::fold_seq;
use crate::store_model::{
    lemma_load_map_wf, lemma_map_of_contains, lemma_map_of_index, lemma_map_of_insert,
    lemma_map_of_len, lemma_map_of_remove, lemma_map_of_update, load_map, map_of, names_nonempty,
    pair_view, pairs_view, sorted_by_name,
};
use crate::text::{
    lemma_lex_connex, lemma_lex_irrefl, lemma_lex_trans, lex_lt, quote_name, quoted, str_cmp,
    KeyOrder,
};

verus! {

/// One discrepancy found between two store snapshots: a record present
/// on only one side, or present on both with different statuses.
#[derive(Eq, Hash, PartialEq, PartialOrd, Ord, Debug, Clone)]
pub enum DiffEntry {
    TodoNotFound { todo: String, this_has: bool, that_has: bool },
    TodoStatusMistake { todo: String, this_status: bool, that_status: bool },
}

impl DiffEntry {
    /// The name of the record this entry is about.
    pub open spec fn name(&self) -> Seq<char> {
        match self {
            DiffEntry::TodoNotFound { todo, .. } => todo@,
            DiffEntry::TodoStatusMistake { todo, .. } => todo@,
        }
    }

    /// Renders this entry as display text; the name appears quoted and
    /// escaped, as debug output renders it.
    pub fn to_string(&self) -> (r: String)
        ensures
            self matches DiffEntry::TodoNotFound { todo, this_has, that_has } ==> r@ == "Todo "@
                + quoted(todo@) + (if *that_has { " is in that but not this."@ } else {
                " is in this but not that."@
            }),
            self matches DiffEntry::TodoStatusMistake { todo, this_status, that_status } ==> r@
                == "Todo "@ + quoted(todo@) + (if *this_status {
                " is marked as complete in this but incomplete in that."@
            } else {
                " is marked as incomplete in this but complete in that."@
            }),
    {
        let mut r = String::from_str("Todo ");
        match self {
            DiffEntry::TodoNotFound { todo, this_has, that_has } => {
                r.append(quote_name(todo.as_str()).as_str());
                if *that_has {
                    r.append(" is in that but not this.");
                } else {
                    r.append(" is in this but not that.");
                }
            },
            DiffEntry::TodoStatusMistake { todo, this_status, that_status } => {
                r.append(quote_name(todo.as_str()).as_str());
                if *this_status {
                    r.append(" is marked as complete in this but incomplete in that.");
                } else {
                    r.append(" is marked as incomplete in this but complete in that.");
                }
            },
        }
        r
    }
}

/// The outcome of comparing two store snapshots: identical, or a
/// name-sorted list of discrepancies.
#[derive(Eq, Hash, PartialEq, PartialOrd, Ord, Debug, Clone)]
pub enum DiffResult {
    Same,
    Changes(Vec<DiffEntry>),
}

/// The record store: named items with a completion status, held
/// strictly sorted by name.
#[derive(Debug)]
pub struct TodoList {
    items: Vec<(String, bool)>,
}

impl View for TodoList {
    type V = Map<Seq<char>, bool>;

    open spec fn view(&self) -> Map<Seq<char>, bool> {
        map_of(self.records())
    }
}

impl TodoList {
    /// The ghost sequence of stored pairs, in storage order.
    pub closed spec fn spec_pairs(&self) -> Seq<(String, bool)> {
        self.items@
    }

    /// The ghost sequence of records, in storage order.
    pub open spec fn records(&self) -> Seq<(Seq<char>, bool)> {
        pairs_view(self.spec_pairs())
    }

    /// Well-formedness: names are strictly sorted (hence unique) and non-empty.
    pub open spec fn wf(&self) -> bool {
        sorted_by_name(self.records()) && names_nonempty(self.records())
    }

    /// Creates an empty store.
    pub fn new() -> (r: Self)
        ensures
            r.wf(),
            r@ == Map::<Seq<char>, bool>::empty(),
            r.records().len() == 0,
    {
        let r = TodoList { items: Vec::new() };
        proof {
            assert(r.records() =~= Seq::<(Seq<char>, bool)>::empty());
        }
        r
    }

    /// The number of records in the store.
    pub fn len(&self) -> (r: usize)
        requires
            self.wf(),
        ensures
            r == self.records().len(),
            r == self@.len(),
    {
        proof {
            lemma_map_of_len(self.records());
        }
        self.items.len()
    }

    /// The number of records in the store.
    pub fn count(&self) -> (r: usize)
        requires
            self.wf(),
        ensures
            r == self.records().len(),
            r == self@.len(),
    {
        self.len()
    }

    /// Whether the store holds no records.
    pub fn is_empty(&self) -> (r: bool)
        requires
            self.wf(),
        ensures
            r == (self.records().len() == 0),
            r == (self@.len() == 0),
    {
        proof {
            lemma_map_of_len(self.records());
        }
        self.items.is_empty()
    }

    /// The least index whose record name is not below `name`; the
    /// insertion point that keeps the store sorted.
    fn lower_bound(&self, name: &str) -> (r: usize)
        requires
            self.wf(),
        ensures
            r <= self.records().len(),
            forall|j: int| 0 <= j < r ==> lex_lt(self.records()[j].0, name@),
            forall|j: int| r <= j < self.records().len() ==> !lex_lt(self.records()[j].0, name@),
            (exists|i: int| 0 <= i < self.records().len() && self.records()[i].0 == name@) ==> (
            r < self.records().len() && self.records()[r as int].0 == name@),
    {
        let ghost recs = self.records();
        let n = self.items.len();
        let mut i: usize = 0;
        while i < n
            invariant
                self.wf(),
                recs == self.records(),
                n == self.records().len(),
                n == self.items@.len(),
                i <= n,
                forall|j: int| 0 <= j < i ==> lex_lt(recs[j].0, name@),
            decreases n - i,
        {
            let c = str_cmp(self.items[i].0.as_str(), name);
            if c != KeyOrder::Less {
                proof {
                    assert(recs[i as int].0 == self.items@[i as int].0@);
                    assert forall|j: int| i <= j < n implies !lex_lt(recs[j].0, name@) by {
                        if j > i && lex_lt(recs[j].0, name@) {
                            lemma_lex_trans(recs[i as int].0, recs[j].0, name@);
                        }
                    }
                    if exists|k: int| 0 <= k < n && recs[k].0 == name@ {
                        let k = choose|k: int| 0 <= k < n && recs[k].0 == name@;
                        if k < i {
                            lemma_lex_irrefl(name@);
                        } else if k > i {
                            assert(lex_lt(recs[i as int].0, recs[k].0));
                        }
                    }
                }
                return i;
            }
            i += 1;
        }
        proof {
            if exists|k: int| 0 <= k < n && recs[k].0 == name@ {
                let k = choose|k: int| 0 <= k < n && recs[k].0 == name@;
                lemma_lex_irrefl(name@);
            }
        }
        n
    }

    /// Adds a record with the given status. Fails with `InputInvalid`
    /// on an empty name and `TodoAlreadyExists` on a duplicate; the
    /// store is unchanged on failure.
    pub fn add_todo(&mut self, todo: &str, status: bool) -> (r: Result<(), CommandError>)
        requires
            old(self).wf(),
        ensures
            final(self).wf(),
            todo@.len() == 0 ==> (r matches Err(CommandError::InputInvalid(m)) && m@
                == "Todo is empty"@ && *final(self) == *old(self)),
            todo@.len() > 0 && old(self)@.contains_key(todo@) ==> r == Err::<(), CommandError>(
                CommandError::TodoAlreadyExists,
            ) && *final(self) == *old(self),
            todo@.len() > 0 && !old(self)@.contains_key(todo@) ==> r == Ok::<(), CommandError>(())
                && final(self)@ == old(self)@.insert(todo@, status) && final(self).records().len()
                == old(self).records().len() + 1,
    {
        let ghost recs = self.records();
        if todo.is_empty() {
            return Err(CommandError::InputInvalid(String::from_str("Todo is empty")));
        }
        let idx = self.lower_bound(todo);
        proof {
            lemma_map_of_contains(recs, todo@);
        }
        if idx < self.items.len() {
            let c = str_cmp(self.items[idx].0.as_str(), todo);
            if c == KeyOrder::Equal {
                proof {
                    assert(recs[idx as int].0 == todo@);
                }
                return Err(CommandError::TodoAlreadyExists);
            }
        }
        proof {
            if exists|i: int| 0 <= i < recs.len() && recs[i].0 == todo@ {
                assert(recs[idx as int].0 == todo@);
                assert(false);
            }
        }
        self.items.insert(idx, (todo.to_owned(), status));
        proof {
            let nrecs = self.records();
            assert(nrecs =~= recs.insert(idx as int, (todo@, status)));
            assert forall|i: int, j: int| 0 <= i < j < nrecs.len() implies lex_lt(
                nrecs[i].0,
                nrecs[j].0,
            ) by {
                if j == idx {
                    assert(lex_lt(recs[i].0, todo@));
                } else if i == idx {
                    let k = nrecs[j].0;
                    assert(k == recs[j - 1].0);
                    assert(!lex_lt(k, todo@));
                    assert(k != todo@);
                    lemma_lex_connex(todo@, k);
                } else if i < idx && j > idx {
                    assert(lex_lt(recs[i].0, recs[j - 1].0));
                } else if i > idx {
                    assert(lex_lt(recs[i - 1].0, recs[j - 1].0));
                }
            }
            assert forall|i: int| 0 <= i < recs.len() implies recs[i].0 != todo@ by {
                if recs[i].0 == todo@ {
                    assert(false);
                }
            }
            lemma_map_of_insert(recs, idx as int, todo@, status);
        }
        Ok(())
    }

    /// Removes the record with the given name, returning it, or `None`
    /// (with the store unchanged) when no such record exists.
    pub fn remove_todo(&mut self, todo: &str) -> (r: Option<(String, bool)>)
        requires
            old(self).wf(),
        ensures
            final(self).wf(),
            old(self)@.contains_key(todo@) <==> r is Some,
            r matches Some(p) ==> p.0@ == todo@ && p.1 == old(self)@[todo@] && final(self)@ == old(
                self,
            )@.remove(todo@) && final(self).records().len() == old(self).records().len() - 1,
            r is None ==> *final(self) == *old(self),
    {
        let ghost recs = self.records();
        let idx = self.lower_bound(todo);
        proof {
            lemma_map_of_contains(recs, todo@);
        }
        if idx < self.items.len() {
            let c = str_cmp(self.items[idx].0.as_str(), todo);
            if c == KeyOrder::Equal {
                proof {
                    assert(recs[idx as int].0 == todo@);
                    lemma_map_of_index(recs, idx as int);
                    lemma_map_of_remove(recs, idx as int);
                }
                let p = self.items.remove(idx);
                proof {
                    assert(self.records() =~= recs.remove(idx as int));
                    assert forall|i: int, j: int|
                        0 <= i < j < self.records().len() implies lex_lt(
                        self.records()[i].0,
                        self.records()[j].0,
                    ) by {
                        let a = if i < idx { i } else { i + 1 };
                        let b = if j < idx { j } else { j + 1 };
                        assert(lex_lt(recs[a].0, recs[b].0));
                    }
                }
                return Some(p);
            }
        }
        proof {
            if old(self)@.contains_key(todo@) {
                assert(recs[idx as int].0 == todo@);
                assert(false);
            }
        }
        None
    }

    /// Sets the status of the named record, inserting it when absent.
    /// Fails with `InputInvalid` on an empty name.
    pub fn set_status(&mut self, name: &str, status: bool) -> (r: Result<(), CommandError>)
        requires
            old(self).wf(),
        ensures
            final(self).wf(),
            name@.len() == 0 ==> (r matches Err(CommandError::InputInvalid(m)) && m@
                == "Todo is empty"@ && *final(self) == *old(self)),
            name@.len() > 0 ==> r == Ok::<(), CommandError>(()) && final(self)@ == old(
                self,
            )@.insert(name@, status),
    {
        let ghost recs = self.records();
        if name.is_empty() {
            return Err(CommandError::InputInvalid(String::from_str("Todo is empty")));
        }
        let idx = self.lower_bound(name);
        let mut found = false;
        if idx < self.items.len() {
            let c = str_cmp(self.items[idx].0.as_str(), name);
            if c == KeyOrder::Equal {
                found = true;
            }
        }
        if found {
            proof {
                assert(recs[idx as int].0 == name@);
                lemma_map_of_update(recs, idx as int, status);
            }
            self.items.set(idx, (name.to_owned(), status));
            proof {
                assert(self.records() =~= recs.update(idx as int, (name@, status)));
            }
        } else {
            proof {
                lemma_map_of_contains(recs, name@);
                if exists|i: int| 0 <= i < recs.len() && recs[i].0 == name@ {
                    assert(recs[idx as int].0 == name@);
                    assert(false);
                }
                assert forall|i: int| 0 <= i < recs.len() implies recs[i].0 != name@ by {}
                lemma_map_of_insert(recs, idx as int, name@, status);
            }
            self.items.insert(idx, (name.to_owned(), status));
            proof {
                let nrecs = self.records();
                assert(nrecs =~= recs.insert(idx as int, (name@, status)));
                assert forall|i: int, j: int| 0 <= i < j < nrecs.len() implies lex_lt(
                    nrecs[i].0,
                    nrecs[j].0,
                ) by {
                    if j == idx {
                        assert(lex_lt(recs[i].0, name@));
                    } else if i == idx {
                        let k = nrecs[j].0;
                        assert(k == recs[j - 1].0);
                        lemma_lex_connex(name@, k);
                    } else if i < idx && j > idx {
                        assert(lex_lt(recs[i].0, recs[j - 1].0));
                    } else if i > idx {
                        assert(lex_lt(recs[i - 1].0, recs[j - 1].0));
                    }
                }
            }
        }
        Ok(())
    }

    /// Renames a record. Fails with `NotFound` when `existing` is absent
    /// and `InputInvalid` on an empty new name; otherwise the status
    /// moves to `new_name`, overwriting any record already there.
    pub fn edit_todo(&mut self, existing: &str, new_name: &str) -> (r: Result<(), CommandError>)
        requires
            old(self).wf(),
        ensures
            final(self).wf(),
            !old(self)@.contains_key(existing@) ==> r == Err::<(), CommandError>(
                CommandError::TodoNotFound,
            ) && *final(self) == *old(self),
            old(self)@.contains_key(existing@) && new_name@.len() == 0 ==> (r matches Err(
                CommandError::InputInvalid(m),
            ) && m@ == "Todo is empty"@ && *final(self) == *old(self)),
            old(self)@.contains_key(existing@) && new_name@.len() > 0 ==> r == Ok::<
                (),
                CommandError,
            >(()) && final(self)@ == old(self)@.remove(existing@).insert(
                new_name@,
                old(self)@[existing@],
            ),
    {
        if new_name.is_empty() {
            let ghost recs = self.records();
            let held = self.lower_bound(existing);
            proof {
                lemma_map_of_contains(recs, existing@);
            }
            if held < self.items.len() {
                let c = str_cmp(self.items[held].0.as_str(), existing);
                if c == KeyOrder::Equal {
                    proof {
                        assert(recs[held as int].0 == existing@);
                    }
                    return Err(CommandError::InputInvalid(String::from_str("Todo is empty")));
                }
            }
            proof {
                if old(self)@.contains_key(existing@) {
                    assert(recs[held as int].0 == existing@);
                    assert(false);
                }
            }
            return Err(CommandError::TodoNotFound);
        }
        match self.remove_todo(existing) {
            Some(p) => {
                let res = self.set_status(new_name, p.1);
                proof {
                    assert(res == Ok::<(), CommandError>(()));
                }
                Ok(())
            },
            None => Err(CommandError::TodoNotFound),
        }
    }

    /// Removes every record; a no-op on an empty store.
    pub fn clear_todos(&mut self)
        ensures
            final(self).wf(),
            final(self)@ == Map::<Seq<char>, bool>::empty(),
            final(self).records().len() == 0,
    {
        self.items.clear();
        proof {
            assert(self.records() =~= Seq::<(Seq<char>, bool)>::empty());
        }
    }

    /// Whether any record carries the given status.
    pub fn any_with_status(&self, status: bool) -> (r: bool)
        requires
            self.wf(),
        ensures
            r == exists|i: int| 0 <= i < self.records().len() && self.records()[i].1 == status,
            r == exists|k: Seq<char>| self@.contains_key(k) && self@[k] == status,
    {
        let ghost recs = self.records();
        let n = self.items.len();
        let mut i: usize = 0;
        let mut r = false;
        while i < n
            invariant
                self.wf(),
                recs == self.records(),
                n == recs.len(),
                n == self.items@.len(),
                i <= n,
                !r,
                forall|j: int| 0 <= j < i ==> recs[j].1 != status,
            decreases n - i,
        {
            if self.items[i].1 == status {
                r = true;
                proof {
                    assert(recs[i as int].1 == status);
                    lemma_map_of_index(recs, i as int);
                    assert(self@.contains_key(recs[i as int].0) && self@[recs[i as int].0]
                        == status);
                }
                return r;
            }
            i += 1;
        }
        proof {
            if exists|k: Seq<char>| self@.contains_key(k) && self@[k] == status {
                let k = choose|k: Seq<char>| self@.contains_key(k) && self@[k] == status;
                lemma_map_of_contains(recs, k);
                let j = choose|j: int| 0 <= j <= recs.len() - 1 && recs[j].0 == k;
                lemma_map_of_index(recs, j);
            }
        }
        false
    }

    /// All records as owned pairs, in name order.
    pub fn get_todos(&self) -> (r: Vec<(String, bool)>)
        requires
            self.wf(),
        ensures
            pairs_view(r@) == self.records(),
    {
        let n = self.items.len();
        let mut r: Vec<(String, bool)> = Vec::new();
        let mut i: usize = 0;
        while i < n
            invariant
                n == self.items@.len(),
                i <= n,
                r@.len() == i,
                forall|j: int| 0 <= j < i ==> r@[j] == self.items@[j],
            decreases n - i,
        {
            let name = self.items[i].0.clone();
            let status = self.items[i].1;
            r.push((name, status));
            i += 1;
        }
        proof {
            assert(pairs_view(r@) =~= self.records());
        }
        r
    }

    /// All record names, in name order.
    pub fn get_todos_text(&self) -> (r: Vec<String>)
        requires
            self.wf(),
        ensures
            r@.len() == self.records().len(),
            forall|j: int| 0 <= j < r@.len() ==> r@[j]@ == self.records()[j].0,
    {
        let n = self.items.len();
        let mut r: Vec<String> = Vec::new();
        let mut i: usize = 0;
        while i < n
            invariant
                n == self.items@.len(),
                i <= n,
                r@.len() == i,
                forall|j: int| 0 <= j < i ==> r@[j]@ == self.records()[j].0,
            decreases n - i,
        {
            let name = self.items[i].0.clone();
            r.push(name);
            i += 1;
        }
        r
    }

    /// An exact copy of this store.
    pub fn clone(&self) -> (r: Self)
        ensures
            r.records() == self.records(),
            r@ == self@,
            self.wf() ==> r.wf(),
    {
        let n = self.items.len();
        let mut items: Vec<(String, bool)> = Vec::new();
        let mut i: usize = 0;
        while i < n
            invariant
                n == self.items@.len(),
                i <= n,
                items@.len() == i,
                forall|j: int| 0 <= j < i ==> items@[j] == self.items@[j],
            decreases n - i,
        {
            let name = self.items[i].0.clone();
            let status = self.items[i].1;
            items.push((name, status));
            i += 1;
        }
        let r = TodoList { items };
        proof {
            assert(r.records() =~= self.records());
        }
        r
    }
}

/// Whether the two snapshots disagree about the name `k`: present on
/// only one side, or present on both with different statuses.
pub open spec fn divergent(m1: Map<Seq<char>, bool>, m2: Map<Seq<char>, bool>, k: Seq<char>) -> bool {
    if m1.contains_key(k) != m2.contains_key(k) {
        true
    } else {
        m1.contains_key(k) && m1[k] != m2[k]
    }
}

/// Whether a diff entry reports a real discrepancy between the two snapshots.
pub open spec fn entry_correct(m1: Map<Seq<char>, bool>, m2: Map<Seq<char>, bool>, e: DiffEntry) -> bool {
    match e {
        DiffEntry::TodoNotFound { todo, this_has, that_has } => this_has == m1.contains_key(todo@)
            && that_has == m2.contains_key(todo@) && this_has != that_has,
        DiffEntry::TodoStatusMistake { todo, this_status, that_status } => m1.contains_key(todo@)
            && m2.contains_key(todo@) && this_status == m1[todo@] && that_status == m2[todo@]
            && this_status != that_status,
    }
}

/// Diff entries are strictly ascending by name.
pub open spec fn entries_sorted(es: Seq<DiffEntry>) -> bool {
    forall|i: int, j: int| 0 <= i < j < es.len() ==> lex_lt(es[i].name(), es[j].name())
}

impl TodoList {
    /// A copy of the record at position `i` in name order.
    pub fn nth_todo(&self, i: usize) -> (r: (String, bool))
        requires
            self.wf(),
            i < self.records().len(),
        ensures
            pair_view(r) == self.records()[i as int],
    {
        let name = self.items[i].0.clone();
        let status = self.items[i].1;
        (name, status)
    }

    /// Compares this snapshot against `other`. Returns `Same` exactly
    /// when the two stores hold the same records; otherwise returns the
    /// complete, name-sorted list of discrepancies, one entry per
    /// divergent name.
    pub fn diff_with(&self, other: &Self) -> (r: DiffResult)
        requires
            self.wf(),
            other.wf(),
        ensures
            (r == DiffResult::Same) <==> self@ == other@,
            r == DiffResult::Same ==> self.records() == other.records(),
            r matches DiffResult::Changes(es) ==> es@.len() > 0 && entries_sorted(es@) && (
            forall|t: int| 0 <= t < es@.len() ==> entry_correct(self@, other@, es@[t])) && (
            forall|k: Seq<char>|
                divergent(self@, other@, k) ==> exists|t: int|
                    0 <= t < es@.len() && es@[t].name() == k),
    {
        let ghost arecs = self.records();
        let ghost brecs = other.records();
        let ghost m1 = self@;
        let ghost m2 = other@;
        let n = self.items.len();
        let m = other.items.len();
        let mut i: usize = 0;
        let mut j: usize = 0;
        let mut changes: Vec<DiffEntry> = Vec::new();
        while i < n || j < m
            invariant
                self.wf(),
                other.wf(),
                arecs == self.records(),
                brecs == other.records(),
                m1 == self@,
                m2 == other@,
                n == arecs.len(),
                n == self.items@.len(),
                m == brecs.len(),
                m == other.items@.len(),
                i <= n,
                j <= m,
                forall|y: int| 0 <= y < j && i < n ==> lex_lt(brecs[y].0, arecs[i as int].0),
                forall|x: int| 0 <= x < i && j < m ==> lex_lt(arecs[x].0, brecs[j as int].0),
                forall|t: int| 0 <= t < changes@.len() ==> entry_correct(m1, m2, changes@[t]),
                entries_sorted(changes@),
                forall|t: int|
                    0 <= t < changes@.len() && i < n ==> lex_lt(
                        changes@[t].name(),
                        arecs[i as int].0,
                    ),
                forall|t: int|
                    0 <= t < changes@.len() && j < m ==> lex_lt(
                        changes@[t].name(),
                        brecs[j as int].0,
                    ),
                forall|k: Seq<char>| #![auto]
                    divergent(m1, m2, k) && ((exists|x: int| 0 <= x < i && arecs[x].0 == k) || (
                    exists|y: int| 0 <= y < j && brecs[y].0 == k)) ==> (exists|t: int|
                        0 <= t < changes@.len() && changes@[t].name() == k),
                changes@.len() == 0 ==> i == j && arecs.take(i as int) == brecs.take(j as int),
            decreases n - i + m - j,
        {
            let mut order = KeyOrder::Equal;
            if j >= m {
                order = KeyOrder::Less;
            } else if i >= n {
                order = KeyOrder::Greater;
            } else {
                order = str_cmp(self.items[i].0.as_str(), other.items[j].0.as_str());
            }
            let ghost oldchanges = changes@;
            if order == KeyOrder::Less {
                let ghost iold = i as int;
                let ghost jold = j as int;
                let ghost k = arecs[iold].0;
                proof {
                    lemma_map_of_index(arecs, iold);
                    lemma_map_of_contains(brecs, k);
                    if j < m {
                        assert(lex_lt(k, brecs[j as int].0));
                    }
                    if m2.contains_key(k) {
                        let y = choose|y: int| 0 <= y <= brecs.len() - 1 && brecs[y].0 == k;
                        if y < j {
                            lemma_lex_irrefl(k);
                        } else {
                            assert(j < m);
                            if y > j {
                                assert(lex_lt(brecs[j as int].0, brecs[y].0));
                                lemma_lex_trans(k, brecs[j as int].0, brecs[y].0);
                            }
                            lemma_lex_irrefl(k);
                        }
                    }
                }
                let e = DiffEntry::TodoNotFound {
                    todo: self.items[i].0.clone(),
                    this_has: true,
                    that_has: false,
                };
                changes.push(e);
                i += 1;
                proof {
                    assert(changes@ == oldchanges.push(e));
                    assert(e.name() == k);
                    let len = changes@.len();
                    assert forall|t: int| 0 <= t < len - 1 implies lex_lt(
                        changes@[t].name(),
                        k,
                    ) by {
                        assert(changes@[t] == oldchanges[t]);
                    }
                    assert forall|t1: int, t2: int| 0 <= t1 < t2 < len implies lex_lt(
                        changes@[t1].name(),
                        changes@[t2].name(),
                    ) by {
                        if t2 < len - 1 {
                            assert(changes@[t1] == oldchanges[t1]);
                            assert(changes@[t2] == oldchanges[t2]);
                        }
                    }
                    assert forall|t: int| 0 <= t < len && i < n implies lex_lt(
                        changes@[t].name(),
                        arecs[i as int].0,
                    ) by {
                        assert(lex_lt(k, arecs[i as int].0));
                        if t < len - 1 {
                            lemma_lex_trans(changes@[t].name(), k, arecs[i as int].0);
                        }
                    }
                    assert forall|t: int| 0 <= t < len && j < m implies lex_lt(
                        changes@[t].name(),
                        brecs[j as int].0,
                    ) by {
                        if t < len - 1 {
                            lemma_lex_trans(changes@[t].name(), k, brecs[j as int].0);
                        }
                    }
                    assert forall|y: int| 0 <= y < j && i < n implies lex_lt(
                        brecs[y].0,
                        arecs[i as int].0,
                    ) by {
                        lemma_lex_trans(brecs[y].0, k, arecs[i as int].0);
                    }
                    assert forall|t: int| 0 <= t < oldchanges.len() implies changes@[t]
                        == oldchanges[t] by {}
                    assert(changes@[len - 1].name() == k);
                    assert forall|k2: Seq<char>| #![auto]
                        divergent(m1, m2, k2) && ((exists|x: int| 0 <= x < i && arecs[x].0 == k2)
                        || (exists|y: int| 0 <= y < j && brecs[y].0 == k2)) implies exists|t: int|
                        0 <= t < changes@.len() && changes@[t].name() == k2 by {
                        if k2 == k {
                            assert(changes@[len - 1].name() == k2);
                        } else {
                            if exists|x: int| 0 <= x < i && arecs[x].0 == k2 {
                                let x = choose|x: int| 0 <= x < i && arecs[x].0 == k2;
                                assert(0 <= x < iold);
                            } else {
                                let y = choose|y: int| 0 <= y < j && brecs[y].0 == k2;
                                assert(0 <= y < jold);
                            }
                            let t = choose|t: int|
                                0 <= t < oldchanges.len() && oldchanges[t].name() == k2;
                            assert(changes@[t].name() == k2);
                        }
                    }
                }
            } else if order == KeyOrder::Greater {
                let ghost jold = j as int;
                let ghost iold = i as int;
                let ghost k = brecs[jold].0;
                proof {
                    lemma_map_of_index(brecs, jold);
                    lemma_map_of_contains(arecs, k);
                    if i < n {
                        assert(lex_lt(k, arecs[i as int].0));
                    }
                    if m1.contains_key(k) {
                        let x = choose|x: int| 0 <= x <= arecs.len() - 1 && arecs[x].0 == k;
                        if x < i {
                            lemma_lex_irrefl(k);
                        } else {
                            assert(i < n);
                            if x > i {
                                assert(lex_lt(arecs[i as int].0, arecs[x].0));
                                lemma_lex_trans(k, arecs[i as int].0, arecs[x].0);
                            }
                            lemma_lex_irrefl(k);
                        }
                    }
                }
                let e = DiffEntry::TodoNotFound {
                    todo: other.items[j].0.clone(),
                    this_has: false,
                    that_has: true,
                };
                changes.push(e);
                j += 1;
                proof {
                    assert(changes@ == oldchanges.push(e));
                    assert(e.name() == k);
                    let len = changes@.len();
                    assert forall|t: int| 0 <= t < len - 1 implies lex_lt(
                        changes@[t].name(),
                        k,
                    ) by {
                        assert(changes@[t] == oldchanges[t]);
                    }
                    assert forall|t1: int, t2: int| 0 <= t1 < t2 < len implies lex_lt(
                        changes@[t1].name(),
                        changes@[t2].name(),
                    ) by {
                        if t2 < len - 1 {
                            assert(changes@[t1] == oldchanges[t1]);
                            assert(changes@[t2] == oldchanges[t2]);
                        }
                    }
                    assert forall|t: int| 0 <= t < len && j < m implies lex_lt(
                        changes@[t].name(),
                        brecs[j as int].0,
                    ) by {
                        assert(lex_lt(k, brecs[j as int].0));
                        if t < len - 1 {
                            lemma_lex_trans(changes@[t].name(), k, brecs[j as int].0);
                        }
                    }
                    assert forall|t: int| 0 <= t < len && i < n implies lex_lt(
                        changes@[t].name(),
                        arecs[i as int].0,
                    ) by {
                        if t < len - 1 {
                            lemma_lex_trans(changes@[t].name(), k, arecs[i as int].0);
                        }
                    }
                    assert forall|x: int| 0 <= x < i && j < m implies lex_lt(
                        arecs[x].0,
                        brecs[j as int].0,
                    ) by {
                        lemma_lex_trans(arecs[x].0, k, brecs[j as int].0);
                    }
                    assert forall|t: int| 0 <= t < oldchanges.len() implies changes@[t]
                        == oldchanges[t] by {}
                    assert(changes@[len - 1].name() == k);
                    assert forall|k2: Seq<char>| #![auto]
                        divergent(m1, m2, k2) && ((exists|x: int| 0 <= x < i && arecs[x].0 == k2)
                        || (exists|y: int| 0 <= y < j && brecs[y].0 == k2)) implies exists|t: int|
                        0 <= t < changes@.len() && changes@[t].name() == k2 by {
                        if k2 == k {
                            assert(changes@[len - 1].name() == k2);
                        } else {
                            if exists|x: int| 0 <= x < i && arecs[x].0 == k2 {
                                let x = choose|x: int| 0 <= x < i && arecs[x].0 == k2;
                                assert(0 <= x < iold);
                            } else {
                                let y = choose|y: int| 0 <= y < j && brecs[y].0 == k2;
                                assert(0 <= y < jold);
                            }
                            let t = choose|t: int|
                                0 <= t < oldchanges.len() && oldchanges[t].name() == k2;
                            assert(changes@[t].name() == k2);
                        }
                    }
                }
            } else {
                let ghost iold = i as int;
                let ghost jold = j as int;
                let ghost k = arecs[iold].0;
                proof {
                    assert(i < n && j < m);
                    assert(k == brecs[jold].0);
                    lemma_map_of_index(arecs, iold);
                    lemma_map_of_index(brecs, jold);
                }
                let sa = self.items[i].1;
                let sb = other.items[j].1;
                if sa != sb {
                    let e = DiffEntry::TodoStatusMistake {
                        todo: self.items[i].0.clone(),
                        this_status: sa,
                        that_status: sb,
                    };
                    changes.push(e);
                    i += 1;
                    j += 1;
                    proof {
                        assert(changes@ == oldchanges.push(e));
                        assert(e.name() == k);
                        let len = changes@.len();
                        assert forall|t: int| 0 <= t < len - 1 implies lex_lt(
                            changes@[t].name(),
                            k,
                        ) by {
                            assert(changes@[t] == oldchanges[t]);
                        }
                        assert forall|t1: int, t2: int| 0 <= t1 < t2 < len implies lex_lt(
                            changes@[t1].name(),
                            changes@[t2].name(),
                        ) by {
                            if t2 < len - 1 {
                                assert(changes@[t1] == oldchanges[t1]);
                                assert(changes@[t2] == oldchanges[t2]);
                            }
                        }
                        assert forall|t: int| 0 <= t < len && i < n implies lex_lt(
                            changes@[t].name(),
                            arecs[i as int].0,
                        ) by {
                            assert(lex_lt(k, arecs[i as int].0));
                            if t < len - 1 {
                                lemma_lex_trans(changes@[t].name(), k, arecs[i as int].0);
                            }
                        }
                        assert forall|t: int| 0 <= t < len && j < m implies lex_lt(
                            changes@[t].name(),
                            brecs[j as int].0,
                        ) by {
                            assert(lex_lt(k, brecs[j as int].0));
                            if t < len - 1 {
                                lemma_lex_trans(changes@[t].name(), k, brecs[j as int].0);
                            }
                        }
                        assert forall|y: int| 0 <= y < j && i < n implies lex_lt(
                            brecs[y].0,
                            arecs[i as int].0,
                        ) by {
                            if y < jold {
                                lemma_lex_trans(brecs[y].0, k, arecs[i as int].0);
                            }
                        }
                        assert forall|x: int| 0 <= x < i && j < m implies lex_lt(
                            arecs[x].0,
                            brecs[j as int].0,
                        ) by {
                            if x < iold {
                                lemma_lex_trans(arecs[x].0, k, brecs[j as int].0);
                            }
                        }
                        assert forall|t: int| 0 <= t < oldchanges.len() implies changes@[t]
                            == oldchanges[t] by {}
                        assert(changes@[len - 1].name() == k);
                        assert forall|k2: Seq<char>| #![auto]
                            divergent(m1, m2, k2) && ((exists|x: int| 0 <= x < i && arecs[x].0 == k2)
                            || (exists|y: int| 0 <= y < j && brecs[y].0 == k2)) implies exists|t: int|
                            0 <= t < changes@.len() && changes@[t].name() == k2 by {
                            if k2 == k {
                                assert(changes@[len - 1].name() == k2);
                            } else {
                                if exists|x: int| 0 <= x < i && arecs[x].0 == k2 {
                                    let x = choose|x: int| 0 <= x < i && arecs[x].0 == k2;
                                    assert(0 <= x < iold);
                                } else {
                                    let y = choose|y: int| 0 <= y < j && brecs[y].0 == k2;
                                    assert(0 <= y < jold);
                                }
                                let t = choose|t: int|
                                    0 <= t < oldchanges.len() && oldchanges[t].name() == k2;
                                assert(changes@[t].name() == k2);
                            }
                        }
                    }
                } else {
                    i += 1;
                    j += 1;
                    proof {
                        assert(!divergent(m1, m2, k));
                        let len = changes@.len();
                        assert forall|t: int| 0 <= t < len && i < n implies lex_lt(
                            changes@[t].name(),
                            arecs[i as int].0,
                        ) by {
                            lemma_lex_trans(changes@[t].name(), k, arecs[i as int].0);
                        }
                        assert forall|t: int| 0 <= t < len && j < m implies lex_lt(
                            changes@[t].name(),
                            brecs[j as int].0,
                        ) by {
                            lemma_lex_trans(changes@[t].name(), k, brecs[j as int].0);
                        }
                        assert forall|y: int| 0 <= y < j && i < n implies lex_lt(
                            brecs[y].0,
                            arecs[i as int].0,
                        ) by {
                            if y < jold {
                                lemma_lex_trans(brecs[y].0, k, arecs[i as int].0);
                            }
                        }
                        assert forall|x: int| 0 <= x < i && j < m implies lex_lt(
                            arecs[x].0,
                            brecs[j as int].0,
                        ) by {
                            if x < iold {
                                lemma_lex_trans(arecs[x].0, k, brecs[j as int].0);
                            }
                        }
                        assert forall|k2: Seq<char>| #![auto]
                            divergent(m1, m2, k2) && ((exists|x: int|
                            0 <= x < i && arecs[x].0 == k2) || (exists|y: int|
                            0 <= y < j && brecs[y].0 == k2)) implies exists|t: int|
                            0 <= t < changes@.len() && changes@[t].name() == k2 by {
                            if k2 != k {
                                if exists|x: int| 0 <= x < i && arecs[x].0 == k2 {
                                    let x = choose|x: int| 0 <= x < i && arecs[x].0 == k2;
                                    assert(0 <= x < iold);
                                } else {
                                    let y = choose|y: int| 0 <= y < j && brecs[y].0 == k2;
                                    assert(0 <= y < jold);
                                }
                            }
                        }
                        if len == 0 {
                            assert(arecs[iold] == brecs[jold]);
                            assert(arecs.take(iold + 1) =~= arecs.take(iold).push(arecs[iold]));
                            assert(brecs.take(jold + 1) =~= brecs.take(jold).push(brecs[jold]));
                            assert(arecs.take(i as int) == brecs.take(j as int));
                        }
                    }
                }
            }
        }
        if changes.is_empty() {
            proof {
                assert(arecs.take(n as int) =~= arecs);
                assert(brecs.take(m as int) =~= brecs);
                assert(arecs == brecs);
            }
            DiffResult::Same
        } else {
            proof {
                assert forall|k: Seq<char>| divergent(m1, m2, k) implies exists|t: int|
                    0 <= t < changes@.len() && changes@[t].name() == k by {
                    lemma_map_of_contains(arecs, k);
                    lemma_map_of_contains(brecs, k);
                }
                let e0 = changes@[0];
                assert(entry_correct(m1, m2, e0));
                if m1 == m2 {
                    assert(false);
                }
            }
            DiffResult::Changes(changes)
        }
    }
}

impl TodoList {
    /// Hydrates a store from decoded name/status pairs by upserting
    /// each in turn; pairs with an empty name are dropped, a later
    /// pair overrides an earlier one with the same name.
    pub fn from_pairs(pairs: &Vec<(String, bool)>) -> (r: TodoList)
        ensures
            r.wf(),
            r@ == load_map(pairs_view(pairs@)),
            sorted_by_name(pairs_view(pairs@)) && names_nonempty(pairs_view(pairs@)) ==> r@
                == map_of(pairs_view(pairs@)),
    {
        let ghost pv = pairs_view(pairs@);
        let mut r = TodoList::new();
        let n = pairs.len();
        let mut i: usize = 0;
        proof {
            assert(pv.take(0) =~= Seq::<(Seq<char>, bool)>::empty());
        }
        while i < n
            invariant
                r.wf(),
                n == pairs@.len(),
                pv == pairs_view(pairs@),
                i <= n,
                r@ == load_map(pv.take(i as int)),
            decreases n - i,
        {
            proof {
                assert(pv.take(i + 1).drop_last() =~= pv.take(i as int));
                assert(pv.take(i + 1).last() == pv[i as int]);
            }
            if !pairs[i].0.as_str().is_empty() {
                let _ = r.set_status(pairs[i].0.as_str(), pairs[i].1);
            }
            i += 1;
        }
        proof {
            assert(pv.take(n as int) =~= pv);
            if sorted_by_name(pv) && names_nonempty(pv) {
                lemma_load_map_wf(pv);
            }
        }
        r
    }
}

/// The ghost sequence of string views.
pub open spec fn strings_view(v: Seq<String>) -> Seq<Seq<char>> {
    v.map_values(|x: String| x@)
}

/// The names of the records carrying the given status, in name order.
pub open spec fn names_with_status(s: Seq<(Seq<char>, bool)>, status: bool) -> Seq<Seq<char>>
    decreases s.len(),
{
    if s.len() == 0 {
        Seq::empty()
    } else {
        let rest = names_with_status(s.drop_last(), status);
        if s.last().1 == status {
            rest.push(s.last().0)
        } else {
            rest
        }
    }
}

/// Whether `name` names one of `pairs` on which `pred` answered true.
pub open spec fn spec_filter_hit<Pred: Fn(&(String, bool)) -> bool>(
    pairs: Seq<(String, bool)>,
    pred: Pred,
    name: String,
) -> bool {
    exists|i: int| #![trigger pairs[i]]
        0 <= i < pairs.len() && name == pairs[i].0 && pred.ensures((&pairs[i],), true)
}

/// Whether `out` is what `func` produced on one of `pairs` on which
/// `pred` answered true.
pub open spec fn spec_filter_map_hit<
    Output,
    Pred: Fn(&(String, bool)) -> bool,
    Func: Fn(&(String, bool)) -> Output,
>(
    pairs: Seq<(String, bool)>,
    pred: Pred,
    func: Func,
    out: Output,
) -> bool {
    exists|i: int| #![trigger pairs[i]]
        0 <= i < pairs.len() && pred.ensures((&pairs[i],), true) && func.ensures(
            (&pairs[i],),
            out,
        )
}

/// Whether the pair at `i` is accounted for in `out`: either its name
/// was emitted, or `pred` answered false on it.
pub open spec fn spec_filter_covered<Pred: Fn(&(String, bool)) -> bool>(
    pairs: Seq<(String, bool)>,
    pred: Pred,
    out: Seq<String>,
    i: int,
) -> bool {
    pred.ensures((&pairs[i],), false) || exists|j: int| #![trigger out[j]]
        0 <= j < out.len() && out[j] == pairs[i].0
}

/// Whether the pair at `i` is accounted for in `out`: either some
/// output is what `func` produced on it, or `pred` answered false on
/// it.
pub open spec fn spec_filter_map_covered<
    Output,
    Pred: Fn(&(String, bool)) -> bool,
    Func: Fn(&(String, bool)) -> Output,
>(
    pairs: Seq<(String, bool)>,
    pred: Pred,
    func: Func,
    out: Seq<Output>,
    i: int,
) -> bool {
    pred.ensures((&pairs[i],), false) || exists|j: int| #![trigger out[j]]
        0 <= j < out.len() && func.ensures((&pairs[i],), out[j])
}

/// What a successfully applied action hands back beyond the store
/// mutation itself: nothing, a listing, or a debug report.
#[derive(Debug)]
pub enum ActionOutcome {
    Done,
    Listed(Vec<(String, bool)>),
    ListedWithStatus(bool, Vec<String>),
    Debug(DebugOutcome),
}

impl TodoList {
    /// The names of the records carrying the given status, in name order.
    pub fn get_todos_with_status(&self, status: bool) -> (r: Vec<String>)
        requires
            self.wf(),
        ensures
            strings_view(r@) == names_with_status(self.records(), status),
    {
        let ghost recs = self.records();
        let n = self.items.len();
        let mut r: Vec<String> = Vec::new();
        let mut i: usize = 0;
        proof {
            assert(recs.take(0) =~= Seq::<(Seq<char>, bool)>::empty());
            assert(strings_view(r@) =~= names_with_status(recs.take(0), status));
        }
        while i < n
            invariant
                recs == self.records(),
                n == self.items@.len(),
                i <= n,
                strings_view(r@) == names_with_status(recs.take(i as int), status),
            decreases n - i,
        {
            proof {
                assert(recs.take(i + 1).drop_last() =~= recs.take(i as int));
                assert(recs.take(i + 1).last() == recs[i as int]);
            }
            let ghost prev = r@;
            if self.items[i].1 == status {
                let name = self.items[i].0.clone();
                r.push(name);
                proof {
                    assert(strings_view(r@) =~= strings_view(prev).push(recs[i as int].0));
                }
            }
            i += 1;
        }
        proof {
            assert(recs.take(n as int) =~= recs);
        }
        r
    }

    /// Applies a validated command to the store, returning what the
    /// command queried, or the typed error it failed with; the store
    /// changes exactly as the command asks. `Clear` clears
    /// unconditionally: any confirmation happens before the payload is
    /// built.
    pub fn apply_action(&mut self, action: ActionPayload) -> (r: Result<
        ActionOutcome,
        CommandError,
    >)
        requires
            old(self).wf(),
        ensures
            final(self).wf(),
            action matches ActionPayload::Add(key) ==> ((key@.len() == 0 ==> (r matches Err(
                CommandError::InputInvalid(m),
            ) && m@ == "Todo is empty"@ && *final(self) == *old(self))) && (key@.len() > 0 && old(self)@.contains_key(key@)
                ==> r == Err::<ActionOutcome, CommandError>(CommandError::TodoAlreadyExists)
                && *final(self) == *old(self)) && (key@.len() > 0 && !old(self)@.contains_key(key@)
                ==> (r matches Ok(ActionOutcome::Done) && final(self)@ == old(self)@.insert(
                key@,
                false,
            )))),
            action == ActionPayload::Clear ==> (r matches Ok(ActionOutcome::Done) && final(self)@
                == Map::<Seq<char>, bool>::empty()),
            action matches ActionPayload::Edit(existing, new_name) ==> ((!old(
                self,
            )@.contains_key(existing@) ==> r == Err::<ActionOutcome, CommandError>(
                CommandError::TodoNotFound,
            ) && *final(self) == *old(self)) && (old(self)@.contains_key(existing@)
                && new_name@.len() == 0 ==> (r matches Err(CommandError::InputInvalid(_)) && *final(self) == *old(self))) && (old(self)@.contains_key(existing@) && new_name@.len() > 0 ==> (
            r matches Ok(ActionOutcome::Done) && final(self)@ == old(self)@.remove(
                existing@,
            ).insert(new_name@, old(self)@[existing@])))),
            action == ActionPayload::List ==> (r matches Ok(o) && o matches ActionOutcome::Listed(
                v,
            ) && pairs_view(v@) == old(self).records() && *final(self) == *old(self)),
            action matches ActionPayload::ListWithStatus(status) ==> (r matches Ok(o) && o matches
                ActionOutcome::ListedWithStatus(b, v) && b == status && strings_view(v@)
                == names_with_status(old(self).records(), status) && *final(self) == *old(self)),
            action matches ActionPayload::Remove(key) ==> ((key@.len() == 0 ==> (r matches Err(
                CommandError::InputInvalid(m),
            ) && m@ == "Todo is empty"@ && *final(self) == *old(self))) && (key@.len() > 0 && old(self)@.contains_key(key@)
                ==> (r matches Ok(ActionOutcome::Done) && final(self)@ == old(self)@.remove(key@)))
                && (key@.len() > 0 && !old(self)@.contains_key(key@) ==> r == Err::<
                ActionOutcome,
                CommandError,
            >(CommandError::TodoNotFound) && *final(self) == *old(self))),
            action matches ActionPayload::SetStatus(key, val) ==> ((key@.len() == 0 ==> (r matches
                Err(CommandError::InputInvalid(m)) && m@ == "Todo is empty"@ && *final(self)
                == *old(self))) && (key@.len()
                > 0 ==> (r matches Ok(ActionOutcome::Done) && final(self)@ == old(self)@.insert(
                key@,
                val,
            )))),
            action matches ActionPayload::Other(input) ==> (*final(self) == *old(self) && (
            r matches Ok(o) ==> o matches ActionOutcome::Debug(_)) && (fold_seq(input@)
                == fold_seq("encoding"@) ==> (r matches Ok(ActionOutcome::Debug(
                DebugOutcome::Encoding(reps),
            )) && reps@.len() == spec_all_encodings().len() && (forall|t: int| #![auto]
                0 <= t < reps@.len() ==> reps@[t].encoding == spec_all_encodings()[t]) && (forall|
                t: int,
            | #![auto]
                0 <= t < reps@.len() ==> (reps@[t].outcome is Diffed ==> reps@[t].outcome->Diffed_0
                    == DiffResult::Same)) && (forall|t: int| #![auto]
                0 <= t < reps@.len() ==> (reps@[t].encoding != EncodingType::Bson
                    ==> reps@[t].encoded is Some)) && (names_nul_free(old(self).records())
                ==> forall|t: int| #![auto] 0 <= t < reps@.len() ==> reps@[t].encoded is Some)))
                && (fold_seq(input@) != fold_seq("encoding"@) && fold_seq(input@) == fold_seq(
                "diff"@,
            ) ==> (((r is Err) <==> old(self).records().len() == 0) && (r matches Err(e) ==> (
            e matches CommandError::InputInvalid(m) && m@
                == "TodoList must have at least 1 entry in order to run diff test!"@)) && (
            r matches Ok(o) ==> (o matches ActionOutcome::Debug(d) && d matches
                DebugOutcome::DiffProbe(rep) && rep.baseline == DiffResult::Same)))) && (fold_seq(
                input@,
            ) != fold_seq("encoding"@) && fold_seq(input@) != fold_seq("diff"@) ==> (r matches Ok(
                ActionOutcome::Debug(DebugOutcome::UnknownCommand(u)),
            ) && u@ == input@))),
    {
        match action {
            ActionPayload::Add(key) => match self.add_todo(key.as_str(), false) {
                Ok(()) => Ok(ActionOutcome::Done),
                Err(e) => Err(e),
            },
            ActionPayload::Clear => {
                self.clear_todos();
                Ok(ActionOutcome::Done)
            },
            ActionPayload::Edit(existing, new_name) => match self.edit_todo(
                existing.as_str(),
                new_name.as_str(),
            ) {
                Ok(()) => Ok(ActionOutcome::Done),
                Err(e) => Err(e),
            },
            ActionPayload::List => Ok(ActionOutcome::Listed(self.get_todos())),
            ActionPayload::ListWithStatus(status) => Ok(
                ActionOutcome::ListedWithStatus(status, self.get_todos_with_status(status)),
            ),
            ActionPayload::Remove(key) => {
                if key.as_str().is_empty() {
                    return Err(CommandError::InputInvalid(String::from_str("Todo is empty")));
                }
                match self.remove_todo(key.as_str()) {
                    Some(_) => Ok(ActionOutcome::Done),
                    None => Err(CommandError::TodoNotFound),
                }
            },
            ActionPayload::SetStatus(key, val) => match self.set_status(key.as_str(), val) {
                Ok(()) => Ok(ActionOutcome::Done),
                Err(e) => Err(e),
            },
            ActionPayload::Other(input) => match self.run_debug_command(input.as_str()) {
                Ok(outcome) => Ok(ActionOutcome::Debug(outcome)),
                Err(e) => Err(e),
            },
        }
    }

    /// Calls `action` once for each record, in name order.
    pub fn for_each_todo<Action: Fn(&(String, bool))>(&self, action: Action)
        requires
            self.wf(),
            forall|p: &(String, bool)| #[trigger] action.requires((p,)),
    {
        let n = self.items.len();
        let mut i: usize = 0;
        while i < n
            invariant
                n == self.items@.len(),
                forall|p: &(String, bool)| #[trigger] action.requires((p,)),
            decreases n - i,
        {
            action(&self.items[i]);
            i += 1;
        }
    }

    /// Maps `func` over the records, in name order: one output per
    /// record, each produced by a call of `func` on that record.
    pub fn map_todos<Output, Func: Fn(&(String, bool)) -> Output>(&self, func: Func) -> (r: Vec<
        Output,
    >)
        requires
            self.wf(),
            forall|p: &(String, bool)| #[trigger] func.requires((p,)),
        ensures
            r@.len() == self.spec_pairs().len(),
            forall|i: int| #![trigger r@[i]]
                0 <= i < r@.len() ==> func.ensures((&self.spec_pairs()[i],), r@[i]),
    {
        let n = self.items.len();
        let mut r: Vec<Output> = Vec::new();
        let mut i: usize = 0;
        while i < n
            invariant
                self.wf(),
                n == self.items@.len(),
                i <= n,
                r@.len() == i,
                forall|p: &(String, bool)| #[trigger] func.requires((p,)),
                forall|j: int| #![trigger r@[j]]
                    0 <= j < i ==> func.ensures((&self.spec_pairs()[j],), r@[j]),
            decreases n - i,
        {
            let ghost prev = r@;
            let out = func(&self.items[i]);
            r.push(out);
            proof {
                assert forall|j: int| #![trigger r@[j]]
                    0 <= j < i + 1 implies func.ensures((&self.spec_pairs()[j],), r@[j]) by {
                    if j < i {
                        assert(r@[j] == prev[j]);
                    } else {
                        assert(r@[j] == out);
                    }
                }
            }
            i += 1;
        }
        r
    }

    /// The names of the records on which `pred` answered true, in
    /// name order.
    pub fn filter_todos<Pred: Fn(&(String, bool)) -> bool>(&self, pred: Pred) -> (r: Vec<String>)
        requires
            self.wf(),
            forall|p: &(String, bool)| #[trigger] pred.requires((p,)),
        ensures
            r@.len() <= self.spec_pairs().len(),
            forall|j: int| #![trigger r@[j]]
                0 <= j < r@.len() ==> spec_filter_hit(self.spec_pairs(), pred, r@[j]),
            forall|i: int|
                0 <= i < self.spec_pairs().len() ==> spec_filter_covered(
                    self.spec_pairs(),
                    pred,
                    r@,
                    i,
                ),
    {
        let n = self.items.len();
        let mut r: Vec<String> = Vec::new();
        let mut i: usize = 0;
        let ghost mut picks: Seq<int> = Seq::empty();
        let ghost mut placed: Seq<int> = Seq::empty();
        while i < n
            invariant
                self.wf(),
                n == self.items@.len(),
                i <= n,
                r@.len() <= i,
                forall|p: &(String, bool)| #[trigger] pred.requires((p,)),
                picks.len() == r@.len(),
                forall|j: int| #![trigger picks[j]]
                    0 <= j < picks.len() ==> 0 <= picks[j] < self.spec_pairs().len() && r@[j] == (
                    self.spec_pairs()[picks[j]]).0 && pred.ensures(
                        (&self.spec_pairs()[picks[j]],),
                        true,
                    ),
                placed.len() == i,
                forall|x: int| #![trigger placed[x]]
                    0 <= x < i ==> (placed[x] == -1 && pred.ensures(
                        (&self.spec_pairs()[x],),
                        false,
                    )) || (0 <= placed[x] < r@.len() && r@[placed[x]] == self.spec_pairs()[x].0),
            decreases n - i,
        {
            if pred(&self.items[i]) {
                let name = self.items[i].0.clone();
                proof {
                    placed = placed.push(r@.len() as int);
                }
                r.push(name);
                proof {
                    picks = picks.push(i as int);
                }
            } else {
                proof {
                    placed = placed.push(-1);
                }
            }
            i += 1;
        }
        proof {
            assert forall|j: int| #![trigger r@[j]]
                0 <= j < r@.len() implies spec_filter_hit(self.spec_pairs(), pred, r@[j]) by {
                let k = picks[j];
                assert(0 <= k < self.spec_pairs().len() && r@[j] == (self.spec_pairs()[k]).0
                    && pred.ensures((&self.spec_pairs()[k],), true));
            }
            assert forall|x: int|
                0 <= x < self.spec_pairs().len() implies spec_filter_covered(
                self.spec_pairs(),
                pred,
                r@,
                x,
            ) by {
                if placed[x] != -1 {
                    assert(r@[placed[x]] == self.spec_pairs()[x].0);
                }
            }
        }
        r
    }

    /// Maps `func` over the records on which `pred` answered true, in
    /// name order.
    pub fn filter_map_todos<Output, Pred, Func>(&self, pred: Pred, func: Func) -> (r: Vec<Output>)
        where
            Pred: Fn(&(String, bool)) -> bool,
            Func: Fn(&(String, bool)) -> Output,
        requires
            self.wf(),
            forall|p: &(String, bool)| #[trigger] pred.requires((p,)),
            forall|p: &(String, bool)| #[trigger] func.requires((p,)),
        ensures
            r@.len() <= self.spec_pairs().len(),
            forall|j: int| #![trigger r@[j]]
                0 <= j < r@.len() ==> spec_filter_map_hit(self.spec_pairs(), pred, func, r@[j]),
            forall|i: int|
                0 <= i < self.spec_pairs().len() ==> spec_filter_map_covered(
                    self.spec_pairs(),
                    pred,
                    func,
                    r@,
                    i,
                ),
    {
        let n = self.items.len();
        let mut r: Vec<Output> = Vec::new();
        let mut i: usize = 0;
        let ghost mut picks: Seq<int> = Seq::empty();
        let ghost mut placed: Seq<int> = Seq::empty();
        while i < n
            invariant
                self.wf(),
                n == self.items@.len(),
                i <= n,
                r@.len() <= i,
                forall|p: &(String, bool)| #[trigger] pred.requires((p,)),
                forall|p: &(String, bool)| #[trigger] func.requires((p,)),
                picks.len() == r@.len(),
                forall|j: int| #![trigger picks[j]]
                    0 <= j < picks.len() ==> 0 <= picks[j] < self.spec_pairs().len()
                        && pred.ensures((&self.spec_pairs()[picks[j]],), true) && func.ensures(
                        (&self.spec_pairs()[picks[j]],),
                        r@[j],
                    ),
                placed.len() == i,
                forall|x: int| #![trigger placed[x]]
                    0 <= x < i ==> (placed[x] == -1 && pred.ensures(
                        (&self.spec_pairs()[x],),
                        false,
                    )) || (0 <= placed[x] < r@.len() && func.ensures(
                        (&self.spec_pairs()[x],),
                        r@[placed[x]],
                    )),
            decreases n - i,
        {
            if pred(&self.items[i]) {
                let out = func(&self.items[i]);
                proof {
                    placed = placed.push(r@.len() as int);
                }
                r.push(out);
                proof {
                    picks = picks.push(i as int);
                }
            } else {
                proof {
                    placed = placed.push(-1);
                }
            }
            i += 1;
        }
        proof {
            assert forall|j: int| #![trigger r@[j]]
                0 <= j < r@.len() implies spec_filter_map_hit(
                self.spec_pairs(),
                pred,
                func,
                r@[j],
            ) by {
                let k = picks[j];
                assert(0 <= k < self.spec_pairs().len() && pred.ensures(
                    (&self.spec_pairs()[k],),
                    true,
                ) && func.ensures((&self.spec_pairs()[k],), r@[j]));
            }
            assert forall|x: int|
                0 <= x < self.spec_pairs().len() implies spec_filter_map_covered(
                self.spec_pairs(),
                pred,
                func,
                r@,
                x,
            ) by {
                if placed[x] != -1 {
                    assert(func.ensures((&self.spec_pairs()[x],), r@[placed[x]]));
                }
            }
        }
        r
    }
}

impl Default for TodoList {
    /// The empty store.
    fn default() -> (r: Self)
        ensures
            r.wf(),
            r@ == Map::<Seq<char>, bool>::empty(),
            r.records().len() == 0,
    {
        TodoList::new()
    }
}

} // verus!
