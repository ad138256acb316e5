use vstd::prelude::*;

use crate::cereal::{
    codec_bytes, flex_bytes, spec_all_encodings, spec_codec_admissible, Cereal, EncodingType,
};
use crate::clock::{elapsed_millis, now_instant};
use crate::command_error::CommandError;
use crate::store_model::{
    lemma_map_of_index, map_of, names_nul_free, pairs_view, sorted_by_name,
};
use crate::text::{fold_seq, str_eq_ignore_ascii_case, u64_to_dec};
use crate::todolist::{DiffResult, TodoList};

verus! {

/// Relies on rand::random_range: a draw from `[0, n)`; only the range
/// can be promised of a random value.
#[verifier::external_body]
fn rand_below(n: usize) -> (r: usize)
    requires
        n > 0,
    ensures
        r < n,
{
    rand::random_range(0..n)
}

/// Relies on rand::random: a random boolean; nothing can be promised
/// of a random value.
#[verifier::external_body]
fn rand_flag() -> bool {
    rand::random()
}

/// Relies on rand::random: a random machine word; nothing can be
/// promised of a random value.
#[verifier::external_body]
fn rand_word() -> u64 {
    rand::random()
}

/// How one codec's round trip ended: the encode call failed, or the
/// decoded store was diffed against the original. A decode failure on
/// the codec's own freshly encoded bytes cannot happen, which
/// `run_encoding_test` states of its reports.
#[derive(Debug, Clone, PartialEq, Eq)]
pub enum RoundTripOutcome {
    EncodeFailed(String),
    DecodeFailed(String),
    Diffed(DiffResult),
}

/// What the diagnostics recorded for one codec: the encoded bytes (for
/// the caller to persist), encode and decode latencies, and how the
/// round trip ended.
#[derive(Debug, Clone)]
pub struct CodecReport {
    pub encoding: EncodingType,
    pub encoded: Option<Vec<u8>>,
    pub encode_ms: Option<u64>,
    pub decode_ms: Option<u64>,
    pub outcome: RoundTripOutcome,
}

/// One random mutation the diff probe applied to its scratch copy; a
/// skipped attempt (a flip or removal drawn against an emptied copy)
/// changed nothing.
#[derive(Debug, Clone, PartialEq, Eq)]
pub enum DiffTestChange {
    Flipped { todo: String, from: bool, to: bool },
    Added { todo: String, status: bool },
    Removed { todo: String },
    Skipped,
}

/// The mapping after the recorded mutations are applied in order: a
/// flip or an addition writes the recorded status, a removal deletes
/// the name, a skipped attempt changes nothing.
pub open spec fn apply_changes(
    m: Map<Seq<char>, bool>,
    cs: Seq<DiffTestChange>,
) -> Map<Seq<char>, bool>
    decreases cs.len(),
{
    if cs.len() == 0 {
        m
    } else {
        let prev = apply_changes(m, cs.drop_last());
        match cs.last() {
            DiffTestChange::Flipped { todo, to, .. } => prev.insert(todo@, to),
            DiffTestChange::Added { todo, status } => prev.insert(todo@, status),
            DiffTestChange::Removed { todo } => prev.remove(todo@),
            DiffTestChange::Skipped => prev,
        }
    }
}

/// What the diff probe observed: the diff against an untouched copy,
/// the random mutations applied to a scratch copy, and the diff
/// against that mutated copy.
#[derive(Debug, Clone)]
pub struct DiffTestReport {
    pub baseline: DiffResult,
    pub changes_made: usize,
    pub changes: Vec<DiffTestChange>,
    pub mutated: DiffResult,
}

/// What a debug command produced.
#[derive(Debug, Clone)]
pub enum DebugOutcome {
    Encoding(Vec<CodecReport>),
    DiffProbe(DiffTestReport),
    UnknownCommand(String),
}

impl TodoList {
    /// Round-trips this store through the given format and diffs the
    /// decoded copy against the original: the decoded store is always
    /// identical. Only the BSON encoder can refuse, and only over a
    /// name with an interior NUL.
    pub fn round_trip_diff(&self, encoding: EncodingType) -> (r: Result<DiffResult, String>)
        requires
            self.wf(),
        ensures
            r matches Ok(d) ==> d == DiffResult::Same,
            encoding != EncodingType::Bson ==> r is Ok,
            names_nul_free(self.records()) ==> r is Ok,
    {
        match self.to_saved_bytes(encoding) {
            Ok(bytes) => {
                proof {
                    assert(spec_codec_admissible(encoding, self.records()));
                    assert(encoding == EncodingType::FlexBuffer ==> bytes@ == flex_bytes(
                        self.records(),
                    ));
                }
                match TodoList::from_saved_bytes(encoding, &bytes) {
                    Ok(recreated) => {
                        proof {
                            assert(recreated@ == map_of(self.records()));
                        }
                        Ok(self.diff_with(&recreated))
                    },
                    Err(e) => {
                        // ruled out: decoding a codec's own fresh encoding succeeds
                        proof {
                            assert(false);
                        }
                        Err(e)
                    },
                }
            },
            Err(e) => Err(e),
        }
    }

    /// Exercises every supported codec over this store: encodes,
    /// decodes the freshly encoded bytes, and diffs the decoded store
    /// against the original, timing each step. One report per codec,
    /// none omitted; every codec but BSON always encodes, BSON encodes
    /// whenever no name holds an interior NUL; a decoded store always
    /// diffs as identical, and a decode failure cannot occur.
    pub fn run_encoding_test(&self) -> (r: Vec<CodecReport>)
        requires
            self.wf(),
        ensures
            r@.len() == spec_all_encodings().len(),
            forall|t: int| #![auto]
                0 <= t < r@.len() ==> r@[t].encoding == spec_all_encodings()[t],
            forall|t: int| #![auto] 0 <= t < r@.len() ==> !(r@[t].outcome is DecodeFailed),
            forall|t: int| #![auto]
                0 <= t < r@.len() ==> (r@[t].outcome is Diffed ==> r@[t].outcome->Diffed_0
                    == DiffResult::Same),
            forall|t: int| #![auto]
                0 <= t < r@.len() ==> ((r@[t].outcome is Diffed) <==> (r@[t].encoded is Some)),
            forall|t: int| #![auto]
                0 <= t < r@.len() ==> (r@[t].encoded is Some ==> r@[t].encoded->Some_0@
                    == codec_bytes(r@[t].encoding, self.records())),
            forall|t: int| #![auto]
                0 <= t < r@.len() ==> ((r@[t].encode_ms is Some) <==> (r@[t].encoded is Some)),
            forall|t: int| #![auto]
                0 <= t < r@.len() ==> ((r@[t].decode_ms is Some) <==> (r@[t].encoded is Some)),
            forall|t: int| #![auto]
                0 <= t < r@.len() ==> (r@[t].encoding != EncodingType::Bson ==> r@[t].encoded
                    is Some),
            names_nul_free(self.records()) ==> forall|t: int| #![auto]
                0 <= t < r@.len() ==> r@[t].encoded is Some,
    {
        let pairs = self.get_todos();
        let all = EncodingType::all();
        let mut reports: Vec<CodecReport> = Vec::new();
        let mut idx: usize = 0;
        while idx < 5
            invariant
                self.wf(),
                pairs_view(pairs@) == self.records(),
                all@ == spec_all_encodings(),
                idx <= 5,
                reports@.len() == idx,
                forall|t: int| #![auto]
                    0 <= t < idx ==> reports@[t].encoding == spec_all_encodings()[t],
                forall|t: int| #![auto] 0 <= t < idx ==> !(reports@[t].outcome is DecodeFailed),
                forall|t: int| #![auto]
                    0 <= t < idx ==> (reports@[t].outcome is Diffed ==> reports@[t].outcome->Diffed_0
                        == DiffResult::Same),
                forall|t: int| #![auto]
                    0 <= t < idx ==> ((reports@[t].outcome is Diffed) <==> (reports@[t].encoded
                        is Some)),
                forall|t: int| #![auto]
                    0 <= t < idx ==> (reports@[t].encoded is Some ==> reports@[t].encoded->Some_0@
                        == codec_bytes(reports@[t].encoding, self.records())),
                forall|t: int| #![auto]
                    0 <= t < idx ==> ((reports@[t].encode_ms is Some) <==> (reports@[t].encoded
                        is Some)),
                forall|t: int| #![auto]
                    0 <= t < idx ==> ((reports@[t].decode_ms is Some) <==> (reports@[t].encoded
                        is Some)),
                forall|t: int| #![auto]
                    0 <= t < idx ==> (reports@[t].encoding != EncodingType::Bson
                        ==> reports@[t].encoded is Some),
                names_nul_free(self.records()) ==> forall|t: int| #![auto]
                    0 <= t < idx ==> reports@[t].encoded is Some,
            decreases 5 - idx,
        {
            let ty = all[idx];
            let started = now_instant();
            let report = match Cereal::serialize_with(ty, &pairs) {
                Ok(bytes) => {
                    let encode_ms = elapsed_millis(&started);
                    proof {
                        assert(bytes@ == codec_bytes(ty, self.records()));
                        assert(spec_codec_admissible(ty, self.records()));
                        assert(ty == EncodingType::FlexBuffer ==> bytes@ == flex_bytes(
                            self.records(),
                        ));
                    }
                    let decode_started = now_instant();
                    match Cereal::deserialize_with(ty, &bytes) {
                        Ok(back) => {
                            let decode_ms = elapsed_millis(&decode_started);
                            let recreated = TodoList::from_pairs(&back);
                            proof {
                                assert(pairs_view(back@) == self.records());
                                assert(recreated@ == self@);
                            }
                            let verdict = self.diff_with(&recreated);
                            CodecReport {
                                encoding: ty,
                                encoded: Some(bytes),
                                encode_ms: Some(encode_ms),
                                decode_ms: Some(decode_ms),
                                outcome: RoundTripOutcome::Diffed(verdict),
                            }
                        },
                        Err(e) => {
                            // ruled out: decoding a codec's own fresh encoding succeeds
                            proof {
                                assert(false);
                            }
                            CodecReport {
                                encoding: ty,
                                encoded: None,
                                encode_ms: None,
                                decode_ms: None,
                                outcome: RoundTripOutcome::DecodeFailed(e),
                            }
                        },
                    }
                },
                Err(e) => {
                    proof {
                        assert(ty == EncodingType::Bson && !names_nul_free(self.records()));
                    }
                    CodecReport {
                        encoding: ty,
                        encoded: None,
                        encode_ms: None,
                        decode_ms: None,
                        outcome: RoundTripOutcome::EncodeFailed(e),
                    }
                },
            };
            reports.push(report);
            idx += 1;
        }
        reports
    }

    /// Mutates a scratch copy with a few random changes and diffs this
    /// store against it. The diff against an untouched copy is always
    /// identical; the diff against the mutated copy is identical
    /// exactly when the recorded changes cancel out; a flip always
    /// records the negated status, and an attempt is skipped only when
    /// it drew against an emptied copy. On an empty store the probe
    /// fails with `InputInvalid`. The number of diff entries need not
    /// equal the number of mutations: a flip can land on a freshly
    /// added record and collapse into it.
    pub fn run_diff_test(&self) -> (r: Result<DiffTestReport, CommandError>)
        requires
            self.wf(),
        ensures
            (r is Err) <==> self.records().len() == 0,
            r matches Err(e) ==> (e matches CommandError::InputInvalid(m) && m@
                == "TodoList must have at least 1 entry in order to run diff test!"@),
            r matches Ok(rep) ==> rep.baseline == DiffResult::Same && rep.changes_made
                == rep.changes@.len() && 1 <= rep.changes_made && (self.records().len() > 1
                ==> rep.changes_made < self.records().len()) && ((rep.mutated == DiffResult::Same)
                <==> self@ == apply_changes(self@, rep.changes@)) && (forall|t: int| #![auto]
                0 <= t < rep.changes@.len() ==> (rep.changes@[t] is Flipped
                    ==> rep.changes@[t]->Flipped_to == !rep.changes@[t]->Flipped_from)) && (forall|
                t: int,
            | #![auto]
                0 <= t < rep.changes@.len() ==> (rep.changes@[t] is Skipped ==> apply_changes(
                    self@,
                    rep.changes@.take(t),
                ) == Map::<Seq<char>, bool>::empty())),
    {
        if self.is_empty() {
            return Err(CommandError::InputInvalid(String::from_str(
                "TodoList must have at least 1 entry in order to run diff test!",
            )));
        }
        let mut scratch = self.clone();
        let baseline = self.diff_with(&scratch);
        let total = self.len();
        let changes_made: usize = if total > 1 {
            1 + rand_below(total - 1)
        } else {
            1
        };
        let mut changes: Vec<DiffTestChange> = Vec::new();
        let mut done: usize = 0;
        proof {
            assert(apply_changes(self@, changes@) == self@);
        }
        while done < changes_made
            invariant
                self.wf(),
                scratch.wf(),
                done <= changes_made,
                changes@.len() == done,
                scratch@ == apply_changes(self@, changes@),
                forall|t: int| #![auto]
                    0 <= t < changes@.len() ==> (changes@[t] is Flipped ==> changes@[t]->Flipped_to
                        == !changes@[t]->Flipped_from),
                forall|t: int| #![auto]
                    0 <= t < changes@.len() ==> (changes@[t] is Skipped ==> apply_changes(
                        self@,
                        changes@.take(t),
                    ) == Map::<Seq<char>, bool>::empty()),
            decreases changes_made - done,
        {
            let ghost prevch = changes@;
            let op = rand_below(3);
            let change: DiffTestChange = if op == 0 {
                let len = scratch.len();
                if len > 0 {
                    let pick = rand_below(len);
                    let (todo, status) = scratch.nth_todo(pick);
                    proof {
                        assert(todo@.len() > 0);
                    }
                    let _ = scratch.set_status(todo.as_str(), !status);
                    DiffTestChange::Flipped { todo, from: status, to: !status }
                } else {
                    proof {
                        assert(scratch.records() =~= Seq::<(Seq<char>, bool)>::empty());
                        assert(scratch@ =~= Map::<Seq<char>, bool>::empty());
                    }
                    DiffTestChange::Skipped
                }
            } else if op == 1 {
                proof {
                    reveal_strlit("Here is a random todo I added. ");
                }
                let mut todo = String::from_str("Here is a random todo I added. ");
                let digits = u64_to_dec(rand_word());
                todo.append(digits.as_str());
                let status = rand_flag();
                let _ = scratch.set_status(todo.as_str(), status);
                DiffTestChange::Added { todo, status }
            } else {
                let len = scratch.len();
                if len > 0 {
                    let pick = rand_below(len);
                    let (todo, _status) = scratch.nth_todo(pick);
                    proof {
                        lemma_map_of_index(scratch.records(), pick as int);
                    }
                    let _ = scratch.remove_todo(todo.as_str());
                    DiffTestChange::Removed { todo }
                } else {
                    proof {
                        assert(scratch.records() =~= Seq::<(Seq<char>, bool)>::empty());
                        assert(scratch@ =~= Map::<Seq<char>, bool>::empty());
                    }
                    DiffTestChange::Skipped
                }
            };
            changes.push(change);
            done += 1;
            proof {
                assert(changes@ == prevch.push(change));
                assert(changes@.drop_last() =~= prevch);
                assert(changes@.last() == change);
                assert(scratch@ == apply_changes(self@, changes@));
                assert forall|t: int| #![auto]
                    0 <= t < changes@.len() && changes@[t] is Skipped implies apply_changes(
                    self@,
                    changes@.take(t),
                ) == Map::<Seq<char>, bool>::empty() by {
                    if t < prevch.len() {
                        assert(changes@[t] == prevch[t]);
                        assert(changes@.take(t) =~= prevch.take(t));
                    } else {
                        assert(changes@.take(t) =~= prevch);
                    }
                }
                assert forall|t: int| #![auto]
                    0 <= t < changes@.len() implies (changes@[t] is Flipped ==> changes@[t]->Flipped_to
                        == !changes@[t]->Flipped_from) by {
                    if t < prevch.len() {
                        assert(changes@[t] == prevch[t]);
                    }
                }
            }
        }
        let mutated = self.diff_with(&scratch);
        Ok(DiffTestReport { baseline, changes_made, changes, mutated })
    }

    /// Dispatches a free-text debug command, compared without regard
    /// to ASCII letter case: `encoding` runs the codec diagnostics,
    /// `diff` runs the diff probe, anything else is reported back as
    /// unknown.
    pub fn run_debug_command(&self, input: &str) -> (r: Result<DebugOutcome, CommandError>)
        requires
            self.wf(),
        ensures
            fold_seq(input@) == fold_seq("encoding"@) ==> (r matches Ok(
                DebugOutcome::Encoding(reps),
            ) && reps@.len() == spec_all_encodings().len() && (forall|t: int| #![auto]
                0 <= t < reps@.len() ==> reps@[t].encoding == spec_all_encodings()[t]) && (
            forall|t: int| #![auto]
                0 <= t < reps@.len() ==> (reps@[t].outcome is Diffed ==> reps@[t].outcome->Diffed_0
                    == DiffResult::Same)) && (forall|t: int| #![auto]
                0 <= t < reps@.len() ==> (reps@[t].encoding != EncodingType::Bson
                    ==> reps@[t].encoded is Some)) && (names_nul_free(self.records()) ==> forall|
                t: int,
            | #![auto] 0 <= t < reps@.len() ==> reps@[t].encoded is Some)),
            fold_seq(input@) != fold_seq("encoding"@) && fold_seq(input@) == fold_seq("diff"@)
                ==> (((r is Err) <==> self.records().len() == 0) && (r matches Err(e) ==> (
            e matches CommandError::InputInvalid(m) && m@
                == "TodoList must have at least 1 entry in order to run diff test!"@)) && (
            r matches Ok(o) ==> (o matches DebugOutcome::DiffProbe(rep) && rep.baseline
                == DiffResult::Same))),
            fold_seq(input@) != fold_seq("encoding"@) && fold_seq(input@) != fold_seq("diff"@)
                ==> (r matches Ok(DebugOutcome::UnknownCommand(u)) && u@ == input@),
    {
        if str_eq_ignore_ascii_case(input, "encoding") {
            let reports = self.run_encoding_test();
            Ok(DebugOutcome::Encoding(reports))
        } else if str_eq_ignore_ascii_case(input, "diff") {
            match self.run_diff_test() {
                Ok(rep) => Ok(DebugOutcome::DiffProbe(rep)),
                Err(e) => Err(e),
            }
        } else {
            Ok(DebugOutcome::UnknownCommand(input.to_owned()))
        }
    }
}

} // verus!
