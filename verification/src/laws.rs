//! What holds of the operations, proved over the model.

use vstd::prelude::*;
use crate::error::LogError;
use crate::model::{
    any_open, applied, at_most_one_open, close_running, is_first_open, next_id,
    other_id, other_name, rewrite_entry, selected_by, EntryView, LogView,
};
use crate::time::{Period, Timestamp};

verus! {

/// A call of one of the two operations that open and close sessions.
pub enum LedgerCall {
    Start { project: Seq<char>, tag: Option<Seq<char>>, at: Timestamp },
    Stop { at: Timestamp },
}

impl LogView {
    /// The document after one call: the model's next document where the call
    /// succeeds, this one where it is refused.
    pub open spec fn after_call(self, call: LedgerCall) -> LogView {
        let step = match call {
            LedgerCall::Start { project, tag, at } => self.start_entry(project, tag, at),
            LedgerCall::Stop { at } => self.stop_entry(at),
        };
        match step {
            Ok(next) => next,
            Err(_) => self,
        }
    }

    /// The document after a sequence of calls, made in order.
    pub open spec fn after_calls(self, calls: Seq<LedgerCall>) -> LogView
        decreases calls.len(),
    {
        if calls.len() == 0 {
            self
        } else {
            self.after_calls(calls.drop_last()).after_call(calls.last())
        }
    }
}

/// Filtering one element further: the filter of the first `i + 1` elements
/// is the filter of the first `i`, followed by element `i` where it passes.
pub proof fn lemma_filter_take_step<A>(s: Seq<A>, pred: spec_fn(A) -> bool, i: int)
    requires
        0 <= i < s.len(),
    ensures
        pred(s[i]) ==> s.take(i + 1).filter(pred) == s.take(i).filter(pred).push(s[i]),
        !pred(s[i]) ==> s.take(i + 1).filter(pred) == s.take(i).filter(pred),
{
    reveal(Seq::filter);
    assert(s.take(i + 1).drop_last() =~= s.take(i));
}

/// One step of filtering in place. `current` is `all` with its first `seen`
/// elements already filtered: the survivors are the first `i` elements, the
/// rest of `all` follows untouched. The element at `i` is then the next of
/// `all`; where it passes, stepping over it takes the filter one element
/// further, and where it does not, removing it does.
pub proof fn lemma_filter_in_place_step<A>(
    all: Seq<A>,
    pred: spec_fn(A) -> bool,
    seen: int,
    current: Seq<A>,
    i: int,
)
    requires
        0 <= seen < all.len(),
        0 <= i < current.len(),
        current.take(i) == all.take(seen).filter(pred),
        current.skip(i) == all.skip(seen),
    ensures
        current[i] == all[seen],
        pred(all[seen]) ==> current.take(i + 1) == all.take(seen + 1).filter(pred),
        pred(all[seen]) ==> current.skip(i + 1) == all.skip(seen + 1),
        !pred(all[seen]) ==> current.remove(i).take(i) == all.take(seen + 1).filter(pred),
        !pred(all[seen]) ==> current.remove(i).skip(i) == all.skip(seen + 1),
{
    lemma_filter_take_step(all, pred, seen);
    assert(current[i] == current.skip(i)[0]);
    assert(all[seen] == all.skip(seen)[0]);
    assert(all.skip(seen + 1) =~= all.skip(seen).skip(1));
    if pred(all[seen]) {
        assert(current.take(i + 1) =~= current.take(i).push(current[i]));
        assert(current.skip(i + 1) =~= current.skip(i).skip(1));
    } else {
        assert(current.remove(i).take(i) =~= current.take(i));
        assert(current.remove(i).skip(i) =~= current.skip(i).skip(1));
    }
}

/// Filtering keeps order: any two elements of the filtered sequence stand,
/// in the same order, in the sequence that was filtered.
pub proof fn lemma_filter_keeps_order<A>(s: Seq<A>, pred: spec_fn(A) -> bool)
    ensures
        forall|i: int|
            0 <= i < s.filter(pred).len() ==> exists|a: int|
                0 <= a < s.len() && #[trigger] s[a] == #[trigger] s.filter(pred)[i],
        forall|i: int, j: int|
            0 <= i < j < s.filter(pred).len() ==> exists|a: int, b: int|
                0 <= a < b < s.len() && #[trigger] s[a] == #[trigger] s.filter(pred)[i]
                    && #[trigger] s[b] == #[trigger] s.filter(pred)[j],
    decreases s.len(),
{
    reveal(Seq::filter);
    if s.len() > 0 {
        let front = s.drop_last();
        let kept = front.filter(pred);
        lemma_filter_keeps_order(front, pred);
        assert forall|i: int| 0 <= i < s.filter(pred).len() implies exists|a: int|
            0 <= a < s.len() && #[trigger] s[a] == #[trigger] s.filter(pred)[i] by {
            if i < kept.len() {
                let a = choose|a: int| 0 <= a < front.len() && #[trigger] front[a] == kept[i];
                assert(s[a] == s.filter(pred)[i]);
            } else {
                assert(s[s.len() - 1] == s.filter(pred)[i]);
            }
        }
        assert forall|i: int, j: int| 0 <= i < j < s.filter(pred).len() implies exists|
            a: int,
            b: int,
        |
            0 <= a < b < s.len() && #[trigger] s[a] == #[trigger] s.filter(pred)[i]
                && #[trigger] s[b] == #[trigger] s.filter(pred)[j] by {
            if j < kept.len() {
                let (a, b) = choose|a: int, b: int|
                    0 <= a < b < front.len() && #[trigger] front[a] == kept[i]
                        && #[trigger] front[b] == kept[j];
                assert(s[a] == s.filter(pred)[i] && s[b] == s.filter(pred)[j]);
            } else {
                let a = choose|a: int| 0 <= a < front.len() && #[trigger] front[a] == kept[i];
                let b = s.len() - 1;
                assert(s[a] == s.filter(pred)[i] && s[b] == s.filter(pred)[j]);
            }
        }
    }
}

/// Ending the running session leaves none running, where at most one was.
pub proof fn lemma_close_running_closes_all(entries: Seq<EntryView>, at: Timestamp)
    requires
        at_most_one_open(entries),
    ensures
        !any_open(close_running(entries, at)),
{
    let closed = close_running(entries, at);
    assert forall|i: int| 0 <= i < closed.len() implies !(#[trigger] closed[i]).is_open() by {
        if entries[i].is_open() && !is_first_open(entries, i) {
            let j = choose|j: int| 0 <= j < i && (#[trigger] entries[j]).is_open();
            assert(entries[j].is_open() && entries[i].is_open());
        }
    }
}

/// Registering a project keeps the document's invariant.
pub proof fn lemma_create_project_keeps_invariant(log: LogView, name: Seq<char>)
    requires
        log.well_formed(),
    ensures
        log.create_project(name) matches Ok(after) ==> after.well_formed(),
{
    if !log.has_project(name) {
        let names = log.projects.push(name);
        assert forall|i: int, j: int| 0 <= i < names.len() && 0 <= j < names.len() && i
            != j implies names[i] != names[j] by {
            if i == log.projects.len() {
                assert(log.projects[j] == names[j]);
            } else if j == log.projects.len() {
                assert(log.projects[i] == names[i]);
            }
        }
    }
}

/// Removing a project keeps the document's invariant.
pub proof fn lemma_delete_project_keeps_invariant(log: LogView, name: Seq<char>)
    requires
        log.well_formed(),
    ensures
        log.delete_project(name) matches Ok(after) ==> after.well_formed(),
{
    let kept = log.projects.filter(other_name(name));
    lemma_filter_keeps_order(log.projects, other_name(name));
    assert forall|i: int, j: int| 0 <= i < kept.len() && 0 <= j < kept.len() && i
        != j implies kept[i] != kept[j] by {
        if i < j {
            let (a, b) = choose|a: int, b: int|
                0 <= a < b < log.projects.len() && #[trigger] log.projects[a] == kept[i]
                    && #[trigger] log.projects[b] == kept[j];
        } else {
            let (a, b) = choose|a: int, b: int|
                0 <= a < b < log.projects.len() && #[trigger] log.projects[a] == kept[j]
                    && #[trigger] log.projects[b] == kept[i];
        }
    }
}

/// Starting a session keeps at most one session running: afterwards the new
/// entry is the only one. The registry is not touched.
pub proof fn lemma_start_entry_keeps_single_open(
    log: LogView,
    project: Seq<char>,
    tag: Option<Seq<char>>,
    at: Timestamp,
)
    requires
        at_most_one_open(log.entries),
    ensures
        log.start_entry(project, tag, at) matches Ok(after) ==> at_most_one_open(after.entries)
            && after.projects == log.projects,
{
    lemma_close_running_closes_all(log.entries, at);
    let closed = close_running(log.entries, at);
    assert forall|i: int| 0 <= i < closed.len() implies !(#[trigger] closed[i]).is_open() by {}
    if log.start_entry(project, tag, at) is Ok {
        let after = log.start_entry(project, tag, at)->Ok_0;
        assert forall|i: int, j: int| 0 <= i < j < after.entries.len() implies !((
        #[trigger] after.entries[i]).is_open() && (#[trigger] after.entries[j]).is_open()) by {
            assert(after.entries[i] == closed[i]);
        }
    }
}

/// Stopping keeps at most one session running: afterwards none is. The
/// registry is not touched.
pub proof fn lemma_stop_entry_keeps_single_open(log: LogView, now: Timestamp)
    requires
        at_most_one_open(log.entries),
    ensures
        log.stop_entry(now) matches Ok(after) ==> at_most_one_open(after.entries)
            && after.projects == log.projects,
{
    lemma_close_running_closes_all(log.entries, now);
    let closed = close_running(log.entries, now);
    assert forall|i: int| 0 <= i < closed.len() implies !(#[trigger] closed[i]).is_open() by {}
}

/// Rewriting an entry's times keeps the document's invariant: the rewritten
/// entry has an end.
pub proof fn lemma_update_entry_keeps_invariant(
    log: LogView,
    id: int,
    start: Timestamp,
    end: Timestamp,
)
    requires
        log.well_formed(),
    ensures
        log.update_entry(id, start, end) matches Ok(after) ==> after.well_formed(),
{
    let rewritten = rewrite_entry(log.entries, id, start, end);
    assert forall|i: int, j: int| 0 <= i < j < rewritten.len() implies !((
    #[trigger] rewritten[i]).is_open() && (#[trigger] rewritten[j]).is_open()) by {
        if rewritten[i].is_open() && rewritten[j].is_open() {
            assert(log.entries[i].is_open() && log.entries[j].is_open());
        }
    }
}

/// Deleting an entry keeps the document's invariant.
pub proof fn lemma_delete_entry_keeps_invariant(log: LogView, id: int)
    requires
        log.well_formed(),
    ensures
        log.delete_entry(id) matches Ok(after) ==> after.well_formed(),
{
    let kept = log.entries.filter(other_id(id));
    lemma_filter_keeps_order(log.entries, other_id(id));
    assert forall|i: int, j: int| 0 <= i < j < kept.len() implies !((#[trigger] kept[i]).is_open()
        && (#[trigger] kept[j]).is_open()) by {
        let (a, b) = choose|a: int, b: int|
            0 <= a < b < log.entries.len() && #[trigger] log.entries[a] == kept[i]
                && #[trigger] log.entries[b] == kept[j];
        assert(!(log.entries[a].is_open() && log.entries[b].is_open()));
    }
}

/// Whatever calls start and stop sessions, and in whatever order, at most
/// one session is running after them, from any document in which at most
/// one was running. Every point between two calls is the end of a shorter
/// sequence, so this holds at each of them.
pub proof fn lemma_single_open_after_calls(log: LogView, calls: Seq<LedgerCall>)
    requires
        at_most_one_open(log.entries),
    ensures
        at_most_one_open(log.after_calls(calls).entries),
    decreases calls.len(),
{
    if calls.len() > 0 {
        lemma_single_open_after_calls(log, calls.drop_last());
        let reached = log.after_calls(calls.drop_last());
        match calls.last() {
            LedgerCall::Start { project, tag, at } => {
                lemma_start_entry_keeps_single_open(reached, project, tag, at);
            },
            LedgerCall::Stop { at } => {
                lemma_stop_entry_keeps_single_open(reached, at);
            },
        }
    }
}

/// From the empty document, whatever calls start and stop sessions, at most
/// one session is running after them.
pub proof fn lemma_single_open_from_empty(calls: Seq<LedgerCall>)
    ensures
        at_most_one_open(LogView::empty().after_calls(calls).entries),
{
    lemma_single_open_after_calls(LogView::empty(), calls);
}

/// Starting a session for a registered project while another project's
/// session is running ends that session at the new session's start and
/// opens the new one; nothing else changes.
pub proof fn lemma_start_switches_project(
    before: LogView,
    project: Seq<char>,
    tag: Option<Seq<char>>,
    at: Timestamp,
    running: int,
    outcome: Result<(), LogError>,
    after: LogView,
)
    requires
        at_most_one_open(before.entries),
        before.has_project(project),
        0 <= running < before.entries.len(),
        before.entries[running].is_open(),
        before.entries[running].project != project,
        applied(before, before.start_entry(project, tag, at), outcome, after),
    ensures
        outcome is Ok,
        after.projects == before.projects,
        after.entries.len() == before.entries.len() + 1,
        after.entries[running] == before.entries[running].closed_at(at),
        forall|i: int|
            0 <= i < before.entries.len() && i != running ==> #[trigger] after.entries[i]
                == before.entries[i],
        after.entries.last() == (EntryView {
            id: next_id(before.entries),
            project,
            tag,
            start: at,
            end: None,
        }),
{
    assert forall|i: int| 0 <= i < before.entries.len() && i != running implies !(
    #[trigger] before.entries[i]).is_open() by {
        if i < running {
            assert(!(before.entries[i].is_open() && before.entries[running].is_open()));
        } else {
            assert(!(before.entries[running].is_open() && before.entries[i].is_open()));
        }
    }
    assert(!before.project_started(project));
    assert(is_first_open(before.entries, running));
}

/// Starting a session for a registered project that is already running is
/// refused with `AlreadyRunning`, and the document stays as it was.
pub proof fn lemma_start_running_project_refused(
    before: LogView,
    project: Seq<char>,
    tag: Option<Seq<char>>,
    at: Timestamp,
    outcome: Result<(), LogError>,
    after: LogView,
)
    requires
        before.has_project(project),
        before.project_started(project),
        applied(before, before.start_entry(project, tag, at), outcome, after),
    ensures
        outcome == Err::<(), LogError>(LogError::AlreadyRunning),
        after == before,
{
}

/// Stopping while nothing is running is refused with `NoEntryRunning`, and
/// the document stays as it was.
pub proof fn lemma_stop_without_running_refused(
    before: LogView,
    now: Timestamp,
    outcome: Result<(), LogError>,
    after: LogView,
)
    requires
        !any_open(before.entries),
        applied(before, before.stop_entry(now), outcome, after),
    ensures
        outcome == Err::<(), LogError>(LogError::NoEntryRunning),
        after == before,
{
}

/// Removing a project that is not registered is refused with `NotFound`,
/// and the document stays as it was.
pub proof fn lemma_delete_unknown_project_refused(
    before: LogView,
    name: Seq<char>,
    outcome: Result<(), LogError>,
    after: LogView,
)
    requires
        !before.has_project(name),
        applied(before, before.delete_project(name), outcome, after),
    ensures
        outcome == Err::<(), LogError>(LogError::NotFound),
        after == before,
{
}

/// Deleting an entry whose id no entry carries is refused with
/// `EntryNotFound`, and the document stays as it was.
pub proof fn lemma_delete_unknown_entry_refused(
    before: LogView,
    id: int,
    outcome: Result<(), LogError>,
    after: LogView,
)
    requires
        !before.has_entry(id),
        applied(before, before.delete_entry(id), outcome, after),
    ensures
        outcome == Err::<(), LogError>(LogError::EntryNotFound),
        after == before,
{
}

/// A query over all time with no tag selects exactly the entries of the
/// project, in storage order, whatever their tags and whatever "now" is.
pub proof fn lemma_fetch_all_selects_project(log: LogView, project: Seq<char>, now: Timestamp)
    ensures
        log.fetch_entries(Period::All, project, None, now) == log.entries.filter(
            |e: EntryView| e.project == project,
        ),
{
    let by_query = selected_by(Period::All, project, None, now);
    let by_project = |e: EntryView| e.project == project;
    assert forall|e: EntryView| #[trigger] by_query(e) == by_project(e) by {}
    lemma_filter_agrees(log.entries, by_query, by_project);
}

/// Every entry's id is its position in the ledger.
pub open spec fn ids_are_positions(entries: Seq<EntryView>) -> bool {
    forall|i: int| 0 <= i < entries.len() ==> (#[trigger] entries[i]).id == i
}

/// No two entries carry the same id.
pub open spec fn ids_are_distinct(entries: Seq<EntryView>) -> bool {
    forall|i: int, j: int|
        0 <= i < j < entries.len() ==> (#[trigger] entries[i]).id != (#[trigger] entries[j]).id
}

/// While every id is its entry's position, which holds as long as no entry
/// was deleted, a new session gets an id that no entry carries yet. This
/// holds up to the largest id there is; deleting an entry breaks it, as the
/// next id is the entry count.
pub proof fn lemma_start_entry_keeps_ids_distinct(
    log: LogView,
    project: Seq<char>,
    tag: Option<Seq<char>>,
    at: Timestamp,
)
    requires
        ids_are_positions(log.entries),
        log.entries.len() <= i32::MAX,
    ensures
        ids_are_distinct(log.entries),
        log.start_entry(project, tag, at) matches Ok(after) ==> ids_are_positions(after.entries)
            && ids_are_distinct(after.entries),
{
    if log.start_entry(project, tag, at) is Ok {
        let after = log.start_entry(project, tag, at)->Ok_0;
        let closed = close_running(log.entries, at);
        assert forall|i: int| 0 <= i < after.entries.len() implies (#[trigger] after.entries[i]).id
            == i by {
            if i < closed.len() {
                assert(after.entries[i] == closed[i]);
                assert(closed[i].id == log.entries[i].id);
            }
        }
    }
}

/// Two predicates that agree everywhere filter alike.
pub proof fn lemma_filter_agrees<A>(s: Seq<A>, p: spec_fn(A) -> bool, q: spec_fn(A) -> bool)
    requires
        forall|x: A| #[trigger] p(x) == q(x),
    ensures
        s.filter(p) == s.filter(q),
    decreases s.len(),
{
    reveal(Seq::filter);
    if s.len() > 0 {
        lemma_filter_agrees(s.drop_last(), p, q);
    }
}

} // verus!
