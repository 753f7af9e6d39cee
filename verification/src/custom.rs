//! The indicators written as scripts, on one chart: which runs are wanted, and what is kept of
//! each run until the next one gives something newer.
//!
//! A script can take a while, and a live chart asks for a new run at every price, so runs go to
//! the background and the chart keeps drawing the last result. Runs are not stacked up: a change
//! that comes while one is going is remembered, and the newest data is used when it ends.
//!
//! What a run gave is kept per indicator of the chart (a slot), matched to the indicators by the
//! script they hold, so adding or removing one does not throw the others away. What is kept is
//! thrown away when the bars are no longer the ones it was made from (a new symbol, older history
//! put in front).

use vstd::prelude::*;

use std::time::Duration;

use crate::text::{chars_of, push_char, push_chars};

verus! {

/// How bad a problem a script has.
#[derive(Clone, Copy, Debug, PartialEq, Eq, Structural)]
pub enum Severity {
    Error,
    Warning,
}

/// Something a script, or a run of it, got wrong, and where.
#[derive(Debug)]
pub struct Problem {
    pub line: usize,
    pub column: usize,
    pub message: String,
    pub severity: Severity,
}

impl Problem {
    /// An error at a line and column.
    pub fn error(line: usize, column: usize, message: String) -> (p: Problem)
        ensures
            p.line == line,
            p.column == column,
            p.message@ == message@,
            p.severity == Severity::Error,
    {
        Problem { line, column, message, severity: Severity::Error }
    }

    /// The same problem again.
    pub fn copy(&self) -> (p: Problem)
        ensures
            p.line == self.line,
            p.column == self.column,
            p.message@ == self.message@,
            p.severity == self.severity,
    {
        Problem { line: self.line, column: self.column, message: self.message.clone(), severity: self.severity }
    }
}

/// Copies of every problem, in order.
fn copy_problems(problems: &[Problem]) -> (out: Vec<Problem>)
    ensures
        out@.len() == problems@.len(),
        forall|k: int| 0 <= k < problems@.len() ==> {
            &&& (#[trigger] out@[k]).line == problems@[k].line
            &&& out@[k].column == problems@[k].column
            &&& out@[k].message@ == problems@[k].message@
            &&& out@[k].severity == problems@[k].severity
        },
{
    let mut out: Vec<Problem> = Vec::new();
    let mut i: usize = 0;
    while i < problems.len()
        invariant
            i <= problems@.len(),
            out@.len() == i,
            forall|k: int| 0 <= k < i ==> {
                &&& (#[trigger] out@[k]).line == problems@[k].line
                &&& out@[k].column == problems@[k].column
                &&& out@[k].message@ == problems@[k].message@
                &&& out@[k].severity == problems@[k].severity
            },
        decreases problems@.len() - i,
    {
        out.push(problems[i].copy());
        i = i + 1;
    }
    out
}

/// Copies of every line of a log, in order.
fn copy_lines(lines: &[String]) -> (out: Vec<String>)
    ensures
        out@.len() == lines@.len(),
        forall|k: int| 0 <= k < lines@.len() ==> (#[trigger] out@[k])@ == lines@[k]@,
{
    let mut out: Vec<String> = Vec::new();
    let mut i: usize = 0;
    while i < lines.len()
        invariant
            i <= lines@.len(),
            out@.len() == i,
            forall|k: int| 0 <= k < i ==> (#[trigger] out@[k])@ == lines@[k]@,
        decreases lines@.len() - i,
    {
        out.push(lines[i].clone());
        i = i + 1;
    }
    out
}

/// What the legend and the editor's console can say about an indicator that is a script.
pub struct Status<'a> {
    pub running: bool,
    pub problems: &'a [Problem],
    pub log: &'a [String],
    pub elapsed: Option<Duration>,
}

impl<'a> Status<'a> {
    /// The first problem that is an error.
    pub fn first_error(&self) -> (r: Option<&'a Problem>)
        ensures
            r is None <==> forall|k: int| 0 <= k < self.problems@.len() ==> (#[trigger] self.problems@[k]).severity != Severity::Error,
            r matches Some(p) ==> exists|k: int| 0 <= k < self.problems@.len() && *p == self.problems@[k]
                && (#[trigger] self.problems@[k]).severity == Severity::Error
                && forall|j: int| 0 <= j < k ==> (#[trigger] self.problems@[j]).severity != Severity::Error,
    {
        let problems: &'a [Problem] = self.problems;
        let mut i: usize = 0;
        while i < problems.len()
            invariant
                problems@ == self.problems@,
                i <= problems@.len(),
                forall|j: int| 0 <= j < i ==> (#[trigger] problems@[j]).severity != Severity::Error,
            decreases problems@.len() - i,
        {
            if problems[i].severity == Severity::Error {
                return Some(&problems[i]);
            }
            i = i + 1;
        }
        None
    }
}

/// What a run of a script gave.
pub struct Computed<O> {
    pub output: O,
    pub log: Vec<String>,
    pub elapsed: Duration,
}

/// What is kept for one indicator of the chart: the script it is for, what the last run gave,
/// and the run going, if any. `O` is what a run draws, `F` what a run was made from (to tell
/// whether another is wanted), `R` a run in flight.
pub struct Slot<O, F, R> {
    /// Tells one slot from another when indicators are added, removed or moved, so a run that
    /// ends finds its own.
    pub serial: u64,
    /// The script this slot is for.
    pub script: String,
    pub output: Option<O>,
    pub problems: Vec<Problem>,
    pub log: Vec<String>,
    pub elapsed: Option<Duration>,
    pub computed: Option<F>,
    pub running: Option<R>,
    /// A change came while a run was going.
    pub dirty: bool,
}

impl<O, F, R> Slot<O, F, R> {
    /// Whether it is the empty slot `serial` for the script `script`.
    pub open spec fn is_fresh(&self, serial: u64, script: Seq<char>) -> bool {
        &&& self.serial == serial
        &&& self.script@ == script
        &&& self.output is None
        &&& self.problems@.len() == 0
        &&& self.log@.len() == 0
        &&& self.elapsed is None
        &&& self.computed is None
        &&& self.running is None
        &&& !self.dirty
    }

    /// An empty slot for a script.
    pub fn new(serial: u64, script: &str) -> (s: Slot<O, F, R>)
        ensures
            s.is_fresh(serial, script@),
    {
        let cs = chars_of(script);
        let mut name = String::new();
        push_chars(&mut name, &cs);
        proof {
            assert(Seq::<char>::empty() + script@ == script@);
        }
        Slot {
            serial,
            script: name,
            output: None,
            problems: Vec::new(),
            log: Vec::new(),
            elapsed: None,
            computed: None,
            running: None,
            dirty: false,
        }
    }
}

/// An indicator of the chart, as the runs see it: the script it holds, if any, and whether it is
/// one that is run as a script.
pub struct StudyRef {
    pub script: Option<String>,
    pub is_script: bool,
}

/// The script an indicator holds, or nothing.
pub open spec fn script_id(study: StudyRef) -> Seq<char> {
    match study.script {
        Some(s) => s@,
        None => Seq::empty(),
    }
}

/// The first place from `j` on that keeps a slot for `id`.
pub open spec fn first_for<O, F, R>(olds: Seq<Option<Slot<O, F, R>>>, id: Seq<char>, j: int) -> Option<int>
    decreases olds.len() - j,
{
    if j < 0 || j >= olds.len() {
        None
    } else if olds[j] matches Some(s) && s.script@ == id {
        Some(j)
    } else {
        first_for(olds, id, j + 1)
    }
}

/// The slot that the indicator at `index` takes over: the one at the same place when it is for
/// the same script, else the first one for it.
pub open spec fn found_for<O, F, R>(olds: Seq<Option<Slot<O, F, R>>>, index: int, id: Seq<char>) -> Option<int> {
    if 0 <= index < olds.len() && (olds[index] matches Some(s) && s.script@ == id) {
        Some(index)
    } else {
        first_for(olds, id, 0)
    }
}

/// The slots not yet taken over after the first `k` indicators took theirs.
pub open spec fn left_after<O, F, R>(olds: Seq<Option<Slot<O, F, R>>>, studies: Seq<StudyRef>, k: int) -> Seq<Option<Slot<O, F, R>>>
    decreases k,
{
    if k <= 0 {
        olds
    } else {
        let before = left_after(olds, studies, k - 1);
        match found_for(before, k - 1, script_id(studies[k - 1])) {
            Some(at) => before.update(at, None),
            None => before,
        }
    }
}

/// Whether the indicator at `k` gets a slot of its own: no slot is for its script, or it is not
/// run as a script.
pub open spec fn gets_new_slot<O, F, R>(olds: Seq<Option<Slot<O, F, R>>>, studies: Seq<StudyRef>, k: int) -> bool {
    found_for(left_after(olds, studies, k), k, script_id(studies[k])) is None || !studies[k].is_script
}

/// The serial numbers handed out to the first `k` indicators.
pub open spec fn new_slots_before<O, F, R>(olds: Seq<Option<Slot<O, F, R>>>, studies: Seq<StudyRef>, k: int) -> int
    decreases k,
{
    if k <= 0 {
        0
    } else {
        new_slots_before(olds, studies, k - 1) + if gets_new_slot(olds, studies, k - 1) { 1int } else { 0int }
    }
}

/// The slots of the indicators of a chart that are scripts, and what the runs need to know.
pub struct Custom<O, F, R> {
    pub slots: Vec<Slot<O, F, R>>,
    /// The time of the first bar the outputs were made from.
    pub first_time: Option<i64>,
    /// Grows whenever the data or the settings want a new run.
    pub wanted: u64,
    /// Whether runs must be looked at.
    pub pending: bool,
    /// The serial the last slot got.
    pub next_serial: u64,
}

/// What became of the slots: each one carries on, its output and what it was made from dropped
/// where `forget` holds.
pub open spec fn slot_kept<O, F, R>(before: Slot<O, F, R>, after: Slot<O, F, R>, forget: bool) -> bool {
    &&& after.serial == before.serial
    &&& after.script == before.script
    &&& after.problems == before.problems
    &&& after.log == before.log
    &&& after.elapsed == before.elapsed
    &&& after.running == before.running
    &&& after.dirty == before.dirty
    &&& if forget { after.output is None && after.computed is None } else { after.output == before.output && after.computed == before.computed }
}

impl<O, F, R> Custom<O, F, R> {
    /// No slots yet.
    pub fn new() -> (c: Custom<O, F, R>)
        ensures
            c.slots@.len() == 0,
            c.first_time is None,
            c.wanted == 0,
            !c.pending,
            c.next_serial == 0,
    {
        Custom { slots: Vec::new(), first_time: None, wanted: 0, pending: false, next_serial: 0 }
    }

    /// What the last run of the indicator at `index` said.
    pub fn status(&self, index: usize) -> (r: Option<Status<'_>>)
        ensures
            r is Some <==> index < self.slots@.len(),
            r matches Some(s) ==> {
                &&& s.running == self.slots@[index as int].running is Some
                &&& s.problems@ == self.slots@[index as int].problems@
                &&& s.log@ == self.slots@[index as int].log@
                &&& s.elapsed == self.slots@[index as int].elapsed
            },
    {
        if index < self.slots.len() {
            let slot = &self.slots[index];
            Some(Status {
                running: slot.running.is_some(),
                problems: slot.problems.as_slice(),
                log: slot.log.as_slice(),
                elapsed: slot.elapsed,
            })
        } else {
            None
        }
    }

    /// The bars or the settings changed: a new run is wanted. `first_time` is the time of the
    /// first bar now; when it is not the one the outputs were made from, they no longer line up
    /// with the bars and are forgotten.
    pub fn data_changed(&mut self, first_time: Option<i64>)
        requires
            old(self).wanted < u64::MAX,
        ensures
            final(self).first_time == first_time,
            final(self).wanted == old(self).wanted + 1,
            final(self).pending,
            final(self).next_serial == old(self).next_serial,
            final(self).slots@.len() == old(self).slots@.len(),
            forall|k: int| 0 <= k < old(self).slots@.len() ==> slot_kept(
                #[trigger] old(self).slots@[k],
                final(self).slots@[k],
                old(self).first_time != first_time,
            ),
    {
        let same = match (self.first_time, first_time) {
            (Some(a), Some(b)) => a == b,
            (None, None) => true,
            _ => false,
        };
        if !same {
            self.first_time = first_time;
            let ghost before = self.slots@;
            let mut k: usize = 0;
            while k < self.slots.len()
                invariant
                    self.wanted == old(self).wanted,
                    self.first_time == first_time,
                    self.next_serial == old(self).next_serial,
                    k <= self.slots@.len(),
                    self.slots@.len() == before.len(),
                    forall|j: int| 0 <= j < k ==> slot_kept(#[trigger] before[j], self.slots@[j], true),
                    forall|j: int| k <= j < before.len() ==> #[trigger] self.slots@[j] == before[j],
                decreases self.slots@.len() - k,
            {
                self.slots[k].output = None;
                self.slots[k].computed = None;
                k = k + 1;
            }
        }
        self.wanted = self.wanted + 1;
        self.pending = true;
    }

    /// The scripts changed: every indicator is looked at again.
    pub fn library_changed(&mut self)
        ensures
            final(self).pending,
            final(self).slots == old(self).slots,
            final(self).first_time == old(self).first_time,
            final(self).wanted == old(self).wanted,
            final(self).next_serial == old(self).next_serial,
    {
        self.pending = true;
    }
}

impl<O: Clone, F, R> Custom<O, F, R> {
    /// The outputs run so far, put where the chart draws them; nothing else is touched.
    pub fn apply(&self, studies: &mut Vec<Option<O>>)
        ensures
            final(studies)@.len() == old(studies)@.len(),
            forall|k: int| 0 <= k < old(studies)@.len() ==> {
                if k < self.slots@.len() && self.slots@[k].output is Some {
                    (#[trigger] final(studies)@[k]) is Some && cloned(self.slots@[k].output->Some_0, final(studies)@[k]->Some_0)
                } else {
                    final(studies)@[k] == old(studies)@[k]
                }
            },
    {
        let ghost before = studies@;
        let mut k: usize = 0;
        while k < self.slots.len() && k < studies.len()
            invariant
                k <= studies@.len(),
                studies@.len() == before.len(),
                forall|j: int| 0 <= j < k ==> {
                    if j < self.slots@.len() && self.slots@[j].output is Some {
                        (#[trigger] studies@[j]) is Some && cloned(self.slots@[j].output->Some_0, studies@[j]->Some_0)
                    } else {
                        studies@[j] == before[j]
                    }
                },
                forall|j: int| k <= j < before.len() ==> #[trigger] studies@[j] == before[j],
            decreases studies@.len() - k,
        {
            if self.slots[k].output.is_some() {
                studies.set(k, self.slots[k].output.clone());
            }
            k = k + 1;
        }
    }
}

/// Whether a kept slot is for the script `id`.
fn holds_script<O, F, R>(slot: &Option<Slot<O, F, R>>, id: &Vec<char>) -> (r: bool)
    ensures
        r == (*slot matches Some(s) && s.script@ == id@),
{
    match slot {
        Some(s) => {
            let cs = chars_of(s.script.as_str());
            crate::text::same_chars(&cs, id)
        },
        None => false,
    }
}

/// The first place from `j` on that keeps a slot for `id`.
fn position_for<O, F, R>(olds: &Vec<Option<Slot<O, F, R>>>, id: &Vec<char>) -> (r: Option<usize>)
    ensures
        r matches Some(at) ==> first_for(olds@, id@, 0) == Some(at as int),
        r is None ==> first_for(olds@, id@, 0) is None,
{
    let mut j: usize = olds.len();
    let mut found: Option<usize> = None;
    proof {
        assert(first_for(olds@, id@, j as int) is None);
    }
    while j > 0
        invariant
            j <= olds@.len(),
            found matches Some(at) ==> first_for(olds@, id@, j as int) == Some(at as int),
            found is None ==> first_for(olds@, id@, j as int) is None,
        decreases j,
    {
        j = j - 1;
        if holds_script(&olds[j], id) {
            found = Some(j);
        }
    }
    found
}

impl<O, F, R> Custom<O, F, R> {
    /// Makes the slots match the indicators of the chart, keeping what was run for the ones that
    /// are still there: each indicator takes the slot at its own place when it is for the same
    /// script, else the first one for its script; one that is no script, or whose script has no
    /// slot left, gets a new empty slot with the next serial.
    pub fn align(&mut self, studies: &[StudyRef])
        requires
            old(self).next_serial + studies@.len() <= u64::MAX,
        ensures
            final(self).slots@.len() == studies@.len(),
            forall|k: int| 0 <= k < studies@.len() ==> {
                let olds = old(self).slots@.map_values(|s: Slot<O, F, R>| Some(s));
                let left = left_after(olds, studies@, k);
                if gets_new_slot(olds, studies@, k) {
                    (#[trigger] final(self).slots@[k]).is_fresh(
                        (old(self).next_serial + new_slots_before(olds, studies@, k) + 1) as u64,
                        script_id(studies@[k]),
                    )
                } else {
                    final(self).slots@[k] == left[found_for(left, k, script_id(studies@[k]))->Some_0]->Some_0
                }
            },
            final(self).next_serial == old(self).next_serial + new_slots_before(
                old(self).slots@.map_values(|s: Slot<O, F, R>| Some(s)),
                studies@,
                studies@.len() as int,
            ),
            final(self).first_time == old(self).first_time,
            final(self).wanted == old(self).wanted,
            final(self).pending == old(self).pending,
    {
        let ghost olds0 = old(self).slots@.map_values(|s: Slot<O, F, R>| Some(s));
        let mut taken: Vec<Slot<O, F, R>> = Vec::new();
        std::mem::swap(&mut taken, &mut self.slots);
        let ghost all = taken@;
        let mut olds: Vec<Option<Slot<O, F, R>>> = Vec::new();
        while taken.len() > 0
            invariant
                olds@.len() + taken@.len() == all.len(),
                forall|j: int| 0 <= j < olds@.len() ==> #[trigger] olds@[j] == Some(all[j]),
                forall|j: int| 0 <= j < taken@.len() ==> #[trigger] taken@[j] == all[olds@.len() + j],
            decreases taken@.len(),
        {
            let s = taken.remove(0);
            olds.push(Some(s));
        }
        proof {
            assert(olds@ =~= olds0);
            assert(new_slots_before(olds0, studies@, 0) == 0);
        }
        let mut index: usize = 0;
        while index < studies.len()
            invariant
                index <= studies@.len(),
                olds@ == left_after(olds0, studies@, index as int),
                olds@.len() == olds0.len(),
                self.next_serial == old(self).next_serial + new_slots_before(olds0, studies@, index as int),
                new_slots_before(olds0, studies@, index as int) <= index,
                old(self).next_serial + studies@.len() <= u64::MAX,
                olds0 == old(self).slots@.map_values(|s: Slot<O, F, R>| Some(s)),
                self.slots@.len() == index,
                self.first_time == old(self).first_time,
                self.wanted == old(self).wanted,
                self.pending == old(self).pending,
                forall|k: int| 0 <= k < index ==> {
                    let left = left_after(olds0, studies@, k);
                    if gets_new_slot(olds0, studies@, k) {
                        (#[trigger] self.slots@[k]).is_fresh(
                            (old(self).next_serial + new_slots_before(olds0, studies@, k) + 1) as u64,
                            script_id(studies@[k]),
                        )
                    } else {
                        self.slots@[k] == left[found_for(left, k, script_id(studies@[k]))->Some_0]->Some_0
                    }
                },
            decreases studies@.len() - index,
        {
            let study = &studies[index];
            let id: &str = match &study.script {
                Some(s) => s.as_str(),
                None => "",
            };
            proof {
                reveal_strlit("");
                assert(id@ == script_id(studies@[index as int]));
            }
            let id_chars = chars_of(id);
            let same_place = index < olds.len() && holds_script(&olds[index], &id_chars);
            let found = if same_place {
                Some(index)
            } else {
                position_for(&olds, &id_chars)
            };
            let ghost left = olds@;
            proof {
                assert(found == (match found_for(left, index as int, id@) { Some(at) => Some(at as usize), None => None::<usize> }));
                if let Some(at) = found {
                    if !same_place {
                        lemma_first_for_finds(left, id@, 0);
                    }
                    assert(0 <= at < left.len());
                    assert(left[at as int] is Some);
                }
            }
            let slot = match found {
                Some(at) => {
                    let kept = olds[at].take();
                    proof {
                        assert(olds@ == left.update(at as int, None));
                    }
                    match kept {
                        Some(s) => {
                            if study.is_script {
                                s
                            } else {
                                self.next_serial = self.next_serial + 1;
                                Slot::new(self.next_serial, id)
                            }
                        },
                        None => {
                            self.next_serial = self.next_serial + 1;
                            Slot::new(self.next_serial, id)
                        },
                    }
                },
                None => {
                    self.next_serial = self.next_serial + 1;
                    Slot::new(self.next_serial, id)
                },
            };
            let ghost before_slots = self.slots@;
            self.slots.push(slot);
            proof {
                assert(forall|k: int| 0 <= k < index ==> self.slots@[k] == before_slots[k]);
                assert(olds@ == left_after(olds0, studies@, index + 1));
            }
            index = index + 1;
        }
    }
}

/// The place `first_for` gives keeps a slot for `id`.
proof fn lemma_first_for_finds<O, F, R>(olds: Seq<Option<Slot<O, F, R>>>, id: Seq<char>, j: int)
    requires
        first_for(olds, id, j) is Some,
    ensures
        ({
            let at = first_for(olds, id, j)->Some_0;
            &&& j <= at < olds.len()
            &&& olds[at] matches Some(s) && s.script@ == id
        }),
    decreases olds.len() - j,
{
    if j >= 0 && j < olds.len() && !(olds[j] matches Some(s) && s.script@ == id) {
        lemma_first_for_finds(olds, id, j + 1);
    }
}

/// A slot stays until an indicator for its script takes it.
proof fn lemma_slot_left<O, F, R>(olds: Seq<Option<Slot<O, F, R>>>, studies: Seq<StudyRef>, k: int, p: int)
    requires
        0 <= k <= studies.len(),
        0 <= p < olds.len(),
        olds[p] is Some,
        forall|j: int| 0 <= j < k ==> script_id(#[trigger] studies[j]) != olds[p]->Some_0.script@,
    ensures
        left_after(olds, studies, k).len() == olds.len(),
        left_after(olds, studies, k)[p] == olds[p],
    decreases k,
{
    if k > 0 {
        lemma_slot_left(olds, studies, k - 1, p);
        let before = left_after(olds, studies, k - 1);
        let id = script_id(studies[k - 1]);
        if let Some(at) = found_for(before, k - 1, id) {
            if !(0 <= k - 1 < before.len() && (before[k - 1] matches Some(s) && s.script@ == id)) {
                lemma_first_for_finds(before, id, 0);
            }
        }
    }
}

/// The place `first_for` gives is the only one that keeps a slot for `id`, when there is one.
proof fn lemma_first_for_only<O, F, R>(olds: Seq<Option<Slot<O, F, R>>>, id: Seq<char>, j: int, p: int)
    requires
        0 <= j <= p < olds.len(),
        olds[p] matches Some(s) && s.script@ == id,
        forall|q: int| 0 <= q < olds.len() && q != p ==> !(#[trigger] olds[q] matches Some(s) && s.script@ == id),
    ensures
        first_for(olds, id, j) == Some(p),
    decreases p - j,
{
    if j < p {
        lemma_first_for_only(olds, id, j + 1, p);
    }
}

/// A slot follows its indicator when others are added or taken away: where the slots were for
/// different scripts, an indicator that is a script takes the slot that was kept for its script,
/// unless an indicator before it holds the same script.
pub proof fn law_a_slot_follows_its_script<O, F, R>(olds: Seq<Option<Slot<O, F, R>>>, studies: Seq<StudyRef>, k: int, p: int)
    requires
        0 <= k < studies.len(),
        studies[k].is_script,
        0 <= p < olds.len(),
        olds[p] matches Some(s) && s.script@ == script_id(studies[k]),
        forall|a: int, b: int| 0 <= a < b < olds.len() && olds[a] is Some && olds[b] is Some
            ==> (#[trigger] olds[a])->Some_0.script@ != (#[trigger] olds[b])->Some_0.script@,
        forall|j: int| 0 <= j < k ==> script_id(#[trigger] studies[j]) != script_id(studies[k]),
    ensures
        !gets_new_slot(olds, studies, k),
        found_for(left_after(olds, studies, k), k, script_id(studies[k])) == Some(p),
        left_after(olds, studies, k)[p] == olds[p],
{
    let id = script_id(studies[k]);
    lemma_slot_left(olds, studies, k, p);
    let left = left_after(olds, studies, k);
    assert forall|q: int| 0 <= q < left.len() && q != p implies !(#[trigger] left[q] matches Some(s) && s.script@ == id) by {
        if left[q] matches Some(s) && s.script@ == id {
            lemma_left_was_kept(olds, studies, k, q);
            if q < p {
                assert(olds[q]->Some_0.script@ != olds[p]->Some_0.script@);
            } else {
                assert(olds[p]->Some_0.script@ != olds[q]->Some_0.script@);
            }
        }
    }
    if !(0 <= k < left.len() && (left[k] matches Some(s) && s.script@ == id)) {
        lemma_first_for_only(left, id, 0, p);
    }
}

/// What is left is what was kept, less what was taken.
proof fn lemma_left_was_kept<O, F, R>(olds: Seq<Option<Slot<O, F, R>>>, studies: Seq<StudyRef>, k: int, q: int)
    requires
        0 <= k <= studies.len(),
        0 <= q < left_after(olds, studies, k).len(),
        left_after(olds, studies, k)[q] is Some,
    ensures
        left_after(olds, studies, k).len() == olds.len(),
        left_after(olds, studies, k)[q] == olds[q],
    decreases k,
{
    lemma_left_len(olds, studies, k);
    if k > 0 {
        let before = left_after(olds, studies, k - 1);
        lemma_left_len(olds, studies, k - 1);
        let id = script_id(studies[k - 1]);
        if let Some(at) = found_for(before, k - 1, id) {
            if !(0 <= k - 1 < before.len() && (before[k - 1] matches Some(s) && s.script@ == id)) {
                lemma_first_for_finds(before, id, 0);
            }
            assert(before[q] is Some);
        }
        lemma_left_was_kept(olds, studies, k - 1, q);
    }
}

proof fn lemma_left_len<O, F, R>(olds: Seq<Option<Slot<O, F, R>>>, studies: Seq<StudyRef>, k: int)
    requires
        0 <= k <= studies.len(),
    ensures
        left_after(olds, studies, k).len() == olds.len(),
    decreases k,
{
    if k > 0 {
        lemma_left_len(olds, studies, k - 1);
        let before = left_after(olds, studies, k - 1);
        let id = script_id(studies[k - 1]);
        if let Some(at) = found_for(before, k - 1, id) {
            if !(0 <= k - 1 < before.len() && (before[k - 1] matches Some(s) && s.script@ == id)) {
                lemma_first_for_finds(before, id, 0);
            }
        }
    }
}

/// What the last run of a script said, for the editor.
#[derive(Debug)]
pub struct ScriptReport {
    pub running: bool,
    pub problems: Vec<Problem>,
    pub log: Vec<String>,
    pub elapsed: Option<Duration>,
    /// How many bars it was run over.
    pub bars: usize,
}

/// Where the script of an indicator stands in the library of scripts.
pub enum Source {
    /// No script of that name is in the library.
    Missing,
    /// The script is there but cannot be run, for these problems.
    Broken(Vec<Problem>),
    /// The script can be run.
    Ready,
}

/// The words of the error for an indicator whose script is not in the library.
pub open spec fn missing_message(id: Seq<char>) -> Seq<char> {
    "the indicator \""@ + id + "\" is not in the indicators folder"@
}

fn missing_problem(id: &str) -> (p: Problem)
    ensures
        p.line == 0 && p.column == 0,
        p.message@ == missing_message(id@),
        p.severity == Severity::Error,
{
    let mut message = String::new();
    let head = chars_of("the indicator \"");
    let name = chars_of(id);
    let tail = chars_of("\" is not in the indicators folder");
    push_chars(&mut message, &head);
    push_chars(&mut message, &name);
    push_chars(&mut message, &tail);
    proof {
        assert(Seq::<char>::empty() + "the indicator \""@ + id@ + "\" is not in the indicators folder"@ == missing_message(id@));
    }
    Problem::error(0, 0, message)
}

/// Whether the slots are the same but for the one at `index`.
pub open spec fn others_kept<O, F, R>(before: Seq<Slot<O, F, R>>, after: Seq<Slot<O, F, R>>, index: int) -> bool {
    &&& after.len() == before.len()
    &&& forall|k: int| 0 <= k < before.len() && k != index ==> #[trigger] after[k] == before[k]
}

impl<O, F, R> Custom<O, F, R> {
    /// Looks at the indicator at `index` when the runs are looked at: whether a run of its script
    /// is to start now. One that is no script, or hidden, is passed over; a script missing from
    /// the library, or one that cannot be run, gets its problems and loses its output; while a
    /// run is going, the change is remembered for when it ends; a run is not repeated for what
    /// it was already made from (`same_print`).
    pub fn schedule(&mut self, index: usize, is_script: bool, visible: bool, id: &str, source: Source, same_print: bool) -> (start: bool)
        requires
            index < old(self).slots@.len(),
        ensures
            others_kept(old(self).slots@, final(self).slots@, index as int),
            final(self).first_time == old(self).first_time,
            final(self).wanted == old(self).wanted,
            final(self).pending == old(self).pending,
            final(self).next_serial == old(self).next_serial,
            ({
                let before = old(self).slots@[index as int];
                let after = final(self).slots@[index as int];
                if !is_script || !visible {
                    !start && after == before
                } else {
                    match source {
                        Source::Missing => {
                            &&& !start
                            &&& after.output is None && after.computed is None
                            &&& after.problems@.len() == 1
                            &&& after.problems@[0].message@ == missing_message(id@)
                            &&& after.problems@[0].severity == Severity::Error
                            &&& after.problems@[0].line == 0 && after.problems@[0].column == 0
                            &&& after.serial == before.serial && after.script == before.script && after.running == before.running
                            &&& after.log == before.log && after.elapsed == before.elapsed && after.dirty == before.dirty
                        },
                        Source::Broken(problems) => {
                            &&& !start
                            &&& after.output is None && after.computed is None
                            &&& after.problems == problems
                            &&& after.serial == before.serial && after.script == before.script && after.running == before.running
                            &&& after.log == before.log && after.elapsed == before.elapsed && after.dirty == before.dirty
                        },
                        Source::Ready => if before.running is Some {
                            !start && after == (Slot { dirty: true, ..before })
                        } else {
                            start == !same_print && after == before
                        },
                    }
                }
            }),
    {
        if !is_script || !visible {
            return false;
        }
        match source {
            Source::Missing => {
                let problem = missing_problem(id);
                let mut problems: Vec<Problem> = Vec::new();
                problems.push(problem);
                self.slots[index].output = None;
                self.slots[index].computed = None;
                self.slots[index].problems = problems;
                false
            },
            Source::Broken(problems) => {
                self.slots[index].output = None;
                self.slots[index].computed = None;
                self.slots[index].problems = problems;
                false
            },
            Source::Ready => {
                if self.slots[index].running.is_some() {
                    self.slots[index].dirty = true;
                    false
                } else {
                    !same_print
                }
            },
        }
    }

    /// A run of the script at `index` started: it is the one in flight, and the old problems go.
    pub fn started(&mut self, index: usize, run: R)
        requires
            index < old(self).slots@.len(),
        ensures
            others_kept(old(self).slots@, final(self).slots@, index as int),
            final(self).slots@[index as int].running == Some(run),
            final(self).slots@[index as int].problems@.len() == 0,
            final(self).slots@[index as int] == (Slot {
                running: Some(run),
                problems: final(self).slots@[index as int].problems,
                ..old(self).slots@[index as int]
            }),
            final(self).first_time == old(self).first_time,
            final(self).wanted == old(self).wanted,
            final(self).pending == old(self).pending,
            final(self).next_serial == old(self).next_serial,
    {
        self.slots[index].running = Some(run);
        self.slots[index].problems = Vec::new();
    }

    /// A run ended, for the slot with this serial (if it is still there): it is no longer in
    /// flight; what it gave, or its problems, are kept with what it was made from; and a change
    /// that came while it went asks for the runs to be looked at again. The place of the slot is
    /// returned, for the chart to draw what it gave.
    pub fn finish(&mut self, serial: u64, print: F, result: Result<Computed<O>, Vec<Problem>>) -> (r: Option<usize>)
        ensures
            r is None <==> forall|k: int| 0 <= k < old(self).slots@.len() ==> (#[trigger] old(self).slots@[k]).serial != serial,
            r is None ==> *final(self) == *old(self),
            r matches Some(index) ==> {
                let before = old(self).slots@[index as int];
                let after = final(self).slots@[index as int];
                &&& index < old(self).slots@.len()
                &&& before.serial == serial
                &&& forall|k: int| 0 <= k < index ==> (#[trigger] old(self).slots@[k]).serial != serial
                &&& others_kept(old(self).slots@, final(self).slots@, index as int)
                &&& after.serial == before.serial && after.script == before.script
                &&& after.running is None
                &&& !after.dirty
                &&& after.computed == Some(print)
                &&& final(self).pending == (old(self).pending || before.dirty)
                &&& match result {
                    Ok(done) => {
                        &&& after.output == Some(done.output)
                        &&& after.problems@.len() == 0
                        &&& after.log == done.log
                        &&& after.elapsed == Some(done.elapsed)
                    },
                    Err(problems) => {
                        &&& after.output is None
                        &&& after.problems == problems
                        &&& after.log == before.log
                        &&& after.elapsed == before.elapsed
                    },
                }
            },
            final(self).first_time == old(self).first_time,
            final(self).wanted == old(self).wanted,
            final(self).next_serial == old(self).next_serial,
    {
        let mut j: usize = 0;
        let mut found: Option<usize> = None;
        while j < self.slots.len()
            invariant
                j <= self.slots@.len(),
                found matches Some(f) ==> f < j && self.slots@[f as int].serial == serial
                    && forall|k: int| 0 <= k < f ==> (#[trigger] self.slots@[k]).serial != serial,
                found is None ==> forall|k: int| 0 <= k < j ==> (#[trigger] self.slots@[k]).serial != serial,
            decreases self.slots@.len() - j,
        {
            if found.is_none() && self.slots[j].serial == serial {
                found = Some(j);
            }
            j = j + 1;
        }
        let i = match found {
            Some(f) => f,
            None => {
                return None;
            },
        };
        self.slots[i].running = None;
        match result {
            Ok(done) => {
                self.slots[i].output = Some(done.output);
                self.slots[i].problems = Vec::new();
                self.slots[i].log = done.log;
                self.slots[i].elapsed = Some(done.elapsed);
                self.slots[i].computed = Some(print);
            },
            Err(problems) => {
                self.slots[i].output = None;
                self.slots[i].problems = problems;
                self.slots[i].computed = Some(print);
            },
        }
        if self.slots[i].dirty {
            self.slots[i].dirty = false;
            self.pending = true;
        }
        Some(i)
    }

    /// What the last run of the indicator at `index` said, when it is a script.
    pub fn custom_status(&self, studies: &[StudyRef], index: usize) -> (r: Option<Status<'_>>)
        ensures
            r is Some <==> (index < studies@.len() && studies@[index as int].is_script && index < self.slots@.len()),
            r matches Some(s) ==> {
                &&& s.running == self.slots@[index as int].running is Some
                &&& s.problems@ == self.slots@[index as int].problems@
                &&& s.log@ == self.slots@[index as int].log@
                &&& s.elapsed == self.slots@[index as int].elapsed
            },
    {
        if index < studies.len() && studies[index].is_script {
            self.status(index)
        } else {
            None
        }
    }

    /// What the last run of the script `id` said on this chart, when an indicator of the chart
    /// holds it: the first such indicator's, over `bars` bars.
    pub fn script_report(&self, studies: &[StudyRef], id: &str, bars: usize) -> (r: Option<ScriptReport>)
        ensures
            r is Some <==> exists|k: int| 0 <= k < studies@.len() && #[trigger] holds_id(studies@[k], id@)
                && (forall|j: int| 0 <= j < k ==> !#[trigger] holds_id(studies@[j], id@))
                && k < self.slots@.len(),
            r matches Some(report) ==> exists|k: int| 0 <= k < studies@.len() && #[trigger] holds_id(studies@[k], id@)
                && (forall|j: int| 0 <= j < k ==> !#[trigger] holds_id(studies@[j], id@))
                && k < self.slots@.len()
                && report.running == self.slots@[k].running is Some
                && report.problems@.len() == self.slots@[k].problems@.len()
                && (forall|p: int| 0 <= p < report.problems@.len() ==> {
                    &&& (#[trigger] report.problems@[p]).message@ == self.slots@[k].problems@[p].message@
                    &&& report.problems@[p].line == self.slots@[k].problems@[p].line
                    &&& report.problems@[p].column == self.slots@[k].problems@[p].column
                    &&& report.problems@[p].severity == self.slots@[k].problems@[p].severity
                })
                && report.log@.len() == self.slots@[k].log@.len()
                && (forall|p: int| 0 <= p < report.log@.len() ==> (#[trigger] report.log@[p])@ == self.slots@[k].log@[p]@)
                && report.elapsed == self.slots@[k].elapsed
                && report.bars == bars,
    {
        let wanted = chars_of(id);
        let mut j: usize = 0;
        let mut found: Option<usize> = None;
        while j < studies.len()
            invariant
                wanted@ == id@,
                j <= studies@.len(),
                found matches Some(f) ==> f < j && holds_id(studies@[f as int], id@)
                    && forall|k: int| 0 <= k < f ==> !#[trigger] holds_id(studies@[k], id@),
                found is None ==> forall|k: int| 0 <= k < j ==> !#[trigger] holds_id(studies@[k], id@),
            decreases studies@.len() - j,
        {
            if found.is_none() {
                let here = match &studies[j].script {
                    Some(s) => {
                        let cs = chars_of(s.as_str());
                        crate::text::same_chars(&cs, &wanted)
                    },
                    None => false,
                };
                if here {
                    found = Some(j);
                }
            }
            j = j + 1;
        }
        let i = match found {
            Some(f) => f,
            None => {
                return None;
            },
        };
        assert(holds_id(studies@[i as int], id@));
        match self.status(i) {
            Some(status) => Some(ScriptReport {
                running: status.running,
                problems: copy_problems(status.problems),
                log: copy_lines(status.log),
                elapsed: status.elapsed,
                bars,
            }),
            None => None,
        }
    }
}

/// Whether an indicator holds the script `id`.
pub open spec fn holds_id(study: StudyRef, id: Seq<char>) -> bool {
    study.script matches Some(s) && s@ == id
}

} // verus!
