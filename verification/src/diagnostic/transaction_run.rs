//! The course of a transaction: what is done next, given what happened.

use crate::diagnostic::fix::FixError;
use crate::diagnostic::transaction::{
    abort_stale_transaction, after_failed_backup, after_failed_replacement, after_failed_stage,
    after_foreign_change, all_undone, backup_range, commit_leaves_replacements, committed,
    failed_backup_leaves_no_trace, failed_replacement_leaves_no_trace,
    failed_stage_leaves_no_trace, foreign_change_survives, rollback_backup, rollback_error,
    rollback_replacement, rollback_staging, stale_error, undone, untouched, TargetState, Text, Undo,
};
use crate::table::{joined, views};
use vstd::prelude::*;

verus! {

/// What is to be done, for the file at a place.
#[derive(Debug, Clone, Copy, PartialEq, Eq, Structural)]
pub enum Action {
    /// Write the new text beside the file.
    Stage(usize),
    BackUp(usize),
    /// See whether the file still holds the text that was analysed.
    Compare(usize),
    /// Put the new text in the place of the file.
    Replace(usize),
    /// Undo something.
    Revert(Undo),
    /// Nothing: the transaction is over.
    Stop,
}

/// What came of an action.
#[derive(Debug)]
pub enum Event {
    Done,
    /// The file does not hold the text that was analysed.
    Changed,
    Failed(String),
}

/// What came of an action, as a mathematical value.
pub enum EventModel {
    Done,
    Changed,
    Failed(Seq<char>),
}

impl View for Event {
    type V = EventModel;

    open spec fn view(&self) -> EventModel {
        match *self {
            Event::Done => EventModel::Done,
            Event::Changed => EventModel::Changed,
            Event::Failed(e) => EventModel::Failed(e@),
        }
    }
}

/// How far a transaction is.
#[derive(Debug, Clone, Copy, PartialEq, Eq, Structural)]
pub enum Phase {
    Staging,
    BackingUp,
    Comparing,
    Replacing,
    Reverting,
    Over,
}

/// Why a transaction ends.
#[derive(Debug)]
pub enum Cause {
    /// All files are replaced, or it does not end yet.
    Success,
    StageFailed(String),
    BackUpFailed(usize, String),
    ReplaceFailed(usize, String),
    Stale(usize),
    Unreadable(usize, String),
}

/// Why a transaction ends, as a mathematical value.
pub enum CauseModel {
    Success,
    StageFailed(Seq<char>),
    BackUpFailed(int, Seq<char>),
    ReplaceFailed(int, Seq<char>),
    Stale(int),
    Unreadable(int, Seq<char>),
}

impl View for Cause {
    type V = CauseModel;

    open spec fn view(&self) -> CauseModel {
        match *self {
            Cause::Success => CauseModel::Success,
            Cause::StageFailed(e) => CauseModel::StageFailed(e@),
            Cause::BackUpFailed(i, e) => CauseModel::BackUpFailed(i as int, e@),
            Cause::ReplaceFailed(i, e) => CauseModel::ReplaceFailed(i as int, e@),
            Cause::Stale(i) => CauseModel::Stale(i as int),
            Cause::Unreadable(i, e) => CauseModel::Unreadable(i as int, e@),
        }
    }
}

/// A transaction on some files.
#[derive(Debug)]
pub struct Transaction {
    /// The files, as they are shown.
    pub names: Vec<String>,
    pub phase: Phase,
    /// The place that the phase has reached.
    pub index: usize,
    /// What is undone, and how much of it is.
    pub steps: Vec<Undo>,
    pub at: usize,
    /// What could not be undone.
    pub failures: Vec<String>,
    pub cause: Cause,
}

/// A transaction as a mathematical value.
pub struct Run {
    pub names: Seq<Seq<char>>,
    pub phase: Phase,
    pub index: int,
    pub steps: Seq<Undo>,
    pub at: int,
    pub failures: Seq<Seq<char>>,
    pub cause: CauseModel,
}

impl View for Transaction {
    type V = Run;

    open spec fn view(&self) -> Run {
        Run {
            names: views(self.names@),
            phase: self.phase,
            index: self.index as int,
            steps: self.steps@,
            at: self.at as int,
            failures: views(self.failures@),
            cause: self.cause@,
        }
    }
}

impl Run {
    /// The place lies among the files while there is something to do with it,
    /// and among the steps while something is undone.
    pub open spec fn wf(self) -> bool {
        &&& match self.phase {
            Phase::Staging | Phase::BackingUp | Phase::Comparing | Phase::Replacing => 0
                <= self.index < self.names.len(),
            Phase::Reverting => 0 <= self.at < self.steps.len(),
            Phase::Over => true,
        }
        &&& match self.cause {
            CauseModel::BackUpFailed(i, _) => 0 <= i < self.names.len(),
            CauseModel::ReplaceFailed(i, _) => 0 <= i < self.names.len(),
            CauseModel::Stale(i) => 0 <= i < self.names.len(),
            CauseModel::Unreadable(i, _) => 0 <= i < self.names.len(),
            _ => true,
        }
    }

    /// What is to be done.
    pub open spec fn action(self) -> Action {
        match self.phase {
            Phase::Staging => Action::Stage(self.index as usize),
            Phase::BackingUp => Action::BackUp(self.index as usize),
            Phase::Comparing => Action::Compare(self.index as usize),
            Phase::Replacing => Action::Replace(self.index as usize),
            Phase::Reverting => Action::Revert(self.steps[self.at]),
            Phase::Over => Action::Stop,
        }
    }

    /// The start of undoing.
    pub open spec fn reverting(self, cause: CauseModel, steps: Seq<Undo>) -> Run {
        Run { phase: Phase::Reverting, steps, at: 0, cause, ..self }
    }

    /// The place behind, or the start of another phase.
    pub open spec fn onwards(self, phase: Phase) -> Run {
        if self.index + 1 < self.names.len() {
            Run { index: self.index + 1, ..self }
        } else {
            Run { phase, index: 0, ..self }
        }
    }

    /// The transaction after what came of an action.
    pub open spec fn after(self, event: EventModel) -> Run {
        let count = self.names.len() as int;
        match self.phase {
            Phase::Staging => match event {
                EventModel::Failed(e) => self.reverting(
                    CauseModel::StageFailed(e),
                    after_failed_stage(self.index),
                ),
                _ => self.onwards(Phase::BackingUp),
            },
            Phase::BackingUp => match event {
                EventModel::Failed(e) => self.reverting(
                    CauseModel::BackUpFailed(self.index, e),
                    after_failed_backup(self.index, count),
                ),
                _ => self.onwards(Phase::Comparing),
            },
            Phase::Comparing => match event {
                EventModel::Failed(e) => self.reverting(
                    CauseModel::Unreadable(self.index, e),
                    after_failed_replacement(self.index, count),
                ),
                EventModel::Changed => self.reverting(
                    CauseModel::Stale(self.index),
                    after_foreign_change(self.index, count),
                ),
                EventModel::Done => Run { phase: Phase::Replacing, ..self },
            },
            Phase::Replacing => match event {
                EventModel::Failed(e) => self.reverting(
                    CauseModel::ReplaceFailed(self.index, e),
                    after_failed_replacement(self.index, count),
                ),
                _ => if self.index + 1 < count {
                    Run { phase: Phase::Comparing, index: self.index + 1, ..self }
                } else {
                    self.reverting(CauseModel::Success, backup_range(0, count))
                },
            },
            Phase::Reverting => {
                let told = match event {
                    EventModel::Failed(e) => if self.steps[self.at] is Restore {
                        self.failures.push(e)
                    } else {
                        self.failures
                    },
                    _ => self.failures,
                };
                if self.at + 1 < self.steps.len() {
                    Run { at: self.at + 1, failures: told, ..self }
                } else {
                    Run { phase: Phase::Over, failures: told, ..self }
                }
            },
            Phase::Over => self,
        }
    }

    /// What is told of what could not be undone.
    pub open spec fn unreverted(self) -> Seq<char> {
        "; rollback also failed: "@ + joined(self.failures, "; "@)
    }

    /// The message of a step that failed.
    pub open spec fn failure(self, operation: Seq<char>, i: int, error: Seq<char>) -> Seq<char> {
        if self.failures.len() == 0 {
            "I/O error while applying fixes: "@ + error
        } else {
            "fix transaction failed: "@ + "could not "@ + operation + " "@ + self.names[i] + ": "@ + error
                + self.unreverted()
        }
    }

    /// What the transaction comes to, once it is over.
    pub open spec fn result(self) -> Result<(), Seq<char>> {
        match self.cause {
            CauseModel::Success => Ok(()),
            CauseModel::StageFailed(e) => Err("I/O error while applying fixes: "@ + e),
            CauseModel::Unreadable(i, e) => Err(self.failure("read"@, i, e)),
            CauseModel::BackUpFailed(i, e) => Err(self.failure("back up"@, i, e)),
            CauseModel::ReplaceFailed(i, e) => Err(self.failure("replace"@, i, e)),
            CauseModel::Stale(i) => Err(
                "fix transaction failed: "@ + self.names[i]
                    + " changed during fix; refusing to overwrite it"@ + (if self.failures.len()
                    == 0 {
                    seq![]
                } else {
                    self.unreverted()
                }),
            ),
        }
    }
}

impl Transaction {
    /// The start of a transaction on some files. Without files it is over.
    pub fn new(names: Vec<String>) -> (r: Self)
        ensures
            r@.wf(),
            r@ == (Run {
                names: views(names@),
                phase: if names@.len() > 0 {
                    Phase::Staging
                } else {
                    Phase::Over
                },
                index: 0,
                steps: seq![],
                at: 0,
                failures: seq![],
                cause: CauseModel::Success,
            }),
    {
        let phase = if names.len() > 0 {
            Phase::Staging
        } else {
            Phase::Over
        };
        let r = Self {
            names,
            phase,
            index: 0,
            steps: Vec::new(),
            at: 0,
            failures: Vec::new(),
            cause: Cause::Success,
        };
        assert(r@.steps =~= seq![]);
        assert(r@.failures =~= seq![]);
        r
    }

    /// What is to be done.
    pub fn action(&self) -> (r: Action)
        requires
            self@.wf(),
        ensures
            r == self@.action(),
    {
        match self.phase {
            Phase::Staging => Action::Stage(self.index),
            Phase::BackingUp => Action::BackUp(self.index),
            Phase::Comparing => Action::Compare(self.index),
            Phase::Replacing => Action::Replace(self.index),
            Phase::Reverting => Action::Revert(self.steps[self.at]),
            Phase::Over => Action::Stop,
        }
    }

    fn revert(&mut self, cause: Cause, steps: Vec<Undo>)
        ensures
            final(self)@ == old(self)@.reverting(cause@, steps@),
    {
        self.phase = Phase::Reverting;
        self.steps = steps;
        self.at = 0;
        self.cause = cause;
    }

    fn go_on(&mut self, phase: Phase)
        requires
            old(self).index < old(self).names@.len(),
        ensures
            final(self)@ == old(self)@.onwards(phase),
    {
        if self.index < self.names.len() - 1 {
            self.index += 1;
        } else {
            self.phase = phase;
            self.index = 0;
        }
    }

    /// Takes note of what came of an action.
    pub fn advance(&mut self, event: Event)
        requires
            old(self)@.wf(),
        ensures
            final(self)@ == old(self)@.after(event@),
            final(self)@.wf(),
    {
        let count: usize = self.names.len();
        let index: usize = self.index;
        match self.phase {
            Phase::Staging => match event {
                Event::Failed(e) => {
                    self.revert(Cause::StageFailed(e), rollback_staging(index));
                },
                _ => {
                    self.go_on(Phase::BackingUp);
                },
            },
            Phase::BackingUp => match event {
                Event::Failed(e) => {
                    self.revert(Cause::BackUpFailed(index, e), rollback_backup(index, count));
                },
                _ => {
                    self.go_on(Phase::Comparing);
                },
            },
            Phase::Comparing => match event {
                Event::Failed(e) => {
                    self.revert(Cause::Unreadable(index, e), rollback_replacement(index, count));
                },
                Event::Changed => {
                    self.revert(Cause::Stale(index), abort_stale_transaction(index, count));
                },
                Event::Done => {
                    self.phase = Phase::Replacing;
                },
            },
            Phase::Replacing => match event {
                Event::Failed(e) => {
                    self.revert(Cause::ReplaceFailed(index, e), rollback_replacement(index, count));
                },
                _ => {
                    if index + 1 < count {
                        self.phase = Phase::Comparing;
                        self.index = index + 1;
                    } else {
                        self.revert(Cause::Success, committed(count));
                    }
                },
            },
            Phase::Reverting => {
                match event {
                    Event::Failed(e) => {
                        if matches!(self.steps[self.at], Undo::Restore(_)) {
                            let ghost before = views(self.failures@);
                            self.failures.push(e);
                            assert(views(self.failures@) =~= before.push(e@));
                        }
                    },
                    _ => {},
                }
                if self.at < self.steps.len() - 1 {
                    self.at += 1;
                } else {
                    self.phase = Phase::Over;
                }
            },
            Phase::Over => {},
        }
    }

    /// What the transaction comes to, once it is over.
    pub fn result(&self) -> (r: Option<Result<(), FixError>>)
        requires
            self@.wf(),
        ensures
            match r {
                None => self@.phase != Phase::Over,
                Some(Ok(_)) => self@.phase == Phase::Over && self@.result() is Ok,
                Some(Err(e)) => self@.phase == Phase::Over && self@.result() == Err::<
                    (),
                    Seq<char>,
                >(e.message()),
            },
    {
        if self.phase != Phase::Over {
            return None;
        }
        assert(views(self.failures@).len() == self.failures@.len());
        match &self.cause {
            Cause::Success => Some(Ok(())),
            Cause::StageFailed(e) => Some(Err(FixError::Io(e.clone()))),
            Cause::Unreadable(i, e) => Some(Err(self.failed(*i, e, "read"))),
            Cause::BackUpFailed(i, e) => Some(Err(self.failed(*i, e, "back up"))),
            Cause::ReplaceFailed(i, e) => Some(Err(self.failed(*i, e, "replace"))),
            Cause::Stale(i) => {
                let error = stale_error(&self.failures, self.names[*i].as_str());
                assert(error.message() =~= self@.result()->Err_0);
                Some(Err(error))
            },
        }
    }

    fn failed(&self, i: usize, e: &String, operation: &str) -> (r: FixError)
        requires
            i < self.names@.len(),
        ensures
            r.message() == self@.failure(operation@, i as int, e@),
    {
        let error = rollback_error(&self.failures, self.names[i].as_str(), e.clone(), operation);
        assert(views(self.failures@).len() == self.failures@.len());
        assert(error.message() =~= self@.failure(operation@, i as int, e@));
        error
    }
}

/// The files with the new text of one there, or not.
pub open spec fn with_staged(s: Seq<TargetState>, i: int, staged: bool) -> Seq<TargetState> {
    s.update(i, TargetState { staged, ..s[i] })
}

/// How an action and what came of it change the files. Writing a new text that
/// failed may have left a part of it.
pub open spec fn changes(
    before: Seq<TargetState>,
    action: Action,
    event: EventModel,
    after: Seq<TargetState>,
) -> bool {
    match action {
        Action::Stage(i) => match event {
            EventModel::Failed(_) => after == with_staged(before, i as int, true) || after
                == with_staged(before, i as int, false),
            _ => after == with_staged(before, i as int, true),
        },
        Action::BackUp(i) => match event {
            EventModel::Failed(_) => after == before,
            _ => after == before.update(
                i as int,
                TargetState { backup: true, ..before[i as int] },
            ),
        },
        Action::Compare(i) => match event {
            EventModel::Changed => after == before.update(
                i as int,
                TargetState { text: Text::Foreign, ..before[i as int] },
            ),
            _ => after == before,
        },
        Action::Replace(i) => match event {
            EventModel::Failed(_) => after == before,
            _ => after == before.update(
                i as int,
                TargetState { text: Text::Replacement, staged: false, ..before[i as int] },
            ),
        },
        Action::Revert(step) => event is Done && after == undone(before, step),
        Action::Stop => after == before,
    }
}

/// What the files are to be in the end.
pub open spec fn goal(cause: CauseModel, i: int) -> TargetState {
    match cause {
        CauseModel::Success => TargetState { text: Text::Replacement, ..untouched() },
        CauseModel::Stale(k) => if i == k {
            TargetState { text: Text::Foreign, ..untouched() }
        } else {
            untouched()
        },
        _ => untouched(),
    }
}

/// What holds of the files at every point of a transaction.
pub open spec fn in_step(run: Run, s: Seq<TargetState>) -> bool {
    &&& run.wf()
    &&& s.len() == run.names.len()
    &&& s.len() <= usize::MAX
    &&& match run.phase {
        Phase::Staging => forall|i: int|
            0 <= i < s.len() ==> #[trigger] s[i] == (TargetState {
                staged: i < run.index,
                ..untouched()
            }),
        Phase::BackingUp => forall|i: int|
            0 <= i < s.len() ==> #[trigger] s[i] == (TargetState {
                text: Text::Original,
                staged: true,
                backup: i < run.index,
            }),
        Phase::Comparing | Phase::Replacing => forall|i: int|
            0 <= i < s.len() ==> #[trigger] s[i] == (if i < run.index {
                TargetState { text: Text::Replacement, staged: false, backup: true }
            } else {
                TargetState { text: Text::Original, staged: true, backup: true }
            }),
        Phase::Reverting => {
            &&& forall|k: int|
                0 <= k < run.steps.len() ==> 0 <= place(#[trigger] run.steps[k]) < s.len()
            &&& all_undone(s, run.steps.skip(run.at)).len() == s.len()
            &&& forall|i: int|
                0 <= i < s.len() ==> #[trigger] all_undone(s, run.steps.skip(run.at))[i] == goal(
                    run.cause,
                    i,
                )
        },
        Phase::Over => forall|i: int|
            0 <= i < s.len() ==> #[trigger] s[i] == goal(run.cause, i),
    }
}

/// The place of the file that a step is for.
pub open spec fn place(step: Undo) -> int {
    match step {
        Undo::RemoveStaged(i) => i as int,
        Undo::RemoveBackup(i) => i as int,
        Undo::Restore(i) => i as int,
    }
}

/// Files that no transaction has touched are in step with its start.
pub proof fn starts_in_step(run: Run, s: Seq<TargetState>)
    requires
        run.wf(),
        run.phase == Phase::Staging,
        run.index == 0,
        s.len() == run.names.len() <= usize::MAX,
        forall|i: int| 0 <= i < s.len() ==> #[trigger] s[i] == untouched(),
    ensures
        in_step(run, s),
{
}

proof fn staging_in_step(
    run: Run,
    event: EventModel,
    before: Seq<TargetState>,
    after: Seq<TargetState>,
)
    requires
        run.phase == Phase::Staging,
        in_step(run, before),
        changes(before, run.action(), event, after),
    ensures
        in_step(run.after(event), after),
{
    let next = run.after(event);
    if event is Failed {
        failed_stage_leaves_no_trace(after, run.index);
        assert(next.steps.skip(0) =~= next.steps);
        assert(next.steps.len() > 0);
    }
}

proof fn backing_up_in_step(
    run: Run,
    event: EventModel,
    before: Seq<TargetState>,
    after: Seq<TargetState>,
)
    requires
        run.phase == Phase::BackingUp,
        in_step(run, before),
        changes(before, run.action(), event, after),
    ensures
        in_step(run.after(event), after),
{
    let next = run.after(event);
    if event is Failed {
        failed_backup_leaves_no_trace(after, run.index);
        assert(next.steps.skip(0) =~= next.steps);
        assert(next.steps.len() > 0);
    }
}

proof fn comparing_in_step(
    run: Run,
    event: EventModel,
    before: Seq<TargetState>,
    after: Seq<TargetState>,
)
    requires
        run.phase == Phase::Comparing,
        in_step(run, before),
        changes(before, run.action(), event, after),
    ensures
        in_step(run.after(event), after),
{
    let next = run.after(event);
    if event is Failed {
        failed_replacement_leaves_no_trace(after, run.index);
        assert(next.steps.skip(0) =~= next.steps);
        assert(next.steps.len() > 0);
    } else if event is Changed {
        foreign_change_survives(after, run.index);
        assert(next.steps.skip(0) =~= next.steps);
        assert(next.steps.len() > 0);
    }
}

proof fn replacing_in_step(
    run: Run,
    event: EventModel,
    before: Seq<TargetState>,
    after: Seq<TargetState>,
)
    requires
        run.phase == Phase::Replacing,
        in_step(run, before),
        changes(before, run.action(), event, after),
    ensures
        in_step(run.after(event), after),
{
    let next = run.after(event);
    if event is Failed {
        failed_replacement_leaves_no_trace(after, run.index);
        assert(next.steps.skip(0) =~= next.steps);
        assert(next.steps.len() > 0);
    } else if run.index + 1 == before.len() {
        commit_leaves_replacements(after);
        assert(next.steps.skip(0) =~= next.steps);
        assert(next.steps.len() > 0);
    }
}

proof fn reverting_in_step(
    run: Run,
    event: EventModel,
    before: Seq<TargetState>,
    after: Seq<TargetState>,
)
    requires
        run.phase == Phase::Reverting,
        in_step(run, before),
        changes(before, run.action(), event, after),
    ensures
        in_step(run.after(event), after),
{
    let next = run.after(event);
    let rest = run.steps.skip(run.at);
    assert(rest[0] == run.steps[run.at]);
    assert(rest.drop_first() =~= run.steps.skip(run.at + 1));
    assert(0 <= place(run.steps[run.at]) < before.len());
    assert(after.len() == before.len());
    assert(all_undone(before, rest) == all_undone(after, run.steps.skip(run.at + 1)));
    if run.at + 1 == run.steps.len() {
        assert(run.steps.skip(run.at + 1) =~= Seq::<Undo>::empty());
        assert(all_undone(before, rest) == after);
    }
}

/// Whatever comes of an action, the files stay in step with the transaction.
/// What is undone is taken to succeed.
pub proof fn stays_in_step(
    run: Run,
    event: EventModel,
    before: Seq<TargetState>,
    after: Seq<TargetState>,
)
    requires
        in_step(run, before),
        changes(before, run.action(), event, after),
    ensures
        in_step(run.after(event), after),
{
    match run.phase {
        Phase::Staging => staging_in_step(run, event, before, after),
        Phase::BackingUp => backing_up_in_step(run, event, before, after),
        Phase::Comparing => comparing_in_step(run, event, before, after),
        Phase::Replacing => replacing_in_step(run, event, before, after),
        Phase::Reverting => reverting_in_step(run, event, before, after),
        Phase::Over => {},
    }
}

/// A transaction that is over changed all files or none: where it succeeded
/// every file holds its new text, and where it failed every file holds the text
/// that it held before, or what somebody else wrote meanwhile. Nothing else is
/// left beside the files.
pub proof fn all_or_nothing(run: Run, s: Seq<TargetState>)
    requires
        in_step(run, s),
        run.phase == Phase::Over,
    ensures
        run.result() is Ok ==> forall|i: int|
            0 <= i < s.len() ==> #[trigger] s[i] == (TargetState {
                text: Text::Replacement,
                ..untouched()
            }),
        run.result() is Err ==> forall|i: int|
            0 <= i < s.len() ==> !((#[trigger] s[i]).text is Replacement) && !s[i].staged
                && !s[i].backup,
{
}

} // verus!
