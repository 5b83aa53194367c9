//! The processor pipeline as a machine. It decides; its driver looks at
//! files and runs programs. The driver hands each outcome back as an event
//! and is told what to do next.
//!
//! The processors are taken in the list's order, one at a time. One that
//! does not run on the side is passed over. The first fault ends the run:
//! from then on the machine tells its driver to give up, with that fault.

use crate::error::{texts_result, Fault, InstallError};
use crate::processors::{
    command_for, run_processor, store, stored, Inspection, InspectionView, Processor,
    ProcessorView, RunContext, RunContextView,
};
use crate::seqs::views;
use crate::table::TokenMap;
use vstd::prelude::*;

verus! {

/// Where a run stands.
#[derive(Debug, PartialEq, Eq)]
pub enum Stage {
    /// About to turn to the processor at this index.
    Ready(usize),
    /// Waiting to hear what files the processor at this index has.
    Inspecting(usize),
    /// Waiting to hear how the processor at this index ended.
    Invoking(usize),
    /// Every processor is done with.
    Finished,
    /// The run has failed.
    Failed(InstallError),
}

/// What a `Stage` stands for.
pub enum StageView {
    Ready(int),
    Inspecting(int),
    Invoking(int),
    Finished,
    Failed(Fault),
}

impl View for Stage {
    type V = StageView;

    open spec fn view(&self) -> StageView {
        match self {
            Stage::Ready(i) => StageView::Ready(*i as int),
            Stage::Inspecting(i) => StageView::Inspecting(*i as int),
            Stage::Invoking(i) => StageView::Invoking(*i as int),
            Stage::Finished => StageView::Finished,
            Stage::Failed(e) => StageView::Failed(e@),
        }
    }
}

/// What the driver reports.
#[derive(Debug)]
pub enum Event {
    /// Nothing to report: the run begins, or goes on behind a processor
    /// that was passed over.
    Resume,
    /// The files of the processor were looked at.
    Inspected(Inspection),
    /// The processor ended; `true` where it reported success.
    Exited(bool),
}

/// What an `Event` stands for.
pub enum EventView {
    Resume,
    Inspected(InspectionView),
    Exited(bool),
}

impl View for Event {
    type V = EventView;

    open spec fn view(&self) -> EventView {
        match self {
            Event::Resume => EventView::Resume,
            Event::Inspected(i) => EventView::Inspected(i@),
            Event::Exited(ok) => EventView::Exited(*ok),
        }
    }
}

/// What the driver is to do next.
#[derive(Debug, PartialEq, Eq)]
pub enum Action {
    /// Note that the processor at this index does not run on this side,
    /// and report `Resume`.
    Skip(usize),
    /// Look whether the files `jar` and `classpath` are there, read `jar`,
    /// and report `Inspected`.
    Inspect { index: usize, jar: String, classpath: Vec<String> },
    /// Run `command` in the working directory, wait for it, and report
    /// `Exited`.
    Invoke { index: usize, command: Vec<String> },
    /// End the run: all is done.
    Finish,
    /// End the run with this error.
    Abort(InstallError),
}

/// What an `Action` stands for.
pub enum ActionView {
    Skip(int),
    Inspect { index: int, jar: Seq<char>, classpath: Seq<Seq<char>> },
    Invoke { index: int, command: Seq<Seq<char>> },
    Finish,
    Abort(Fault),
}

impl View for Action {
    type V = ActionView;

    open spec fn view(&self) -> ActionView {
        match self {
            Action::Skip(i) => ActionView::Skip(*i as int),
            Action::Inspect { index, jar, classpath } => ActionView::Inspect {
                index: *index as int,
                jar: jar@,
                classpath: views(classpath@),
            },
            Action::Invoke { index, command } => ActionView::Invoke {
                index: *index as int,
                command: views(command@),
            },
            Action::Finish => ActionView::Finish,
            Action::Abort(e) => ActionView::Abort(e@),
        }
    }
}

/// What the processors `v` stand for, in their order.
pub open spec fn processor_views(v: Seq<Processor>) -> Seq<ProcessorView> {
    Seq::new(v.len(), |i: int| v[i]@)
}

/// The files of the coordinates `entries` in the library directory, in
/// their order; the fault of the first that is no coordinate.
pub open spec fn stored_all(entries: Seq<Seq<char>>, lib: Seq<char>) -> Result<
    Seq<Seq<char>>,
    Fault,
>
    decreases entries.len(),
{
    if entries.len() == 0 {
        Ok(Seq::empty())
    } else {
        match stored_all(entries.drop_last(), lib) {
            Ok(done) => match stored(entries.last(), lib) {
                Ok(p) => Ok(done.push(p)),
                Err(e) => Err(e),
            },
            Err(e) => Err(e),
        }
    }
}

/// What the machine does when it turns to the processor at index `i`: it
/// finishes behind the last one, passes over one that does not run on the
/// side, and has the files of any other looked at.
pub open spec fn advance_of(
    processors: Seq<ProcessorView>,
    context: RunContextView,
    i: int,
) -> (StageView, ActionView) {
    if i < 0 || i >= processors.len() {
        (StageView::Finished, ActionView::Finish)
    } else if !processors[i].applies_to(context.side) {
        (StageView::Ready(i + 1), ActionView::Skip(i))
    } else {
        match stored(processors[i].jar, context.library_dir) {
            Err(e) => (StageView::Failed(e), ActionView::Abort(e)),
            Ok(jar) => match stored_all(processors[i].classpath, context.library_dir) {
                Err(e) => (StageView::Failed(e), ActionView::Abort(e)),
                Ok(classpath) => (
                    StageView::Inspecting(i),
                    ActionView::Inspect { index: i, jar, classpath },
                ),
            },
        }
    }
}

/// The machine's step: from where the run stands and what the driver
/// reports, where the run stands next and what the driver is to do.
///
/// A run that waits for a report goes on only on that report: while it
/// waits for an inspection, any other event counts as a missing archive,
/// and while it waits for a processor to end, any event but a reported
/// success counts as that processor's failure.
pub open spec fn step_of(
    processors: Seq<ProcessorView>,
    vars: Map<Seq<char>, Seq<char>>,
    context: RunContextView,
    stage: StageView,
    event: EventView,
) -> (StageView, ActionView) {
    match stage {
        StageView::Ready(i) => advance_of(processors, context, i),
        StageView::Inspecting(i) => if i < 0 || i >= processors.len() {
            (StageView::Finished, ActionView::Finish)
        } else {
            match event {
                EventView::Inspected(inspection) => match command_for(
                    processors[i],
                    vars,
                    context,
                    inspection,
                ) {
                    Ok(command) => (
                        StageView::Invoking(i),
                        ActionView::Invoke { index: i, command },
                    ),
                    Err(e) => (StageView::Failed(e), ActionView::Abort(e)),
                },
                _ => (
                    StageView::Failed(Fault::ProcessorJarMissing(processors[i].jar)),
                    ActionView::Abort(Fault::ProcessorJarMissing(processors[i].jar)),
                ),
            }
        },
        StageView::Invoking(i) => if i < 0 || i >= processors.len() {
            (StageView::Finished, ActionView::Finish)
        } else {
            match event {
                EventView::Exited(true) => advance_of(processors, context, i + 1),
                _ => (
                    StageView::Failed(Fault::ProcessorFailed(processors[i].jar)),
                    ActionView::Abort(Fault::ProcessorFailed(processors[i].jar)),
                ),
            }
        },
        StageView::Finished => (StageView::Finished, ActionView::Finish),
        StageView::Failed(e) => (StageView::Failed(e), ActionView::Abort(e)),
    }
}

/// A fault among the first coordinates is the fault of them all.
proof fn lemma_stored_fault(entries: Seq<Seq<char>>, i: int, lib: Seq<char>)
    requires
        0 <= i < entries.len(),
        stored_all(entries.take(i + 1), lib) is Err,
    ensures
        stored_all(entries, lib) == stored_all(entries.take(i + 1), lib),
    decreases entries.len(),
{
    if i + 1 < entries.len() {
        assert(entries.drop_last().take(i + 1) =~= entries.take(i + 1));
        lemma_stored_fault(entries.drop_last(), i, lib);
    } else {
        assert(entries.take(i + 1) =~= entries);
    }
}

/// The files of the coordinates `entries` in the library directory.
pub fn store_all(entries: &Vec<String>, lib_path: &str) -> (r: Result<Vec<String>, InstallError>)
    ensures
        texts_result(r) == stored_all(views(entries@), lib_path@),
{
    let mut out: Vec<String> = Vec::new();
    let mut i: usize = 0;
    let ghost all = views(entries@);
    assert(all.take(0) =~= Seq::<Seq<char>>::empty());
    assert(views(out@) =~= Seq::<Seq<char>>::empty());
    while i < entries.len()
        invariant
            i <= entries.len(),
            all == views(entries@),
            stored_all(all.take(i as int), lib_path@) == Ok::<Seq<Seq<char>>, Fault>(views(out@)),
        decreases entries.len() - i,
    {
        let ghost done = views(out@);
        assert(all.take(i + 1).drop_last() =~= all.take(i as int));
        assert(all.take(i + 1).last() == entries@[i as int]@);
        match store(entries[i].as_str(), lib_path) {
            Ok(p) => {
                out.push(p);
                assert(views(out@) =~= done.push(p@));
            },
            Err(e) => {
                proof {
                    lemma_stored_fault(all, i as int, lib_path@);
                }
                return Err(e);
            },
        }
        i = i + 1;
    }
    assert(all.take(entries@.len() as int) =~= all);
    Ok(out)
}

/// Turns to the processor at index `i`.
pub fn advance(processors: &Vec<Processor>, context: &RunContext, i: usize) -> (r: (Stage, Action))
    ensures
        (r.0@, r.1@) == advance_of(processor_views(processors@), context@, i as int),
{
    if i >= processors.len() {
        return (Stage::Finished, Action::Finish);
    }
    let processor = &processors[i];
    if !processor.applies_to(context.side) {
        return (Stage::Ready(i + 1), Action::Skip(i));
    }
    let lib = context.library_dir.as_str();
    let jar = match store(processor.jar.as_str(), lib) {
        Ok(jar) => jar,
        Err(e) => {
            let same = e.clone();
            return (Stage::Failed(e), Action::Abort(same));
        },
    };
    match store_all(&processor.classpath, lib) {
        Ok(classpath) => (Stage::Inspecting(i), Action::Inspect { index: i, jar, classpath }),
        Err(e) => {
            let same = e.clone();
            (Stage::Failed(e), Action::Abort(same))
        },
    }
}

/// The machine's step.
pub fn step(
    processors: &Vec<Processor>,
    vars: &TokenMap<String>,
    context: &RunContext,
    stage: Stage,
    event: Event,
) -> (r: (Stage, Action))
    ensures
        (r.0@, r.1@) == step_of(
            processor_views(processors@),
            vars.texts(),
            context@,
            stage@,
            event@,
        ),
{
    match stage {
        Stage::Ready(i) => advance(processors, context, i),
        Stage::Inspecting(i) => {
            if i >= processors.len() {
                return (Stage::Finished, Action::Finish);
            }
            let outcome = match event {
                Event::Inspected(inspection) => run_processor(
                    &processors[i],
                    vars,
                    context,
                    inspection,
                ),
                _ => Err(InstallError::ProcessorJarMissing(processors[i].jar.clone())),
            };
            match outcome {
                Ok(command) => (Stage::Invoking(i), Action::Invoke { index: i, command }),
                Err(e) => {
                    let same = e.clone();
                    (Stage::Failed(e), Action::Abort(same))
                },
            }
        },
        Stage::Invoking(i) => {
            if i >= processors.len() {
                return (Stage::Finished, Action::Finish);
            }
            match event {
                Event::Exited(true) => advance(processors, context, i + 1),
                _ => {
                    let e = InstallError::ProcessorFailed(processors[i].jar.clone());
                    let same = e.clone();
                    (Stage::Failed(e), Action::Abort(same))
                },
            }
        },
        Stage::Finished => (Stage::Finished, Action::Finish),
        Stage::Failed(e) => {
            let same = e.clone();
            (Stage::Failed(e), Action::Abort(same))
        },
    }
}

impl Stage {
    /// Where every run begins: about to turn to the first processor.
    pub fn start() -> (r: Stage)
        ensures
            r@ == StageView::Ready(0),
    {
        Stage::Ready(0)
    }
}

/// What the driver is told, step by step, while it reports `events` from
/// `stage` on.
pub open spec fn run_of(
    processors: Seq<ProcessorView>,
    vars: Map<Seq<char>, Seq<char>>,
    context: RunContextView,
    stage: StageView,
    events: Seq<EventView>,
) -> Seq<ActionView>
    decreases events.len(),
{
    if events.len() == 0 {
        Seq::empty()
    } else {
        let next = step_of(processors, vars, context, stage, events[0]);
        seq![next.1] + run_of(processors, vars, context, next.0, events.skip(1))
    }
}

/// The indices of the processors that `actions` have run, in the order of
/// the actions.
pub open spec fn invoked(actions: Seq<ActionView>) -> Seq<int>
    decreases actions.len(),
{
    if actions.len() == 0 {
        Seq::empty()
    } else {
        match actions[0] {
            ActionView::Invoke { index, command } => seq![index] + invoked(actions.skip(1)),
            _ => invoked(actions.skip(1)),
        }
    }
}

/// The indices, from `i` on and in rising order, of the processors that
/// run on `side`.
pub open spec fn applicable_from(processors: Seq<ProcessorView>, side: crate::side::Side, i: int) -> Seq<
    int,
>
    decreases processors.len() - i,
{
    if i < 0 || i >= processors.len() {
        Seq::empty()
    } else if processors[i].applies_to(side) {
        seq![i] + applicable_from(processors, side, i + 1)
    } else {
        applicable_from(processors, side, i + 1)
    }
}

/// What `invoked` makes of an action in front of others.
proof fn lemma_invoked_first(first: ActionView, rest: Seq<ActionView>)
    ensures
        invoked(seq![first] + rest) == match first {
            ActionView::Invoke { index, command } => seq![index] + invoked(rest),
            _ => invoked(rest),
        },
{
    assert((seq![first] + rest).skip(1) =~= rest);
}

/// Fail-fast, part one: a run that has failed stays failed. Whatever the
/// driver reports, it is told to give up with the same fault, and no
/// processor runs.
pub proof fn lemma_failed_stays(
    processors: Seq<ProcessorView>,
    vars: Map<Seq<char>, Seq<char>>,
    context: RunContextView,
    fault: Fault,
    events: Seq<EventView>,
)
    ensures
        run_of(processors, vars, context, StageView::Failed(fault), events).len() == events.len(),
        forall|k: int|
            0 <= k < events.len() ==> #[trigger] run_of(
                processors,
                vars,
                context,
                StageView::Failed(fault),
                events,
            )[k] == ActionView::Abort(fault),
        invoked(run_of(processors, vars, context, StageView::Failed(fault), events))
            == Seq::<int>::empty(),
    decreases events.len(),
{
    if events.len() > 0 {
        let rest = run_of(processors, vars, context, StageView::Failed(fault), events.skip(1));
        lemma_failed_stays(processors, vars, context, fault, events.skip(1));
        lemma_invoked_first(ActionView::Abort(fault), rest);
        let all = run_of(processors, vars, context, StageView::Failed(fault), events);
        assert forall|k: int| 0 <= k < events.len() implies #[trigger] all[k] == ActionView::Abort(
            fault,
        ) by {
            if k > 0 {
                assert(all[k] == rest[k - 1]);
            }
        }
    }
}

/// Fail-fast, part two: when a processor ends and the driver reports
/// anything but its success, the run fails with that processor's fault, no
/// later processor runs, and all that the driver is told from then on is to
/// give up with that fault.
pub proof fn lemma_fail_fast(
    processors: Seq<ProcessorView>,
    vars: Map<Seq<char>, Seq<char>>,
    context: RunContextView,
    i: int,
    events: Seq<EventView>,
)
    requires
        0 <= i < processors.len(),
        events.len() > 0,
        events[0] != EventView::Exited(true),
    ensures
        forall|k: int|
            0 <= k < events.len() ==> #[trigger] run_of(
                processors,
                vars,
                context,
                StageView::Invoking(i),
                events,
            )[k] == ActionView::Abort(Fault::ProcessorFailed(processors[i].jar)),
        invoked(run_of(processors, vars, context, StageView::Invoking(i), events))
            == Seq::<int>::empty(),
{
    let fault = Fault::ProcessorFailed(processors[i].jar);
    let rest = run_of(processors, vars, context, StageView::Failed(fault), events.skip(1));
    let all = run_of(processors, vars, context, StageView::Invoking(i), events);
    lemma_failed_stays(processors, vars, context, fault, events.skip(1));
    lemma_invoked_first(ActionView::Abort(fault), rest);
    assert(all == seq![ActionView::Abort(fault)] + rest);
    assert forall|k: int| 0 <= k < events.len() implies #[trigger] all[k] == ActionView::Abort(
        fault,
    ) by {
        if k > 0 {
            assert(all[k] == rest[k - 1]);
        }
    }
}

/// A processor that does not run on the side is passed over: the driver is
/// told so, and the run turns to the next processor.
pub proof fn lemma_skip(
    processors: Seq<ProcessorView>,
    vars: Map<Seq<char>, Seq<char>>,
    context: RunContextView,
    i: int,
    event: EventView,
)
    requires
        0 <= i < processors.len(),
        !processors[i].applies_to(context.side),
    ensures
        step_of(processors, vars, context, StageView::Ready(i), event) == (
            StageView::Ready(i + 1),
            ActionView::Skip(i),
        ),
{
}

/// Whether a run can stand at `stage`: where it waits for a report on a
/// processor, that processor is one of the list and runs on the side.
pub open spec fn reachable(
    processors: Seq<ProcessorView>,
    context: RunContextView,
    stage: StageView,
) -> bool {
    match stage {
        StageView::Ready(i) => 0 <= i,
        StageView::Inspecting(i) => 0 <= i < processors.len() && processors[i].applies_to(
            context.side,
        ),
        StageView::Invoking(i) => 0 <= i < processors.len() && processors[i].applies_to(
            context.side,
        ),
        StageView::Finished => true,
        StageView::Failed(_) => true,
    }
}

/// The processors that are still to run when a run stands at `stage`.
pub open spec fn pending(
    processors: Seq<ProcessorView>,
    context: RunContextView,
    stage: StageView,
) -> Seq<int> {
    match stage {
        StageView::Ready(i) => applicable_from(processors, context.side, i),
        StageView::Inspecting(i) => applicable_from(processors, context.side, i),
        StageView::Invoking(i) => applicable_from(processors, context.side, i + 1),
        StageView::Finished => Seq::empty(),
        StageView::Failed(_) => Seq::empty(),
    }
}

/// A step keeps the run at a stage where it can stand, and what it runs
/// and leaves to run is what was to run before it.
proof fn lemma_step_pending(
    processors: Seq<ProcessorView>,
    vars: Map<Seq<char>, Seq<char>>,
    context: RunContextView,
    stage: StageView,
    event: EventView,
)
    requires
        reachable(processors, context, stage),
    ensures
        reachable(processors, context, step_of(processors, vars, context, stage, event).0),
        step_of(processors, vars, context, stage, event).0 is Failed || pending(
            processors,
            context,
            stage,
        ) == invoked(seq![step_of(processors, vars, context, stage, event).1]) + pending(
            processors,
            context,
            step_of(processors, vars, context, stage, event).0,
        ),
{
    let next = step_of(processors, vars, context, stage, event);
    lemma_invoked_first(next.1, Seq::empty());
    assert(seq![next.1] + Seq::<ActionView>::empty() =~= seq![next.1]);
    assert(invoked(Seq::<ActionView>::empty()) =~= Seq::<int>::empty());
    if !(next.0 is Failed) {
        match next.1 {
            ActionView::Invoke { index, command } => {
                assert(invoked(seq![next.1]) =~= seq![index]);
            },
            _ => {
                assert(invoked(seq![next.1]) =~= Seq::<int>::empty());
            },
        }
        assert(pending(processors, context, stage) =~= invoked(seq![next.1]) + pending(
            processors,
            context,
            next.0,
        ));
    }
}

/// Processor ordering: the processors that a run invokes are, in this
/// order, the first of those that run on the side. None that does not run
/// on the side is invoked, none is invoked twice, and none before one that
/// stands in front of it in the list.
pub proof fn lemma_order(
    processors: Seq<ProcessorView>,
    vars: Map<Seq<char>, Seq<char>>,
    context: RunContextView,
    stage: StageView,
    events: Seq<EventView>,
)
    requires
        reachable(processors, context, stage),
    ensures
        invoked(run_of(processors, vars, context, stage, events)).is_prefix_of(
            pending(processors, context, stage),
        ),
    decreases events.len(),
{
    if events.len() == 0 {
        assert(invoked(Seq::<ActionView>::empty()) =~= Seq::<int>::empty());
    } else {
        let next = step_of(processors, vars, context, stage, events[0]);
        let rest = run_of(processors, vars, context, next.0, events.skip(1));
        lemma_step_pending(processors, vars, context, stage, events[0]);
        lemma_invoked_first(next.1, rest);
        lemma_invoked_first(next.1, Seq::empty());
        assert(seq![next.1] + Seq::<ActionView>::empty() =~= seq![next.1]);
        assert(invoked(Seq::<ActionView>::empty()) =~= Seq::<int>::empty());
        match next.0 {
            StageView::Failed(fault) => {
                lemma_failed_stays(processors, vars, context, fault, events.skip(1));
            },
            _ => {
                lemma_order(processors, vars, context, next.0, events.skip(1));
                let head = invoked(seq![next.1]);
                let tail = invoked(rest);
                let left = pending(processors, context, next.0);
                assert(invoked(seq![next.1] + rest) =~= head + tail);
                assert((head + tail).is_prefix_of(head + left)) by {
                    assert((head + left).subrange(0, (head + tail).len() as int) =~= head + tail);
                }
            },
        }
    }
}

/// Processor ordering from the start: a run invokes, in the list's order,
/// the first of the processors that run on the side.
pub proof fn lemma_order_from_start(
    processors: Seq<ProcessorView>,
    vars: Map<Seq<char>, Seq<char>>,
    context: RunContextView,
    events: Seq<EventView>,
)
    ensures
        invoked(run_of(processors, vars, context, StageView::Ready(0), events)).is_prefix_of(
            applicable_from(processors, context.side, 0),
        ),
{
    lemma_order(processors, vars, context, StageView::Ready(0), events);
}

/// A run that is told to finish has invoked every processor that runs on
/// the side, each once, in the list's order, and no other.
pub proof fn lemma_finished_run(
    processors: Seq<ProcessorView>,
    vars: Map<Seq<char>, Seq<char>>,
    context: RunContextView,
    stage: StageView,
    events: Seq<EventView>,
)
    requires
        reachable(processors, context, stage),
        run_of(processors, vars, context, stage, events).contains(ActionView::Finish),
    ensures
        invoked(run_of(processors, vars, context, stage, events)) == pending(
            processors,
            context,
            stage,
        ),
    decreases events.len(),
{
    let all = run_of(processors, vars, context, stage, events);
    let k = choose|k: int| 0 <= k < all.len() && all[k] == ActionView::Finish;
    let next = step_of(processors, vars, context, stage, events[0]);
    let rest = run_of(processors, vars, context, next.0, events.skip(1));
    lemma_step_pending(processors, vars, context, stage, events[0]);
    lemma_invoked_first(next.1, rest);
    lemma_invoked_first(next.1, Seq::empty());
    assert(seq![next.1] + Seq::<ActionView>::empty() =~= seq![next.1]);
    assert(invoked(Seq::<ActionView>::empty()) =~= Seq::<int>::empty());
    match next.0 {
        StageView::Failed(fault) => {
            lemma_failed_stays(processors, vars, context, fault, events.skip(1));
            if k > 0 {
                assert(all[k] == rest[k - 1]);
            }
        },
        StageView::Finished => {
            lemma_finished_stays(processors, vars, context, events.skip(1));
            assert(invoked(all) =~= invoked(seq![next.1]) + invoked(rest));
        },
        _ => {
            assert(next.1 != ActionView::Finish);
            assert(k > 0);
            assert(rest[k - 1] == ActionView::Finish);
            lemma_finished_run(processors, vars, context, next.0, events.skip(1));
            assert(invoked(all) =~= invoked(seq![next.1]) + invoked(rest));
        },
    }
}

/// A run that has finished runs nothing more.
pub proof fn lemma_finished_stays(
    processors: Seq<ProcessorView>,
    vars: Map<Seq<char>, Seq<char>>,
    context: RunContextView,
    events: Seq<EventView>,
)
    ensures
        invoked(run_of(processors, vars, context, StageView::Finished, events))
            == Seq::<int>::empty(),
    decreases events.len(),
{
    if events.len() > 0 {
        let rest = run_of(processors, vars, context, StageView::Finished, events.skip(1));
        lemma_finished_stays(processors, vars, context, events.skip(1));
        lemma_invoked_first(ActionView::Finish, rest);
    }
}

} // verus!
