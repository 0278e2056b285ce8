//! The embedding of the runtime: its start, the marshaling of the
//! arguments into a native array, and the one call of the entry point.

use crate::text::texts_of;
use vstd::prelude::*;

verus! {

/// What went wrong in the embedded runtime. Any of them ends the launch.
#[derive(Clone, Copy, PartialEq, Eq, Structural, Debug)]
pub enum EmbedFailure {
    /// The runtime could not be started.
    RuntimeStart,
    /// The native array could not be made or filled.
    Marshal,
    /// The entry point could not be called, or it failed.
    Invocation,
}

/// Where the embedding of the runtime stands.
#[derive(Clone, Copy, PartialEq, Eq, Structural, Debug)]
pub enum EmbedPhase {
    /// No runtime has been started.
    Uninitialized,
    /// The runtime is attached; the native array is to be made.
    Allocating,
    /// The runtime is attached; the slots below `next` of the native array
    /// are filled, slot `next` is to be.
    Filling { next: usize },
    /// The runtime is attached and the native array is complete; the entry
    /// point is to be called.
    Invoking,
    /// The entry point has been called. It is not called again.
    Invoked,
    /// The embedding has failed for good.
    Failed(EmbedFailure),
}

/// What the driver reports of the step it was asked for.
#[derive(Clone, Copy, PartialEq, Eq, Structural, Debug)]
pub enum EmbedEvent {
    /// The step was carried out.
    StepDone,
    /// The step failed.
    StepFailed,
}

/// What the driver is asked to do next.
#[derive(PartialEq, Eq, Debug)]
pub enum EmbedAction {
    /// Start the runtime, or attach to the one that runs.
    StartRuntime,
    /// Make a native array of strings with `length` slots.
    NewArray { length: usize },
    /// Turn `value` into a native string and put it into slot `index` of the
    /// array.
    SetElement { index: usize, value: String },
    /// Call the static method `method` of `class`, whose signature is
    /// `signature`, with the array as its one argument.
    Invoke { class: String, method: String, signature: String },
    /// Nothing is left to do.
    Finish,
    /// Give the launch up.
    Abort { failure: EmbedFailure },
}

/// An `EmbedAction` as a mathematical value.
pub enum EmbedActionView {
    StartRuntime,
    NewArray { length: int },
    SetElement { index: int, value: Seq<char> },
    Invoke { class: Seq<char>, method: Seq<char>, signature: Seq<char> },
    Finish,
    Abort { failure: EmbedFailure },
}

impl View for EmbedAction {
    type V = EmbedActionView;

    open spec fn view(&self) -> EmbedActionView {
        match *self {
            EmbedAction::StartRuntime => EmbedActionView::StartRuntime,
            EmbedAction::NewArray { length } => EmbedActionView::NewArray { length: length as int },
            EmbedAction::SetElement { index, value } => EmbedActionView::SetElement {
                index: index as int,
                value: value@,
            },
            EmbedAction::Invoke { class, method, signature } => EmbedActionView::Invoke {
                class: class@,
                method: method@,
                signature: signature@,
            },
            EmbedAction::Finish => EmbedActionView::Finish,
            EmbedAction::Abort { failure } => EmbedActionView::Abort { failure },
        }
    }
}

/// The entry point of the tool and the arguments that it is called with.
pub struct Invocation {
    pub class: Seq<char>,
    pub method: Seq<char>,
    pub signature: Seq<char>,
    pub arguments: Seq<Seq<char>>,
}

/// A phase that an embedding with `count` arguments can be in.
pub open spec fn phase_fits(phase: EmbedPhase, count: nat) -> bool {
    match phase {
        EmbedPhase::Filling { next } => next < count,
        _ => true,
    }
}

/// The phase that follows `phase`, in an embedding with `count` arguments,
/// when the driver reports `event`.
///
/// The runtime is started once; then the array is made and filled slot by
/// slot, in the order of the arguments; then the entry point is called, once.
/// A failed step ends the embedding, and an embedding that has ended stays as
/// it is.
pub open spec fn next_phase(phase: EmbedPhase, event: EmbedEvent, count: nat) -> EmbedPhase {
    match phase {
        EmbedPhase::Invoked => phase,
        EmbedPhase::Failed(_) => phase,
        EmbedPhase::Uninitialized => match event {
            EmbedEvent::StepFailed => EmbedPhase::Failed(EmbedFailure::RuntimeStart),
            EmbedEvent::StepDone => EmbedPhase::Allocating,
        },
        EmbedPhase::Allocating => match event {
            EmbedEvent::StepFailed => EmbedPhase::Failed(EmbedFailure::Marshal),
            EmbedEvent::StepDone => if count == 0 {
                EmbedPhase::Invoking
            } else {
                EmbedPhase::Filling { next: 0 }
            },
        },
        EmbedPhase::Filling { next } => match event {
            EmbedEvent::StepFailed => EmbedPhase::Failed(EmbedFailure::Marshal),
            EmbedEvent::StepDone => if next + 1 < count {
                EmbedPhase::Filling { next: (next + 1) as usize }
            } else {
                EmbedPhase::Invoking
            },
        },
        EmbedPhase::Invoking => match event {
            EmbedEvent::StepFailed => EmbedPhase::Failed(EmbedFailure::Invocation),
            EmbedEvent::StepDone => EmbedPhase::Invoked,
        },
    }
}

/// What an embedding asks of the driver in `phase`.
pub open spec fn action_in(phase: EmbedPhase, call: Invocation) -> EmbedActionView {
    match phase {
        EmbedPhase::Uninitialized => EmbedActionView::StartRuntime,
        EmbedPhase::Allocating => EmbedActionView::NewArray { length: call.arguments.len() as int },
        EmbedPhase::Filling { next } => EmbedActionView::SetElement {
            index: next as int,
            value: call.arguments[next as int],
        },
        EmbedPhase::Invoking => EmbedActionView::Invoke {
            class: call.class,
            method: call.method,
            signature: call.signature,
        },
        EmbedPhase::Invoked => EmbedActionView::Finish,
        EmbedPhase::Failed(failure) => EmbedActionView::Abort { failure },
    }
}

/// The phase of an embedding with `count` arguments after `steps` steps that
/// were all carried out.
pub open spec fn after_done(steps: nat, count: nat) -> EmbedPhase
    decreases steps,
{
    if steps == 0 {
        EmbedPhase::Uninitialized
    } else {
        next_phase(after_done((steps - 1) as nat, count), EmbedEvent::StepDone, count)
    }
}

/// The phase that an embedding with `count` arguments is in after the driver
/// has reported `events`, one after the other, starting in `start`.
pub open spec fn phase_after(start: EmbedPhase, events: Seq<EmbedEvent>, count: nat) -> EmbedPhase
    decreases events.len(),
{
    if events.len() == 0 {
        start
    } else {
        next_phase(phase_after(start, events.drop_last(), count), events.last(), count)
    }
}

/// How far an embedding with `count` arguments has come in `phase`.
pub open spec fn progress(phase: EmbedPhase, count: nat) -> nat {
    match phase {
        EmbedPhase::Uninitialized => 0,
        EmbedPhase::Allocating => 1,
        EmbedPhase::Filling { next } => 2 + next as nat,
        EmbedPhase::Invoking => 2 + count,
        EmbedPhase::Invoked => 3 + count,
        EmbedPhase::Failed(_) => 3 + count,
    }
}

/// An embedding in this phase has ended, well or badly.
pub open spec fn has_ended(phase: EmbedPhase) -> bool {
    phase is Invoked || phase is Failed
}

/// While the steps are carried out, the array is made after the start and
/// then filled from slot 0 upwards, one slot with each step.
proof fn lemma_filling_in_order(count: nat, slot: nat)
    requires
        slot < count <= usize::MAX,
    ensures
        after_done(1, count) == EmbedPhase::Allocating,
        after_done(2 + slot, count) == (EmbedPhase::Filling { next: slot as usize }),
    decreases slot,
{
    assert(after_done(0, count) == EmbedPhase::Uninitialized);
    assert(after_done(1, count) == EmbedPhase::Allocating);
    if slot > 0 {
        lemma_filling_in_order(count, (slot - 1) as nat);
    }
}

/// Marshaling keeps the count of the arguments: the native array is asked
/// for with as many slots as there are arguments, and the entry point is
/// called as soon as all of them are filled, and not before.
pub proof fn lemma_marshaling_keeps_count(call: Invocation)
    requires
        call.arguments.len() <= usize::MAX,
    ensures
        action_in(after_done(1, call.arguments.len()), call) == (EmbedActionView::NewArray {
            length: call.arguments.len() as int,
        }),
        forall|steps: nat|
            2 <= steps < 2 + call.arguments.len() ==> #[trigger] after_done(
                steps,
                call.arguments.len(),
            ) is Filling,
        action_in(after_done(2 + call.arguments.len(), call.arguments.len()), call) == (
        EmbedActionView::Invoke {
            class: call.class,
            method: call.method,
            signature: call.signature,
        }),
{
    let count = call.arguments.len();
    assert(after_done(0, count) == EmbedPhase::Uninitialized);
    assert(after_done(1, count) == EmbedPhase::Allocating);
    assert forall|steps: nat| 2 <= steps < 2 + count implies #[trigger] after_done(
        steps,
        count,
    ) is Filling by {
        lemma_filling_in_order(count, (steps - 2) as nat);
    }
    if count == 0 {
        assert(after_done(2, count) == EmbedPhase::Invoking);
    } else {
        lemma_filling_in_order(count, (count - 1) as nat);
        assert(after_done(2 + count, count) == next_phase(
            after_done((1 + count) as nat, count),
            EmbedEvent::StepDone,
            count,
        ));
    }
}

/// Marshaling keeps the order of the arguments: the slot that is filled
/// after the array was made and `slot` slots were filled is slot `slot`, and
/// what it is filled with is argument `slot`.
pub proof fn lemma_marshaling_keeps_order(call: Invocation, slot: int)
    requires
        0 <= slot < call.arguments.len() <= usize::MAX,
    ensures
        action_in(after_done((2 + slot) as nat, call.arguments.len()), call) == (
        EmbedActionView::SetElement { index: slot, value: call.arguments[slot] }),
{
    lemma_filling_in_order(call.arguments.len(), slot as nat);
}

/// The native array as a driver leaves it that has carried out the first
/// `steps` steps of an embedding: it has the slots that it was made with,
/// and a slot holds the string that it was filled with, if it was filled.
pub open spec fn array_after(steps: nat, call: Invocation) -> Seq<Option<Seq<char>>>
    decreases steps,
{
    if steps == 0 {
        Seq::empty()
    } else {
        let before = array_after((steps - 1) as nat, call);
        match action_in(after_done((steps - 1) as nat, call.arguments.len()), call) {
            EmbedActionView::NewArray { length } => Seq::new(length as nat, |i: int| None),
            EmbedActionView::SetElement { index, value } => before.update(index, Some(value)),
            _ => before,
        }
    }
}

/// While the slots are filled, the array has a slot for each argument, the
/// slots that were filled hold their arguments, and the others are empty.
proof fn lemma_array_while_filling(call: Invocation, filled: nat)
    requires
        filled <= call.arguments.len() <= usize::MAX,
    ensures
        array_after(2 + filled, call).len() == call.arguments.len(),
        forall|i: int|
            0 <= i < filled ==> #[trigger] array_after(2 + filled, call)[i] == Some(
                call.arguments[i],
            ),
        forall|i: int|
            filled <= i < call.arguments.len() ==> #[trigger] array_after(2 + filled, call)[i]
                == None::<Seq<char>>,
    decreases filled,
{
    let count = call.arguments.len();
    if filled == 0 {
        assert(after_done(0, count) == EmbedPhase::Uninitialized);
        assert(after_done(1, count) == EmbedPhase::Allocating);
        assert(array_after(0, call) =~= Seq::empty());
        assert(array_after(1, call) =~= Seq::empty());
        assert(array_after(2, call) =~= Seq::new(count, |i: int| None));
    } else {
        lemma_array_while_filling(call, (filled - 1) as nat);
        lemma_filling_in_order(count, (filled - 1) as nat);
        assert(array_after(2 + filled, call) == array_after((1 + filled) as nat, call).update(
            filled - 1,
            Some(call.arguments[filled - 1]),
        ));
    }
}

/// Marshaling keeps the order and the count of the arguments: when the entry
/// point is called, the native array has as many slots as there are
/// arguments, and each slot holds the argument of its index.
pub proof fn lemma_entry_point_gets_the_arguments(call: Invocation)
    requires
        call.arguments.len() <= usize::MAX,
    ensures
        after_done(2 + call.arguments.len(), call.arguments.len()) == EmbedPhase::Invoking,
        array_after(2 + call.arguments.len(), call) == Seq::new(
            call.arguments.len(),
            |i: int| Some(call.arguments[i]),
        ),
{
    lemma_marshaling_keeps_count(call);
    lemma_array_while_filling(call, call.arguments.len());
    assert(array_after(2 + call.arguments.len(), call) =~= Seq::new(
        call.arguments.len(),
        |i: int| Some(call.arguments[i]),
    ));
}

/// Each step takes an embedding further, until it has ended; and then it
/// stays as it has ended.
pub proof fn lemma_step_makes_progress(phase: EmbedPhase, event: EmbedEvent, count: nat)
    requires
        phase_fits(phase, count),
        count <= usize::MAX,
    ensures
        phase_fits(next_phase(phase, event, count), count),
        has_ended(phase) ==> next_phase(phase, event, count) == phase,
        !has_ended(phase) ==> progress(next_phase(phase, event, count), count) > progress(
            phase,
            count,
        ),
{
}

/// An embedding never falls back: what it is in later is at least as far as
/// what it was in before, and further unless it had ended.
proof fn lemma_run_makes_progress(events: Seq<EmbedEvent>, count: nat, earlier: int, later: int)
    requires
        0 <= earlier <= later <= events.len(),
        count <= usize::MAX,
    ensures
        phase_fits(phase_after(EmbedPhase::Uninitialized, events.take(later), count), count),
        progress(phase_after(EmbedPhase::Uninitialized, events.take(earlier), count), count)
            <= progress(phase_after(EmbedPhase::Uninitialized, events.take(later), count), count),
        earlier < later && !has_ended(
            phase_after(EmbedPhase::Uninitialized, events.take(earlier), count),
        ) ==> progress(phase_after(EmbedPhase::Uninitialized, events.take(earlier), count), count)
            < progress(phase_after(EmbedPhase::Uninitialized, events.take(later), count), count),
    decreases later,
{
    if later > 0 {
        let before = phase_after(EmbedPhase::Uninitialized, events.take(later - 1), count);
        assert(events.take(later).drop_last() =~= events.take(later - 1));
        if earlier < later {
            lemma_run_makes_progress(events, count, earlier, later - 1);
        } else {
            lemma_run_makes_progress(events, count, later - 1, later - 1);
        }
        lemma_step_makes_progress(before, events[later - 1], count);
    }
}

/// The entry point is called once at most: whatever the driver reports, an
/// embedding that has been asked to call it is never asked so again.
pub proof fn lemma_entry_point_is_called_once(
    events: Seq<EmbedEvent>,
    count: nat,
    earlier: int,
    later: int,
)
    requires
        0 <= earlier < later <= events.len(),
        count <= usize::MAX,
        phase_after(EmbedPhase::Uninitialized, events.take(earlier), count) is Invoking,
    ensures
        !(phase_after(EmbedPhase::Uninitialized, events.take(later), count) is Invoking),
{
    lemma_run_makes_progress(events, count, earlier, later);
}

/// The embedding of the runtime for one call of the entry point, as far as
/// it has come.
pub struct Embedder {
    class: String,
    method: String,
    signature: String,
    arguments: Vec<String>,
    phase: EmbedPhase,
}

impl Embedder {
    /// The slot that is to be filled next is one of the array.
    #[verifier::type_invariant]
    spec fn fits(self) -> bool {
        phase_fits(self.phase, self.arguments@.len())
    }

    /// The entry point and the arguments of this embedding.
    pub closed spec fn call(self) -> Invocation {
        Invocation {
            class: self.class@,
            method: self.method@,
            signature: self.signature@,
            arguments: texts_of(self.arguments@),
        }
    }

    /// The phase that this embedding is in.
    pub closed spec fn current(self) -> EmbedPhase {
        self.phase
    }

    /// An embedding that has not started the runtime yet.
    pub fn new(
        class: String,
        method: String,
        signature: String,
        arguments: Vec<String>,
    ) -> (embedder: Embedder)
        ensures
            embedder.current() == EmbedPhase::Uninitialized,
            embedder.call().arguments.len() <= usize::MAX,
            embedder.call() == (Invocation {
                class: class@,
                method: method@,
                signature: signature@,
                arguments: texts_of(arguments@),
            }),
    {
        assert(arguments@.len() == arguments.len());
        Embedder { class, method, signature, arguments, phase: EmbedPhase::Uninitialized }
    }

    /// The phase that this embedding is in.
    pub fn phase(&self) -> (phase: EmbedPhase)
        ensures
            phase == self.current(),
            phase_fits(phase, self.call().arguments.len()),
            self.call().arguments.len() <= usize::MAX,
    {
        proof {
            use_type_invariant(self);
        }
        assert(self.arguments@.len() == self.arguments.len());
        self.phase
    }

    /// What the driver is to do now.
    pub fn action(&self) -> (action: EmbedAction)
        ensures
            action@ == action_in(self.current(), self.call()),
    {
        proof {
            use_type_invariant(self);
        }
        match self.phase {
            EmbedPhase::Uninitialized => EmbedAction::StartRuntime,
            EmbedPhase::Allocating => EmbedAction::NewArray { length: self.arguments.len() },
            EmbedPhase::Filling { next } => EmbedAction::SetElement {
                index: next,
                value: self.arguments[next].clone(),
            },
            EmbedPhase::Invoking => EmbedAction::Invoke {
                class: self.class.clone(),
                method: self.method.clone(),
                signature: self.signature.clone(),
            },
            EmbedPhase::Invoked => EmbedAction::Finish,
            EmbedPhase::Failed(failure) => EmbedAction::Abort { failure },
        }
    }

    /// Takes in what the driver reports of the step it was asked for.
    pub fn advance(self, event: EmbedEvent) -> (embedder: Embedder)
        ensures
            embedder.call() == self.call(),
            embedder.current() == next_phase(
                self.current(),
                event,
                self.call().arguments.len(),
            ),
    {
        proof {
            use_type_invariant(&self);
        }
        let count: usize = self.arguments.len();
        let phase = match self.phase {
            EmbedPhase::Invoked => EmbedPhase::Invoked,
            EmbedPhase::Failed(failure) => EmbedPhase::Failed(failure),
            EmbedPhase::Uninitialized => match event {
                EmbedEvent::StepFailed => EmbedPhase::Failed(EmbedFailure::RuntimeStart),
                EmbedEvent::StepDone => EmbedPhase::Allocating,
            },
            EmbedPhase::Allocating => match event {
                EmbedEvent::StepFailed => EmbedPhase::Failed(EmbedFailure::Marshal),
                EmbedEvent::StepDone => if count == 0 {
                    EmbedPhase::Invoking
                } else {
                    EmbedPhase::Filling { next: 0 }
                },
            },
            EmbedPhase::Filling { next } => match event {
                EmbedEvent::StepFailed => EmbedPhase::Failed(EmbedFailure::Marshal),
                EmbedEvent::StepDone => if next + 1 < count {
                    EmbedPhase::Filling { next: next + 1 }
                } else {
                    EmbedPhase::Invoking
                },
            },
            EmbedPhase::Invoking => match event {
                EmbedEvent::StepFailed => EmbedPhase::Failed(EmbedFailure::Invocation),
                EmbedEvent::StepDone => EmbedPhase::Invoked,
            },
        };
        Embedder {
            class: self.class,
            method: self.method,
            signature: self.signature,
            arguments: self.arguments,
            phase,
        }
    }
}

} // verus!
