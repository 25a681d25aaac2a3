//! The decisions of the event loop. The caller waits for the compositor
//! and watches for the interrupt; for each thing that the event stream
//! hands over it asks [`Wayeyes::step`] what to do, and does it.
use crate::config::{ConfigModel, Wayeyes};
use crate::output::formatted;
use crate::window::{category_of, Category, ChangeKind, FocusEvent};
use vstd::prelude::*;

verus! {

/// Whether the loop still takes events.
#[derive(Debug, Clone, Copy, PartialEq, Eq, Structural)]
pub enum LoopState {
    Running,
    Stopped,
}

/// What the event stream handed over.
#[derive(Debug, Clone, Copy, PartialEq, Eq, Structural)]
pub enum Delivery {
    /// A notification about a window.
    Window(FocusEvent),
    /// A notification about something else.
    Other,
    /// An error of the transport.
    Failed,
    /// Nothing more: the stream has ended.
    Ended,
}

/// What the caller is to do after a delivery.
#[derive(Debug, Clone, PartialEq, Eq)]
pub enum Action {
    /// Print this line.
    Emit(String),
    /// Nothing; wait for the next delivery.
    Idle,
    /// Leave the loop: it has ended as it should.
    Finish,
    /// Leave the loop and report the transport's error.
    Fail,
}

/// An [`Action`] as text.
pub enum ActionModel {
    Emit(Seq<char>),
    Idle,
    Finish,
    Fail,
}

impl View for Action {
    type V = ActionModel;

    open spec fn view(&self) -> ActionModel {
        match self {
            Action::Emit(line) => ActionModel::Emit(line@),
            Action::Idle => ActionModel::Idle,
            Action::Finish => ActionModel::Finish,
            Action::Fail => ActionModel::Fail,
        }
    }
}

/// The line for a focused window, or for none.
pub open spec fn line_for(config: ConfigModel, category: Category) -> Seq<char> {
    formatted(config.item(category), config.format)
}

/// The state after a delivery. The loop goes on only after a notification
/// that arrived while it was running and no interrupt had been seen.
pub open spec fn next_state(state: LoopState, cancelled: bool, delivery: Delivery) -> LoopState {
    if state == LoopState::Running && !cancelled && (delivery is Window || delivery is Other) {
        LoopState::Running
    } else {
        LoopState::Stopped
    }
}

/// What is to be done after a delivery. A stopped loop does nothing more.
/// A running one ends when the stream has ended or an interrupt was seen,
/// whatever was delivered; without an interrupt an error of the transport
/// makes it fail, a window that got the focus gets its line, and every
/// other notification is passed over.
pub open spec fn reaction(
    config: ConfigModel,
    state: LoopState,
    cancelled: bool,
    delivery: Delivery,
) -> ActionModel {
    if state == LoopState::Stopped {
        ActionModel::Idle
    } else if cancelled {
        ActionModel::Finish
    } else {
        match delivery {
            Delivery::Ended => ActionModel::Finish,
            Delivery::Failed => ActionModel::Fail,
            Delivery::Other => ActionModel::Idle,
            Delivery::Window(event) => if event.change_kind == ChangeKind::Focus {
                ActionModel::Emit(line_for(config, category_of(Some(event.window))))
            } else {
                ActionModel::Idle
            },
        }
    }
}

/// One delivery as the loop sees it: what arrived, and whether the
/// interrupt had been seen by then.
pub struct Arrival {
    pub cancelled: bool,
    pub delivery: Delivery,
}

/// Whether an arrival is a window that got the focus.
pub open spec fn is_focus(arrival: Arrival) -> bool {
    arrival.delivery matches Delivery::Window(event) && event.change_kind == ChangeKind::Focus
}

/// The state of a loop that was in `state` and then saw `arrivals`.
pub open spec fn state_after(state: LoopState, arrivals: Seq<Arrival>) -> LoopState
    decreases arrivals.len(),
{
    if arrivals.len() == 0 {
        state
    } else {
        state_after(
            next_state(state, arrivals[0].cancelled, arrivals[0].delivery),
            arrivals.skip(1),
        )
    }
}

/// The lines that a loop in `state` prints for `arrivals`, in order.
pub open spec fn emitted(config: ConfigModel, state: LoopState, arrivals: Seq<Arrival>) -> Seq<
    Seq<char>,
>
    decreases arrivals.len(),
{
    if arrivals.len() == 0 {
        Seq::empty()
    } else {
        let first = arrivals[0];
        let rest = emitted(
            config,
            next_state(state, first.cancelled, first.delivery),
            arrivals.skip(1),
        );
        match reaction(config, state, first.cancelled, first.delivery) {
            ActionModel::Emit(line) => seq![line] + rest,
            _ => rest,
        }
    }
}

/// Whether a loop in `state` fails on one of `arrivals`.
pub open spec fn fails(config: ConfigModel, state: LoopState, arrivals: Seq<Arrival>) -> bool
    decreases arrivals.len(),
{
    if arrivals.len() == 0 {
        false
    } else {
        let first = arrivals[0];
        reaction(config, state, first.cancelled, first.delivery) is Fail || fails(
            config,
            next_state(state, first.cancelled, first.delivery),
            arrivals.skip(1),
        )
    }
}

/// Everything that a whole run prints: the line of no window first, then
/// the lines for the arrivals.
pub open spec fn transcript(config: ConfigModel, arrivals: Seq<Arrival>) -> Seq<Seq<char>> {
    seq![line_for(config, Category::Unknown)] + emitted(config, LoopState::Running, arrivals)
}

/// A run begins with the line of the unknown category, whatever arrives
/// later; with no arrivals that line is all there is.
pub proof fn lemma_startup_line(config: ConfigModel, arrivals: Seq<Arrival>)
    ensures
        transcript(config, arrivals).len() >= 1,
        transcript(config, arrivals)[0] == line_for(config, category_of(None)),
        transcript(config, Seq::empty()) == seq![line_for(config, category_of(None))],
{
    assert(transcript(config, Seq::empty()) =~= seq![line_for(config, category_of(None))]);
}

/// A stopped loop stays stopped, prints nothing and does not fail.
pub proof fn lemma_stopped_is_final(config: ConfigModel, arrivals: Seq<Arrival>)
    ensures
        state_after(LoopState::Stopped, arrivals) == LoopState::Stopped,
        emitted(config, LoopState::Stopped, arrivals) == Seq::<Seq<char>>::empty(),
        !fails(config, LoopState::Stopped, arrivals),
    decreases arrivals.len(),
{
    if arrivals.len() > 0 {
        lemma_stopped_is_final(config, arrivals.skip(1));
    }
}

/// A run can be cut in two at any place: the second part goes on from the
/// state in which the first part ended.
pub proof fn lemma_run_in_two_parts(
    config: ConfigModel,
    state: LoopState,
    arrivals: Seq<Arrival>,
    cut: int,
)
    requires
        0 <= cut <= arrivals.len(),
    ensures
        state_after(state, arrivals) == state_after(
            state_after(state, arrivals.take(cut)),
            arrivals.skip(cut),
        ),
        emitted(config, state, arrivals) == emitted(config, state, arrivals.take(cut)) + emitted(
            config,
            state_after(state, arrivals.take(cut)),
            arrivals.skip(cut),
        ),
        fails(config, state, arrivals) == (fails(config, state, arrivals.take(cut)) || fails(
            config,
            state_after(state, arrivals.take(cut)),
            arrivals.skip(cut),
        )),
    decreases cut,
{
    if cut == 0 {
        assert(arrivals.skip(0) =~= arrivals);
        assert(arrivals.take(0) =~= Seq::<Arrival>::empty());
        assert(Seq::<Seq<char>>::empty() + emitted(config, state, arrivals) =~= emitted(
            config,
            state,
            arrivals,
        ));
    } else {
        let first = arrivals[0];
        let then = next_state(state, first.cancelled, first.delivery);
        let head = arrivals.take(cut);
        lemma_run_in_two_parts(config, then, arrivals.skip(1), cut - 1);
        assert(head[0] == first);
        assert(head.skip(1) =~= arrivals.skip(1).take(cut - 1));
        assert(arrivals.skip(1).skip(cut - 1) =~= arrivals.skip(cut));
        let tail = emitted(config, state_after(state, head), arrivals.skip(cut));
        let middle = emitted(config, then, head.skip(1));
        match reaction(config, state, first.cancelled, first.delivery) {
            ActionModel::Emit(line) => {
                assert(seq![line] + (middle + tail) =~= (seq![line] + middle) + tail);
            },
            _ => {},
        }
    }
}

/// Once the interrupt has been seen at a delivery, that delivery and all
/// later ones are not rendered: the run prints what it had printed before,
/// ends stopped, and fails only if it had failed before.
pub proof fn lemma_cancellation_stops(
    config: ConfigModel,
    state: LoopState,
    arrivals: Seq<Arrival>,
    at: int,
)
    requires
        0 <= at < arrivals.len(),
        arrivals[at].cancelled,
    ensures
        state_after(state, arrivals) == LoopState::Stopped,
        emitted(config, state, arrivals) == emitted(config, state, arrivals.take(at)),
        fails(config, state, arrivals) == fails(config, state, arrivals.take(at)),
{
    let before = arrivals.take(at);
    let from = arrivals.skip(at);
    let reached = state_after(state, before);
    lemma_run_in_two_parts(config, state, arrivals, at);
    assert(from[0] == arrivals[at]);
    lemma_stopped_is_final(config, from.skip(1));
    assert(emitted(config, reached, from) =~= Seq::<Seq<char>>::empty());
    assert(emitted(config, state, before) + Seq::<Seq<char>>::empty() =~= emitted(
        config,
        state,
        before,
    ));
}

/// Arrivals of which none is a window that got the focus print nothing.
pub proof fn lemma_only_focus_is_rendered(
    config: ConfigModel,
    state: LoopState,
    arrivals: Seq<Arrival>,
)
    requires
        forall|i: int| 0 <= i < arrivals.len() ==> !is_focus(#[trigger] arrivals[i]),
    ensures
        emitted(config, state, arrivals) == Seq::<Seq<char>>::empty(),
    decreases arrivals.len(),
{
    if arrivals.len() > 0 {
        let first = arrivals[0];
        assert(!is_focus(first));
        assert forall|i: int| 0 <= i < arrivals.skip(1).len() implies !is_focus(
            #[trigger] arrivals.skip(1)[i],
        ) by {
            assert(arrivals.skip(1)[i] == arrivals[i + 1]);
        }
        lemma_only_focus_is_rendered(
            config,
            next_state(state, first.cancelled, first.delivery),
            arrivals.skip(1),
        );
    }
}

/// While no interrupt is seen, windows that get the focus one after the
/// other are rendered one after the other: a line for each, in the order
/// of arrival, the same window twice giving the same line twice.
pub proof fn lemma_focus_lines_in_order(config: ConfigModel, arrivals: Seq<Arrival>)
    requires
        forall|i: int|
            0 <= i < arrivals.len() ==> is_focus(#[trigger] arrivals[i]) && !arrivals[i].cancelled,
    ensures
        state_after(LoopState::Running, arrivals) == LoopState::Running,
        !fails(config, LoopState::Running, arrivals),
        emitted(config, LoopState::Running, arrivals).len() == arrivals.len(),
        forall|i: int|
            0 <= i < arrivals.len() ==> #[trigger] emitted(config, LoopState::Running, arrivals)[i]
                == line_for(config, category_of(Some(arrivals[i].delivery->Window_0.window))),
    decreases arrivals.len(),
{
    if arrivals.len() > 0 {
        let first = arrivals[0];
        let rest = arrivals.skip(1);
        assert(is_focus(first) && !first.cancelled);
        assert forall|i: int| 0 <= i < rest.len() implies is_focus(#[trigger] rest[i])
            && !rest[i].cancelled by {
            assert(rest[i] == arrivals[i + 1]);
        }
        lemma_focus_lines_in_order(config, rest);
        let lines = emitted(config, LoopState::Running, arrivals);
        let later = emitted(config, LoopState::Running, rest);
        assert forall|i: int| 0 <= i < arrivals.len() implies #[trigger] lines[i] == line_for(
            config,
            category_of(Some(arrivals[i].delivery->Window_0.window)),
        ) by {
            if i > 0 {
                assert(lines[i] == later[i - 1]);
                assert(rest[i - 1] == arrivals[i]);
            }
        }
    }
}

impl Wayeyes {
    /// The state in which the loop begins, and the line to print before
    /// the first event is waited for: that of no window.
    pub fn start(&self) -> (begin: (LoopState, String))
        ensures
            begin.0 == LoopState::Running,
            begin.1@ == line_for(self@, category_of(None)),
    {
        (LoopState::Running, self.wayeyes_format(None))
    }

    /// Decides what follows a delivery: the next state, and what the
    /// caller is to do. `cancelled` says whether the interrupt had been
    /// seen when the delivery arrived.
    pub fn step(&self, state: LoopState, cancelled: bool, delivery: &Delivery) -> (next: (
        LoopState,
        Action,
    ))
        ensures
            next.0 == next_state(state, cancelled, *delivery),
            next.1@ == reaction(self@, state, cancelled, *delivery),
    {
        match state {
            LoopState::Stopped => (LoopState::Stopped, Action::Idle),
            LoopState::Running => {
                if cancelled {
                    return (LoopState::Stopped, Action::Finish);
                }
                match delivery {
                    Delivery::Ended => (LoopState::Stopped, Action::Finish),
                    Delivery::Failed => (LoopState::Stopped, Action::Fail),
                    Delivery::Other => (LoopState::Running, Action::Idle),
                    Delivery::Window(event) => {
                        if event.change_kind == ChangeKind::Focus {
                            let line = self.wayeyes_format(Some(&event.window));
                            (LoopState::Running, Action::Emit(line))
                        } else {
                            (LoopState::Running, Action::Idle)
                        }
                    },
                }
            },
        }
    }
}

} // verus!
