//! The selection interaction of the overlay, as a state machine over the
//! overlay's own point and rectangle types.

use vstd::prelude::*;

verus! {

/// Which phase of the selection interaction we are in.
#[derive(Debug, Clone, Copy, PartialEq, Default)]
pub enum SelectionState<P, R> {
    /// Waiting for the user to click. Crosshair cursor shown.
    #[default]
    Idle,
    /// User is holding the mouse button. Rect grows as cursor moves.
    Drawing { start: P },
    /// User released the mouse. Toolbar is visible.
    Selected { rect: R },
}

/// The state after the mouse button goes down with the cursor at `cursor`:
/// an idle selection starts drawing there; any other state is kept.
pub open spec fn press_spec<P, R>(state: SelectionState<P, R>, cursor: P) -> SelectionState<P, R> {
    match state {
        SelectionState::Idle => SelectionState::Drawing { start: cursor },
        other => other,
    }
}

/// The state after Escape, and whether the overlay should close: Escape in
/// `Idle` closes; in `Drawing` or `Selected` it resets to `Idle`.
pub open spec fn escape_spec<P, R>(state: SelectionState<P, R>) -> (SelectionState<P, R>, bool) {
    match state {
        SelectionState::Idle => (SelectionState::Idle, true),
        SelectionState::Drawing { .. } => (SelectionState::Idle, false),
        SelectionState::Selected { .. } => (SelectionState::Idle, false),
    }
}

/// Mouse button pressed at `cursor_pos`.
pub fn apply_press<P, R>(state: SelectionState<P, R>, cursor_pos: P) -> (next: SelectionState<P, R>)
    ensures
        next == press_spec(state, cursor_pos),
{
    match state {
        SelectionState::Idle => SelectionState::Drawing { start: cursor_pos },
        other => other,
    }
}

/// Mouse button released at `cursor_pos`: a drawing selection becomes the
/// rectangle that `normalize` makes of its start and `cursor_pos`; any
/// other state is kept.
pub fn apply_release<P, R, F: FnOnce(P, P) -> R>(
    state: SelectionState<P, R>,
    cursor_pos: P,
    normalize: F,
) -> (next: SelectionState<P, R>)
    requires
        state matches SelectionState::Drawing { start } ==> normalize.requires((start, cursor_pos)),
    ensures
        state matches SelectionState::Drawing { start } ==> (next matches SelectionState::Selected {
            rect,
        } && normalize.ensures((start, cursor_pos), rect)),
        !(state is Drawing) ==> next == state,
{
    match state {
        SelectionState::Drawing { start } => SelectionState::Selected {
            rect: normalize(start, cursor_pos),
        },
        other => other,
    }
}

/// Escape pressed. Returns (next_state, should_close).
pub fn apply_escape<P, R>(state: SelectionState<P, R>) -> (res: (SelectionState<P, R>, bool))
    ensures
        res == escape_spec(state),
{
    match state {
        SelectionState::Idle => (SelectionState::Idle, true),
        SelectionState::Drawing { .. } => (SelectionState::Idle, false),
        SelectionState::Selected { .. } => (SelectionState::Idle, false),
    }
}

/// Escape always leaves the selection idle, and it closes the overlay
/// exactly when the selection was already idle.
pub proof fn lemma_escape_resets<P, R>(state: SelectionState<P, R>)
    ensures
        escape_spec(state).0 is Idle,
        escape_spec(state).1 <==> state is Idle,
{
}

/// From any state, a second Escape closes the overlay.
pub proof fn lemma_second_escape_closes<P, R>(state: SelectionState<P, R>)
    ensures
        escape_spec(escape_spec(state).0).1,
{
}

/// Pressing again while drawing or selected changes nothing; only an idle
/// selection starts drawing.
pub proof fn lemma_press_only_starts_from_idle<P, R>(state: SelectionState<P, R>, a: P, b: P)
    ensures
        press_spec(press_spec(state, a), b) == press_spec(state, a),
        state is Idle ==> (press_spec(state, a) == (SelectionState::<P, R>::Drawing { start: a })),
{
}

/// An input event of the overlay.
#[derive(Debug, Clone, Copy, PartialEq)]
pub enum OverlayEvent<P> {
    /// Escape key — exits if Idle, resets to Idle if Drawing or Selected.
    EscapePressed,
    /// Left mouse button pressed.
    MousePressed,
    /// Left mouse button released.
    MouseReleased,
    /// Cursor moved to a new position.
    CursorMoved(P),
    /// Any other event; ignored.
    Other,
}

/// What the overlay should do after an event.
#[derive(Debug, Clone, Copy, PartialEq, Eq, Structural)]
pub enum OverlayAction {
    /// Keep running.
    Continue,
    /// Close all overlay surfaces.
    Exit,
}

/// State shared across all overlay surfaces.
#[derive(Debug, Clone, Copy, PartialEq)]
pub struct OverlayModel<P, R> {
    pub selection: SelectionState<P, R>,
    pub cursor_pos: P,
}

/// `after` and `action` are what `event` makes of `before`: cursor moves
/// are tracked; a press and a release at the tracked cursor drive the
/// selection; Escape resets it and exits exactly when it was idle; other
/// events change nothing.
pub open spec fn updated<P, R, F: FnOnce(P, P) -> R>(
    before: OverlayModel<P, R>,
    after: OverlayModel<P, R>,
    event: OverlayEvent<P>,
    action: OverlayAction,
    normalize: F,
) -> bool {
    match event {
        OverlayEvent::CursorMoved(pos) => {
            &&& after.cursor_pos == pos
            &&& after.selection == before.selection
            &&& action == OverlayAction::Continue
        },
        OverlayEvent::MousePressed => {
            &&& after.cursor_pos == before.cursor_pos
            &&& after.selection == press_spec(before.selection, before.cursor_pos)
            &&& action == OverlayAction::Continue
        },
        OverlayEvent::MouseReleased => {
            &&& after.cursor_pos == before.cursor_pos
            &&& action == OverlayAction::Continue
            &&& match before.selection {
                SelectionState::Drawing { start } => match after.selection {
                    SelectionState::Selected { rect } => normalize.ensures(
                        (start, before.cursor_pos),
                        rect,
                    ),
                    _ => false,
                },
                _ => after.selection == before.selection,
            }
        },
        OverlayEvent::EscapePressed => {
            &&& after.cursor_pos == before.cursor_pos
            &&& after.selection == escape_spec(before.selection).0
            &&& (action == OverlayAction::Exit <==> escape_spec(before.selection).1)
        },
        OverlayEvent::Other => after == before && action == OverlayAction::Continue,
    }
}

/// Where each state of the overlay comes from: a selection appears only by
/// releasing a drag, a drag starts only by pressing while idle, and the
/// overlay exits only on Escape while idle, staying idle.
pub proof fn lemma_update_origins<P, R, F: FnOnce(P, P) -> R>(
    before: OverlayModel<P, R>,
    after: OverlayModel<P, R>,
    event: OverlayEvent<P>,
    action: OverlayAction,
    normalize: F,
)
    requires
        updated(before, after, event, action, normalize),
    ensures
        after.selection is Selected && !(before.selection is Selected) ==> event is MouseReleased
            && before.selection is Drawing,
        after.selection is Drawing && !(before.selection is Drawing) ==> event is MousePressed
            && before.selection is Idle,
        action == OverlayAction::Exit ==> event is EscapePressed && before.selection is Idle
            && after.selection is Idle,
{
}

impl<P: Copy, R> OverlayModel<P, R> {
    /// A fresh overlay: idle, with the cursor at `origin`.
    pub fn new(origin: P) -> (model: Self)
        ensures
            model.selection is Idle,
            model.cursor_pos == origin,
    {
        OverlayModel { selection: SelectionState::Idle, cursor_pos: origin }
    }

    /// Apply one input event. Cursor moves are tracked; a press and a
    /// release at the tracked cursor position drive the selection; Escape
    /// resets the selection, or asks to exit when it is already idle.
    pub fn update<F: FnOnce(P, P) -> R>(&mut self, event: OverlayEvent<P>, normalize: F) -> (action:
        OverlayAction)
        requires
            old(self).selection matches SelectionState::Drawing { start } ==> normalize.requires(
                (start, old(self).cursor_pos),
            ),
        ensures
            updated(*old(self), *final(self), event, action, normalize),
    {
        match event {
            OverlayEvent::CursorMoved(pos) => {
                self.cursor_pos = pos;
                OverlayAction::Continue
            },
            OverlayEvent::MousePressed => {
                let mut selection = SelectionState::Idle;
                std::mem::swap(&mut selection, &mut self.selection);
                self.selection = apply_press(selection, self.cursor_pos);
                OverlayAction::Continue
            },
            OverlayEvent::MouseReleased => {
                let mut selection = SelectionState::Idle;
                std::mem::swap(&mut selection, &mut self.selection);
                self.selection = apply_release(selection, self.cursor_pos, normalize);
                OverlayAction::Continue
            },
            OverlayEvent::EscapePressed => {
                let mut selection = SelectionState::Idle;
                std::mem::swap(&mut selection, &mut self.selection);
                let (next, close) = apply_escape(selection);
                self.selection = next;
                if close {
                    OverlayAction::Exit
                } else {
                    OverlayAction::Continue
                }
            },
            OverlayEvent::Other => OverlayAction::Continue,
        }
    }
}

/// `p` is where the cursor started or a position it moved to during `events`.
pub open spec fn seen_position<P>(origin: P, events: Seq<OverlayEvent<P>>, p: P) -> bool {
    p == origin || exists|j: int|
        0 <= j < events.len() && #[trigger] events[j] == OverlayEvent::CursorMoved(p)
}

/// `models` and `actions` are a run of the overlay over `events`: it
/// starts fresh with the cursor at `origin`, and each event takes one model
/// to the next as [`OverlayModel::update`] does.
pub open spec fn is_run<P, R, F: FnOnce(P, P) -> R>(
    origin: P,
    events: Seq<OverlayEvent<P>>,
    models: Seq<OverlayModel<P, R>>,
    actions: Seq<OverlayAction>,
    normalize: F,
) -> bool {
    &&& models.len() == events.len() + 1
    &&& actions.len() == events.len()
    &&& models[0] == (OverlayModel { selection: SelectionState::<P, R>::Idle, cursor_pos: origin })
    &&& forall|i: int|
        0 <= i < events.len() ==> updated(
            #[trigger] models[i],
            models[i + 1],
            events[i],
            actions[i],
            normalize,
        )
}

/// What holds of every state the overlay reaches after `events`: the
/// cursor is at a position it has been at; a drag started at such a
/// position; a selection is what `normalize` made of two such positions.
pub open spec fn reachable_state<P, R, F: FnOnce(P, P) -> R>(
    origin: P,
    events: Seq<OverlayEvent<P>>,
    model: OverlayModel<P, R>,
    normalize: F,
) -> bool {
    &&& seen_position(origin, events, model.cursor_pos)
    &&& match model.selection {
        SelectionState::Idle => true,
        SelectionState::Drawing { start } => seen_position(origin, events, start),
        SelectionState::Selected { rect } => exists|a: P, b: P|
            #![trigger normalize.ensures((a, b), rect)]
            seen_position(origin, events, a) && seen_position(origin, events, b) && normalize.ensures(
                (a, b),
                rect,
            ),
    }
}

/// A position seen during the first `n` events is still seen after more.
proof fn lemma_seen_grows<P>(origin: P, events: Seq<OverlayEvent<P>>, n: int, p: P)
    requires
        0 <= n < events.len(),
        seen_position(origin, events.take(n), p),
    ensures
        seen_position(origin, events.take(n + 1), p),
{
    if p != origin {
        let j = choose|j: int|
            0 <= j < events.take(n).len() && #[trigger] events.take(n)[j]
                == OverlayEvent::CursorMoved(p);
        assert(events.take(n + 1)[j] == OverlayEvent::CursorMoved(p));
    }
}

/// The state after the first `n` events of a run is reachable.
proof fn lemma_reachable_prefix<P, R, F: FnOnce(P, P) -> R>(
    origin: P,
    events: Seq<OverlayEvent<P>>,
    models: Seq<OverlayModel<P, R>>,
    actions: Seq<OverlayAction>,
    normalize: F,
    n: int,
)
    requires
        is_run(origin, events, models, actions, normalize),
        0 <= n <= events.len(),
    ensures
        reachable_state(origin, events.take(n), models[n], normalize),
    decreases n,
{
    if n > 0 {
        let k = n - 1;
        lemma_reachable_prefix(origin, events, models, actions, normalize, k);
        let before = models[k];
        let after = models[n];
        let prefix = events.take(k);
        let longer = events.take(n);
        assert(updated(before, after, events[k], actions[k], normalize));
        lemma_seen_grows(origin, events, k, before.cursor_pos);
        match events[k] {
            OverlayEvent::CursorMoved(pos) => {
                assert(longer[k] == OverlayEvent::CursorMoved(pos));
                assert(seen_position(origin, longer, pos));
            },
            _ => {},
        }
        match before.selection {
            SelectionState::Drawing { start } => {
                lemma_seen_grows(origin, events, k, start);
            },
            SelectionState::Selected { rect } => {
                let (a, b) = choose|a: P, b: P|
                    #![trigger normalize.ensures((a, b), rect)]
                    seen_position(origin, prefix, a) && seen_position(origin, prefix, b)
                        && normalize.ensures((a, b), rect);
                lemma_seen_grows(origin, events, k, a);
                lemma_seen_grows(origin, events, k, b);
            },
            SelectionState::Idle => {},
        }
        match after.selection {
            SelectionState::Selected { rect } => {
                if !(before.selection is Selected) {
                    let start = before.selection->start;
                    lemma_seen_grows(origin, events, k, start);
                    assert(normalize.ensures((start, before.cursor_pos), rect));
                }
            },
            _ => {},
        }
    } else {
        assert(events.take(0).len() == 0);
    }
}

/// Every state a run of the overlay reaches is reachable in the sense of
/// [`reachable_state`], and the overlay exits only on Escape while idle,
/// staying idle.
pub proof fn lemma_reachable_states<P, R, F: FnOnce(P, P) -> R>(
    origin: P,
    events: Seq<OverlayEvent<P>>,
    models: Seq<OverlayModel<P, R>>,
    actions: Seq<OverlayAction>,
    normalize: F,
)
    requires
        is_run(origin, events, models, actions, normalize),
    ensures
        forall|i: int|
            0 <= i <= events.len() ==> reachable_state(
                origin,
                events.take(i),
                #[trigger] models[i],
                normalize,
            ),
        forall|i: int|
            0 <= i < events.len() && #[trigger] actions[i] == OverlayAction::Exit ==> events[i] is EscapePressed
                && models[i].selection is Idle && models[i + 1].selection is Idle,
{
    assert forall|i: int| 0 <= i <= events.len() implies reachable_state(
        origin,
        events.take(i),
        #[trigger] models[i],
        normalize,
    ) by {
        lemma_reachable_prefix(origin, events, models, actions, normalize, i);
    }
    assert forall|i: int|
        0 <= i < events.len() && #[trigger] actions[i] == OverlayAction::Exit implies events[i] is EscapePressed
            && models[i].selection is Idle && models[i + 1].selection is Idle by {
        assert(updated(models[i], models[i + 1], events[i], actions[i], normalize));
    }
}

} // verus!
