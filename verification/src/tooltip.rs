//! The tooltip of a row: when it opens and when it closes.
//!
//! Times are nanoseconds since a moment before all of them.

use vstd::prelude::*;

use crate::listing::optional_text;

verus! {

/// How long the mouse has to rest before the tooltip opens.
pub const WAIT: u64 = 500_000_000;

/// A timer that has less than this left when the mouse moves is replaced.
pub const RESCHEDULE: u64 = 50_000_000;

/// What the tooltip of a row is doing. `P` is the type of a position of the
/// mouse, `W` that of a window.
#[derive(Debug)]
pub enum TooltipState<P, W> {
    /// The mouse is not over the row, or has not moved over it yet.
    Fresh,
    /// The mouse is over the row and a timer is running.
    Waiting {
        /// When the mouse last moved.
        last_move: u64,
        /// When the timer expires.
        timer_expire: u128,
        /// What tells the timer apart from others.
        token: u64,
        /// Where the mouse was last.
        position: P,
    },
    /// The tooltip is open.
    Showing(W),
}

/// An event that the widget of a row receives.
#[derive(Debug)]
pub enum RowEvent<P> {
    MouseMove(P),
    Timer(u64),
    Other,
}

/// What is to be done about the tooltip after an event.
#[derive(Debug)]
pub enum TooltipAction<P, W> {
    Nothing,
    /// A timer is to be started that expires after `wait`. Once it is running,
    /// the tooltip waits for it.
    StartTimer { wait: u128, last_move: u64, timer_expire: u128, position: P },
    /// The tooltip is to be opened near the position of the mouse.
    Open(P),
    /// The tooltip is to be closed.
    Close(W),
}

/// How the widget of a row reacts to an event.
#[derive(Debug)]
pub struct Reaction<P, W> {
    pub action: TooltipAction<P, W>,
    /// The event is not for anyone else.
    pub handled: bool,
    /// The event goes on to the widget inside.
    pub forward: bool,
}

/// A row has a tooltip if its text is not empty.
pub open spec fn has_tooltip(tooltip: Option<Seq<char>>) -> bool {
    tooltip matches Some(text) && text.len() > 0
}

/// The event is the expiry of the timer for which the tooltip waits.
pub open spec fn timer_is_due<P, W>(state: TooltipState<P, W>, event: RowEvent<P>) -> bool {
    state matches TooltipState::Waiting { token, .. } && event matches RowEvent::Timer(expired)
        && expired == token
}

/// What is done about the tooltip of a row that has one.
pub open spec fn action_on<P, W>(
    state: TooltipState<P, W>,
    event: RowEvent<P>,
    hot: bool,
    now: u64,
) -> TooltipAction<P, W> {
    match (state, event) {
        (TooltipState::Fresh, RowEvent::MouseMove(position)) if hot => TooltipAction::StartTimer {
            wait: WAIT as u128,
            last_move: now,
            timer_expire: (now + WAIT) as u128,
            position,
        },
        (
            TooltipState::Waiting { timer_expire, .. },
            RowEvent::MouseMove(position),
        ) if hot && timer_expire - now < RESCHEDULE => TooltipAction::StartTimer {
            wait: WAIT as u128,
            last_move: now,
            timer_expire: (now + WAIT) as u128,
            position,
        },
        (
            TooltipState::Waiting { last_move, token, position, .. },
            RowEvent::Timer(expired),
        ) if expired == token => if last_move + WAIT > now {
            TooltipAction::StartTimer {
                wait: (last_move + WAIT - now) as u128,
                last_move,
                timer_expire: (last_move + WAIT) as u128,
                position,
            }
        } else {
            TooltipAction::Open(position)
        },
        (TooltipState::Showing(window), RowEvent::MouseMove(_)) if !hot => TooltipAction::Close(
            window,
        ),
        _ => TooltipAction::Nothing,
    }
}

/// The state of a tooltip after an event, before a timer has been started or a
/// window been opened on account of it.
pub open spec fn state_after<P, W>(
    state: TooltipState<P, W>,
    event: RowEvent<P>,
    hot: bool,
    now: u64,
) -> TooltipState<P, W> {
    match (state, event) {
        (
            TooltipState::Waiting { timer_expire, token, .. },
            RowEvent::MouseMove(position),
        ) if hot && timer_expire - now >= RESCHEDULE => TooltipState::Waiting {
            last_move: now,
            timer_expire,
            token,
            position,
        },
        (TooltipState::Showing(_), RowEvent::MouseMove(_)) if !hot => TooltipState::Fresh,
        _ => state,
    }
}

/// How the widget of a row reacts to an event. A row without a tooltip just
/// passes it through.
pub open spec fn reaction_to<P, W>(
    tooltip: Option<Seq<char>>,
    state: TooltipState<P, W>,
    event: RowEvent<P>,
    hot: bool,
    already_handled: bool,
    now: u64,
) -> Reaction<P, W> {
    if has_tooltip(tooltip) {
        Reaction {
            action: action_on(state, event, hot, now),
            handled: timer_is_due(state, event),
            forward: !already_handled && !timer_is_due(state, event),
        }
    } else {
        Reaction { action: TooltipAction::Nothing, handled: false, forward: true }
    }
}

/// The state after the reaction of a row to an event, before a timer has been
/// started or a window been opened on account of it.
pub open spec fn next_state<P, W>(
    tooltip: Option<Seq<char>>,
    state: TooltipState<P, W>,
    event: RowEvent<P>,
    hot: bool,
    now: u64,
) -> TooltipState<P, W> {
    if has_tooltip(tooltip) {
        state_after(state, event, hot, now)
    } else {
        state
    }
}

/// The text that a tooltip shows, if a row has one.
pub fn tooltip_text(tooltip: &Option<String>) -> (r: Option<&String>)
    ensures
        match r {
            Some(text) => has_tooltip(optional_text(*tooltip)) && optional_text(*tooltip) == Some(
                text@,
            ),
            None => !has_tooltip(optional_text(*tooltip)),
        },
{
    match tooltip {
        Some(text) => {
            if text.as_str().is_empty() {
                None
            } else {
                Some(text)
            }
        },
        None => None,
    }
}

/// Controller that shows a tooltip when hovering over a setting row.
#[derive(Debug)]
pub struct RowTooltipController<P, W> {
    pub state: TooltipState<P, W>,
}

impl<P: Copy, W: Copy> RowTooltipController<P, W> {
    pub fn new() -> (r: Self)
        ensures
            r.state is Fresh,
    {
        RowTooltipController { state: TooltipState::Fresh }
    }

    /// Reacts to an event at the time `now`. `hot` tells whether the mouse is
    /// over the row, `already_handled` whether another widget has handled the
    /// event.
    ///
    /// A timer or a window that the reaction asks for is then to be reported
    /// with `timer_started` or `opened`.
    pub fn event(
        &mut self,
        tooltip: &Option<String>,
        event: RowEvent<P>,
        hot: bool,
        already_handled: bool,
        now: u64,
    ) -> (r: Reaction<P, W>)
        ensures
            r == reaction_to(
                optional_text(*tooltip),
                old(self).state,
                event,
                hot,
                already_handled,
                now,
            ),
            final(self).state == next_state(
                optional_text(*tooltip),
                old(self).state,
                event,
                hot,
                now,
            ),
    {
        if tooltip_text(tooltip).is_none() {
            // No tooltip, just pass through
            return Reaction { action: TooltipAction::Nothing, handled: false, forward: true };
        }
        let wait_duration: u128 = WAIT as u128;
        let mut handled = false;
        let mut action: TooltipAction<P, W> = TooltipAction::Nothing;
        match self.state {
            TooltipState::Fresh => {
                if let RowEvent::MouseMove(mouse) = event {
                    if hot {
                        action = TooltipAction::StartTimer {
                            wait: wait_duration,
                            last_move: now,
                            timer_expire: now as u128 + wait_duration,
                            position: mouse,
                        };
                    }
                }
            },
            TooltipState::Waiting { last_move, timer_expire, token, position } => {
                match event {
                    RowEvent::MouseMove(mouse) => {
                        if hot {
                            if timer_expire.saturating_sub(now as u128) < RESCHEDULE as u128 {
                                action = TooltipAction::StartTimer {
                                    wait: wait_duration,
                                    last_move: now,
                                    timer_expire: now as u128 + wait_duration,
                                    position: mouse,
                                };
                            } else {
                                self.state = TooltipState::Waiting {
                                    last_move: now,
                                    timer_expire,
                                    token,
                                    position: mouse,
                                };
                            }
                        }
                    },
                    RowEvent::Timer(expired) => {
                        if expired == token {
                            let deadline: u128 = last_move as u128 + wait_duration;
                            handled = true;
                            if deadline > now as u128 {
                                action = TooltipAction::StartTimer {
                                    wait: deadline - now as u128,
                                    last_move,
                                    timer_expire: deadline,
                                    position,
                                };
                            } else {
                                action = TooltipAction::Open(position);
                            }
                        }
                    },
                    RowEvent::Other => {},
                }
            },
            TooltipState::Showing(window) => {
                if let RowEvent::MouseMove(_) = event {
                    if !hot {
                        action = TooltipAction::Close(window);
                        self.state = TooltipState::Fresh;
                    }
                }
            },
        }
        Reaction { action, handled, forward: !already_handled && !handled }
    }

    /// The timer that a reaction asked for is running: waits for it.
    pub fn timer_started(&mut self, last_move: u64, timer_expire: u128, position: P, token: u64)
        ensures
            final(self).state == (TooltipState::<P, W>::Waiting {
                last_move,
                timer_expire,
                token,
                position,
            }),
    {
        self.state = TooltipState::Waiting { last_move, timer_expire, token, position };
    }

    /// The window that a reaction asked for is open.
    pub fn opened(&mut self, window: W)
        ensures
            final(self).state == TooltipState::<P, W>::Showing(window),
    {
        self.state = TooltipState::Showing(window);
    }

    /// The mouse has left the row: closes the tooltip if it is open. Returns
    /// the window to close.
    pub fn left(&mut self) -> (r: Option<W>)
        ensures
            final(self).state is Fresh,
            r == match old(self).state {
                TooltipState::Showing(window) => Some(window),
                _ => None,
            },
    {
        let open = match self.state {
            TooltipState::Showing(window) => Some(window),
            _ => None,
        };
        self.state = TooltipState::Fresh;
        open
    }
}

/// The timer expires at most `WAIT` after the mouse last moved.
pub open spec fn timer_is_not_late<P, W>(state: TooltipState<P, W>) -> bool {
    state matches TooltipState::Waiting { last_move, timer_expire, .. } ==> timer_expire
        <= last_move + WAIT
}

/// The timer expires at least `RESCHEDULE` after the mouse last moved.
pub open spec fn timer_is_not_early<P, W>(state: TooltipState<P, W>) -> bool {
    state matches TooltipState::Waiting { last_move, timer_expire, .. } ==> last_move + RESCHEDULE
        <= timer_expire
}

/// The mouse has not moved after the time `now`.
pub open spec fn moved_by<P, W>(state: TooltipState<P, W>, now: u64) -> bool {
    state matches TooltipState::Waiting { last_move, .. } ==> last_move <= now
}

/// A tooltip that waits does so for the timer with the given token.
pub open spec fn waits_only_for<P, W>(state: TooltipState<P, W>, latest: u64) -> bool {
    state matches TooltipState::Waiting { token, .. } ==> token == latest
}

/// The state once the timer that an action asks for is running, under the
/// given token, or the given window is open.
pub open spec fn settled<P, W>(
    state: TooltipState<P, W>,
    action: TooltipAction<P, W>,
    token: u64,
    window: W,
) -> TooltipState<P, W> {
    match action {
        TooltipAction::StartTimer { last_move, timer_expire, position, .. } =>
            TooltipState::Waiting { last_move, timer_expire, token, position },
        TooltipAction::Open(_) => TooltipState::Showing(window),
        _ => state,
    }
}

/// A tooltip opens exactly when there is one to show, the timer for which it
/// waits expires, and the mouse has rested for as long as it has to. It opens
/// where the mouse came to rest, is then known to be open, and the event is not
/// for anyone else.
pub proof fn law_opens_after_rest<P, W>(
    tooltip: Option<Seq<char>>,
    state: TooltipState<P, W>,
    event: RowEvent<P>,
    hot: bool,
    already_handled: bool,
    now: u64,
    token: u64,
    window: W,
)
    ensures
        ({
            let reaction = reaction_to(tooltip, state, event, hot, already_handled, now);
            let after = settled(
                next_state(tooltip, state, event, hot, now),
                reaction.action,
                token,
                window,
            );
            &&& reaction.action is Open <==> {
                &&& has_tooltip(tooltip)
                &&& state is Waiting
                &&& event == RowEvent::<P>::Timer(state->Waiting_token)
                &&& now >= state->Waiting_last_move + WAIT
            }
            &&& reaction.action is Open ==> {
                &&& reaction.action == TooltipAction::<P, W>::Open(state->Waiting_position)
                &&& after == TooltipState::<P, W>::Showing(window)
                &&& reaction.handled
                &&& !reaction.forward
            }
        }),
{
}

/// When the timer for which the tooltip waits expires before the mouse has
/// rested for long enough, a timer is started that expires as soon as it will
/// have.
pub proof fn law_timer_leads_to_tooltip<P, W>(
    tooltip: Option<Seq<char>>,
    state: TooltipState<P, W>,
    event: RowEvent<P>,
    hot: bool,
    already_handled: bool,
    now: u64,
)
    requires
        has_tooltip(tooltip),
        timer_is_due(state, event),
        now < state->Waiting_last_move + WAIT,
    ensures
        ({
            let action = reaction_to(tooltip, state, event, hot, already_handled, now).action;
            &&& action is StartTimer
            &&& action->wait + now == state->Waiting_last_move + WAIT
            &&& action->StartTimer_last_move == state->Waiting_last_move
            &&& action->StartTimer_position == state->Waiting_position
        }),
{
}

/// A window that is open stays known until it is asked to be closed, and no
/// other window is ever asked to be closed.
pub proof fn law_no_window_is_lost<P, W>(
    tooltip: Option<Seq<char>>,
    state: TooltipState<P, W>,
    event: RowEvent<P>,
    hot: bool,
    already_handled: bool,
    now: u64,
)
    ensures
        ({
            let action = reaction_to(tooltip, state, event, hot, already_handled, now).action;
            let after = next_state(tooltip, state, event, hot, now);
            match (state, action) {
                (TooltipState::Showing(window), TooltipAction::Close(closed)) => {
                    &&& closed == window
                    &&& after is Fresh
                },
                (TooltipState::Showing(_), TooltipAction::Nothing) => after == state,
                (TooltipState::Showing(_), _) => false,
                (_, TooltipAction::Close(_)) => false,
                _ => true,
            }
        }),
{
}

/// A timer that is started expires at the time that is noted for it, and not
/// at once. If time does not run backwards, it runs for `WAIT` at most.
pub proof fn law_expiry_is_noted<P, W>(
    tooltip: Option<Seq<char>>,
    state: TooltipState<P, W>,
    event: RowEvent<P>,
    hot: bool,
    already_handled: bool,
    now: u64,
)
    ensures
        reaction_to(tooltip, state, event, hot, already_handled, now).action matches
            TooltipAction::StartTimer { wait, timer_expire, .. } ==> {
            &&& timer_expire == now + wait
            &&& wait > 0
            &&& moved_by(state, now) ==> wait <= WAIT
        },
{
}

/// While the tooltip waits, its timer expires at the latest when the tooltip
/// may open, and is the one that was started last. Time does not run backwards.
pub proof fn law_waits_for_the_latest_timer<P, W>(
    tooltip: Option<Seq<char>>,
    state: TooltipState<P, W>,
    event: RowEvent<P>,
    hot: bool,
    already_handled: bool,
    now: u64,
    latest: u64,
    token: u64,
    window: W,
)
    requires
        timer_is_not_late(state),
        moved_by(state, now),
        waits_only_for(state, latest),
    ensures
        ({
            let action = reaction_to(tooltip, state, event, hot, already_handled, now).action;
            let after = settled(
                next_state(tooltip, state, event, hot, now),
                action,
                token,
                window,
            );
            &&& timer_is_not_late(after)
            &&& moved_by(after, now)
            &&& waits_only_for(
                after,
                if action is StartTimer {
                    token
                } else {
                    latest
                },
            )
        }),
{
}

/// While the tooltip waits, its timer does not expire too soon after the last
/// move of the mouse.
pub proof fn law_timer_is_not_early<P, W>(
    tooltip: Option<Seq<char>>,
    state: TooltipState<P, W>,
    event: RowEvent<P>,
    hot: bool,
    already_handled: bool,
    now: u64,
    token: u64,
    window: W,
)
    requires
        timer_is_not_early(state),
    ensures
        timer_is_not_early(
            settled(
                next_state(tooltip, state, event, hot, now),
                reaction_to(tooltip, state, event, hot, already_handled, now).action,
                token,
                window,
            ),
        ),
{
}

/// Timers other than the one for which the tooltip waits change nothing.
pub proof fn law_stale_timers_are_ignored<P, W>(
    tooltip: Option<Seq<char>>,
    state: TooltipState<P, W>,
    event: RowEvent<P>,
    hot: bool,
    already_handled: bool,
    now: u64,
)
    requires
        event is Timer,
        !timer_is_due(state, event),
    ensures
        reaction_to(tooltip, state, event, hot, already_handled, now).action is Nothing,
        !reaction_to(tooltip, state, event, hot, already_handled, now).handled,
        next_state(tooltip, state, event, hot, now) == state,
{
}

/// A row has a tooltip if and only if there is a text for it that is not empty.
pub proof fn law_has_tooltip(text: Seq<char>)
    ensures
        has_tooltip(Some(text)) <==> text.len() > 0,
        !has_tooltip(None),
{
}

/// The mouse has to rest for half a second. A timer that expires in less than
/// fifty milliseconds is replaced when the mouse moves.
pub proof fn law_durations()
    ensures
        WAIT == 500 * 1_000_000,
        RESCHEDULE == 50 * 1_000_000,
{
}

/// A move of the mouse over a row that has a tooltip, which is not open, is
/// noted, with its time and place, and a timer is running afterwards.
pub proof fn law_moves_are_noted<P, W>(
    text: Seq<char>,
    state: TooltipState<P, W>,
    place: P,
    already_handled: bool,
    now: u64,
    token: u64,
    window: W,
)
    requires
        text.len() > 0,
        !(state is Showing),
    ensures
        ({
            let event = RowEvent::<P>::MouseMove(place);
            let after = settled(
                next_state(Some(text), state, event, true, now),
                reaction_to(Some(text), state, event, true, already_handled, now).action,
                token,
                window,
            );
            &&& after is Waiting
            &&& after->last_move == now
            &&& after->position == place
        }),
{
}

/// When the mouse moves over a row that has a tooltip, a timer for half a
/// second is started if none is running or if the one that is expires in less
/// than fifty milliseconds. Else the one that is running is kept.
pub proof fn law_timers_are_kept_or_replaced<P, W>(
    text: Seq<char>,
    state: TooltipState<P, W>,
    place: P,
    already_handled: bool,
    now: u64,
)
    requires
        text.len() > 0,
        !(state is Showing),
    ensures
        ({
            let event = RowEvent::<P>::MouseMove(place);
            let action = reaction_to(Some(text), state, event, true, already_handled, now).action;
            let after = next_state(Some(text), state, event, true, now);
            if state is Fresh || state->timer_expire < now + 50_000_000 {
                &&& action is StartTimer
                &&& action->wait == 500_000_000
                &&& action->StartTimer_timer_expire == now + 500_000_000
            } else {
                &&& action is Nothing
                &&& after is Waiting
                &&& after->token == state->token
                &&& after->timer_expire == state->timer_expire
            }
        }),
{
}

/// While a tooltip is open, it is closed by a move of the mouse elsewhere, and
/// by no other event.
pub proof fn law_closes_when_the_mouse_is_elsewhere<P, W>(
    text: Seq<char>,
    window: W,
    event: RowEvent<P>,
    hot: bool,
    already_handled: bool,
    now: u64,
)
    requires
        text.len() > 0,
    ensures
        ({
            let state = TooltipState::<P, W>::Showing(window);
            let action = reaction_to(Some(text), state, event, hot, already_handled, now).action;
            let after = next_state(Some(text), state, event, hot, now);
            if event is MouseMove && !hot {
                action == TooltipAction::<P, W>::Close(window) && after is Fresh
            } else {
                action is Nothing && after == state
            }
        }),
{
}

/// Moves of the mouse elsewhere do not disturb a tooltip that is not open, nor
/// do events that are neither moves nor timers disturb any.
pub proof fn law_other_events_are_ignored<P, W>(
    tooltip: Option<Seq<char>>,
    state: TooltipState<P, W>,
    event: RowEvent<P>,
    hot: bool,
    already_handled: bool,
    now: u64,
)
    requires
        event is Other || event is MouseMove && !hot && !(state is Showing),
    ensures
        reaction_to(tooltip, state, event, hot, already_handled, now).action is Nothing,
        next_state(tooltip, state, event, hot, now) == state,
{
}

/// Events of a row without a tooltip are passed on and change nothing.
pub proof fn law_rows_without_tooltip_pass_events_on<P, W>(
    tooltip: Option<Seq<char>>,
    state: TooltipState<P, W>,
    event: RowEvent<P>,
    hot: bool,
    already_handled: bool,
    now: u64,
)
    requires
        tooltip matches Some(text) ==> text.len() == 0,
    ensures
        reaction_to(tooltip, state, event, hot, already_handled, now).action is Nothing,
        reaction_to(tooltip, state, event, hot, already_handled, now).forward,
        !reaction_to(tooltip, state, event, hot, already_handled, now).handled,
        next_state(tooltip, state, event, hot, now) == state,
{
}

/// A row that has a tooltip keeps to itself exactly the expiry of the timer for
/// which the tooltip waits. It passes on all other events that nobody has
/// handled.
pub proof fn law_only_the_timer_is_handled<P, W>(
    text: Seq<char>,
    state: TooltipState<P, W>,
    event: RowEvent<P>,
    hot: bool,
    already_handled: bool,
    now: u64,
)
    requires
        text.len() > 0,
    ensures
        ({
            let reaction = reaction_to(Some(text), state, event, hot, already_handled, now);
            &&& reaction.handled <==> state is Waiting && event == RowEvent::<P>::Timer(
                state->token,
            )
            &&& reaction.forward <==> !already_handled && !reaction.handled
        }),
{
}

/// One thing that happens to a row.
pub enum Step<P, W> {
    /// An event is received at the time `now`. If a timer is then asked for, it
    /// gets the given token; if a window is, it is the given one.
    Received { event: RowEvent<P>, hot: bool, now: u64, token: u64, window: W },
    /// The mouse leaves the row.
    Left,
}

/// The state of a tooltip with the given text after the first `n` steps.
pub open spec fn state_at<P, W>(text: Seq<char>, steps: Seq<Step<P, W>>, n: int) -> TooltipState<
    P,
    W,
>
    decreases n,
{
    if n <= 0 {
        TooltipState::Fresh
    } else {
        let state = state_at(text, steps, n - 1);
        match steps[n - 1] {
            Step::Received { event, hot, now, token, window } => settled(
                next_state(Some(text), state, event, hot, now),
                reaction_to(Some(text), state, event, hot, false, now).action,
                token,
                window,
            ),
            Step::Left => TooltipState::Fresh,
        }
    }
}

/// A step is a move of the mouse over the row.
pub open spec fn is_move<P, W>(step: Step<P, W>) -> bool {
    step matches Step::Received { event, hot, .. } && event is MouseMove && hot
}

proof fn lemma_last_move<P, W>(text: Seq<char>, steps: Seq<Step<P, W>>, n: int)
    requires
        text.len() > 0,
        0 <= n <= steps.len(),
        forall|i: int, j: int|
            0 <= i < j < n && steps[i] is Received && steps[j] is Received ==> (
            #[trigger] steps[i])->now <= (#[trigger] steps[j])->now,
    ensures
        state_at(text, steps, n) matches TooltipState::Waiting { last_move, .. } ==> forall|k: int|
            0 <= k < n && is_move(#[trigger] steps[k]) ==> steps[k]->now <= last_move,
    decreases n,
{
    if n > 0 {
        lemma_last_move(text, steps, n - 1);
    }
}

/// Whatever has happened to a row before, its tooltip opens only if the mouse
/// has not moved over the row in the last half second. Time does not run
/// backwards.
pub proof fn law_never_opens_while_the_mouse_moves<P, W>(
    text: Seq<char>,
    steps: Seq<Step<P, W>>,
    n: int,
    k: int,
)
    requires
        text.len() > 0,
        0 <= k < n < steps.len(),
        forall|i: int, j: int|
            0 <= i < j <= n && steps[i] is Received && steps[j] is Received ==> (
            #[trigger] steps[i])->now <= (#[trigger] steps[j])->now,
        steps[k] is Received,
        steps[k]->event is MouseMove,
        steps[k]->hot,
        steps[n] is Received,
        reaction_to(
            Some(text),
            state_at(text, steps, n),
            steps[n]->event,
            steps[n]->hot,
            false,
            steps[n]->now,
        ).action is Open,
    ensures
        steps[k]->now + 500_000_000 <= steps[n]->now,
{
    lemma_last_move(text, steps, n);
    assert(is_move(steps[k]));
}

/// The tooltip of a row over which the mouse came to rest opens: if no other
/// event comes than timers, the first one that is due opens it or is replaced
/// by one that is due when the mouse has rested for half a second.
pub proof fn law_opens_in_the_end<P, W>(
    text: Seq<char>,
    state: TooltipState<P, W>,
    hot: bool,
    now: u64,
    token: u64,
    window: W,
    later: u64,
)
    requires
        text.len() > 0,
        state is Waiting,
    ensures
        ({
            let due = RowEvent::<P>::Timer(state->token);
            let first = reaction_to(Some(text), state, due, hot, false, now).action;
            let after = settled(
                next_state(Some(text), state, due, hot, now),
                first,
                token,
                window,
            );
            if state->last_move + 500_000_000 <= now {
                first == TooltipAction::<P, W>::Open(state->position)
            } else {
                &&& after is Waiting
                &&& after->token == token
                &&& after->timer_expire == state->last_move + 500_000_000
                &&& later >= after->timer_expire ==> reaction_to(
                    Some(text),
                    after,
                    RowEvent::<P>::Timer(token),
                    hot,
                    false,
                    later,
                ).action == TooltipAction::<P, W>::Open(state->position)
            }
        }),
{
}

/// Once a timer that is asked for is running, the tooltip waits for it, as it
/// was asked for. Once a window that is asked for is open, the tooltip shows in
/// it. Else nothing changes.
pub proof fn law_settled<P, W>(
    state: TooltipState<P, W>,
    action: TooltipAction<P, W>,
    token: u64,
    window: W,
)
    ensures
        match action {
            TooltipAction::StartTimer { last_move, timer_expire, position, .. } => settled(
                state,
                action,
                token,
                window,
            ) == (TooltipState::<P, W>::Waiting { last_move, timer_expire, token, position }),
            TooltipAction::Open(_) => settled(state, action, token, window) == TooltipState::<
                P,
                W,
            >::Showing(window),
            _ => settled(state, action, token, window) == state,
        },
{
}

/// An event after which a timer or a window is asked for leaves the state as it
/// was until that one is there.
pub proof fn law_waits_for_what_was_asked_for<P, W>(
    tooltip: Option<Seq<char>>,
    state: TooltipState<P, W>,
    event: RowEvent<P>,
    hot: bool,
    already_handled: bool,
    now: u64,
)
    ensures
        ({
            let action = reaction_to(tooltip, state, event, hot, already_handled, now).action;
            action is StartTimer || action is Open ==> next_state(tooltip, state, event, hot, now)
                == state
        }),
{
}

} // verus!
