//! When the tooltip of a row opens and closes.

use autosplitter_editor::tooltip::{
    tooltip_text, Reaction, RowEvent, RowTooltipController, TooltipAction, TooltipState,
    RESCHEDULE, WAIT,
};

type Controller = RowTooltipController<(i32, i32), u32>;

const MS: u64 = 1_000_000;

fn wide(time: u64) -> u128 {
    u128::from(time)
}

fn tooltip() -> Option<String> {
    Some("help".to_string())
}

fn on(
    controller: &mut Controller,
    event: RowEvent<(i32, i32)>,
    hot: bool,
    now: u64,
) -> Reaction<(i32, i32), u32> {
    controller.event(&tooltip(), event, hot, false, now)
}

/// A controller that waits for the timer 1, which was started at the time 0.
fn waiting() -> Controller {
    let mut controller = Controller::new();
    match on(&mut controller, RowEvent::MouseMove((3, 4)), true, 0).action {
        TooltipAction::StartTimer {
            wait,
            last_move,
            timer_expire,
            position,
        } => {
            assert_eq!((wait, last_move, timer_expire), (wide(WAIT), 0, wide(WAIT)));
            assert_eq!(position, (3, 4));
            controller.timer_started(last_move, timer_expire, position, 1);
        }
        other => panic!("{:?}", other),
    }
    controller
}

fn describe(controller: &Controller) -> String {
    format!("{:?}", controller.state)
}

#[test]
fn durations() {
    assert_eq!(WAIT, 500 * MS);
    assert_eq!(RESCHEDULE, 50 * MS);
}

#[test]
fn rows_without_tooltip_pass_events_on() {
    let mut controller = Controller::new();
    for tooltip in [None, Some(String::new())] {
        let reaction = controller.event(&tooltip, RowEvent::MouseMove((0, 0)), true, true, u64::MAX);
        assert!(matches!(reaction.action, TooltipAction::Nothing));
        assert!(reaction.forward);
        assert!(!reaction.handled);
        assert!(matches!(controller.state, TooltipState::Fresh));
    }
}

#[test]
fn nothing_happens_while_the_mouse_is_elsewhere() {
    let mut controller = Controller::new();
    for event in [RowEvent::MouseMove((0, 0)), RowEvent::Timer(1), RowEvent::Other] {
        let reaction = on(&mut controller, event, false, 0);
        assert!(matches!(reaction.action, TooltipAction::Nothing));
        assert!(matches!(controller.state, TooltipState::Fresh));
        assert!(reaction.forward);
    }
}

#[test]
fn handled_events_are_not_passed_on() {
    let mut controller = Controller::new();
    let reaction = controller.event(&tooltip(), RowEvent::Other, true, true, 0);
    assert!(!reaction.forward);
    assert!(!reaction.handled);
}

#[test]
fn tooltip_opens_when_the_mouse_rests() {
    let mut controller = waiting();
    let reaction = on(&mut controller, RowEvent::Timer(1), true, WAIT);
    assert!(reaction.handled);
    assert!(!reaction.forward);
    assert!(matches!(reaction.action, TooltipAction::Open((3, 4))));
    controller.opened(9);
    assert_eq!(describe(&controller), "Showing(9)");
}

#[test]
fn tooltip_waits_on_if_the_mouse_moved() {
    let mut controller = waiting();
    let reaction = on(&mut controller, RowEvent::MouseMove((5, 6)), true, 200 * MS);
    assert!(matches!(reaction.action, TooltipAction::Nothing));
    assert!(reaction.forward);
    assert_eq!(
        describe(&controller),
        "Waiting { last_move: 200000000, timer_expire: 500000000, token: 1, position: (5, 6) }"
    );
    match on(&mut controller, RowEvent::Timer(1), true, 500 * MS).action {
        TooltipAction::StartTimer {
            wait,
            last_move,
            timer_expire,
            position,
        } => {
            assert_eq!(wait, wide(200 * MS));
            assert_eq!(last_move, 200 * MS);
            assert_eq!(timer_expire, wide(700 * MS));
            controller.timer_started(last_move, timer_expire, position, 2);
        }
        other => panic!("{:?}", other),
    }
    let reaction = on(&mut controller, RowEvent::Timer(2), true, 700 * MS);
    assert!(matches!(reaction.action, TooltipAction::Open((5, 6))));
}

#[test]
fn timer_that_is_about_to_expire_is_replaced() {
    for (now, replaced) in [
        (450 * MS, false),
        (450 * MS + 1, true),
        (499 * MS, true),
        (600 * MS, true),
    ] {
        let mut controller = waiting();
        let reaction = on(&mut controller, RowEvent::MouseMove((7, 8)), true, now);
        match reaction.action {
            TooltipAction::StartTimer {
                wait,
                last_move,
                timer_expire,
                position,
            } => {
                assert!(replaced);
                assert_eq!(
                    (wait, last_move, timer_expire),
                    (wide(WAIT), now, wide(now + WAIT))
                );
                assert_eq!(position, (7, 8));
            }
            TooltipAction::Nothing => assert!(!replaced),
            other => panic!("{:?}", other),
        }
    }
}

#[test]
fn stale_timers_are_ignored() {
    let mut controller = waiting();
    let before = describe(&controller);
    let reaction = on(&mut controller, RowEvent::Timer(2), true, 600 * MS);
    assert!(matches!(reaction.action, TooltipAction::Nothing));
    assert!(!reaction.handled);
    assert!(reaction.forward);
    assert_eq!(describe(&controller), before);
}

#[test]
fn moves_elsewhere_do_not_disturb_the_wait() {
    let mut controller = waiting();
    let before = describe(&controller);
    on(&mut controller, RowEvent::MouseMove((1, 1)), false, 100 * MS);
    assert_eq!(describe(&controller), before);
}

#[test]
fn tooltip_closes_when_the_mouse_moves_away() {
    let mut controller = waiting();
    controller.opened(9);
    let reaction = on(&mut controller, RowEvent::MouseMove((0, 0)), true, u64::MAX);
    assert!(matches!(reaction.action, TooltipAction::Nothing));
    assert_eq!(describe(&controller), "Showing(9)");
    let reaction = on(&mut controller, RowEvent::MouseMove((0, 0)), false, WAIT);
    assert!(matches!(reaction.action, TooltipAction::Close(9)));
    assert!(matches!(controller.state, TooltipState::Fresh));
    assert!(reaction.forward);
}

#[test]
fn leaving_closes_what_is_open() {
    let mut controller = waiting();
    assert_eq!(controller.left(), None);
    assert!(matches!(controller.state, TooltipState::Fresh));
    controller.opened(9);
    assert_eq!(controller.left(), Some(9));
    assert!(matches!(controller.state, TooltipState::Fresh));
}

#[test]
fn timer_stays_in_range_of_the_last_move() {
    let mut controller = waiting();
    let mut token = 1;
    for step in 1..60u64 {
        let now = step * 37 * MS;
        let event = if step % 7 == 0 {
            RowEvent::Timer(token)
        } else {
            RowEvent::MouseMove((step as i32, 0))
        };
        match on(&mut controller, event, true, now).action {
            TooltipAction::StartTimer {
                wait,
                last_move,
                timer_expire,
                position,
            } => {
                assert_eq!(timer_expire, wide(now) + wait);
                token += 1;
                controller.timer_started(last_move, timer_expire, position, token);
            }
            TooltipAction::Open(_) => panic!("the mouse never rests"),
            _ => {}
        }
        match controller.state {
            TooltipState::Waiting {
                last_move,
                timer_expire,
                ..
            } => {
                assert!(wide(last_move + RESCHEDULE) <= timer_expire);
                assert!(timer_expire <= wide(last_move + WAIT));
            }
            _ => panic!("{}", describe(&controller)),
        }
    }
}

#[test]
fn waiting_at_the_end_of_time() {
    let mut controller = Controller::new();
    match on(&mut controller, RowEvent::MouseMove((1, 2)), true, u64::MAX).action {
        TooltipAction::StartTimer {
            wait,
            last_move,
            timer_expire,
            position,
        } => {
            assert_eq!(timer_expire, wide(u64::MAX) + wide(WAIT));
            assert_eq!((wait, last_move, position), (wide(WAIT), u64::MAX, (1, 2)));
            controller.timer_started(last_move, timer_expire, position, 5);
        }
        other => panic!("{:?}", other),
    }
    match on(&mut controller, RowEvent::Timer(5), true, 0).action {
        TooltipAction::StartTimer { wait, .. } => {
            assert_eq!(wait, wide(u64::MAX) + wide(WAIT));
        }
        other => panic!("{:?}", other),
    }
}

#[test]
fn empty_tooltips_are_none() {
    assert_eq!(tooltip_text(&tooltip()), Some(&"help".to_string()));
    assert_eq!(tooltip_text(&Some(String::new())), None);
    assert_eq!(tooltip_text(&None), None);
}
