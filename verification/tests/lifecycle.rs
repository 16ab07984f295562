use libremarkable::input::ev::EvDevContext;
use libremarkable::input::keyboard::KeyboardEvent;
use libremarkable::input::{InputDevice, InputEvent, RawInputEvent};

#[test]
fn abc() {
    let evdevctx = EvDevContext::new(InputDevice::Keyboard);
    assert_eq!(evdevctx.started(), false);
}

#[test]
fn started_after_successful_start() {
    let mut ctx = EvDevContext::new(InputDevice::Wacom);
    assert!(!ctx.started());
    assert!(!ctx.exited());
    assert!(!ctx.exit_requested());
    assert!(ctx.start(true));
    assert!(ctx.started());
    assert!(!ctx.exited());
}

#[test]
fn failed_start_exits_and_resets_state() {
    let mut ctx = EvDevContext::new(InputDevice::Keyboard);
    // latch some state first, then fail to open the device
    let _ = ctx.poll_cycle(&vec![RawInputEvent { etype: 1, code: 42, value: 1 }]);
    assert!(!ctx.start(false));
    assert!(ctx.started());
    assert!(ctx.exited());
    // the decode state was reset: 'a' decodes lowercase again
    let out = ctx.poll_cycle(&vec![RawInputEvent { etype: 1, code: 30, value: 1 }]);
    assert_eq!(
        out,
        vec![InputEvent::Keyboard { event: KeyboardEvent::Char('a') }]
    );
}

#[test]
fn one_more_cycle_runs_after_stop() {
    let mut ctx = EvDevContext::new(InputDevice::Keyboard);
    ctx.start(true);
    let events = vec![
        RawInputEvent { etype: 1, code: 42, value: 1 },
        RawInputEvent { etype: 1, code: 30, value: 1 },
        RawInputEvent { etype: 1, code: 30, value: 0 },
        RawInputEvent { etype: 1, code: 42, value: 0 },
        RawInputEvent { etype: 1, code: 30, value: 1 },
    ];
    // a running cycle decodes everything drained, in order
    let out = ctx.poll_cycle(&events);
    assert_eq!(
        out,
        vec![
            InputEvent::Keyboard { event: KeyboardEvent::Char('A') },
            InputEvent::Keyboard { event: KeyboardEvent::Char('a') },
        ]
    );
    assert!(!ctx.exited());

    ctx.stop();
    assert!(ctx.exit_requested());
    assert!(!ctx.exited());
    // the cycle that observes the request reads nothing and exits
    let after = ctx.poll_cycle(&events);
    assert!(after.is_empty());
    assert!(ctx.exited());
}

#[test]
fn exited_only_after_stop() {
    let mut ctx = EvDevContext::new(InputDevice::GPIO);
    ctx.start(true);
    for _ in 0..3 {
        let _ = ctx.poll_cycle(&vec![RawInputEvent { etype: 1, code: 105, value: 1 }]);
        assert!(!ctx.exited());
    }
    ctx.stop();
    let _ = ctx.poll_cycle(&Vec::new());
    assert!(ctx.exited());
}
