//! The routine runtime: delta merging, kind-replacement and dispatch.

use benihora::routine::{Event, EventKind, Routine, Runtime, TongueIndex};

fn tongue(i: usize) -> Event {
    Event::Tongue { index: TongueIndex::Index(i), speed: None }
}

#[test]
fn merge_interleaves_by_delta() {
    let mut a = Routine {
        name: "a".to_owned(),
        events: vec![(0, tongue(0)), (6554, tongue(2))],
    };
    let b = Routine {
        name: "b".to_owned(),
        events: vec![(3277, Event::Sound { sound: true })],
    };
    a.merge(&b);
    assert_eq!(a.events.len(), 3);
    assert_eq!(a.events[0].0, 0);
    assert_eq!(a.events[1].0, 3277);
    assert!(matches!(a.events[1].1, Event::Sound { .. }));
    // the later tongue keeps its absolute time: 3277 + 3277 = 6554
    assert_eq!(a.events[2].0, 3277);
    assert!(matches!(a.events[2].1, Event::Tongue { .. }));
}

#[test]
fn queue_merge_replaces_kind() {
    // two routines that share the tongue kind: after both pushes only the
    // second routine's tongue events are pending
    let mut rt = Runtime::new();
    let r1 = Routine {
        name: "first".to_owned(),
        events: vec![(0, tongue(0)), (6554, tongue(2))],
    };
    rt.push_routine(&r1);
    assert_eq!(rt.events.len(), 2);
    let r2 = Routine {
        name: "second".to_owned(),
        events: vec![(3277, tongue(1))],
    };
    rt.push_routine(&r2);
    let pending_tongues = rt
        .events
        .iter()
        .filter(|(_, e)| e.kind() == EventKind::Tongue)
        .count();
    assert_eq!(pending_tongues, 1);
    assert_eq!(rt.events.len(), 1);
    assert_eq!(rt.events[0].0, 3277);
    // after 0.05 s the surviving tongue event (preset 1) fires
    let fired = rt.process(3277);
    assert_eq!(fired.len(), 1);
    assert!(matches!(
        fired[0],
        Event::Tongue { index: TongueIndex::Index(1), .. }
    ));
    // nothing else is pending: the earlier tongue events were replaced
    let fired = rt.process(6554);
    assert_eq!(fired.len(), 0);
}

#[test]
fn replacement_keeps_other_kinds() {
    let mut rt = Runtime::new();
    let r1 = Routine {
        name: "mixed".to_owned(),
        events: vec![(0, Event::Sound { sound: false }), (655, tongue(0))],
    };
    rt.push_routine(&r1);
    let r2 = Routine {
        name: "tongue only".to_owned(),
        events: vec![(100, tongue(3))],
    };
    rt.push_routine(&r2);
    // the sound event survives, the old tongue event does not
    let sounds = rt
        .events
        .iter()
        .filter(|(_, e)| e.kind() == EventKind::Sound)
        .count();
    let tongues = rt
        .events
        .iter()
        .filter(|(_, e)| e.kind() == EventKind::Tongue)
        .count();
    assert_eq!(sounds, 1);
    assert_eq!(tongues, 1);
}

#[test]
fn removal_rolls_delay_forward() {
    let mut rt = Runtime::new();
    let r1 = Routine {
        name: "spread".to_owned(),
        events: vec![(1000, tongue(0)), (2000, Event::Sound { sound: true })],
    };
    rt.push_routine(&r1);
    let r2 = Routine {
        name: "late tongue".to_owned(),
        events: vec![(5000, tongue(1))],
    };
    rt.push_routine(&r2);
    // the sound event still fires 3000 after the start: the removed tongue
    // event's delay rolled into it
    let fired = rt.process(2999);
    assert_eq!(fired.len(), 0);
    let fired = rt.process(1);
    assert_eq!(fired.len(), 1);
    assert!(matches!(fired[0], Event::Sound { .. }));
}

#[test]
fn dispatch_pops_in_order() {
    let mut rt = Runtime::new();
    let r = Routine {
        name: "burst".to_owned(),
        events: vec![
            (0, tongue(0)),
            (0, Event::ForceDiameter),
            (10, Event::Sound { sound: true }),
        ],
    };
    rt.push_routine(&r);
    let fired = rt.process(1);
    assert_eq!(fired.len(), 2);
    assert!(matches!(fired[0], Event::Tongue { .. }));
    assert!(matches!(fired[1], Event::ForceDiameter));
    let fired = rt.process(20);
    assert_eq!(fired.len(), 1);
    assert!(matches!(fired[0], Event::Sound { .. }));
}
