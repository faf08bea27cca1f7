use musicserver::channel::{round_trip, InterStageChannel, SharedChannel};
use musicserver::event::NoteEvent;
use musicserver::tunable::{clamp_to, TunableParameterCell};

fn ev(i: u8) -> NoteEvent {
    if i % 2 == 0 {
        NoteEvent::NoteOn { pitch: i, velocity: 100 }
    } else {
        NoteEvent::NoteOff { pitch: i, velocity: 0 }
    }
}

#[test]
fn ornament_probability_clamps() {
    let cell = TunableParameterCell::new(500, 0, 1000);
    assert_eq!(cell.current(), 500);
    cell.store(1500);
    assert_eq!(cell.current(), 1000);
    cell.store(250);
    assert_eq!(cell.current(), 250);
}

#[test]
fn cell_clamps_below_minimum() {
    let cell = TunableParameterCell::new(0, 100, 5000);
    assert_eq!(cell.current(), 100);
    assert_eq!(cell.min(), 100);
    assert_eq!(cell.max(), 5000);
    assert_eq!(clamp_to(7, 10, 20), 10);
    assert_eq!(clamp_to(25, 10, 20), 20);
    assert_eq!(clamp_to(15, 10, 20), 15);
}

#[test]
fn channel_keeps_order() {
    let events: Vec<NoteEvent> = (0..50u8).map(ev).collect();
    assert_eq!(round_trip(&events), events);
    assert_eq!(round_trip(&Vec::new()), Vec::new());
}

#[test]
fn channel_push_pop() {
    let mut ch = InterStageChannel::new();
    assert_eq!(ch.pop(), None);
    ch.push(ev(1));
    ch.push(ev(2));
    assert_eq!(ch.pop(), Some(ev(1)));
    ch.push_all(&vec![ev(3), ev(4)]);
    assert_eq!(ch.pop_up_to(10), vec![ev(2), ev(3), ev(4)]);
    assert_eq!(ch.pop(), None);
}

#[test]
fn shared_channel_send_receive() {
    let ch = SharedChannel::new();
    for i in 0..20u8 {
        ch.send(ev(i));
    }
    for i in 0..20u8 {
        assert_eq!(ch.receive(), Some(ev(i)));
    }
    assert_eq!(ch.receive(), None);
}

#[test]
fn shared_then_owned_channels_are_separate() {
    let shared: SharedChannel<u32> = SharedChannel::new();
    shared.send(5);
    assert_eq!(shared.receive(), Some(5));
    let mut owned = InterStageChannel::new();
    owned.push(ev(7));
    assert_eq!(owned.pop(), Some(ev(7)));
    assert_eq!(owned.pop(), None);
}
