use cavalier::bus::{Bus, EventBus, KeyBus, BUS_CAPACITY};
use cavalier::chat::{
    event_delivery, events_channel_open_after, key_delivery, ApiError, Chat, Delivery, Incoming,
    InboundOutcome, Received,
};
use cavalier::frame::{decode_outbound, encode_inbound, FrameFault};
use cavalier::message::{Event, Keystroke, BACKSPACE};
use cavalier::render::render;
use tokio::sync::broadcast::error::TryRecvError;

fn key_frame(key: char) -> Incoming {
    Incoming::Binary(encode_inbound(key))
}

fn texts(chat: &Chat) -> Vec<(u32, String)> {
    chat.messages().into_iter().map(|m| (m.id, m.text)).collect()
}

#[test]
fn ids_are_positions() {
    let mut chat = Chat::new();
    chat.seed(String::from("one")).unwrap();
    chat.new_message(Some(1)).unwrap();
    chat.seed(String::from("two")).unwrap();
    chat.new_message(Some(2)).unwrap();
    for (i, m) in chat.messages().iter().enumerate() {
        assert_eq!(m.id as usize, i);
    }
}

#[test]
fn new_messages_after_seeds_are_dense() {
    let mut chat = Chat::new();
    chat.seed(String::from("a")).unwrap();
    chat.seed(String::from("b")).unwrap();
    for s in 0..3 {
        chat.new_message(Some(s)).unwrap();
    }
    let ids: Vec<u32> = chat.messages().iter().map(|m| m.id).collect();
    assert_eq!(ids, vec![0, 1, 2, 3, 4]);
}

#[test]
fn one_author_keeps_order() {
    let mut chat = Chat::new();
    let mut sub = chat.key_bus().sender().subscribe();
    let m = chat.new_message(Some(3)).unwrap();
    for c in ['x', 'y', BACKSPACE, 'z'] {
        chat.receive(3, &key_frame(c));
    }
    let mut got = Vec::new();
    while let Ok(k) = sub.try_recv() {
        got.push(k);
    }
    let want: Vec<Keystroke> = ['x', 'y', BACKSPACE, 'z']
        .iter()
        .map(|&key| Keystroke { message_id: m.id, key })
        .collect();
    assert_eq!(got, want);
    assert_eq!(texts(&chat), vec![(0, String::from("xy\u{8}z"))]);
}

#[test]
fn accepted_key_ends_text_bytes() {
    let mut chat = Chat::new();
    chat.new_message(Some(1)).unwrap();
    chat.receive(1, &key_frame('a'));
    let out = chat.receive(1, &key_frame('é'));
    assert_eq!(out, InboundOutcome::Accepted(Keystroke { message_id: 0, key: 'é' }));
    let text = chat.messages()[0].text.clone();
    assert!(text.as_bytes().ends_with("é".as_bytes()));
    assert_eq!(text.as_bytes(), &[0x61, 0xC3, 0xA9]);
}

#[test]
fn outbound_frame_round_trip() {
    let k = Keystroke { message_id: 0x0102_0304, key: '€' };
    let frame = match key_delivery(Received::Value(k)) {
        Delivery::Send(f) => f,
        _ => panic!("a keystroke must be sent"),
    };
    assert_eq!(frame, vec![0xAC, 0x20, 0x00, 0x00, 0x04, 0x03, 0x02, 0x01]);
    assert_eq!(decode_outbound(&frame), Some(k));
}

#[test]
fn unbound_client_closes_only_itself() {
    let mut chat = Chat::new();
    chat.new_message(Some(1)).unwrap();
    let before = texts(&chat);
    assert_eq!(chat.receive(2, &key_frame('a')), InboundOutcome::Unbound);
    assert_eq!(texts(&chat), before);
    assert_eq!(
        chat.receive(1, &key_frame('b')),
        InboundOutcome::Accepted(Keystroke { message_id: 0, key: 'b' })
    );
    assert_eq!(texts(&chat), vec![(0, String::from("b"))]);
}

#[test]
fn two_author_interleave() {
    let mut chat = Chat::new();
    chat.seed(String::from("Hi")).unwrap();
    let a = chat.new_message(Some(10)).unwrap();
    assert_eq!((a.id, a.text.as_str()), (1, ""));
    let b = chat.new_message(Some(20)).unwrap();
    assert_eq!((b.id, b.text.as_str()), (2, ""));
    let mut sub_a = chat.key_bus().sender().subscribe();
    let mut sub_b = chat.key_bus().sender().subscribe();
    chat.receive(10, &Incoming::Binary(vec![0x61, 0, 0, 0]));
    chat.receive(20, &Incoming::Binary(vec![0x62, 0, 0, 0]));
    for sub in [&mut sub_a, &mut sub_b] {
        let mut frames = Vec::new();
        while let Ok(k) = sub.try_recv() {
            if let Delivery::Send(f) = key_delivery(Received::Value(k)) {
                frames.push(f);
            }
        }
        assert_eq!(
            frames,
            vec![vec![0x61, 0, 0, 0, 1, 0, 0, 0], vec![0x62, 0, 0, 0, 2, 0, 0, 0]]
        );
    }
    assert_eq!(
        texts(&chat),
        vec![(0, String::from("Hi")), (1, String::from("a")), (2, String::from("b"))]
    );
}

#[test]
fn backspace_preserved_in_store() {
    let mut chat = Chat::new();
    chat.new_message(Some(1)).unwrap();
    let mut event_sub = chat.event_bus().sender().subscribe();
    for payload in [[0x68, 0, 0, 0], [0x69, 0, 0, 0], [0x08, 0, 0, 0]] {
        chat.receive(1, &Incoming::Binary(payload.to_vec()));
    }
    let text = chat.messages()[0].text.clone();
    assert_eq!(text, "hi\u{0008}");
    assert_eq!(text.len(), 3);
    assert!(matches!(event_sub.try_recv(), Err(TryRecvError::Empty)));
    assert_eq!(render(&text), "h");
}

#[test]
fn unbound_keystroke() {
    let mut chat = Chat::new();
    chat.new_message(Some(1)).unwrap();
    let mut key_sub = chat.key_bus().sender().subscribe();
    assert_eq!(
        chat.receive(5, &Incoming::Binary(vec![0x61, 0, 0, 0])),
        InboundOutcome::Unbound
    );
    assert!(matches!(key_sub.try_recv(), Err(TryRecvError::Empty)));
    assert_eq!(
        chat.receive(1, &Incoming::Binary(vec![0x61, 0, 0, 0])),
        InboundOutcome::Accepted(Keystroke { message_id: 0, key: 'a' })
    );
}

#[test]
fn lagging_subscriber() {
    let mut events: EventBus = Bus::new(BUS_CAPACITY);
    let mut slow = events.sender().subscribe();
    let total = 3 * BUS_CAPACITY;
    for _ in 0..total {
        events.publish(Event::MessageEnd);
    }
    let lagged = match slow.try_recv() {
        Err(TryRecvError::Lagged(n)) => n,
        other => panic!("expected a lag, got {:?}", other.map(|_| ())),
    };
    assert!(lagged > 0);
    assert!(matches!(event_delivery(Received::Lagged(lagged)), Delivery::Skip));
    let mut rest = 0u64;
    while let Ok(e) = slow.try_recv() {
        assert!(matches!(event_delivery(Received::Value(e)), Delivery::Send(Event::MessageEnd)));
        rest += 1;
    }
    assert!(rest > 0);
    assert_eq!(lagged + rest, total as u64);
    events.publish(Event::MessageEnd);
    assert!(slow.try_recv().is_ok());
}

#[test]
fn new_message_broadcast() {
    let mut chat = Chat::new();
    chat.seed(String::from("Hi")).unwrap();
    let mut sub_a = chat.event_bus().sender().subscribe();
    let mut sub_b = chat.event_bus().sender().subscribe();
    let m = chat.new_message(Some(1)).unwrap();
    let n = chat.messages().len() as u32 - 1;
    assert_eq!(m.id, n);
    for sub in [&mut sub_a, &mut sub_b] {
        match sub.try_recv() {
            Ok(Event::MessageNew(got)) => {
                assert_eq!(got.id, n);
                assert_eq!(got.text, "");
            }
            _ => panic!("expected one MessageNew"),
        }
        assert!(matches!(sub.try_recv(), Err(TryRecvError::Empty)));
    }
}

#[test]
fn session_reset() {
    let mut chat = Chat::new();
    for s in 0..6 {
        chat.new_message(Some(s)).unwrap();
    }
    assert_eq!(chat.binding(5), Some(5));
    chat.reset_session(5);
    assert_eq!(chat.binding(5), None);
    let mut key_sub = chat.key_bus().sender().subscribe();
    assert_eq!(chat.receive(5, &key_frame('a')), InboundOutcome::Unbound);
    assert!(matches!(key_sub.try_recv(), Err(TryRecvError::Empty)));
}

#[test]
fn new_message_without_session() {
    let mut chat = Chat::new();
    let mut sub = chat.event_bus().sender().subscribe();
    let err = chat.new_message(None).unwrap_err();
    assert_eq!(err, ApiError::SessionRequired);
    assert_eq!(err.status(), 400);
    assert!(chat.messages().is_empty());
    assert!(matches!(sub.try_recv(), Err(TryRecvError::Empty)));
}

#[test]
fn new_message_rebinds_session_forward() {
    let mut chat = Chat::new();
    chat.new_message(Some(1)).unwrap();
    chat.new_message(Some(2)).unwrap();
    chat.new_message(Some(1)).unwrap();
    assert_eq!(chat.binding(1), Some(2));
    chat.receive(1, &key_frame('q'));
    assert_eq!(
        texts(&chat),
        vec![(0, String::new()), (1, String::new()), (2, String::from("q"))]
    );
}

#[test]
fn dropped_frames() {
    let mut chat = Chat::new();
    chat.new_message(Some(1)).unwrap();
    let mut key_sub = chat.key_bus().sender().subscribe();
    let cases = [
        (Incoming::Other, FrameFault::NotBinary),
        (Incoming::Binary(vec![0x61, 0, 0]), FrameFault::BadLength),
        (Incoming::Binary(vec![0x61, 0, 0, 0, 0]), FrameFault::BadLength),
        (Incoming::Binary(vec![]), FrameFault::BadLength),
        (Incoming::Binary(vec![0x00, 0xD8, 0, 0]), FrameFault::NotScalar),
        (Incoming::Binary(vec![0x00, 0x00, 0x11, 0]), FrameFault::NotScalar),
    ];
    for (frame, fault) in cases.iter() {
        assert_eq!(chat.receive(1, frame), InboundOutcome::Dropped(*fault));
        assert_eq!(chat.receive(9, frame), InboundOutcome::Dropped(*fault));
    }
    assert_eq!(chat.receive(1, &Incoming::Close), InboundOutcome::Closed);
    assert!(matches!(key_sub.try_recv(), Err(TryRecvError::Empty)));
    assert_eq!(texts(&chat), vec![(0, String::new())]);
}

#[test]
fn largest_scalar_is_accepted() {
    let mut chat = Chat::new();
    chat.new_message(Some(1)).unwrap();
    let out = chat.receive(1, &Incoming::Binary(vec![0xFF, 0xFF, 0x10, 0x00]));
    assert_eq!(out, InboundOutcome::Accepted(Keystroke { message_id: 0, key: '\u{10FFFF}' }));
}

#[test]
fn error_statuses() {
    assert_eq!(ApiError::SessionRequired.status(), 400);
    assert_eq!(ApiError::CapacityExceeded.status(), 500);
    assert_eq!(ApiError::MessagesBusy.status(), 503);
}

#[test]
fn deliveries() {
    assert!(matches!(key_delivery(Received::Lagged(3)), Delivery::Skip));
    assert!(matches!(key_delivery(Received::Closed), Delivery::Stop));
    assert!(matches!(event_delivery(Received::Closed), Delivery::Stop));
    assert!(!events_channel_open_after(&Incoming::Close));
    assert!(events_channel_open_after(&Incoming::Other));
    assert!(events_channel_open_after(&Incoming::Binary(vec![1])));
}

#[test]
fn publish_counts_subscribers() {
    let mut keys: KeyBus = Bus::new(4);
    let k = Keystroke { message_id: 0, key: 'a' };
    assert_eq!(keys.publish(k), 0);
    let _a = keys.sender().subscribe();
    let _b = keys.sender().subscribe();
    assert_eq!(keys.publish(k), 2);
}
