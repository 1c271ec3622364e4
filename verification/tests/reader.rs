use dbus_async::message::message_sink;
use dbus_async::message::message_stream;
use dbus_async::message::take_frame;
use dbus_async::message::Taken;
use dbus_async::message::Outbox;
use dbus_async::message::Intake;
use dbus_async::message::ReadStep;
use dbus_message_parser::message::Message;
use dbus_message_parser::value::Value;
use futures::channel::mpsc::unbounded;
use futures::channel::mpsc::TryRecvError;

fn encoded(serial: u32, text: &str) -> Vec<u8> {
    let mut msg = Message::method_call(
        "org.example.Peer".try_into().unwrap(),
        "/org/example".try_into().unwrap(),
        "org.example.Iface".try_into().unwrap(),
        "Do".try_into().unwrap(),
    );
    msg.set_serial(serial);
    if !text.is_empty() {
        msg.add_value(Value::String(text.to_string()));
    }
    msg.encode().unwrap().to_vec()
}

#[test]
fn a_complete_message_is_handed_on() {
    let (sink, mut inbound) = unbounded::<Message>();
    let mut buffer = encoded(7, "hello");
    let intake = message_stream(&mut buffer, &sink);
    assert_eq!(intake, Intake { delivered: 1, step: ReadStep::AwaitBytes });
    assert!(buffer.is_empty());
    let msg = inbound.try_recv().unwrap();
    assert_eq!(msg.get_serial(), 7);
    assert_eq!(msg.get_body(), &[Value::String("hello".to_string())][..]);
    assert_eq!(inbound.try_recv(), Err(TryRecvError::Empty));
}

#[test]
fn several_messages_in_one_buffer_are_handed_on_in_order() {
    let (sink, mut inbound) = unbounded::<Message>();
    let mut buffer = encoded(1, "");
    buffer.extend_from_slice(&encoded(2, "second"));
    buffer.extend_from_slice(&encoded(3, ""));
    let intake = message_stream(&mut buffer, &sink);
    assert_eq!(intake, Intake { delivered: 3, step: ReadStep::AwaitBytes });
    assert!(buffer.is_empty());
    assert_eq!(inbound.try_recv().unwrap().get_serial(), 1);
    assert_eq!(inbound.try_recv().unwrap().get_serial(), 2);
    assert_eq!(inbound.try_recv().unwrap().get_serial(), 3);
}

#[test]
fn a_partial_message_stays_in_the_buffer() {
    let (sink, mut inbound) = unbounded::<Message>();
    let whole = encoded(1, "first");
    let next = encoded(2, "second");
    let mut buffer = whole.clone();
    buffer.extend_from_slice(&next[..10]);
    let intake = message_stream(&mut buffer, &sink);
    assert_eq!(intake, Intake { delivered: 1, step: ReadStep::AwaitBytes });
    assert_eq!(buffer, next[..10].to_vec());
    assert_eq!(inbound.try_recv().unwrap().get_serial(), 1);

    buffer.extend_from_slice(&next[10..]);
    let intake = message_stream(&mut buffer, &sink);
    assert_eq!(intake, Intake { delivered: 1, step: ReadStep::AwaitBytes });
    assert!(buffer.is_empty());
    assert_eq!(inbound.try_recv().unwrap().get_serial(), 2);
}

#[test]
fn byte_by_byte_arrival_gives_the_same_messages() {
    let (sink, mut inbound) = unbounded::<Message>();
    let mut stream = encoded(1, "first");
    stream.extend_from_slice(&encoded(2, ""));
    let mut buffer = Vec::new();
    let mut delivered = 0;
    for byte in stream {
        buffer.push(byte);
        let intake = message_stream(&mut buffer, &sink);
        assert_eq!(intake.step, ReadStep::AwaitBytes);
        delivered += intake.delivered;
    }
    assert_eq!(delivered, 2);
    assert!(buffer.is_empty());
    assert_eq!(inbound.try_recv().unwrap().get_serial(), 1);
    assert_eq!(inbound.try_recv().unwrap().get_serial(), 2);
}

#[test]
fn an_empty_buffer_waits_for_bytes() {
    let (sink, _inbound) = unbounded::<Message>();
    let mut buffer = Vec::new();
    let intake = message_stream(&mut buffer, &sink);
    assert_eq!(intake, Intake { delivered: 0, step: ReadStep::AwaitBytes });
}

#[test]
fn a_corrupt_stream_stops_the_reader() {
    let (sink, mut inbound) = unbounded::<Message>();
    let mut buffer = encoded(1, "");
    let garbage = vec![0xffu8; 64];
    buffer.extend_from_slice(&garbage);
    let intake = message_stream(&mut buffer, &sink);
    assert_eq!(intake, Intake { delivered: 1, step: ReadStep::Corrupt });
    assert_eq!(buffer, garbage);
    assert_eq!(inbound.try_recv().unwrap().get_serial(), 1);
}

#[test]
fn a_closed_connection_stops_the_reader() {
    let (sink, inbound) = unbounded::<Message>();
    drop(inbound);
    let mut buffer = encoded(1, "");
    buffer.extend_from_slice(&encoded(2, ""));
    let rest = encoded(2, "");
    let intake = message_stream(&mut buffer, &sink);
    assert_eq!(intake, Intake { delivered: 0, step: ReadStep::Closed });
    assert_eq!(buffer, rest);
}

#[test]
fn outbox_lines_up_the_bytes_of_messages_in_order() {
    let first = encoded(1, "first");
    let second = encoded(2, "second");
    let mut outbox = Outbox::new();
    assert!(outbox.is_empty());
    assert_eq!(outbox.unwritten(), &[] as &[u8]);

    let (_, mut first_msg) = Message::decode(first.clone().into()).map(|(m, n)| (n, m)).unwrap();
    first_msg.set_serial(1);
    assert!(message_sink(&mut outbox, &first_msg));
    assert_eq!(outbox.unwritten(), &first[..]);
    assert!(!outbox.is_empty());

    let (second_msg, _) = Message::decode(second.clone().into()).unwrap();
    assert!(message_sink(&mut outbox, &second_msg));
    let mut both = first.clone();
    both.extend_from_slice(&second);
    assert_eq!(outbox.unwritten(), &both[..]);
}

#[test]
fn partial_writes_move_on_by_what_was_written() {
    let bytes = encoded(1, "first");
    let (msg, _) = Message::decode(bytes.clone().into()).unwrap();
    let mut outbox = Outbox::new();
    assert!(message_sink(&mut outbox, &msg));
    let mut on_wire = Vec::new();
    let mut step = 1;
    while !outbox.is_empty() {
        let size = step.min(outbox.unwritten().len());
        on_wire.extend_from_slice(&outbox.unwritten()[..size]);
        outbox.advance(size);
        step += 3;
    }
    assert_eq!(on_wire, bytes);
    assert_eq!(outbox.unwritten(), &[] as &[u8]);

    outbox.advance(5);
    assert!(outbox.is_empty());
    assert!(message_sink(&mut outbox, &msg));
    outbox.advance(bytes.len() + 1);
    assert_eq!(outbox.unwritten(), &bytes[..]);
    outbox.advance(0);
    assert_eq!(outbox.unwritten(), &bytes[..]);
    outbox.advance(bytes.len());
    assert!(outbox.is_empty());
}

#[test]
fn a_message_that_cannot_be_encoded_changes_nothing() {
    let mut msg = Message::method_call(
        "org.example.Peer".try_into().unwrap(),
        "/org/example".try_into().unwrap(),
        "org.example.Iface".try_into().unwrap(),
        "Do".try_into().unwrap(),
    );
    for _ in 0..300 {
        msg.add_value(Value::Uint32(1));
    }
    assert!(msg.encode().is_err());
    let mut outbox = Outbox::new();
    assert!(!message_sink(&mut outbox, &msg));
    assert!(outbox.is_empty());
}

#[test]
fn take_frame_takes_one_message_off_the_buffer() {
    let first = encoded(5, "first");
    let second = encoded(6, "second");
    let mut buffer = first.clone();
    buffer.extend_from_slice(&second);
    match take_frame(&mut buffer) {
        Taken::Message(msg) => {
            assert_eq!(msg.get_serial(), 5);
            assert_eq!(msg.get_body(), &[Value::String("first".to_string())][..]);
        }
        _ => panic!("a complete message stands at the front"),
    }
    assert_eq!(buffer, second);
    match take_frame(&mut buffer) {
        Taken::Message(msg) => assert_eq!(msg.get_serial(), 6),
        _ => panic!("a complete message stands at the front"),
    }
    assert!(buffer.is_empty());
    assert!(matches!(take_frame(&mut buffer), Taken::Partial));
    assert!(buffer.is_empty());
}

#[test]
fn take_frame_leaves_a_partial_message() {
    let whole = encoded(5, "first");
    let mut buffer = whole[..whole.len() - 1].to_vec();
    assert!(matches!(take_frame(&mut buffer), Taken::Partial));
    assert_eq!(buffer, whole[..whole.len() - 1].to_vec());
    buffer.push(whole[whole.len() - 1]);
    assert!(matches!(take_frame(&mut buffer), Taken::Message(_)));
    assert!(buffer.is_empty());
}

#[test]
fn take_frame_leaves_corrupt_bytes() {
    let garbage = vec![0xffu8; 64];
    let mut buffer = garbage.clone();
    assert!(matches!(take_frame(&mut buffer), Taken::Corrupt));
    assert_eq!(buffer, garbage);
}
