use dbus_async::command::Command;
use dbus_async::command::SignalFilter;
use dbus_async::connection::receive_command::CommandReport;
use dbus_async::connection::receive_message::ReplyReport;
use dbus_async::connection::receive_message::Routed;
use dbus_async::connection::send_message::Emission;
use dbus_async::connection::Connection;
use dbus_async::endpoint::Delivery;
use dbus_async::introspect::introspect;
use dbus_async::introspect::introspect_reply;
use dbus_async::introspect::IntrospectStep;
use dbus_async::peer::handle_peer;
use dbus_async::peer::PeerStep;
use dbus_message_parser::message::Message;
use dbus_message_parser::message::MessageFlags;
use dbus_message_parser::message::MessageHeader;
use dbus_message_parser::message::MessageHeaderFields;
use dbus_message_parser::message::MessageType;
use dbus_message_parser::value::Array;
use dbus_message_parser::value::Type;
use dbus_message_parser::value::Value;
use futures::channel::mpsc::channel;
use futures::channel::mpsc::unbounded;
use futures::channel::mpsc::UnboundedReceiver;
use std::collections::HashSet;

struct NoFilter;

impl SignalFilter for NoFilter {
    fn withholds(&self, _: &Message) -> bool {
        false
    }
}

fn bus_call(interface: &str, member: &str) -> Message {
    Message::method_call(
        "org.freedesktop.DBus".try_into().unwrap(),
        "/org/freedesktop/DBus".try_into().unwrap(),
        interface.try_into().unwrap(),
        member.try_into().unwrap(),
    )
}

fn new_connection() -> (Connection<NoFilter>, UnboundedReceiver<Message>) {
    let (sink, wire) = unbounded::<Message>();
    (Connection::from(sink), wire)
}

fn bus_signal(member: &str) -> Message {
    let fields = MessageHeaderFields {
        path: Some("/org/freedesktop/DBus".try_into().unwrap()),
        interface: Some("org.freedesktop.DBus".try_into().unwrap()),
        member: Some(member.try_into().unwrap()),
        sender: Some("org.freedesktop.DBus".try_into().unwrap()),
        ..Default::default()
    };
    let header = MessageHeader::new(
        true,
        MessageType::Signal,
        MessageFlags::NO_REPLY_EXPECTED,
        1,
        40,
        fields,
    )
    .unwrap();
    Message::new(header, vec![Value::String("org.example.DBus".to_string())])
}

#[test]
fn ping_round_trip() {
    let (mut connection, mut wire) = new_connection();
    let (response, mut waiting) = futures::channel::oneshot::channel::<Message>();
    let emission =
        connection.send_message_oneshot(bus_call("org.freedesktop.DBus.Peer", "Ping"), response);
    let serial = match emission {
        Emission::Queued(serial) => serial,
        other => panic!("the call was not queued: {:?}", other),
    };
    let on_wire = wire.try_recv().unwrap();
    assert_eq!(on_wire.get_serial(), serial);

    let answer = match handle_peer(&on_wire) {
        PeerStep::Reply(answer) => answer,
        _ => panic!("the peer gave no reply"),
    };
    let dispatch = connection.receive_message(answer);
    assert_eq!(dispatch.routed, Routed::Reply(ReplyReport::Oneshot(true)));
    let reply = waiting.try_recv().unwrap().unwrap();
    assert_eq!(reply.get_type(), MessageType::MethodReturn);
    assert_eq!(reply.get_reply_serial(), Some(serial));
    assert!(reply.get_body().is_empty());
}

#[test]
fn add_match_then_receive_signal() {
    let (mut connection, mut wire) = new_connection();
    let (response, mut waiting) = futures::channel::oneshot::channel::<Message>();
    let mut add_match = bus_call("org.freedesktop.DBus", "AddMatch");
    add_match.add_value(Value::String("type='signal',sender='org.freedesktop.DBus'".to_string()));
    connection.send_message_oneshot(add_match, response);
    let on_wire = wire.try_recv().unwrap();
    connection.receive_message(on_wire.method_return().unwrap());
    assert_eq!(waiting.try_recv().unwrap().unwrap().get_type(), MessageType::MethodReturn);

    let (sender, mut subscriber) = channel::<Message>(16);
    let report = connection.receive_command(Command::AddSignal(
        "/org/freedesktop/DBus".to_string(),
        None,
        sender,
    ));
    assert_eq!(report, CommandReport::Attached);

    let dispatch = connection.receive_message(bus_signal("NameOwnerChanged"));
    match dispatch.routed {
        Routed::Signal(offers) => {
            assert_eq!(offers.len(), 1);
            assert_eq!(offers[0].delivery, Some(Delivery::Sent));
        }
        other => panic!("unexpected dispatch {:?}", other),
    }
    let received = subscriber.try_recv().unwrap();
    assert_eq!(received.get_type(), MessageType::Signal);
    assert!(received.get_interface().unwrap().to_string().starts_with("org.freedesktop.DBus"));
}

#[test]
fn streamed_reply_with_reply_serial_echo() {
    let (mut connection, mut wire) = new_connection();
    let (stream, mut messages) = channel::<Message>(16);
    connection.receive_command(Command::AddSignal(
        "/org/freedesktop/DBus".to_string(),
        None,
        stream.clone(),
    ));
    let (serial_sender, mut serial_receiver) = futures::channel::oneshot::channel::<u32>();
    let call = bus_call("org.freedesktop.DBus.ObjectManager", "GetManagedObjects");
    let streamed = connection.send_message_mpsc(call, serial_sender, stream);
    assert!(streamed.announced);
    let serial = serial_receiver.try_recv().unwrap().unwrap();
    assert_eq!(streamed.emission, Emission::Queued(serial));
    let on_wire = wire.try_recv().unwrap();
    assert_eq!(on_wire.get_serial(), serial);

    connection.receive_message(bus_signal("NameOwnerChanged"));
    let mut answer = on_wire.method_return().unwrap();
    let entry = Type::DictEntry(Box::new((Type::String, Type::Uint32)));
    let dictionary = Array::new(
        vec![Value::DictEntry(Box::new((Value::String("x".to_string()), Value::Uint32(1))))],
        entry,
    )
    .unwrap();
    answer.add_value(Value::Array(dictionary));
    connection.receive_message(answer);
    connection.receive_message(bus_signal("NameLost"));

    let mut before = 0;
    loop {
        let msg = messages.try_recv().unwrap();
        if msg.get_type() == MessageType::MethodReturn {
            assert_eq!(msg.get_reply_serial(), Some(serial));
            match msg.get_body() {
                [Value::Array(array)] => {
                    assert!(matches!(array.get_type(), Type::DictEntry(_)));
                }
                other => panic!("unexpected body {:?}", other),
            }
            break;
        }
        assert_eq!(msg.get_type(), MessageType::Signal);
        before += 1;
    }
    assert_eq!(before, 1);
    assert_eq!(messages.try_recv().unwrap().get_type(), MessageType::Signal);
}

#[test]
fn introspect_with_introspectable() {
    let (mut connection, mut wire) = new_connection();
    let mut routes = Vec::new();
    for path in ["/a/b", "/a/b/c", "/a/e"] {
        let (sender, receiver) = channel::<Message>(1);
        connection.receive_command(Command::AddMethodCall(path.to_string(), sender));
        routes.push(receiver);
    }
    let (sender, mut handler) = channel::<Message>(16);
    connection.receive_command(Command::AddMethodCallInterface(
        "org.freedesktop.DBus.Introspectable".to_string(),
        sender,
    ));

    let fields = MessageHeaderFields {
        path: Some("/a".try_into().unwrap()),
        interface: Some("org.freedesktop.DBus.Introspectable".try_into().unwrap()),
        member: Some("Introspect".try_into().unwrap()),
        sender: Some(":1.9".try_into().unwrap()),
        ..Default::default()
    };
    let header =
        MessageHeader::new(true, MessageType::MethodCall, MessageFlags::empty(), 1, 21, fields)
            .unwrap();
    connection.receive_message(Message::new(header, Vec::new()));

    let request = handler.try_recv().unwrap();
    let path = match introspect(&request) {
        IntrospectStep::List(path) => path,
        _ => panic!("no listing was asked for"),
    };
    assert_eq!(path, "/a");
    let (list_sender, mut list_receiver) =
        futures::channel::oneshot::channel::<HashSet<String>>();
    connection.receive_command(Command::ListMethodCall(path, list_sender));
    let names: Vec<String> = list_receiver.try_recv().unwrap().unwrap().into_iter().collect();
    let emission = connection.send_message(introspect_reply(&request, &names));
    assert_eq!(emission, Emission::Queued(1));

    let reply = wire.try_recv().unwrap();
    assert_eq!(reply.get_type(), MessageType::MethodReturn);
    assert_eq!(reply.get_reply_serial(), Some(21));
    assert_eq!(reply.get_destination().unwrap().to_string(), ":1.9");
    match reply.get_body() {
        [Value::String(xml)] => {
            assert!(xml.contains("<node name=\"b\"/>"));
            assert!(xml.contains("<node name=\"e\"/>"));
            assert!(!xml.contains("<node name=\"c\"/>"));
        }
        other => panic!("unexpected body {:?}", other),
    }
}
