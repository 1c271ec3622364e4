use dbus_async::command::Command;
use dbus_async::command::SignalFilter;
use dbus_async::error::call_hello;
use dbus_async::error::session;
use dbus_async::error::system;
use dbus_async::error::DBusError;
use dbus_async::name_flag::DBusNameFlag;
use dbus_async::name_flag::ALLOW_REPLACEMENT;
use dbus_async::name_flag::DO_NOT_QUEUE;
use dbus_async::name_flag::REPLACE_EXISTING;
use dbus_async::stream::connect::connect;
use dbus_async::stream::connect::negotiates_unix_fd;
use dbus_async::stream::connect::nonce_tcp_read_nonce;
use dbus_async::stream::connect::tcp_family_match;
use dbus_async::stream::connect::Address;
use dbus_async::stream::connect::Family;
use dbus_async::stream::connect::Plan;
use dbus_async::stream::StreamError;
use dbus_message_parser::message::Message;
use futures::channel::mpsc::channel;

struct NoFilter;

impl SignalFilter for NoFilter {
    fn withholds(&self, _: &Message) -> bool {
        false
    }
}

fn error_for(cmd: Command<NoFilter>) -> DBusError {
    DBusError::from(cmd)
}

fn tcp(host: Option<&str>, port: Option<u16>) -> Address {
    Address::Tcp(host.map(|h| h.to_string()), port, Some(Family::Ipv6))
}

#[test]
fn a_unix_path_is_connected_to() {
    let plan = connect(true, Address::UnixPath("/run/bus".to_string())).unwrap();
    assert_eq!(plan, Plan::Unix("/run/bus".to_string()));
    assert!(negotiates_unix_fd(&plan));
}

#[test]
fn a_tcp_address_needs_host_and_port() {
    let plan = connect(true, tcp(Some("localhost"), Some(4000))).unwrap();
    assert_eq!(plan, Plan::Tcp("localhost".to_string(), 4000, Some(Family::Ipv6)));
    assert!(!negotiates_unix_fd(&plan));
    assert!(matches!(
        connect(true, tcp(None, Some(4000))),
        Err(StreamError::AddressNotConnectable)
    ));
    assert!(matches!(
        connect(true, tcp(Some("localhost"), None)),
        Err(StreamError::AddressNotConnectable)
    ));
}

#[test]
fn a_nonce_tcp_address_needs_its_noncefile() {
    let address = Address::NonceTcp(
        Some("localhost".to_string()),
        Some(4000),
        None,
        Some("/tmp/nonce".to_string()),
    );
    assert_eq!(
        connect(true, address).unwrap(),
        Plan::NonceTcp("localhost".to_string(), 4000, None, "/tmp/nonce".to_string())
    );
    let address = Address::NonceTcp(Some("localhost".to_string()), Some(4000), None, None);
    assert!(matches!(connect(true, address), Err(StreamError::AddressNotConnectable)));
}

#[test]
fn a_unixexec_address_runs_its_program() {
    let address = Address::Unixexec("/bin/bus".to_string(), vec!["--print".to_string()]);
    let plan = connect(true, address).unwrap();
    assert_eq!(plan, Plan::Unixexec("/bin/bus".to_string(), vec!["--print".to_string()]));
    assert!(!negotiates_unix_fd(&plan));
}

#[test]
fn an_address_that_is_not_connectable_is_refused() {
    assert!(matches!(
        connect(false, Address::UnixPath("/run/bus".to_string())),
        Err(StreamError::AddressNotConnectable)
    ));
    assert!(matches!(
        connect(false, Address::UnixAbstract("bus".to_string())),
        Err(StreamError::AddressNotConnectable)
    ));
    assert!(matches!(connect(false, Address::Autolaunch), Err(StreamError::AddressNotConnectable)));
    assert!(matches!(connect(true, Address::UnixOther), Err(StreamError::AddressNotConnectable)));
    assert!(matches!(connect(true, Address::Systemd), Err(StreamError::AddressNotConnectable)));
}

#[test]
fn unsupported_addresses_are_refused_by_name() {
    assert!(matches!(
        connect(true, Address::UnixAbstract("bus".to_string())),
        Err(StreamError::UnixAbstractNotSupported)
    ));
    assert!(matches!(connect(true, Address::Autolaunch), Err(StreamError::AutolaunchNotSupported)));
    assert!(matches!(connect(true, Address::Launchd), Err(StreamError::LaunchdNotSupported)));
}

#[test]
fn family_must_match_when_it_is_given() {
    assert!(tcp_family_match(true, &None));
    assert!(tcp_family_match(false, &None));
    assert!(tcp_family_match(true, &Some(Family::Ipv4)));
    assert!(!tcp_family_match(false, &Some(Family::Ipv4)));
    assert!(tcp_family_match(false, &Some(Family::Ipv6)));
    assert!(!tcp_family_match(true, &Some(Family::Ipv6)));
}

#[test]
fn nonce_has_exactly_16_bytes() {
    let nonce: Vec<u8> = (1u8..=16).collect();
    let mut expected = [0u8; 16];
    expected.copy_from_slice(&nonce);
    assert_eq!(nonce_tcp_read_nonce(&nonce).unwrap(), expected);
    assert!(matches!(
        nonce_tcp_read_nonce(&nonce[..15].to_vec()),
        Err(StreamError::NonceTcpFileTooSmall)
    ));
    assert!(matches!(nonce_tcp_read_nonce(&Vec::new()), Err(StreamError::NonceTcpFileTooSmall)));
    let mut longer = nonce.clone();
    longer.push(17);
    assert!(matches!(nonce_tcp_read_nonce(&longer), Err(StreamError::NonceTcpFileTooLarge)));
}

#[test]
fn session_bus_needs_its_address() {
    assert_eq!(session(Some("unix:path=/run/user/1/bus".to_string())).unwrap(), "unix:path=/run/user/1/bus");
    assert!(matches!(session(None), Err(DBusError::DBusSessionBusAddress)));
}

#[test]
fn system_bus_has_a_default_address() {
    assert_eq!(system(Some("tcp:host=h,port=1".to_string())), "tcp:host=h,port=1");
    assert_eq!(system(None), "unix:path=/var/run/dbus/system_bus_socket");
}

#[test]
fn hello_fails_on_an_error_reply() {
    let mut hello = Message::method_call(
        "org.freedesktop.DBus".try_into().unwrap(),
        "/org/freedesktop/DBus".try_into().unwrap(),
        "org.freedesktop.DBus".try_into().unwrap(),
        "Hello".try_into().unwrap(),
    );
    hello.set_serial(1);
    assert!(call_hello(&hello.method_return().unwrap()).is_ok());
    let refused = hello.error(
        "org.freedesktop.DBus.Error.LimitsExceeded".try_into().unwrap(),
        "too many connections".to_string(),
    );
    match call_hello(&refused) {
        Err(DBusError::Hello(name)) => assert_eq!(name, "org.freedesktop.DBus.Error.LimitsExceeded"),
        other => panic!("unexpected outcome {:?}", other),
    }
}

#[test]
fn a_command_that_was_not_taken_becomes_its_error() {
    let msg = Message::signal(
        "/a".try_into().unwrap(),
        "org.example.Iface".try_into().unwrap(),
        "Changed".try_into().unwrap(),
    );
    let (sender, receiver) = channel::<Message>(1);
    assert!(matches!(
        error_for(Command::SendMessage(msg.clone())),
        DBusError::SendMessage(m) if m == msg
    ));
    assert!(matches!(
        error_for(Command::AddMethodCall("/a".to_string(), sender.clone())),
        DBusError::AddMethodCall(path) if path == "/a"
    ));
    assert!(matches!(
        error_for(Command::DeleteMethodCall("/a".to_string())),
        DBusError::DeleteMethodCall(Some(path)) if path == "/a"
    ));
    assert!(matches!(
        error_for(Command::DeleteMethodCallSender(sender.clone())),
        DBusError::DeleteMethodCall(None)
    ));
    assert!(matches!(
        error_for(Command::AddMethodCallInterface("org.a".to_string(), sender.clone())),
        DBusError::AddMethodCallInterface(interface) if interface == "org.a"
    ));
    assert!(matches!(
        error_for(Command::DeleteMethodCallInterface("org.a".to_string())),
        DBusError::DeleteMethodCallInterface(Some(interface)) if interface == "org.a"
    ));
    assert!(matches!(
        error_for(Command::DeleteMethodCallInterfaceSender(sender.clone())),
        DBusError::DeleteMethodCallInterface(None)
    ));
    assert!(matches!(
        error_for(Command::AddSignal("/s".to_string(), None, sender.clone())),
        DBusError::AddSignal(path) if path == "/s"
    ));
    assert!(matches!(
        error_for(Command::DeleteSignalSender(sender.clone())),
        DBusError::DeleteSignal
    ));
    assert!(matches!(
        error_for(Command::AddMatchRules(Vec::new(), sender.clone())),
        DBusError::AddMatchRules
    ));
    assert!(matches!(
        error_for(Command::DeleteMatchRulesSender(sender)),
        DBusError::DeleteMatchRules
    ));
    assert!(matches!(
        error_for(Command::DeleteMatchRulesReceiver(receiver)),
        DBusError::DeleteMatchRules
    ));
    assert!(matches!(error_for(Command::Close), DBusError::Close));
}

#[test]
fn name_flags_are_bits() {
    assert_eq!(ALLOW_REPLACEMENT, 0x01);
    assert_eq!(REPLACE_EXISTING, 0x02);
    assert_eq!(DO_NOT_QUEUE, 0x04);
    assert_eq!(DBusNameFlag::empty().bits(), 0);
    let allow = DBusNameFlag::from_bits(ALLOW_REPLACEMENT).unwrap();
    let no_queue = DBusNameFlag::from_bits(DO_NOT_QUEUE).unwrap();
    let both = allow.union(no_queue);
    assert_eq!(both.bits(), 0x05);
    assert!(both.contains(allow));
    assert!(both.contains(no_queue));
    assert!(!allow.contains(both));
    assert!(both.contains(DBusNameFlag::empty()));
    assert_eq!(DBusNameFlag::from_bits(0x07).unwrap().bits(), 0x07);
    assert_eq!(DBusNameFlag::from_bits(0x08), None);
    assert_eq!(DBusNameFlag::from_bits(0x0f), None);
}
