use dbus_async::proxy::introspect::default_method_arg_direction;
use dbus_async::proxy::introspect::default_signal_arg_direction;
use dbus_async::proxy::introspect::Access;
use dbus_async::proxy::introspect::Annotation;
use dbus_async::proxy::introspect::Direction;
use dbus_async::proxy::introspect::Interface;
use dbus_async::proxy::introspect::Method;
use dbus_async::proxy::introspect::MethodArg;
use dbus_async::proxy::introspect::Node;
use dbus_async::proxy::introspect::Property;
use dbus_async::proxy::introspect::Signal;
use dbus_async::proxy::introspect::SignalArg;

#[test]
fn default_directions() {
    assert_eq!(default_method_arg_direction(), Direction::In);
    assert_eq!(default_signal_arg_direction(), Direction::Out);
}

#[test]
fn a_description_is_a_tree_of_plain_values() {
    let annotation = Annotation { name: "org.example.Note".to_string(), value: "x".to_string() };
    let interface = Interface {
        name: "org.example.Iface".to_string(),
        methods: vec![Method {
            name: "Do".to_string(),
            args: vec![MethodArg {
                name: Some("what".to_string()),
                dbustype: "s".to_string(),
                direction: default_method_arg_direction(),
                annotations: Vec::new(),
            }],
            annotations: vec![annotation.clone()],
        }],
        signals: vec![Signal {
            name: "Changed".to_string(),
            args: vec![SignalArg {
                name: None,
                dbustype: "u".to_string(),
                direction: default_signal_arg_direction(),
                annotations: Vec::new(),
            }],
            annotations: Vec::new(),
        }],
        properties: vec![Property {
            name: "Level".to_string(),
            dbustype: "u".to_string(),
            access: Access::ReadWrite,
            annotations: Vec::new(),
        }],
        annotations: Vec::new(),
    };
    let node = Node {
        name: None,
        interfaces: vec![interface.clone()],
        nodes: vec![Node { name: Some("child".to_string()), interfaces: Vec::new(), nodes: Vec::new() }],
    };
    assert_eq!(node.interfaces[0], interface);
    assert_eq!(node.interfaces[0].methods[0].args[0].direction, Direction::In);
    assert_eq!(node.interfaces[0].signals[0].args[0].direction, Direction::Out);
    assert_ne!(Access::Read, Access::Write);
    assert_eq!(node.nodes[0].name, Some("child".to_string()));
}
