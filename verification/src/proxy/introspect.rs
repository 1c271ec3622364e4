//! The description that an object gives of itself when it is introspected.

use vstd::prelude::*;

verus! {

/// An object: its interfaces and the objects below it.
#[derive(Debug, PartialEq)]
pub struct Node {
    pub name: Option<String>,
    pub interfaces: Vec<Interface>,
    pub nodes: Vec<Node>,
}

/// An interface with its methods, signals and properties.
#[derive(Clone, Debug, PartialEq)]
pub struct Interface {
    pub name: String,
    pub methods: Vec<Method>,
    pub signals: Vec<Signal>,
    pub properties: Vec<Property>,
    pub annotations: Vec<Annotation>,
}

/// A method of an interface.
#[derive(Clone, Debug, PartialEq)]
pub struct Method {
    pub name: String,
    pub args: Vec<MethodArg>,
    pub annotations: Vec<Annotation>,
}

/// A signal of an interface.
#[derive(Clone, Debug, PartialEq)]
pub struct Signal {
    pub name: String,
    pub args: Vec<SignalArg>,
    pub annotations: Vec<Annotation>,
}

/// A property of an interface.
#[derive(Clone, Debug, PartialEq)]
pub struct Property {
    pub name: String,
    pub dbustype: String,
    pub access: Access,
    pub annotations: Vec<Annotation>,
}

/// An argument of a method.
#[derive(Clone, Debug, PartialEq)]
pub struct MethodArg {
    pub name: Option<String>,
    pub dbustype: String,
    pub direction: Direction,
    pub annotations: Vec<Annotation>,
}

/// An argument of a signal.
#[derive(Clone, Debug, PartialEq)]
pub struct SignalArg {
    pub name: Option<String>,
    pub dbustype: String,
    pub direction: Direction,
    pub annotations: Vec<Annotation>,
}

/// A name with a value, attached to an element of the description.
#[derive(Clone, Debug, PartialEq)]
pub struct Annotation {
    pub name: String,
    pub value: String,
}

/// The direction of an argument.
#[derive(Copy, Clone, Debug, PartialEq, Eq, Structural)]
pub enum Direction {
    In,
    Out,
}

/// How a property can be accessed.
#[derive(Copy, Clone, Debug, PartialEq, Eq, Structural)]
pub enum Access {
    ReadWrite,
    Read,
    Write,
}

/// The direction of an argument of a method that names none: it goes in.
pub fn default_method_arg_direction() -> (direction: Direction)
    ensures
        direction == Direction::In,
{
    Direction::In
}

/// The direction of an argument of a signal that names none: it goes out.
pub fn default_signal_arg_direction() -> (direction: Direction)
    ensures
        direction == Direction::Out,
{
    Direction::Out
}

} // verus!
