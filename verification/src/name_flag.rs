//! The flags of the `RequestName` method of the daemon.

use vstd::prelude::*;

verus! {

/// A set of flags for `RequestName`.
#[derive(Clone, Copy, Debug, PartialEq, Eq)]
pub struct DBusNameFlag {
    bits: u32,
}

/// Another peer may take the name over.
pub const ALLOW_REPLACEMENT: u32 = 0x01;

/// Take the name over from its owner, if the owner allows it.
pub const REPLACE_EXISTING: u32 = 0x02;

/// Fail rather than wait in the queue for the name.
pub const DO_NOT_QUEUE: u32 = 0x04;

impl DBusNameFlag {
    /// The flags as the daemon takes them.
    pub closed spec fn view(self) -> u32 {
        self.bits
    }

    /// No flag.
    pub fn empty() -> (flags: DBusNameFlag)
        ensures
            flags.view() == 0,
    {
        DBusNameFlag { bits: 0 }
    }

    /// The flags whose bits are set in `bits`, if every bit that is set is a flag.
    pub fn from_bits(bits: u32) -> (flags: Option<DBusNameFlag>)
        ensures
            flags.is_some() == (bits & !(ALLOW_REPLACEMENT | REPLACE_EXISTING | DO_NOT_QUEUE)
                == 0),
            flags.is_some() ==> flags.unwrap().view() == bits,
    {
        if bits & !(ALLOW_REPLACEMENT | REPLACE_EXISTING | DO_NOT_QUEUE) == 0 {
            Some(DBusNameFlag { bits })
        } else {
            None
        }
    }

    /// The flags as the daemon takes them.
    pub fn bits(&self) -> (bits: u32)
        ensures
            bits == self.view(),
    {
        self.bits
    }

    /// The flags of both sets.
    pub fn union(self, other: DBusNameFlag) -> (flags: DBusNameFlag)
        ensures
            flags.view() == self.view() | other.view(),
    {
        DBusNameFlag { bits: self.bits | other.bits }
    }

    /// Whether every flag of `other` is in this set.
    pub fn contains(&self, other: DBusNameFlag) -> (all: bool)
        ensures
            all == (self.view() & other.view() == other.view()),
    {
        self.bits & other.bits == other.bits
    }
}

} // verus!
