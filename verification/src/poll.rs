//! Plain data of the engine's poll interface: the selector kinds, the
//! event mask, and the option result its callbacks hand back. The pointer
//! side of that interface (registries, callbacks) stays with the process
//! plumbing; these are the values the logic can reason about.

use vstd::prelude::*;

verus! {

/// The event mask bit for readability.
pub const POLL_READ: i32 = 1;
/// The event mask bit for writability.
pub const POLL_WRITE: i32 = 4;
/// The event mask bit for an error condition.
pub const POLL_ERROR: i32 = 8;

/// The kind of endpoint a poll selector watches.
#[derive(Debug, Clone, Copy, PartialEq, Eq, Structural)]
pub enum SelectorType {
    /// The process's standard input.
    Stdin,
    /// The process's standard output.
    Stdout,
    /// The process's standard error.
    Stderr,
    /// A network socket.
    Socket,
    /// A file descriptor.
    File,
}

/// The numeric code the engine gives each selector kind.
pub open spec fn selector_code(t: SelectorType) -> int {
    match t {
        SelectorType::Stdin => 0,
        SelectorType::Stdout => 1,
        SelectorType::Stderr => 2,
        SelectorType::Socket => 3,
        SelectorType::File => 4,
    }
}

impl SelectorType {
    /// The numeric code the engine gives this kind.
    pub fn code(self) -> (r: i32)
        ensures
            r == selector_code(self),
    {
        match self {
            SelectorType::Stdin => 0,
            SelectorType::Stdout => 1,
            SelectorType::Stderr => 2,
            SelectorType::Socket => 3,
            SelectorType::File => 4,
        }
    }
}

/// A poll event mask: a combination of the read, write and error bits.
#[derive(Debug, Clone, Copy, PartialEq, Eq, Structural)]
pub struct PollEvents(pub i32);

impl PollEvents {
    /// The union of two masks.
    pub fn union(self, other: PollEvents) -> (r: PollEvents)
        ensures
            r.0 == (self.0 | other.0),
    {
        PollEvents(self.0 | other.0)
    }

    /// Whether every bit of `other` is set in this mask.
    pub fn contains(self, other: PollEvents) -> (r: bool)
        ensures
            r == ((self.0 & other.0) == other.0),
    {
        (self.0 & other.0) == other.0
    }
}

/// The option result a poll callback hands back: a value flagged present or
/// absent.
#[derive(Debug, Clone, Copy, PartialEq, Eq, Structural)]
pub struct OptionT {
    /// Nonzero when a value is present.
    pub ok: i8,
    /// The value, meaningful only when present.
    pub value: i64,
}

impl OptionT {
    /// Reads the engine's option as a plain option.
    pub fn as_option(self) -> (r: Option<i64>)
        ensures
            r == (if self.ok != 0 {
                Some(self.value)
            } else {
                None::<i64>
            }),
    {
        if self.ok != 0 {
            Some(self.value)
        } else {
            None
        }
    }
}

} // verus!
