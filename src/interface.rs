//! The surface that generated protocol bindings present to the runtime: interfaces, their
//! opcode enums, their value enums and their messages.
use vstd::prelude::*;
use crate::message::Arg;

verus! {

/// A direction's opcodes of an interface, convertible to and from their wire value.
pub trait Opcode: Sized {
    /// The opcode of wire value `i`, or `i` back when the interface has none such.
    fn from_u16(i: u16) -> (r: Result<Self, u16>);

    fn to_u16(self) -> (r: u16);

    /// Number of file descriptors a message with this opcode carries.
    fn fd_count(&self) -> (r: usize);
}

/// A protocol enum, convertible to and from its wire value.
#[allow(non_camel_case_types)]
pub trait enumeration: Sized {
    /// The entry of wire value `v`, if there is one.
    fn from_u32(v: u32) -> (r: Option<Self>);

    fn to_u32(&self) -> (r: u32);

    /// The interface version that introduced the entry.
    fn since_version(&self) -> (r: u32);
}

/// A versioned protocol role with its errors, requests and events.
pub trait Interface {
    type Error: enumeration;
    type Request: Opcode;
    type Event: Opcode;

    fn name() -> (r: &'static str);

    fn version() -> (r: u32);
}

/// A message of an interface: its opcode and its fields in declaration order.
pub trait Message {
    fn opcode(&self) -> (r: u16);

    fn to_args(&self) -> (r: Vec<Arg>);
}

} // verus!
