//! The display singleton (object 1) and the global error values it reports.
use vstd::prelude::*;
use crate::interface::{Interface, Message, Opcode, enumeration};
use crate::message::Arg;
use crate::primitives::NewId;
use crate::wire::{dec_word, le_bytes, read_word, write_word};

verus! {

/// The object ID of the display singleton.
pub const DISPLAY_ID: u32 = 1;

/// Global error values of the display object.
#[allow(non_camel_case_types)]
#[derive(Clone, Copy, Debug, PartialEq, Eq, Structural)]
pub enum error {
    /// The server could not find the object.
    invalid_object,
    /// The method does not exist on the interface, or the request is malformed.
    invalid_method,
    /// The server is out of memory.
    no_memory,
    /// Implementation error in the compositor.
    implementation,
}

/// The wire value of each error.
pub open spec fn error_code(e: error) -> u32 {
    match e {
        error::invalid_object => 0,
        error::invalid_method => 1,
        error::no_memory => 2,
        error::implementation => 3,
    }
}

impl error {
    /// Reads an error value as an enum field: a word that must name one of the values.
    pub fn read(data: &[u8], pos: &mut usize) -> (r: Result<error, crate::wire::Error>)
        requires
            *old(pos) <= data@.len(),
        ensures
            match dec_word(data@.skip(*old(pos) as int)) {
                Ok(w) => if w <= 3 {
                    r matches Ok(e) && error_code(e) == w && *final(pos) == *old(pos) + 4
                } else {
                    r matches Err(e) && e.err == error::invalid_method && *final(pos) == *old(pos)
                },
                Err(e) => r matches Err(x) && x.err == e && *final(pos) == *old(pos),
            },
    {
        let start = *pos;
        match read_word(data, pos) {
            Ok(w) => match error::from_u32(w) {
                Some(e) => Ok(e),
                None => {
                    *pos = start;
                    Err(error::invalid_method.msg("invalid value for the display error enum"))
                },
            },
            Err(e) => Err(e),
        }
    }

    /// Writes an error value as an enum field.
    pub fn write(&self, out: &mut Vec<u8>)
        ensures
            final(out)@ == old(out)@ + le_bytes(error_code(*self)),
    {
        write_word(out, self.to_u32());
    }

    /// Pairs this error value with a message, as a codec error.
    pub fn msg(self, msg: &'static str) -> (r: crate::wire::Error)
        ensures
            r.err == self,
            r.msg == msg,
    {
        crate::wire::Error { err: self, msg }
    }

}

impl enumeration for error {
    fn from_u32(v: u32) -> (r: Option<error>)
        ensures
            v <= 3 ==> r is Some && error_code(r->0) == v,
            v > 3 ==> r is None,
    {
        match v {
            0 => Some(error::invalid_object),
            1 => Some(error::invalid_method),
            2 => Some(error::no_memory),
            3 => Some(error::implementation),
            _ => None,
        }
    }

    fn to_u32(&self) -> (r: u32)
        ensures
            r == error_code(*self),
    {
        match self {
            error::invalid_object => 0,
            error::invalid_method => 1,
            error::no_memory => 2,
            error::implementation => 3,
        }
    }

    fn since_version(&self) -> (r: u32)
        ensures
            r == 1,
    {
        1
    }
}

/// Requests of the display object that this runtime knows.
#[allow(non_camel_case_types)]
#[derive(Clone, Copy, Debug, PartialEq, Eq, Structural)]
pub enum Request {
    /// Asks for a callback that fires once the request queue is processed.
    sync,
    /// Binds a new registry object.
    get_registry,
}

impl Opcode for Request {
    fn from_u16(i: u16) -> (r: Result<Request, u16>)
        ensures
            i == 0 ==> r == Ok::<Request, u16>(Request::sync),
            i == 1 ==> r == Ok::<Request, u16>(Request::get_registry),
            i > 1 ==> r == Err::<Request, u16>(i),
    {
        match i {
            0 => Ok(Request::sync),
            1 => Ok(Request::get_registry),
            _ => Err(i),
        }
    }

    fn to_u16(self) -> (r: u16)
        ensures
            self == Request::sync ==> r == 0,
            self == Request::get_registry ==> r == 1,
    {
        match self {
            Request::sync => 0,
            Request::get_registry => 1,
        }
    }

    fn fd_count(&self) -> (r: usize)
        ensures
            r == 0,
    {
        0
    }
}

/// Events of the display object.
#[allow(non_camel_case_types)]
#[derive(Clone, Copy, Debug, PartialEq, Eq, Structural)]
pub enum Event {
    /// A fatal error on some object.
    error,
    /// The server has released an object ID.
    delete_id,
}

impl Opcode for Event {
    fn from_u16(i: u16) -> (r: Result<Event, u16>)
        ensures
            i == 0 ==> r == Ok::<Event, u16>(Event::error),
            i == 1 ==> r == Ok::<Event, u16>(Event::delete_id),
            i > 1 ==> r == Err::<Event, u16>(i),
    {
        match i {
            0 => Ok(Event::error),
            1 => Ok(Event::delete_id),
            _ => Err(i),
        }
    }

    fn to_u16(self) -> (r: u16)
        ensures
            self == Event::error ==> r == 0,
            self == Event::delete_id ==> r == 1,
    {
        match self {
            Event::error => 0,
            Event::delete_id => 1,
        }
    }

    fn fd_count(&self) -> (r: usize)
        ensures
            r == 0,
    {
        0
    }
}

/// The display interface.
#[allow(non_camel_case_types)]
#[derive(Clone, Copy, Debug)]
pub struct wl_display;

impl Interface for wl_display {
    type Error = error;
    type Request = Request;
    type Event = Event;

    fn name() -> (r: &'static str) {
        "wl_display"
    }

    fn version() -> (r: u32)
        ensures
            r == 1,
    {
        1
    }
}

/// The `get_registry` request: binds a registry object under a new ID.
pub struct GetRegistry {
    pub registry: NewId,
}

impl Message for GetRegistry {
    fn opcode(&self) -> (r: u16)
        ensures
            r == 1,
    {
        1
    }

    fn to_args(&self) -> (r: Vec<Arg>)
        ensures
            r@.len() == 1,
            r@[0] matches Arg::NewId(n) && n.id == self.registry.id,
    {
        let mut v: Vec<Arg> = Vec::new();
        v.push(Arg::NewId(NewId::from_id(self.registry.id)));
        v
    }
}

/// The `sync` request: asks for a callback object that fires once all earlier requests
/// have been handled.
pub struct Sync {
    pub callback: NewId,
}

impl Message for Sync {
    fn opcode(&self) -> (r: u16)
        ensures
            r == 0,
    {
        0
    }

    fn to_args(&self) -> (r: Vec<Arg>)
        ensures
            r@.len() == 1,
            r@[0] matches Arg::NewId(n) && n.id == self.callback.id,
    {
        let mut v: Vec<Arg> = Vec::new();
        v.push(Arg::NewId(NewId::from_id(self.callback.id)));
        v
    }
}

/// A protocol error raised on an object of interface `I`: the object, the interface's error
/// value and a message.
pub struct Error<I = ()> {
    pub object: crate::primitives::object<I>,
    pub err: u32,
    pub msg: &'static str,
}

impl<I> Error<I> {
    pub fn new(object: crate::primitives::object<I>, err: error, msg: &'static str) -> (r: Error<I>)
        ensures
            r.object == object,
            r.err == error_code(err),
            r.msg == msg,
    {
        Error { object, err: err.to_u32(), msg }
    }

    /// The error value, when it is one the display knows.
    pub fn err(&self) -> (r: Option<error>)
        ensures
            self.err <= 3 ==> r is Some && error_code(r->0) == self.err,
            self.err > 3 ==> r is None,
    {
        error::from_u32(self.err)
    }

    /// The same error, on the object seen as one of interface `To`.
    pub fn cast<To>(self) -> (r: Error<To>)
        ensures
            r.object.id == self.object.id,
            r.err == self.err,
            r.msg == self.msg,
    {
        Error { object: self.object.cast(), err: self.err, msg: self.msg }
    }
}

} // verus!
