//! The named-event envelope the online collaborators exchange: an event
//! name and a string payload. Encoding and decoding happen outside this
//! core; here the envelope is a plain pair of strings.

use vstd::prelude::*;

verus! {

#[derive(Debug)]
pub struct SocketMsg {
    pub name: String,
    pub data: String,
}

impl SocketMsg {
    pub fn new(name: String, data: String) -> (m: SocketMsg)
        ensures
            m.name@ == name@,
            m.data@ == data@,
    {
        SocketMsg { name, data }
    }

    /// The event this message carries.
    pub fn event_name(&self) -> (r: &str)
        ensures
            r@ == self.name@,
    {
        self.name.as_str()
    }
}

} // verus!
