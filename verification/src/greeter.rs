//! The agent's greeting service.
use vstd::prelude::*;

verus! {

/// The agent's greeter.
#[derive(Debug, Default)]
pub struct MyGreeter {}

/// The greeting reply.
#[derive(Debug)]
pub struct HelloReply {
    pub message: String,
}

impl MyGreeter {
    /// `SayHello`: `Hello <name>!`.
    pub fn say_hello(&self, name: &str) -> (r: HelloReply)
        ensures
            r.message@ == "Hello "@ + name@ + "!"@,
    {
        let head = crate::text::concat_str("Hello ", name);
        HelloReply { message: crate::text::concat_str(head.as_str(), "!") }
    }
}

} // verus!
