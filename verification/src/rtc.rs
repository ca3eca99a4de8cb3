//! Calling a service at the peer through a trait.
//!
//! A service is a trait; a call travels as a message on a channel and its
//! result comes back on another. What is here is what both sides share:
//! the error of a call that did not get through, and a small service that
//! shows the shape of such traits.

use crate::chmux;
use crate::rch::base;
use crate::rch::mpsc;
use vstd::prelude::*;
use vstd::std_specs::convert::FromSpecImpl;

verus! {

/// A call did not get through.
#[derive(Clone, Copy, Debug, PartialEq, Eq, Structural)]
pub enum CallError {
    /// The service is gone.
    Dropped,
    /// The answer could not be received.
    RemoteReceive(base::RecvError),
    /// A port for the call could not be opened.
    RemoteConnect(chmux::ConnectError),
    /// A port for the call could not be taken up.
    RemoteListen(chmux::ListenerError),
}

/// What a call comes to, given what was received on the channel for its
/// answer: the answer, or the reason why there is none. A channel that
/// ends without an answer means that the service is gone.
pub open spec fn answered<T>(received: Result<Option<T>, mpsc::RecvError>) -> Result<T, CallError> {
    match received {
        Ok(Some(value)) => Ok(value),
        Ok(None) => Err(CallError::Dropped),
        Err(mpsc::RecvError::RemoteReceive(err)) => Err(CallError::RemoteReceive(err)),
        Err(mpsc::RecvError::RemoteConnect(err)) => Err(CallError::RemoteConnect(err)),
        Err(mpsc::RecvError::RemoteListen(err)) => Err(CallError::RemoteListen(err)),
    }
}

/// Turns what was received on the channel for the answer of a call into
/// the result of the call. See [`answered`].
pub fn answer<T>(received: Result<Option<T>, mpsc::RecvError>) -> (r: Result<T, CallError>)
    ensures
        r == answered(received),
{
    match received {
        Ok(Some(value)) => Ok(value),
        Ok(None) => Err(CallError::Dropped),
        Err(mpsc::RecvError::RemoteReceive(err)) => Err(CallError::RemoteReceive(err)),
        Err(mpsc::RecvError::RemoteConnect(err)) => Err(CallError::RemoteConnect(err)),
        Err(mpsc::RecvError::RemoteListen(err)) => Err(CallError::RemoteListen(err)),
    }
}

/// What a call of [`MyService`] fails with.
#[derive(Clone, Copy, Debug, PartialEq, Eq, Structural)]
pub enum MyError {
    /// The service refused.
    Error1,
    /// The call did not get through.
    Call(CallError),
}

impl MyError {
    /// The failure of a call as an error of the service.
    pub open spec fn of(err: CallError) -> MyError {
        MyError::Call(err)
    }
}

impl From<CallError> for MyError {
    fn from(err: CallError) -> (r: Self) {
        MyError::Call(err)
    }
}

impl FromSpecImpl<CallError> for MyError {
    open spec fn obeys_from_spec() -> bool {
        true
    }

    open spec fn from_spec(err: CallError) -> Self {
        MyError::of(err)
    }
}

/// A service with one call that reads and one that writes.
pub trait MyService {
    /// A call that leaves the service as it is. `arg3` is a sender that
    /// came with the call, whatever its codec.
    fn const_fn<Codec>(&self, arg1: String, arg2: u16, arg3: mpsc::Sender<String, Codec>) -> (r:
        Result<u32, MyError>);

    /// A call that may change the service.
    fn mut_fn(&mut self, arg1: Vec<String>) -> (r: Result<(), MyError>);
}

/// A service that answers every reading call with the same number and
/// refuses every writing call.
pub struct MyObject {
    field1: String,
}

impl MyObject {
    /// A service with the given text.
    pub fn new(field1: String) -> (object: Self)
        ensures
            object.text() == field1@,
    {
        MyObject { field1 }
    }

    /// The text of the service.
    pub closed spec fn text(&self) -> Seq<char> {
        self.field1@
    }
}

impl MyService for MyObject {
    fn const_fn<Codec>(&self, arg1: String, arg2: u16, arg3: mpsc::Sender<String, Codec>) -> (r:
        Result<u32, MyError>)
        ensures
            r == Ok::<u32, MyError>(123),
    {
        Ok(123)
    }

    fn mut_fn(&mut self, arg1: Vec<String>) -> (r: Result<(), MyError>)
        ensures
            r == Err::<(), MyError>(MyError::Error1),
            final(self).text() == old(self).text(),
    {
        Err(MyError::Error1)
    }
}

/// Makes a service with an empty text and lets it go.
pub fn do_test() {
    let _obj = MyObject::new(String::new());
}

} // verus!
