//! The outbound dispatcher: the handle given to each capability provider
//! so it can call into actors and await the reply.
//!
//! A provider-originated call is an actor-target envelope placed on the
//! provider's own inbound channel; the worker forwards it and writes the
//! reply on the paired response channel. The two halves of that exchange
//! — building the envelope and reading the reply — are here; the channel
//! transport around them is the runtime's.

use vstd::prelude::*;

use crate::errors::{new, Error, ErrorKind, ErrorKindView};
use crate::inthost::{
    Invocation, InvocationTarget, InvocationTargetView, InvocationView,
    InvocationResponse,
};

verus! {

/// A dispatcher for one provider, remembering the capability id its
/// envelopes originate from. Freely cloneable; a provider must serialize
/// its own dispatches, since it shares one response channel with its
/// worker.
pub struct WasccNativeDispatcher {
    capid: String,
}

impl View for WasccNativeDispatcher {
    type V = Seq<char>;

    closed spec fn view(&self) -> Seq<char> {
        self.capid@
    }
}

impl Clone for WasccNativeDispatcher {
    fn clone(&self) -> (r: Self)
        ensures
            r@ == self@,
    {
        WasccNativeDispatcher { capid: self.capid.clone() }
    }
}

impl WasccNativeDispatcher {
    /// A dispatcher whose envelopes originate from `capid`.
    pub fn new(capid: &str) -> (r: Self)
        ensures
            r@ == capid@,
    {
        WasccNativeDispatcher { capid: capid.to_owned() }
    }

    /// The envelope a dispatch places on the provider's inbound channel:
    /// an actor-target invocation originating from this provider.
    pub fn make_invocation(&self, actor: &str, op: &str, msg: Vec<u8>) -> (r: Invocation)
        ensures
            r@ == (InvocationView {
                origin: self@,
                target: InvocationTargetView::Actor(actor@),
                operation: op@,
                msg: msg@,
                id: 0,
            }),
    {
        Invocation::new(
            self.capid.clone(),
            InvocationTarget::Actor(actor.to_owned()),
            op,
            msg,
        )
    }

    /// What a dispatch hands back once the worker's reply arrives: the
    /// payload on success, the reply's error otherwise.
    pub fn interpret_response(resp: InvocationResponse) -> (r: Result<Vec<u8>, Error>)
        ensures
            match r {
                Ok(v) => resp@.error is None && v@ == resp@.msg,
                Err(e) => resp@.error is Some && e@ == ErrorKindView::HostCallFailure(
                    resp@.error.unwrap(),
                ),
            },
    {
        match resp.error {
            Some(s) => Err(new(ErrorKind::HostCallFailure(s))),
            None => Ok(resp.msg),
        }
    }
}

} // verus!
