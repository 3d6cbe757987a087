//! The invocation value types: immutable request and response envelopes
//! addressed by target.

use vstd::prelude::*;

verus! {

/// Where an invocation is aimed: an actor (an external guest module,
/// addressed by an opaque string id) or a capability provider (addressed
/// by capability id and binding name).
#[derive(Debug)]
pub enum InvocationTarget {
    Actor(String),
    Capability { capid: String, binding: String },
}

/// The mathematical value of an [`InvocationTarget`].
pub enum InvocationTargetView {
    Actor(Seq<char>),
    Capability { capid: Seq<char>, binding: Seq<char> },
}

impl View for InvocationTarget {
    type V = InvocationTargetView;

    open spec fn view(&self) -> InvocationTargetView {
        match self {
            InvocationTarget::Actor(id) => InvocationTargetView::Actor(id@),
            InvocationTarget::Capability { capid, binding } => InvocationTargetView::Capability {
                capid: capid@,
                binding: binding@,
            },
        }
    }
}

impl Clone for InvocationTarget {
    fn clone(&self) -> (r: Self)
        ensures
            r@ == self@,
    {
        match self {
            InvocationTarget::Actor(id) => InvocationTarget::Actor(id.clone()),
            InvocationTarget::Capability { capid, binding } => InvocationTarget::Capability {
                capid: capid.clone(),
                binding: binding.clone(),
            },
        }
    }
}

/// One request envelope. Immutable once constructed; the `id` is a
/// correlation identifier stamped by the host when the envelope enters a
/// channel, and is not used for response matching.
#[derive(Debug)]
pub struct Invocation {
    pub origin: String,
    pub target: InvocationTarget,
    pub operation: String,
    pub msg: Vec<u8>,
    pub id: u64,
}

/// The mathematical value of an [`Invocation`].
pub struct InvocationView {
    pub origin: Seq<char>,
    pub target: InvocationTargetView,
    pub operation: Seq<char>,
    pub msg: Seq<u8>,
    pub id: u64,
}

impl View for Invocation {
    type V = InvocationView;

    open spec fn view(&self) -> InvocationView {
        InvocationView {
            origin: self.origin@,
            target: self.target@,
            operation: self.operation@,
            msg: self.msg@,
            id: self.id,
        }
    }
}

impl Invocation {
    /// Builds an envelope with correlation identifier zero; the host
    /// stamps a fresh identifier when the envelope is posted on a route.
    pub fn new(origin: String, target: InvocationTarget, op: &str, msg: Vec<u8>) -> (r: Self)
        ensures
            r@ == (InvocationView {
                origin: origin@,
                target: target@,
                operation: op@,
                msg: msg@,
                id: 0,
            }),
    {
        Invocation { origin, target, operation: op.to_owned(), msg, id: 0 }
    }
}

impl Clone for Invocation {
    fn clone(&self) -> (r: Self)
        ensures
            r@ == self@,
    {
        let r = Invocation {
            origin: self.origin.clone(),
            target: self.target.clone(),
            operation: self.operation.clone(),
            msg: self.msg.clone(),
            id: self.id,
        };
        proof {
            assert(r.msg@ =~= self.msg@);
        }
        r
    }
}

/// One response envelope. Exactly one of the two outcomes is meaningful:
/// a caller treats `error = Some(..)` as failure regardless of `msg`.
#[derive(Debug)]
pub struct InvocationResponse {
    pub invocation_id: u64,
    pub msg: Vec<u8>,
    pub error: Option<String>,
}

/// The mathematical value of an [`InvocationResponse`].
pub struct InvocationResponseView {
    pub invocation_id: u64,
    pub msg: Seq<u8>,
    pub error: Option<Seq<char>>,
}

impl View for InvocationResponse {
    type V = InvocationResponseView;

    open spec fn view(&self) -> InvocationResponseView {
        InvocationResponseView {
            invocation_id: self.invocation_id,
            msg: self.msg@,
            error: match self.error {
                Some(ref e) => Some(e@),
                None => None,
            },
        }
    }
}

impl InvocationResponse {
    /// A success envelope carrying the payload `msg`.
    pub fn success(inv: &Invocation, msg: Vec<u8>) -> (r: Self)
        ensures
            r@ == (InvocationResponseView { invocation_id: inv.id, msg: msg@, error: None }),
    {
        InvocationResponse { invocation_id: inv.id, msg, error: None }
    }

    /// A failure envelope carrying the error text `msg`.
    pub fn error(inv: &Invocation, msg: &str) -> (r: Self)
        ensures
            r@ == (InvocationResponseView {
                invocation_id: inv.id,
                msg: Seq::<u8>::empty(),
                error: Some(msg@),
            }),
    {
        InvocationResponse { invocation_id: inv.id, msg: Vec::new(), error: Some(msg.to_owned()) }
    }
}

impl Clone for InvocationResponse {
    fn clone(&self) -> (r: Self)
        ensures
            r@ == self@,
    {
        let r = InvocationResponse {
            invocation_id: self.invocation_id,
            msg: self.msg.clone(),
            error: self.error.clone(),
        };
        proof {
            assert(r.msg@ =~= self.msg@);
        }
        r
    }
}

} // verus!
