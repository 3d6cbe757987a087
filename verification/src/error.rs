//! The named failures of the host, each with the text it shows.

use vstd::prelude::*;

use crate::text::push_str;

verus! {

/// A dispatch between an actor and a capability the actor holds no claim
/// for.
pub struct UnauthorizedCapability(pub String, pub String);

impl UnauthorizedCapability {
    /// The text of the failure, naming both parties.
    pub fn message(&self) -> (r: String)
        ensures
            r@ == "Dispatch between actor and unauthorized capability: "@ + self.0@ + " <-> "@
                + self.1@,
    {
        let mut s = "Dispatch between actor and unauthorized capability: ".to_owned();
        push_str(&mut s, self.0.as_str());
        push_str(&mut s, " <-> ");
        push_str(&mut s, self.1.as_str());
        s
    }
}

/// A capability provider returned an error from a call.
pub struct CapabilityFailure(pub String);

impl CapabilityFailure {
    /// The text of the provider's error.
    pub fn message(&self) -> (r: String)
        ensures
            r@ == self.0@,
    {
        self.0.clone()
    }
}

/// A call aimed at an actor that is not known to the host.
pub struct UnknownActor;

impl UnknownActor {
    /// The text of the failure.
    pub fn message(&self) -> (r: String)
        ensures
            r@ == "Trying to call an unknown actor"@,
    {
        "Trying to call an unknown actor".to_owned()
    }
}

/// A hot swap of a provider that could not be performed.
pub struct HotSwapFailure;

impl HotSwapFailure {
    /// The text of the failure.
    pub fn message(&self) -> (r: String)
        ensures
            r@ == "Failed to perform hot swap"@,
    {
        "Failed to perform hot swap".to_owned()
    }
}

/// An actor-to-actor call whose target does not exist.
pub struct ActorToActorCallNotExist;

impl ActorToActorCallNotExist {
    /// The text of the failure.
    pub fn message(&self) -> (r: String)
        ensures
            r@ == "Attempted actor-to-actor call to non-existent target"@,
    {
        "Attempted actor-to-actor call to non-existent target".to_owned()
    }
}

/// A call made on behalf of the host failed.
pub struct HostCallFailure(pub String);

impl HostCallFailure {
    /// The text of the underlying failure.
    pub fn message(&self) -> (r: String)
        ensures
            r@ == self.0@,
    {
        self.0.clone()
    }
}

/// An invocation whose target cannot be served on the path it took.
pub struct BadDispatch;

impl BadDispatch {
    /// The text of the failure.
    pub fn message(&self) -> (r: String)
        ensures
            r@ == "Bad dispatch"@,
    {
        "Bad dispatch".to_owned()
    }
}

/// An actor-target invocation handed to the native host.
pub struct NativeHostCannotBeActor;

impl NativeHostCannotBeActor {
    /// The text of the failure.
    pub fn message(&self) -> (r: String)
        ensures
            r@ == "Invocation target of native host can't be actor"@,
    {
        "Invocation target of native host can't be actor".to_owned()
    }
}

/// An authorization failure, with its reason.
pub struct Authorization(pub String);

impl Authorization {
    /// The reason authorization failed.
    pub fn message(&self) -> (r: String)
        ensures
            r@ == self.0@,
    {
        self.0.clone()
    }
}

/// A capability provider failure, with its reason.
pub struct CapabilityProvider(pub String);

impl CapabilityProvider {
    /// The reason the provider failed.
    pub fn message(&self) -> (r: String)
        ensures
            r@ == self.0@,
    {
        self.0.clone()
    }
}

/// A miscellaneous failure of the host, with its reason.
pub struct MiscHost(pub String);

impl MiscHost {
    /// The reason for the failure.
    pub fn message(&self) -> (r: String)
        ensures
            r@ == self.0@,
    {
        self.0.clone()
    }
}

} // verus!
