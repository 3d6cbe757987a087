//! The middleware chain: an ordered sequence of user-supplied transforms
//! wrapping every actor call and every capability call, at pre- and
//! post-phases.
//!
//! Hooks run in registration order for pre-hooks and in the same order
//! for post-hooks. A failing hook is non-fatal: the run continues with
//! the hook's untransformed input, so an optional middleware cannot take
//! down the request path.

use vstd::prelude::*;

use crate::errors::{new, Error, ErrorKind};
use crate::inthost::{Invocation, InvocationResponse, InvocationResponseView, InvocationTargetView};
use crate::plugins::{bad_dispatch_text, no_plugin_text, CapabilityProvider, PluginManager};
use crate::router::Router;

verus! {

/// The four hooks a middleware implements. Each may transform the value
/// it is given or reject it with an error; rejection is logged by the
/// host and the untransformed value is used.
pub trait Middleware {
    fn actor_pre_invoke(&mut self, inv: Invocation) -> Result<Invocation, Error>;

    fn actor_post_invoke(&mut self, response: InvocationResponse) -> Result<
        InvocationResponse,
        Error,
    >;

    fn capability_pre_invoke(&mut self, inv: Invocation) -> Result<Invocation, Error>;

    fn capability_post_invoke(&mut self, response: InvocationResponse) -> Result<
        InvocationResponse,
        Error,
    >;
}

/// The contract of the external actor runtime: one synchronous call,
/// `call(operation, payload)`, yielding a reply payload or an error. The
/// host assumes nothing else of it.
pub trait Guest {
    fn call(&mut self, operation: &str, msg: &[u8]) -> Result<Vec<u8>, String>;
}

/// Runs the actor pre-invoke hooks in registration order, each feeding
/// the next; stops at the first rejection.
pub fn run_actor_pre_invoke<M: Middleware>(inv: Invocation, middlewares: &mut Vec<M>) -> (r:
    Result<Invocation, Error>)
    ensures
        final(middlewares)@.len() == old(middlewares)@.len(),
        old(middlewares)@.len() == 0 ==> (r matches Ok(i) && i == inv),
{
    let mut cur = inv;
    let n = middlewares.len();
    if n == 0 {
        return Ok(cur);
    }
    let mut idx: usize = 0;
    while idx < n
        invariant
            n == middlewares@.len(),
            middlewares@.len() == old(middlewares)@.len(),
            idx <= n,
        decreases n - idx,
    {
        let mut m = middlewares.remove(idx);
        let outcome = m.actor_pre_invoke(cur);
        middlewares.insert(idx, m);
        match outcome {
            Ok(i) => {
                cur = i;
            },
            Err(e) => {
                return Err(e);
            },
        }
        idx = idx + 1;
    }
    Ok(cur)
}

/// Runs the actor post-invoke hooks in registration order, each feeding
/// the next; stops at the first rejection.
pub fn run_actor_post_invoke<M: Middleware>(
    resp: InvocationResponse,
    middlewares: &mut Vec<M>,
) -> (r: Result<InvocationResponse, Error>)
    ensures
        final(middlewares)@.len() == old(middlewares)@.len(),
        old(middlewares)@.len() == 0 ==> (r matches Ok(i) && i == resp),
{
    let mut cur = resp;
    let n = middlewares.len();
    if n == 0 {
        return Ok(cur);
    }
    let mut idx: usize = 0;
    while idx < n
        invariant
            n == middlewares@.len(),
            middlewares@.len() == old(middlewares)@.len(),
            idx <= n,
        decreases n - idx,
    {
        let mut m = middlewares.remove(idx);
        let outcome = m.actor_post_invoke(cur);
        middlewares.insert(idx, m);
        match outcome {
            Ok(i) => {
                cur = i;
            },
            Err(e) => {
                return Err(e);
            },
        }
        idx = idx + 1;
    }
    Ok(cur)
}

/// Runs the capability pre-invoke hooks in registration order, each
/// feeding the next; stops at the first rejection.
pub fn run_capability_pre_invoke<M: Middleware>(inv: Invocation, middlewares: &mut Vec<M>) -> (r:
    Result<Invocation, Error>)
    ensures
        final(middlewares)@.len() == old(middlewares)@.len(),
        old(middlewares)@.len() == 0 ==> (r matches Ok(i) && i == inv),
{
    let mut cur = inv;
    let n = middlewares.len();
    if n == 0 {
        return Ok(cur);
    }
    let mut idx: usize = 0;
    while idx < n
        invariant
            n == middlewares@.len(),
            middlewares@.len() == old(middlewares)@.len(),
            idx <= n,
        decreases n - idx,
    {
        let mut m = middlewares.remove(idx);
        let outcome = m.capability_pre_invoke(cur);
        middlewares.insert(idx, m);
        match outcome {
            Ok(i) => {
                cur = i;
            },
            Err(e) => {
                return Err(e);
            },
        }
        idx = idx + 1;
    }
    Ok(cur)
}

/// Runs the capability post-invoke hooks in registration order, each
/// feeding the next; stops at the first rejection.
pub fn run_capability_post_invoke<M: Middleware>(
    resp: InvocationResponse,
    middlewares: &mut Vec<M>,
) -> (r: Result<InvocationResponse, Error>)
    ensures
        final(middlewares)@.len() == old(middlewares)@.len(),
        old(middlewares)@.len() == 0 ==> (r matches Ok(i) && i == resp),
{
    let mut cur = resp;
    let n = middlewares.len();
    if n == 0 {
        return Ok(cur);
    }
    let mut idx: usize = 0;
    while idx < n
        invariant
            n == middlewares@.len(),
            middlewares@.len() == old(middlewares)@.len(),
            idx <= n,
        decreases n - idx,
    {
        let mut m = middlewares.remove(idx);
        let outcome = m.capability_post_invoke(cur);
        middlewares.insert(idx, m);
        match outcome {
            Ok(i) => {
                cur = i;
            },
            Err(e) => {
                return Err(e);
            },
        }
        idx = idx + 1;
    }
    Ok(cur)
}

/// One capability invocation: the pre-invoke chain, the plugin call, the
/// post-invoke chain. A middleware rejection at either phase is
/// non-fatal — the run continues with the untransformed value — so the
/// result is always a response, never an error.
pub fn invoke_capability<M: Middleware, P: CapabilityProvider>(
    middlewares: &mut Vec<M>,
    plugins: &mut PluginManager<P>,
    router: &Router,
    inv: Invocation,
) -> (r: Result<InvocationResponse, Error>)
    requires
        old(plugins).wf(),
    ensures
        final(plugins).wf(),
        final(plugins)@ == old(plugins)@,
        final(middlewares)@.len() == old(middlewares)@.len(),
        r is Ok,
        old(middlewares)@.len() == 0 ==> (match inv@.target {
            InvocationTargetView::Actor(_) => r matches Ok(resp) && resp@ == (
            InvocationResponseView {
                invocation_id: inv@.id,
                msg: Seq::empty(),
                error: Some(bad_dispatch_text()),
            }),
            InvocationTargetView::Capability { capid, binding } => {
                if !old(plugins)@.contains_key((binding, capid)) {
                    r matches Ok(resp) && resp@ == (InvocationResponseView {
                        invocation_id: inv@.id,
                        msg: Seq::empty(),
                        error: Some(no_plugin_text(binding, capid)),
                    })
                } else {
                    r matches Ok(resp) && resp@.invocation_id == inv@.id
                }
            },
        }),
{
    let current = match run_capability_pre_invoke(inv.clone(), middlewares) {
        Ok(i) => i,
        Err(_) => inv,
    };
    let resp = match plugins.call(router, &current) {
        Ok(resp) => resp,
        Err(e) => {
            let text = e.message();
            InvocationResponse::error(&current, text.as_str())
        },
    };
    match run_capability_post_invoke(resp.clone(), middlewares) {
        Ok(transformed) => Ok(transformed),
        Err(_) => Ok(resp),
    }
}

/// One actor invocation: the actor pre-invoke chain, the guest call, the
/// actor post-invoke chain. A guest failure becomes a response error; a
/// middleware rejection is non-fatal, as in the capability path.
pub fn invoke_actor<M: Middleware, G: Guest>(
    middlewares: &mut Vec<M>,
    inv: Invocation,
    guest: &mut G,
) -> (r: Result<InvocationResponse, Error>)
    ensures
        final(middlewares)@.len() == old(middlewares)@.len(),
        r is Ok,
        old(middlewares)@.len() == 0 ==> (r matches Ok(resp) && resp@.invocation_id == inv@.id),
{
    let current = match run_actor_pre_invoke(inv.clone(), middlewares) {
        Ok(i) => i,
        Err(_) => inv,
    };
    let outcome = guest.call(current.operation.as_str(), current.msg.as_slice());
    let resp = match outcome {
        Ok(bytes) => InvocationResponse::success(&current, bytes),
        Err(text) => {
            let e = new(ErrorKind::Wapc(text));
            let message = e.message();
            InvocationResponse::error(&current, message.as_str())
        },
    };
    match run_actor_post_invoke(resp.clone(), middlewares) {
        Ok(transformed) => Ok(transformed),
        Err(_) => Ok(resp),
    }
}

} // verus!
