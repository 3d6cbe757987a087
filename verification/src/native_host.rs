//! The host façade: registration of capability providers, the middleware
//! chain, invocation, and teardown, over one router, one plugin set and
//! one descriptor table.
//!
//! The host also holds the worker-loop decisions: what one worker does
//! with one envelope from its inbound channel, and what it does with a
//! terminate signal. A threaded runtime drives those steps from its own
//! select loop; the sequential step functions here are what it runs.

use vstd::prelude::*;

use crate::dispatch::WasccNativeDispatcher;
use crate::errors::{new, Error, ErrorKind, ErrorKindView};
use crate::inthost::{
    Invocation, InvocationResponse, InvocationResponseView, InvocationTarget, InvocationTargetView,
    InvocationView,
};
use crate::middleware::{invoke_capability, Middleware};
use crate::plugins::{
    extras_descriptor_view, no_plugin_text, CapabilityDescriptor, CapabilityDescriptorView,
    CapabilityProvider, ExtrasCapabilityProvider, NativeCapability, PluginManager, PluginView,
};
use crate::router::{
    empty_entry, entry_pop_inbound, entry_pop_response, entry_terminated, entry_with_invocation,
    entry_with_response, RouteEntryView, Router,
};
use crate::table::{key_view, Table};
use crate::text::{keyed_text, push_str};

verus! {

/// The key the built-in extras provider is registered under.
pub open spec fn extras_key() -> (Seq<char>, Seq<char>) {
    ("default"@, "wascc:extras"@)
}

/// The text reported when a provider is registered under a key already
/// bound.
pub open spec fn duplicate_capability_text(capid: Seq<char>, binding: Seq<char>) -> Seq<char> {
    "Capability provider "@ + capid + " cannot be bound to the same name ("@ + binding
        + ") twice, loading failed."@
}

/// The text reported when an invocation addresses a key with no route.
pub open spec fn unknown_route_text(binding: Seq<char>, capid: Seq<char>) -> Seq<char> {
    "No route for capability: ("@ + binding + ","@ + capid + ")"@
}

/// The text reported when an invocation addresses an actor, which this
/// host does not serve.
pub open spec fn unknown_actor_text() -> Seq<char> {
    "Trying to call an unknown actor"@
}

/// The error text a worker writes back when an actor-target envelope
/// reaches it.
pub open spec fn actor_target_on_worker_text() -> Seq<char> {
    "invocation target of native host can't be actor"@
}

/// What one iteration of a provider's worker loop did.
pub enum WorkerStep {
    /// No route is registered under the key.
    NoSuchRoute,
    /// Neither a terminate signal nor an invocation was pending.
    Idle,
    /// One inbound invocation was served and its response written back.
    Served,
    /// A terminate signal was consumed and the provider torn down.
    Terminated,
}

/// Whether one of the first `upto` keys of the snapshot names `k`.
spec fn torn(keys: Seq<(String, String)>, upto: int, k: (Seq<char>, Seq<char>)) -> bool {
    exists|j: int| 0 <= j < upto && key_view(#[trigger] keys[j]) == k
}

/// The worker-loop decision for one envelope: a capability target runs
/// through the middleware chain and the plugin call; an actor target
/// cannot be served by a native worker and is answered with an error
/// response.
pub fn worker_dispatch<M: Middleware, P: CapabilityProvider>(
    middlewares: &mut Vec<M>,
    plugins: &mut PluginManager<P>,
    router: &Router,
    inv: Invocation,
) -> (r: InvocationResponse)
    requires
        old(plugins).wf(),
    ensures
        final(plugins).wf(),
        final(plugins)@ == old(plugins)@,
        final(middlewares)@.len() == old(middlewares)@.len(),
        inv@.target is Actor ==> r@ == (InvocationResponseView {
            invocation_id: inv@.id,
            msg: Seq::empty(),
            error: Some(actor_target_on_worker_text()),
        }),
        old(middlewares)@.len() == 0 ==> (match inv@.target {
            InvocationTargetView::Actor(_) => true,
            InvocationTargetView::Capability { capid, binding } => {
                if !old(plugins)@.contains_key((binding, capid)) {
                    r@ == (InvocationResponseView {
                        invocation_id: inv@.id,
                        msg: Seq::empty(),
                        error: Some(no_plugin_text(binding, capid)),
                    })
                } else {
                    r@.invocation_id == inv@.id
                }
            },
        }),
{
    match &inv.target {
        InvocationTarget::Capability { .. } => {
            match invoke_capability(middlewares, plugins, router, inv.clone()) {
                Ok(resp) => resp,
                Err(_) => vstd::pervasive::unreached(),
            }
        },
        InvocationTarget::Actor(_) => InvocationResponse::error(
            &inv,
            "invocation target of native host can't be actor",
        ),
    }
}

/// The host: the public surface of the runtime. One value of this type
/// is one isolated fabric of providers, middleware and routes.
pub struct NativeHost<P: CapabilityProvider, M: Middleware> {
    plugins: PluginManager<P>,
    router: Router,
    middlewares: Vec<M>,
    caps: Table<CapabilityDescriptor>,
    next_id: u64,
}

impl<P: CapabilityProvider, M: Middleware> NativeHost<P, M> {
    /// The router table, as a map from key to channel state.
    pub closed spec fn routes(&self) -> Map<(Seq<char>, Seq<char>), RouteEntryView> {
        self.router@
    }

    /// The plugin set, as a map from key to registration state.
    pub closed spec fn plugin_set(&self) -> Map<(Seq<char>, Seq<char>), PluginView> {
        self.plugins@
    }

    /// The descriptor table, as a map from key to descriptor.
    pub closed spec fn caps_map(&self) -> Map<(Seq<char>, Seq<char>), CapabilityDescriptorView> {
        self.caps@.map_values(|d: CapabilityDescriptor| d@)
    }

    /// How many middlewares are chained.
    pub closed spec fn middleware_count(&self) -> nat {
        self.middlewares@.len()
    }

    /// The correlation identifier the next posted envelope receives.
    pub closed spec fn next_invocation_id(&self) -> u64 {
        self.next_id
    }

    /// The host's invariant: each table keyed uniquely, and the three
    /// tables keyed alike — a route exists exactly for each loaded
    /// provider and each stored descriptor.
    pub closed spec fn wf(&self) -> bool {
        &&& self.router.wf()
        &&& self.plugins.wf()
        &&& self.caps.wf()
        &&& self.plugins@.dom() == self.router@.dom()
        &&& self.caps@.dom() == self.router@.dom()
    }

    /// In every reachable host state the three tables are keyed alike: a
    /// route, a loaded provider and a stored descriptor exist for
    /// exactly the same keys. A registered provider is therefore
    /// addressable as soon as registration returns.
    pub proof fn lemma_tables_keyed_alike(&self)
        requires
            self.wf(),
        ensures
            self.plugin_set().dom() == self.routes().dom(),
            self.caps_map().dom() == self.routes().dom(),
    {
        assert(self.plugin_set().dom() =~= self.routes().dom());
        assert(self.caps_map().dom() =~= self.routes().dom());
    }

    /// A fresh host: empty tables, then the built-in extras provider
    /// registered under `("default", "wascc:extras")`.
    pub fn new() -> (h: Self)
        ensures
            h.wf(),
            h.routes() == Map::<(Seq<char>, Seq<char>), RouteEntryView>::empty().insert(
                extras_key(),
                empty_entry(),
            ),
            h.plugin_set() == Map::<(Seq<char>, Seq<char>), PluginView>::empty().insert(
                extras_key(),
                PluginView { descriptor: extras_descriptor_view(), configured: true, builtin: true },
            ),
            h.caps_map() == Map::<(Seq<char>, Seq<char>), CapabilityDescriptorView>::empty().insert(
                extras_key(),
                extras_descriptor_view(),
            ),
            h.middleware_count() == 0,
    {
        let mut host = NativeHost {
            plugins: PluginManager::new(),
            router: Router::new(),
            middlewares: Vec::new(),
            caps: Table::new(),
            next_id: 0,
        };
        proof {
            assert(host.plugins@.dom() =~= host.router@.dom());
            assert(host.caps@.dom() =~= host.router@.dom());
            assert(host.caps_map() =~= Map::<
                (Seq<char>, Seq<char>),
                CapabilityDescriptorView,
            >::empty());
        }
        match host.ensure_extras() {
            Ok(()) => {},
            Err(_) => {
                return vstd::pervasive::unreached();
            },
        }
        host
    }

    /// Registers the built-in extras provider unless one already answers
    /// under its key, so that a baseline capability set is always
    /// present.
    fn ensure_extras(&mut self) -> (r: Result<(), Error>)
        requires
            old(self).wf(),
        ensures
            final(self).wf(),
            r is Ok,
            final(self).middleware_count() == old(self).middleware_count(),
            old(self).routes().contains_key(extras_key()) ==> final(self).routes() == old(self).routes() && final(self).plugin_set() == old(self).plugin_set() && final(self).caps_map() == old(self).caps_map(),
            !old(self).routes().contains_key(extras_key()) ==> final(self).routes() == old(self).routes().insert(extras_key(), empty_entry()) && final(self).plugin_set() == old(self).plugin_set().insert(
                extras_key(),
                PluginView { descriptor: extras_descriptor_view(), configured: true, builtin: true },
            ) && final(self).caps_map() == old(self).caps_map().insert(
                extras_key(),
                extras_descriptor_view(),
            ),
    {
        if self.router.get_route("default", "wascc:extras").is_some() {
            return Ok(());
        }
        let extras = NativeCapability::from_extras(ExtrasCapabilityProvider::default());
        match self.add_native_capability(extras) {
            Ok(()) => Ok(()),
            Err(_) => vstd::pervasive::unreached(),
        }
    }

    /// Registers a provider: checks the key is free, stores the
    /// descriptor, takes ownership of the provider, hands it its
    /// dispatcher, and adds the route. After `Ok` the provider is
    /// addressable. Fails with the key unchanged when the key is already
    /// bound, or when the provider rejects configuration.
    pub fn add_native_capability(&mut self, capability: NativeCapability<P>) -> (r: Result<
        (),
        Error,
    >)
        requires
            old(self).wf(),
        ensures
            final(self).wf(),
            final(self).middleware_count() == old(self).middleware_count(),
            final(self).next_invocation_id() == old(self).next_invocation_id(),
            old(self).routes().contains_key((capability@.binding, capability@.capid())) ==> (
            r matches Err(e) && e@ == ErrorKindView::CapabilityProvider(
                duplicate_capability_text(capability@.capid(), capability@.binding),
            ) && final(self).routes() == old(self).routes() && final(self).plugin_set() == old(self).plugin_set() && final(self).caps_map() == old(self).caps_map()),
            !old(self).routes().contains_key((capability@.binding, capability@.capid()))
                ==> (match r {
                Ok(()) => final(self).routes() == old(self).routes().insert(
                    (capability@.binding, capability@.capid()),
                    empty_entry(),
                ) && final(self).plugin_set() == old(self).plugin_set().insert(
                    (capability@.binding, capability@.capid()),
                    PluginView {
                        descriptor: capability@.descriptor,
                        configured: true,
                        builtin: capability@.builtin,
                    },
                ) && final(self).caps_map() == old(self).caps_map().insert(
                    (capability@.binding, capability@.capid()),
                    capability@.descriptor,
                ),
                Err(e) => e@ is Plugin && !capability@.builtin && final(self).routes() == old(self).routes() && final(self).plugin_set() == old(self).plugin_set() && final(self).caps_map() == old(self).caps_map(),
            }),
    {
        let ghost cv = capability@;
        let ghost k = (cv.binding, cv.capid());
        let binding = capability.binding_name.clone();
        let capid = capability.id();
        if self.router.route_exists(binding.as_str(), capid.as_str()) {
            let mut text = "Capability provider ".to_owned();
            push_str(&mut text, capid.as_str());
            push_str(&mut text, " cannot be bound to the same name (");
            push_str(&mut text, binding.as_str());
            push_str(&mut text, ") twice, loading failed.");
            return Err(new(ErrorKind::CapabilityProvider(text)));
        }
        let ghost caps0 = self.caps_map();
        let descriptor = capability.descriptor().clone();
        match self.caps.insert_new(binding.clone(), capid.clone(), descriptor) {
            Ok(()) => {
                proof {
                    assert(self.caps_map() =~= caps0.insert(k, cv.descriptor));
                }
            },
            Err(_) => {
                return vstd::pervasive::unreached();
            },
        }
        match self.plugins.add_plugin(capability) {
            Ok(()) => {},
            Err(_) => {
                return vstd::pervasive::unreached();
            },
        }
        let dispatcher = WasccNativeDispatcher::new(capid.as_str());
        match self.plugins.register_dispatcher(binding.as_str(), capid.as_str(), dispatcher) {
            Ok(()) => {},
            Err(e) => {
                let ghost caps1 = self.caps_map();
                let _ = self.caps.remove(binding.as_str(), capid.as_str());
                proof {
                    assert(self.caps_map() =~= caps0);
                }
                let _ = self.plugins.remove_plugin(binding.as_str(), capid.as_str());
                proof {
                    assert(self.plugins@ =~= old(self).plugins@);
                    assert(self.plugins@.dom() =~= self.router@.dom());
                    assert(self.caps@.dom() =~= self.router@.dom());
                }
                return Err(e);
            },
        }
        match self.router.add_route(binding.as_str(), capid.as_str()) {
            Ok(()) => {},
            Err(_) => {
                return vstd::pervasive::unreached();
            },
        }
        proof {
            assert(self.plugins@.dom() =~= self.router@.dom());
            assert(self.caps@.dom() =~= self.router@.dom());
        }
        Ok(())
    }

    /// Appends a middleware to the chain. Order of registration is the
    /// order hooks run in, at both phases.
    pub fn add_middleware(&mut self, middleware: M)
        requires
            old(self).wf(),
        ensures
            final(self).wf(),
            final(self).routes() == old(self).routes(),
            final(self).plugin_set() == old(self).plugin_set(),
            final(self).caps_map() == old(self).caps_map(),
            final(self).middleware_count() == old(self).middleware_count() + 1,
            final(self).next_invocation_id() == old(self).next_invocation_id(),
    {
        self.middlewares.push(middleware);
    }

    /// One request/response round trip: looks the target's route up and
    /// serves the invocation on the worker path. Succeeds exactly when
    /// the target is a capability whose route is registered.
    pub fn invoke(&mut self, inv: Invocation) -> (r: Result<InvocationResponse, Error>)
        requires
            old(self).wf(),
        ensures
            final(self).wf(),
            final(self).routes() == old(self).routes(),
            final(self).plugin_set() == old(self).plugin_set(),
            final(self).caps_map() == old(self).caps_map(),
            final(self).middleware_count() == old(self).middleware_count(),
            final(self).next_invocation_id() == old(self).next_invocation_id(),
            match inv@.target {
                InvocationTargetView::Actor(_) => r matches Err(e) && e@
                    == ErrorKindView::MiscHost(unknown_actor_text()),
                InvocationTargetView::Capability { capid, binding } => {
                    if old(self).routes().contains_key((binding, capid)) {
                        (r matches Ok(resp)) && (old(self).middleware_count() == 0 ==> (
                        r matches Ok(resp) && resp@.invocation_id == inv@.id))
                    } else {
                        r matches Err(e) && e@ == ErrorKindView::MiscHost(
                            unknown_route_text(binding, capid),
                        )
                    }
                },
            },
    {
        match &inv.target {
            InvocationTarget::Actor(_) => {
                return Err(new(ErrorKind::MiscHost("Trying to call an unknown actor".to_owned())));
            },
            InvocationTarget::Capability { capid, binding } => {
                if !self.router.route_exists(binding.as_str(), capid.as_str()) {
                    let text = keyed_text(
                        "No route for capability: (",
                        binding.as_str(),
                        capid.as_str(),
                    );
                    return Err(new(ErrorKind::MiscHost(text)));
                }
            },
        }
        let resp = worker_dispatch(&mut self.middlewares, &mut self.plugins, &self.router, inv);
        Ok(resp)
    }

    /// Stamps a fresh correlation identifier on the envelope and places
    /// it on the inbound channel of the route under the key, as a
    /// dispatcher or the façade would before the worker runs.
    pub fn post_invocation(&mut self, binding: &str, capid: &str, inv: Invocation) -> (r: Result<
        (),
        Error,
    >)
        requires
            old(self).wf(),
        ensures
            final(self).wf(),
            final(self).plugin_set() == old(self).plugin_set(),
            final(self).caps_map() == old(self).caps_map(),
            final(self).middleware_count() == old(self).middleware_count(),
            match r {
                Ok(()) => old(self).routes().contains_key((binding@, capid@)) && final(self).routes() == old(self).routes().insert(
                    (binding@, capid@),
                    entry_with_invocation(
                        old(self).routes()[(binding@, capid@)],
                        (InvocationView { id: old(self).next_invocation_id(), ..inv@ }),
                    ),
                ) && final(self).next_invocation_id() == (
                if old(self).next_invocation_id() == u64::MAX {
                    0u64
                } else {
                    (old(self).next_invocation_id() + 1) as u64
                }),
                Err(e) => !old(self).routes().contains_key((binding@, capid@)) && final(self).routes() == old(self).routes() && final(self).next_invocation_id() == old(self).next_invocation_id() && e@ == ErrorKindView::MiscHost(
                    unknown_route_text(binding@, capid@),
                ),
            },
    {
        let ghost m0 = self.routes();
        let mut stamped = inv;
        stamped.id = self.next_id;
        let pushed = self.router.push_invocation(binding, capid, stamped);
        if pushed {
            proof {
                assert(self.routes().dom() =~= m0.dom());
            }
            self.next_id = if self.next_id == u64::MAX {
                0
            } else {
                self.next_id + 1
            };
            Ok(())
        } else {
            let text = keyed_text("No route for capability: (", binding, capid);
            Err(new(ErrorKind::MiscHost(text)))
        }
    }

    /// One iteration of a provider's worker loop. A pending terminate
    /// signal wins: the worker removes the descriptor, the route and the
    /// provider, in that order, and reports `Terminated`. Otherwise one
    /// inbound envelope, if any waits, is served through the worker
    /// dispatch and its response written on the response channel.
    pub fn run_worker_once(&mut self, binding: &str, capid: &str) -> (r: WorkerStep)
        requires
            old(self).wf(),
        ensures
            final(self).wf(),
            final(self).middleware_count() == old(self).middleware_count(),
            final(self).next_invocation_id() == old(self).next_invocation_id(),
            match r {
                WorkerStep::NoSuchRoute => !old(self).routes().contains_key((binding@, capid@))
                    && final(self).routes() == old(self).routes() && final(self).plugin_set()
                    == old(self).plugin_set() && final(self).caps_map() == old(self).caps_map(),
                WorkerStep::Terminated => old(self).routes().contains_key((binding@, capid@))
                    && old(self).routes()[(binding@, capid@)].terminates.len() > 0 && final(self).routes() == old(self).routes().remove((binding@, capid@)) && final(self).plugin_set() == old(self).plugin_set().remove((binding@, capid@)) && final(self).caps_map() == old(self).caps_map().remove((binding@, capid@)),
                WorkerStep::Idle => old(self).routes().contains_key((binding@, capid@)) && old(self).routes()[(binding@, capid@)].terminates.len() == 0 && old(self).routes()[(
                    binding@,
                    capid@,
                )].inbound.len() == 0 && final(self).routes() == old(self).routes() && final(self).plugin_set() == old(self).plugin_set() && final(self).caps_map() == old(self).caps_map(),
                WorkerStep::Served => old(self).routes().contains_key((binding@, capid@)) && old(self).routes()[(binding@, capid@)].terminates.len() == 0 && old(self).routes()[(
                    binding@,
                    capid@,
                )].inbound.len() > 0 && final(self).plugin_set() == old(self).plugin_set()
                    && final(self).caps_map() == old(self).caps_map() && (exists|
                    resp: InvocationResponseView,
                |
                    {
                        &&& final(self).routes() == old(self).routes().insert(
                            (binding@, capid@),
                            #[trigger] entry_with_response(
                                entry_pop_inbound(old(self).routes()[(binding@, capid@)]),
                                resp,
                            ),
                        )
                        &&& (old(self).middleware_count() == 0 ==> resp.invocation_id == old(self).routes()[(binding@, capid@)].inbound[0].id)
                        &&& (old(self).routes()[(binding@, capid@)].inbound[0].target is Actor
                            ==> resp == (InvocationResponseView {
                            invocation_id: old(self).routes()[(binding@, capid@)].inbound[0].id,
                            msg: Seq::empty(),
                            error: Some(actor_target_on_worker_text()),
                        }))
                    }),
            },
    {
        let ghost k = (binding@, capid@);
        let ghost m0 = self.routes();
        if !self.router.route_exists(binding, capid) {
            return WorkerStep::NoSuchRoute;
        }
        if self.router.take_terminate(binding, capid) {
            let ghost caps0 = self.caps_map();
            let _ = self.caps.remove(binding, capid);
            proof {
                assert(self.caps_map() =~= caps0.remove(k));
            }
            self.router.remove_route(binding, capid);
            let _ = self.plugins.remove_plugin(binding, capid);
            proof {
                assert(self.plugins@.dom() =~= self.router@.dom());
                assert(self.caps@.dom() =~= self.router@.dom());
            }
            return WorkerStep::Terminated;
        }
        match self.router.pop_invocation(binding, capid) {
            Some(inv) => {
                let ghost popped = inv@;
                let resp = worker_dispatch(
                    &mut self.middlewares,
                    &mut self.plugins,
                    &self.router,
                    inv,
                );
                let ghost rv = resp@;
                let pushed = self.router.push_response(binding, capid, resp);
                if !pushed {
                    return vstd::pervasive::unreached();
                }
                proof {
                    assert(self.router@ =~= m0.insert(
                        k,
                        entry_with_response(entry_pop_inbound(m0[k]), rv),
                    ));
                    assert(self.plugins@.dom() =~= self.router@.dom());
                    assert(self.caps@.dom() =~= self.router@.dom());
                }
                WorkerStep::Served
            },
            None => WorkerStep::Idle,
        }
    }

    /// Takes the response at the front of the response channel of the
    /// route under the key, as the caller blocked on that channel would.
    pub fn collect_response(&mut self, binding: &str, capid: &str) -> (r: Option<
        InvocationResponse,
    >)
        requires
            old(self).wf(),
        ensures
            final(self).wf(),
            final(self).plugin_set() == old(self).plugin_set(),
            final(self).caps_map() == old(self).caps_map(),
            final(self).middleware_count() == old(self).middleware_count(),
            final(self).next_invocation_id() == old(self).next_invocation_id(),
            match r {
                Some(resp) => old(self).routes().contains_key((binding@, capid@)) && old(self).routes()[(binding@, capid@)].responses.len() > 0 && resp@ == old(self).routes()[(
                    binding@,
                    capid@,
                )].responses[0] && final(self).routes() == old(self).routes().insert(
                    (binding@, capid@),
                    entry_pop_response(old(self).routes()[(binding@, capid@)]),
                ),
                None => final(self).routes() == old(self).routes() && (!old(self).routes().contains_key((binding@, capid@)) || old(self).routes()[(
                    binding@,
                    capid@,
                )].responses.len() == 0),
            },
    {
        let ghost m0 = self.routes();
        let r = self.router.pop_response(binding, capid);
        proof {
            assert(self.routes().dom() =~= m0.dom());
        }
        r
    }

    /// Signals every route to terminate and runs each worker's teardown.
    /// Afterwards the router, the plugin set and the descriptor table
    /// are empty; a second shutdown finds nothing to do and succeeds.
    pub fn shutdown(&mut self) -> (r: Result<(), Error>)
        requires
            old(self).wf(),
        ensures
            final(self).wf(),
            r is Ok,
            final(self).routes() == Map::<(Seq<char>, Seq<char>), RouteEntryView>::empty(),
            final(self).plugin_set() == Map::<(Seq<char>, Seq<char>), PluginView>::empty(),
            final(self).caps_map() == Map::<
                (Seq<char>, Seq<char>),
                CapabilityDescriptorView,
            >::empty(),
            final(self).middleware_count() == old(self).middleware_count(),
    {
        self.router.terminate_all();
        proof {
            assert(self.plugins@.dom() =~= self.router@.dom());
        }
        let keys = self.router.route_keys();
        let ghost mr0 = self.routes();
        proof {
            assert forall|k: (Seq<char>, Seq<char>)| #[trigger] mr0.contains_key(k) implies
                mr0[k].terminates.len() > 0 by {
                assert(old(self).routes().contains_key(k));
                assert(mr0[k] == entry_terminated(old(self).routes()[k]));
            }
        }
        let n = keys.len();
        let mut idx: usize = 0;
        while idx < n
            invariant
                self.wf(),
                n == keys@.len(),
                idx <= n,
                self.middleware_count() == old(self).middleware_count(),
                forall|j1: int, j2: int|
                    0 <= j1 < keys@.len() && 0 <= j2 < keys@.len() && j1 != j2 ==> key_view(
                        #[trigger] keys@[j1],
                    ) != key_view(#[trigger] keys@[j2]),
                forall|j: int|
                    0 <= j < keys@.len() ==> mr0.contains_key(key_view(#[trigger] keys@[j])),
                forall|k: (Seq<char>, Seq<char>)|
                    #[trigger] mr0.contains_key(k) ==> torn(keys@, n as int, k),
                forall|k: (Seq<char>, Seq<char>)|
                    #[trigger] mr0.contains_key(k) ==> mr0[k].terminates.len() > 0,
                forall|k: (Seq<char>, Seq<char>)|
                    #[trigger] self.routes().contains_key(k) ==> mr0.contains_key(k) && !torn(
                        keys@,
                        idx as int,
                        k,
                    ) && self.routes()[k] == mr0[k],
                forall|k: (Seq<char>, Seq<char>)|
                    #[trigger] mr0.contains_key(k) && !torn(keys@, idx as int, k)
                        ==> self.routes().contains_key(k),
            decreases n - idx,
        {
            let ghost kv = key_view(keys@[idx as int]);
            proof {
                if torn(keys@, idx as int, kv) {
                    let j = choose|j: int|
                        0 <= j < idx && key_view(#[trigger] keys@[j]) == kv;
                    assert(false);
                }
                assert(mr0.contains_key(kv));
                assert(self.routes().contains_key(kv));
                assert(self.routes()[kv] == mr0[kv]);
            }
            let b = keys[idx].0.as_str();
            let c = keys[idx].1.as_str();
            let ghost pre_routes = self.routes();
            let step = self.run_worker_once(b, c);
            proof {
                assert(pre_routes[kv].terminates.len() > 0);
                match step {
                    WorkerStep::Terminated => {},
                    WorkerStep::NoSuchRoute => {
                        assert(false);
                    },
                    WorkerStep::Idle => {
                        assert(false);
                    },
                    WorkerStep::Served => {
                        assert(false);
                    },
                }
            }
            idx = idx + 1;
            proof {
                assert forall|k: (Seq<char>, Seq<char>)|
                    #[trigger] self.routes().contains_key(k) implies mr0.contains_key(k) && !torn(
                    keys@,
                    idx as int,
                    k,
                ) && self.routes()[k] == mr0[k] by {
                    assert(k != kv);
                    if torn(keys@, idx as int, k) {
                        let j = choose|j: int|
                            0 <= j < idx && key_view(#[trigger] keys@[j]) == k;
                        assert(j < idx - 1);
                        assert(torn(keys@, idx as int - 1, k));
                    }
                }
                assert forall|k: (Seq<char>, Seq<char>)|
                    #[trigger] mr0.contains_key(k) && !torn(keys@, idx as int, k) implies self
                    .routes().contains_key(k) by {
                    assert(!torn(keys@, idx as int - 1, k)) by {
                        if torn(keys@, idx as int - 1, k) {
                            let j = choose|j: int|
                                0 <= j < idx - 1 && key_view(#[trigger] keys@[j]) == k;
                            assert(torn(keys@, idx as int, k));
                        }
                    }
                    assert(k != kv) by {
                        assert(key_view(keys@[idx - 1]) == kv);
                    }
                }
            }
        }
        proof {
            assert forall|k: (Seq<char>, Seq<char>)| !(#[trigger] self.routes().contains_key(
                k,
            )) by {
                if self.routes().contains_key(k) {
                    assert(torn(keys@, n as int, k));
                }
            }
            assert(self.routes() =~= Map::<(Seq<char>, Seq<char>), RouteEntryView>::empty());
            assert forall|k: (Seq<char>, Seq<char>)| !(#[trigger] self.plugin_set().contains_key(
                k,
            )) by {
                if self.plugin_set().contains_key(k) {
                    assert(self.plugins@.dom() == self.router@.dom());
                    assert(self.routes().contains_key(k));
                }
            }
            assert(self.plugin_set() =~= Map::<(Seq<char>, Seq<char>), PluginView>::empty());
            assert forall|k: (Seq<char>, Seq<char>)| !(#[trigger] self.caps_map().contains_key(
                k,
            )) by {
                if self.caps_map().contains_key(k) {
                    assert(self.caps@.dom() == self.router@.dom());
                    assert(self.routes().contains_key(k));
                }
            }
            assert(self.caps_map() =~= Map::<
                (Seq<char>, Seq<char>),
                CapabilityDescriptorView,
            >::empty());
        }
        Ok(())
    }

    /// The router, for inspection.
    pub fn router(&self) -> (r: &Router)
        requires
            self.wf(),
        ensures
            r.wf(),
            r@ == self.routes(),
    {
        &self.router
    }

    /// The plugin set, for inspection.
    pub fn plugins(&self) -> (r: &PluginManager<P>)
        requires
            self.wf(),
        ensures
            r.wf(),
            r@ == self.plugin_set(),
    {
        &self.plugins
    }

    /// The middleware chain, for inspection.
    pub fn middlewares(&self) -> (r: &Vec<M>)
        ensures
            r@.len() == self.middleware_count(),
    {
        &self.middlewares
    }
}

} // verus!
