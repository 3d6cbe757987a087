//! The plugin manager: the set of loaded capability providers, addressed
//! like routes by `(binding name, capability id)`.

use vstd::prelude::*;

use crate::dispatch::WasccNativeDispatcher;
use crate::errors::{new, Error, ErrorKind, ErrorKindView};
use crate::inthost::{Invocation, InvocationResponse, InvocationTarget};
use crate::router::Router;
use crate::table::{str_eq, Table};
use crate::text::{keyed_text, push_str};

verus! {

/// Provider-supplied metadata. The host reads only the `id` field; the
/// rest is carried for the provider's sake.
pub struct CapabilityDescriptor {
    pub id: String,
    pub name: String,
    pub version: String,
}

/// The mathematical value of a [`CapabilityDescriptor`].
pub struct CapabilityDescriptorView {
    pub id: Seq<char>,
    pub name: Seq<char>,
    pub version: Seq<char>,
}

impl View for CapabilityDescriptor {
    type V = CapabilityDescriptorView;

    open spec fn view(&self) -> CapabilityDescriptorView {
        CapabilityDescriptorView { id: self.id@, name: self.name@, version: self.version@ }
    }
}

impl CapabilityDescriptor {
    /// A descriptor with the given identity fields.
    pub fn new(id: &str, name: &str, version: &str) -> (r: Self)
        ensures
            r@ == (CapabilityDescriptorView { id: id@, name: name@, version: version@ }),
    {
        CapabilityDescriptor { id: id.to_owned(), name: name.to_owned(), version: version.to_owned() }
    }
}

impl Clone for CapabilityDescriptor {
    fn clone(&self) -> (r: Self)
        ensures
            r@ == self@,
    {
        CapabilityDescriptor {
            id: self.id.clone(),
            name: self.name.clone(),
            version: self.version.clone(),
        }
    }
}

/// The contract a loadable capability provider implements.
///
/// `configure` is called exactly once at registration and hands the
/// provider its outbound dispatcher; `handle_call` is the invocation
/// entry point; `descriptor` is static metadata; `shutdown` is the
/// cleanup hook invoked on removal.
pub trait CapabilityProvider {
    fn configure(&mut self, dispatcher: WasccNativeDispatcher) -> Result<(), String>;

    fn handle_call(&mut self, binding: &str, operation: &str, msg: &[u8]) -> Result<Vec<u8>, String>;

    fn descriptor(&self) -> CapabilityDescriptor;

    fn shutdown(&mut self) -> Result<(), String>;
}

/// The built-in extras provider, registered by every host under
/// `("default", "wascc:extras")` so that a baseline capability is always
/// addressable. It serves host-side utilities; here, a monotone sequence
/// number.
pub struct ExtrasCapabilityProvider {
    pub sequence: u64,
}

impl Default for ExtrasCapabilityProvider {
    fn default() -> (r: Self)
        ensures
            r.sequence == 0,
    {
        ExtrasCapabilityProvider { sequence: 0 }
    }
}

/// The `i`-th little-endian byte of `n`.
pub open spec fn u64_le_byte(n: u64, i: int) -> u8 {
    ((n >> ((8 * i) as u64)) & 0xff) as u8
}

/// The little-endian bytes of `n`, low byte first.
fn u64_to_le_bytes(n: u64) -> (r: Vec<u8>)
    ensures
        r@.len() == 8,
        forall|i: int| 0 <= i < 8 ==> r@[i] == u64_le_byte(n, i),
{
    let mut rest = n;
    let mut out: Vec<u8> = Vec::new();
    let mut i: usize = 0;
    proof {
        let n2 = n;
        assert(n2 >> 0u64 == n2) by (bit_vector);
    }
    while i < 8
        invariant
            out@.len() == i,
            i <= 8,
            rest == n >> ((8 * i) as u64),
            forall|j: int| 0 <= j < i ==> out@[j] == u64_le_byte(n, j),
        decreases 8 - i,
    {
        let low = rest & 0xff;
        proof {
            assert(rest & 0xff < 256) by (bit_vector);
        }
        out.push(low as u8);
        let ghost a = (8 * i) as u64;
        rest = rest >> 8;
        proof {
            let n2 = n;
            assert(a <= 56 ==> ((n2 >> a) >> 8) == n2 >> (a + 8)) by (bit_vector);
        }
        i = i + 1;
        proof {
            assert((8 * i) as u64 == a + 8);
            assert(rest == n >> ((8 * i) as u64));
        }
    }
    out
}

impl CapabilityProvider for ExtrasCapabilityProvider {
    fn configure(&mut self, dispatcher: WasccNativeDispatcher) -> (r: Result<(), String>)
        ensures
            r is Ok,
    {
        let _ = dispatcher;
        Ok(())
    }

    fn handle_call(&mut self, binding: &str, operation: &str, msg: &[u8]) -> Result<Vec<u8>, String> {
        let _ = binding;
        let _ = msg;
        if str_eq(operation, "RequestSequence") {
            let bytes = u64_to_le_bytes(self.sequence);
            self.sequence = self.sequence.wrapping_add(1);
            Ok(bytes)
        } else {
            let mut s = "Unsupported extras operation: ".to_owned();
            push_str(&mut s, operation);
            Err(s)
        }
    }

    fn descriptor(&self) -> CapabilityDescriptor {
        CapabilityDescriptor::new("wascc:extras", "waSCC Extras (native)", "0.1.0")
    }

    fn shutdown(&mut self) -> Result<(), String> {
        Ok(())
    }
}

/// The descriptor the built-in extras provider registers under.
pub open spec fn extras_descriptor_view() -> CapabilityDescriptorView {
    CapabilityDescriptorView {
        id: "wascc:extras"@,
        name: "waSCC Extras (native)"@,
        version: "0.1.0"@,
    }
}

/// A slot of the plugin set: either the built-in extras provider or a
/// provider supplied by the embedding application.
pub enum ProviderSlot<P: CapabilityProvider> {
    Extras(ExtrasCapabilityProvider),
    Loaded(P),
}

impl<P: CapabilityProvider> CapabilityProvider for ProviderSlot<P> {
    fn configure(&mut self, dispatcher: WasccNativeDispatcher) -> Result<(), String> {
        match self {
            ProviderSlot::Extras(e) => e.configure(dispatcher),
            ProviderSlot::Loaded(p) => p.configure(dispatcher),
        }
    }

    fn handle_call(&mut self, binding: &str, operation: &str, msg: &[u8]) -> Result<Vec<u8>, String> {
        match self {
            ProviderSlot::Extras(e) => e.handle_call(binding, operation, msg),
            ProviderSlot::Loaded(p) => p.handle_call(binding, operation, msg),
        }
    }

    fn descriptor(&self) -> CapabilityDescriptor {
        match self {
            ProviderSlot::Extras(e) => e.descriptor(),
            ProviderSlot::Loaded(p) => p.descriptor(),
        }
    }

    fn shutdown(&mut self) -> Result<(), String> {
        match self {
            ProviderSlot::Extras(e) => e.shutdown(),
            ProviderSlot::Loaded(p) => p.shutdown(),
        }
    }
}

/// A provider ready for registration: the instance, the binding name it
/// is to be registered under, and its descriptor.
pub struct NativeCapability<P: CapabilityProvider> {
    pub instance: ProviderSlot<P>,
    pub binding_name: String,
    pub descriptor: CapabilityDescriptor,
}

/// The mathematical value of a [`NativeCapability`]: its binding name,
/// its descriptor, and whether it wraps the built-in extras provider.
/// The capability id is the descriptor's `id`.
pub struct NativeCapabilityView {
    pub binding: Seq<char>,
    pub descriptor: CapabilityDescriptorView,
    pub builtin: bool,
}

impl NativeCapabilityView {
    /// The capability id the provider registers under.
    pub open spec fn capid(self) -> Seq<char> {
        self.descriptor.id
    }
}

impl<P: CapabilityProvider> View for NativeCapability<P> {
    type V = NativeCapabilityView;

    open spec fn view(&self) -> NativeCapabilityView {
        NativeCapabilityView {
            binding: self.binding_name@,
            descriptor: self.descriptor@,
            builtin: self.instance is Extras,
        }
    }
}

impl<P: CapabilityProvider> NativeCapability<P> {
    /// Wraps a provider instance for registration. A missing binding
    /// means the default binding. The descriptor is asked of the
    /// instance once, here.
    pub fn from_instance(instance: P, binding: Option<String>) -> (r: Result<Self, Error>)
        ensures
            match r {
                Ok(c) => c@.binding == (match binding {
                    Some(b) => b@,
                    None => "default"@,
                }) && !c@.builtin,
                Err(_) => false,
            },
    {
        let descriptor = instance.descriptor();
        let binding_name = match binding {
            Some(b) => b,
            None => "default".to_owned(),
        };
        Ok(NativeCapability { instance: ProviderSlot::Loaded(instance), binding_name, descriptor })
    }

    /// Wraps the built-in extras provider, which every host registers
    /// under the default binding at start.
    pub fn from_extras(instance: ExtrasCapabilityProvider) -> (r: Self)
        ensures
            r@.binding == "default"@,
            r@.descriptor == extras_descriptor_view(),
            r@.builtin,
    {
        NativeCapability {
            instance: ProviderSlot::Extras(instance),
            binding_name: "default".to_owned(),
            descriptor: CapabilityDescriptor::new(
                "wascc:extras",
                "waSCC Extras (native)",
                "0.1.0",
            ),
        }
    }

    /// The capability id the provider registers under.
    pub fn id(&self) -> (r: String)
        ensures
            r@ == self@.capid(),
    {
        self.descriptor.id.clone()
    }

    /// The provider's descriptor.
    pub fn descriptor(&self) -> (r: &CapabilityDescriptor)
        ensures
            r@ == self@.descriptor,
    {
        &self.descriptor
    }
}

/// What the plugin set records of one provider: its descriptor, whether
/// its dispatcher has been configured, and whether it is the built-in
/// extras provider.
pub struct PluginView {
    pub descriptor: CapabilityDescriptorView,
    pub configured: bool,
    pub builtin: bool,
}

/// One loaded provider and its registration state.
struct PluginRecord<P: CapabilityProvider> {
    capability: NativeCapability<P>,
    configured: bool,
}

/// The deep view of a table of plugin records.
spec fn plugins_view<P: CapabilityProvider>(
    m: Map<(Seq<char>, Seq<char>), PluginRecord<P>>,
) -> Map<(Seq<char>, Seq<char>), PluginView> {
    m.map_values(
        |r: PluginRecord<P>|
            PluginView {
                descriptor: r.capability@.descriptor,
                configured: r.configured,
                builtin: r.capability@.builtin,
            },
    )
}

/// The text reported when no provider is registered under a key.
pub open spec fn no_plugin_text(binding: Seq<char>, capid: Seq<char>) -> Seq<char> {
    "No such capability provider: ("@ + binding + ","@ + capid + ")"@
}

/// The text reported when a provider is added under a key already taken.
pub open spec fn duplicate_plugin_text(binding: Seq<char>, capid: Seq<char>) -> Seq<char> {
    "Plugin already exists: ("@ + binding + ","@ + capid + ")"@
}

/// The text reported when a dispatcher is registered twice.
pub open spec fn already_configured_text(binding: Seq<char>, capid: Seq<char>) -> Seq<char> {
    "Dispatcher already configured: ("@ + binding + ","@ + capid + ")"@
}

/// The text a response carries when an invocation reaches a path that
/// cannot serve its target.
pub open spec fn bad_dispatch_text() -> Seq<char> {
    "Bad dispatch"@
}

/// The set of loaded providers, keyed like routes.
pub struct PluginManager<P: CapabilityProvider> {
    table: Table<PluginRecord<P>>,
}

impl<P: CapabilityProvider> View for PluginManager<P> {
    type V = Map<(Seq<char>, Seq<char>), PluginView>;

    closed spec fn view(&self) -> Map<(Seq<char>, Seq<char>), PluginView> {
        plugins_view(self.table@)
    }
}

impl<P: CapabilityProvider> PluginManager<P> {
    /// The table's keys are unique; every operation keeps this.
    pub closed spec fn wf(&self) -> bool {
        self.table.wf()
    }

    /// An empty plugin set.
    pub fn new() -> (r: Self)
        ensures
            r.wf(),
            r@ == Map::<(Seq<char>, Seq<char>), PluginView>::empty(),
    {
        let r = PluginManager { table: Table::new() };
        proof {
            assert(r@ =~= Map::<(Seq<char>, Seq<char>), PluginView>::empty());
        }
        r
    }

    /// Whether a provider is loaded under the key.
    pub fn contains(&self, binding: &str, capid: &str) -> (r: bool)
        ensures
            r == self@.contains_key((binding@, capid@)),
    {
        self.table.contains_key(binding, capid)
    }

    /// Whether the plugin set is empty.
    pub fn is_empty(&self) -> (r: bool)
        ensures
            r == (self@ == Map::<(Seq<char>, Seq<char>), PluginView>::empty()),
    {
        let r = self.table.is_empty();
        proof {
            if self.table@ == Map::<(Seq<char>, Seq<char>), PluginRecord<P>>::empty() {
                assert(self@ =~= Map::<(Seq<char>, Seq<char>), PluginView>::empty());
            } else {
                if !(exists|k: (Seq<char>, Seq<char>)| self.table@.contains_key(k)) {
                    assert(self.table@ =~= Map::<(Seq<char>, Seq<char>), PluginRecord<P>>::empty());
                }
                let k = choose|k: (Seq<char>, Seq<char>)| self.table@.contains_key(k);
                assert(self@.contains_key(k));
                assert(!Map::<(Seq<char>, Seq<char>), PluginView>::empty().contains_key(k));
            }
        }
        r
    }

    /// Takes ownership of a provider, storing it under its binding name
    /// and capability id; fails, changing nothing, when that key is
    /// already taken.
    pub fn add_plugin(&mut self, capability: NativeCapability<P>) -> (r: Result<(), Error>)
        requires
            old(self).wf(),
        ensures
            final(self).wf(),
            match r {
                Ok(()) => !old(self)@.contains_key((capability@.binding, capability@.capid()))
                    && final(self)@ == old(self)@.insert(
                    (capability@.binding, capability@.capid()),
                    PluginView {
                        descriptor: capability@.descriptor,
                        configured: false,
                        builtin: capability@.builtin,
                    },
                ),
                Err(e) => old(self)@.contains_key((capability@.binding, capability@.capid()))
                    && final(self)@ == old(self)@ && e@ == ErrorKindView::CapabilityProvider(
                    duplicate_plugin_text(capability@.binding, capability@.capid()),
                ),
            },
    {
        let ghost m0 = self@;
        let ghost cv = capability@;
        let binding = capability.binding_name.clone();
        let capid = capability.id();
        let record = PluginRecord { capability, configured: false };
        match self.table.insert_new(binding, capid, record) {
            Ok(()) => {
                proof {
                    assert(self@ =~= m0.insert(
                        (cv.binding, cv.capid()),
                        PluginView {
                            descriptor: cv.descriptor,
                            configured: false,
                            builtin: cv.builtin,
                        },
                    ));
                }
                Ok(())
            },
            Err(record) => {
                let binding2 = record.capability.binding_name.as_str();
                let capid2 = record.capability.descriptor.id.as_str();
                let text = keyed_text("Plugin already exists: (", binding2, capid2);
                Err(new(ErrorKind::CapabilityProvider(text)))
            },
        }
    }

    /// Hands the provider under the key its outbound dispatcher by
    /// calling its `configure` entry point, exactly once. Fails when no
    /// provider is loaded under the key, when the dispatcher was already
    /// configured, or when the provider rejects configuration.
    pub fn register_dispatcher(
        &mut self,
        binding: &str,
        capid: &str,
        dispatcher: WasccNativeDispatcher,
    ) -> (r: Result<(), Error>)
        requires
            old(self).wf(),
        ensures
            final(self).wf(),
            old(self)@.contains_key((binding@, capid@)) && !old(self)@[(
                binding@,
                capid@,
            )].configured && old(self)@[(binding@, capid@)].builtin ==> r is Ok,
            match r {
                Ok(()) => old(self)@.contains_key((binding@, capid@)) && !old(self)@[(
                    binding@,
                    capid@,
                )].configured && final(self)@ == old(self)@.insert(
                    (binding@, capid@),
                    PluginView {
                        descriptor: old(self)@[(binding@, capid@)].descriptor,
                        configured: true,
                        builtin: old(self)@[(binding@, capid@)].builtin,
                    },
                ),
                Err(e) => final(self)@ == old(self)@ && {
                    if !old(self)@.contains_key((binding@, capid@)) {
                        e@ == ErrorKindView::MiscHost(no_plugin_text(binding@, capid@))
                    } else if old(self)@[(binding@, capid@)].configured {
                        e@ == ErrorKindView::MiscHost(already_configured_text(binding@, capid@))
                    } else {
                        e@ is Plugin
                    }
                },
            },
    {
        let ghost m0 = self@;
        let ghost k = (binding@, capid@);
        match self.table.remove(binding, capid) {
            Some(mut record) => {
                if record.configured {
                    match self.table.insert_new(binding.to_owned(), capid.to_owned(), record) {
                        Ok(()) => {
                            proof {
                                assert(self@ =~= m0);
                            }
                            let text = keyed_text(
                                "Dispatcher already configured: (",
                                binding,
                                capid,
                            );
                            Err(new(ErrorKind::MiscHost(text)))
                        },
                        Err(_) => vstd::pervasive::unreached(),
                    }
                } else {
                    let outcome = match &mut record.capability.instance {
                        ProviderSlot::Extras(e) => e.configure(dispatcher),
                        ProviderSlot::Loaded(p) => p.configure(dispatcher),
                    };
                    let accepted = outcome.is_ok();
                    if accepted {
                        record.configured = true;
                    }
                    match self.table.insert_new(binding.to_owned(), capid.to_owned(), record) {
                        Ok(()) => {
                            proof {
                                if accepted {
                                    assert(self@ =~= m0.insert(
                                        k,
                                        PluginView {
                                            descriptor: m0[k].descriptor,
                                            configured: true,
                                            builtin: m0[k].builtin,
                                        },
                                    ));
                                } else {
                                    assert(self@ =~= m0);
                                }
                            }
                            match outcome {
                                Ok(()) => Ok(()),
                                Err(text) => Err(new(ErrorKind::Plugin(text))),
                            }
                        },
                        Err(_) => vstd::pervasive::unreached(),
                    }
                }
            },
            None => {
                proof {
                    assert(self@ =~= m0);
                }
                let text = keyed_text("No such capability provider: (", binding, capid);
                Err(new(ErrorKind::MiscHost(text)))
            },
        }
    }

    /// Resolves the invocation's target to a loaded provider and invokes
    /// its native `handle_call` entry point. Fails when the target is an
    /// actor, when no provider is loaded under the target's key, or when
    /// the provider returns an error.
    pub fn call(&mut self, router: &Router, inv: &Invocation) -> (r: Result<InvocationResponse, Error>)
        requires
            old(self).wf(),
        ensures
            final(self).wf(),
            final(self)@ == old(self)@,
            match inv@.target {
                crate::inthost::InvocationTargetView::Actor(_) => r matches Err(e) && e@
                    == ErrorKindView::MiscHost(bad_dispatch_text()),
                crate::inthost::InvocationTargetView::Capability { capid, binding } => {
                    if !old(self)@.contains_key((binding, capid)) {
                        r matches Err(e) && e@ == ErrorKindView::MiscHost(
                            no_plugin_text(binding, capid),
                        )
                    } else {
                        match r {
                            Ok(resp) => resp@.invocation_id == inv@.id && resp@.error is None,
                            Err(e) => e@ is CapabilityProvider,
                        }
                    }
                },
            },
    {
        let _ = router;
        let ghost m0 = self@;
        match &inv.target {
            InvocationTarget::Actor(_) => Err(
                new(ErrorKind::MiscHost("Bad dispatch".to_owned())),
            ),
            InvocationTarget::Capability { capid, binding } => {
                match self.table.remove(binding.as_str(), capid.as_str()) {
                    Some(mut record) => {
                        let outcome = match &mut record.capability.instance {
                            ProviderSlot::Extras(e) => e.handle_call(
                                binding.as_str(),
                                inv.operation.as_str(),
                                inv.msg.as_slice(),
                            ),
                            ProviderSlot::Loaded(p) => p.handle_call(
                                binding.as_str(),
                                inv.operation.as_str(),
                                inv.msg.as_slice(),
                            ),
                        };
                        match self.table.insert_new(
                            binding.as_str().to_owned(),
                            capid.as_str().to_owned(),
                            record,
                        ) {
                            Ok(()) => {
                                proof {
                                    assert(self@ =~= m0);
                                }
                                match outcome {
                                    Ok(bytes) => Ok(InvocationResponse::success(inv, bytes)),
                                    Err(text) => Err(
                                        new(ErrorKind::CapabilityProvider(text)),
                                    ),
                                }
                            },
                            Err(_) => vstd::pervasive::unreached(),
                        }
                    },
                    None => {
                        proof {
                            assert(self@ =~= m0);
                        }
                        let text = keyed_text(
                            "No such capability provider: (",
                            binding.as_str(),
                            capid.as_str(),
                        );
                        Err(new(ErrorKind::MiscHost(text)))
                    },
                }
            },
        }
    }

    /// Invokes the shutdown hook of the provider under the key, then
    /// drops it. Fails when no provider is loaded under the key; a
    /// failing shutdown hook is reported but the provider is dropped all
    /// the same.
    pub fn remove_plugin(&mut self, binding: &str, capid: &str) -> (r: Result<(), Error>)
        requires
            old(self).wf(),
        ensures
            final(self).wf(),
            match r {
                Ok(()) => old(self)@.contains_key((binding@, capid@)) && final(self)@ == old(
                    self,
                )@.remove((binding@, capid@)),
                Err(e) => {
                    if !old(self)@.contains_key((binding@, capid@)) {
                        final(self)@ == old(self)@ && e@ == ErrorKindView::MiscHost(
                            no_plugin_text(binding@, capid@),
                        )
                    } else {
                        final(self)@ == old(self)@.remove((binding@, capid@)) && e@
                            is CapabilityProvider
                    }
                },
            },
    {
        let ghost m0 = self@;
        let ghost k = (binding@, capid@);
        match self.table.remove(binding, capid) {
            Some(mut record) => {
                proof {
                    assert(self@ =~= m0.remove(k));
                }
                let outcome = record.capability.instance.shutdown();
                match outcome {
                    Ok(()) => Ok(()),
                    Err(text) => Err(new(ErrorKind::CapabilityProvider(text))),
                }
            },
            None => {
                proof {
                    assert(self@ =~= m0);
                }
                let text = keyed_text("No such capability provider: (", binding, capid);
                Err(new(ErrorKind::MiscHost(text)))
            },
        }
    }
}

} // verus!
