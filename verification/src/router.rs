//! The router: a table from `(binding name, capability id)` to the
//! channel state of the provider registered under that key.

use vstd::prelude::*;

use crate::errors::{new, Error, ErrorKind, ErrorKindView};
use crate::inthost::{Invocation, InvocationResponse, InvocationView, InvocationResponseView};
use crate::table::Table;
use crate::text::push_str;

verus! {

/// A route's address: binding name and capability id.
pub type RouteKey = (String, String);

/// The channel state of one registered provider: the invocations waiting
/// on its inbound channel, the responses it has written back, and the
/// terminate signals it has not yet consumed.
pub struct RouteEntry {
    pub inbound: Vec<Invocation>,
    pub responses: Vec<InvocationResponse>,
    pub terminates: Vec<bool>,
}

/// The mathematical value of a [`RouteEntry`].
#[verifier::ext_equal]
pub struct RouteEntryView {
    pub inbound: Seq<InvocationView>,
    pub responses: Seq<InvocationResponseView>,
    pub terminates: Seq<bool>,
}

impl View for RouteEntry {
    type V = RouteEntryView;

    open spec fn view(&self) -> RouteEntryView {
        RouteEntryView {
            inbound: self.inbound@.map_values(|i: Invocation| i@),
            responses: self.responses@.map_values(|r: InvocationResponse| r@),
            terminates: self.terminates@,
        }
    }
}

/// The view of a route entry with nothing pending.
pub open spec fn empty_entry() -> RouteEntryView {
    RouteEntryView {
        inbound: Seq::empty(),
        responses: Seq::empty(),
        terminates: Seq::empty(),
    }
}

/// The view of `e` with one more terminate signal pending.
pub open spec fn entry_terminated(e: RouteEntryView) -> RouteEntryView {
    RouteEntryView { terminates: e.terminates.push(true), ..e }
}

/// The view of `e` with `i` appended to its inbound channel.
pub open spec fn entry_with_invocation(e: RouteEntryView, i: InvocationView) -> RouteEntryView {
    RouteEntryView { inbound: e.inbound.push(i), ..e }
}

/// The view of `e` with its first inbound invocation consumed.
pub open spec fn entry_pop_inbound(e: RouteEntryView) -> RouteEntryView {
    RouteEntryView { inbound: e.inbound.drop_first(), ..e }
}

/// The view of `e` with `r` appended to its response channel.
pub open spec fn entry_with_response(e: RouteEntryView, r: InvocationResponseView) -> RouteEntryView {
    RouteEntryView { responses: e.responses.push(r), ..e }
}

/// The view of `e` with its first pending response consumed.
pub open spec fn entry_pop_response(e: RouteEntryView) -> RouteEntryView {
    RouteEntryView { responses: e.responses.drop_first(), ..e }
}

/// The view of `e` with its first pending terminate signal consumed.
pub open spec fn entry_pop_terminate(e: RouteEntryView) -> RouteEntryView {
    RouteEntryView { terminates: e.terminates.drop_first(), ..e }
}

impl RouteEntry {
    /// A fresh entry with nothing pending.
    pub fn new() -> (r: Self)
        ensures
            r@ == empty_entry(),
    {
        let r = RouteEntry { inbound: Vec::new(), responses: Vec::new(), terminates: Vec::new() };
        proof {
            assert(r@.inbound =~= empty_entry().inbound);
            assert(r@.responses =~= empty_entry().responses);
        }
        r
    }
}

impl Clone for RouteEntry {
    fn clone(&self) -> (r: Self)
        ensures
            r@ == self@,
    {
        let inbound = self.inbound.clone();
        let responses = self.responses.clone();
        let terminates = self.terminates.clone();
        proof {
            assert forall|i: int| 0 <= i < inbound@.len() implies #[trigger] inbound@[i]@
                == self.inbound@[i]@ by {}
            assert forall|i: int| 0 <= i < responses@.len() implies #[trigger] responses@[i]@
                == self.responses@[i]@ by {}
            assert(inbound@.map_values(|i: Invocation| i@) =~= self.inbound@.map_values(
                |i: Invocation| i@,
            ));
            assert(responses@.map_values(|r: InvocationResponse| r@)
                =~= self.responses@.map_values(|r: InvocationResponse| r@));
            assert(terminates@ =~= self.terminates@);
        }
        RouteEntry { inbound, responses, terminates }
    }
}

/// The deep view of a table of route entries.
pub open spec fn routes_view(m: Map<(Seq<char>, Seq<char>), RouteEntry>) -> Map<
    (Seq<char>, Seq<char>),
    RouteEntryView,
> {
    m.map_values(|e: RouteEntry| e@)
}

/// The stream of correlation identifiers a route entry has seen, in
/// order: the responses already written back, then the invocations still
/// waiting inbound.
pub open spec fn id_stream(e: RouteEntryView) -> Seq<u64> {
    e.responses.map_values(|r: InvocationResponseView| r.invocation_id) + e.inbound.map_values(
        |i: InvocationView| i.id,
    )
}

/// First-come-first-served service. One worker step serves the
/// invocation at the front of the inbound channel and appends a response
/// carrying its identifier; the stream of identifiers — responses
/// written, then invocations waiting — is unchanged by the step, so for
/// invocations posted serially on one route, responses come back in
/// submission order.
pub proof fn lemma_fifo_step(e: RouteEntryView, resp: InvocationResponseView)
    requires
        e.inbound.len() > 0,
        resp.invocation_id == e.inbound[0].id,
    ensures
        id_stream(entry_with_response(entry_pop_inbound(e), resp)) == id_stream(e),
{
    assert(id_stream(entry_with_response(entry_pop_inbound(e), resp)) =~= id_stream(e));
}

/// One service step of a worker, seen on its route entry: the front
/// inbound invocation is consumed and a response carrying its identifier
/// is appended.
pub open spec fn fifo_step(e1: RouteEntryView, e2: RouteEntryView) -> bool {
    &&& e1.inbound.len() > 0
    &&& exists|resp: InvocationResponseView|
        e2 == #[trigger] entry_with_response(entry_pop_inbound(e1), resp) && resp.invocation_id
            == e1.inbound[0].id
}

/// The identifier stream is invariant over any run of service steps.
pub proof fn lemma_fifo_run(trace: Seq<RouteEntryView>)
    requires
        trace.len() > 0,
        forall|i: int| 0 <= i < trace.len() - 1 ==> fifo_step(#[trigger] trace[i], trace[i + 1]),
    ensures
        id_stream(trace.last()) == id_stream(trace[0]),
    decreases trace.len(),
{
    if trace.len() > 1 {
        assert forall|i: int| 0 <= i < trace.drop_last().len() - 1 implies fifo_step(
            #[trigger] trace.drop_last()[i],
            trace.drop_last()[i + 1],
        ) by {
            assert(trace.drop_last()[i] == trace[i]);
            assert(trace.drop_last()[i + 1] == trace[i + 1]);
        }
        lemma_fifo_run(trace.drop_last());
        let e1 = trace[trace.len() - 2];
        let e2 = trace.last();
        assert(fifo_step(e1, e2));
        let resp = choose|resp: InvocationResponseView|
            e2 == #[trigger] entry_with_response(entry_pop_inbound(e1), resp)
                && resp.invocation_id == e1.inbound[0].id;
        lemma_fifo_step(e1, resp);
        assert(trace.drop_last().last() == e1);
        assert(trace.drop_last()[0] == trace[0]);
    }
}

/// First-come-first-served, over a whole run: a worker that starts with
/// an empty response channel and drains its inbound queue leaves the
/// responses in submission order — the k-th response carries the
/// identifier of the k-th queued invocation.
pub proof fn lemma_fifo_order(trace: Seq<RouteEntryView>)
    requires
        trace.len() > 0,
        forall|i: int| 0 <= i < trace.len() - 1 ==> fifo_step(#[trigger] trace[i], trace[i + 1]),
        trace[0].responses.len() == 0,
        trace.last().inbound.len() == 0,
    ensures
        trace.last().responses.map_values(|r: InvocationResponseView| r.invocation_id)
            == trace[0].inbound.map_values(|i: InvocationView| i.id),
{
    lemma_fifo_run(trace);
    assert(trace.last().responses.map_values(|r: InvocationResponseView| r.invocation_id)
        =~= id_stream(trace.last()));
    assert(id_stream(trace[0]) =~= trace[0].inbound.map_values(|i: InvocationView| i.id));
}

/// Whether one of the first `upto` keys of the snapshot names `k`.
spec fn signalled(keys: Seq<(String, String)>, upto: int, k: (Seq<char>, Seq<char>)) -> bool {
    exists|j: int| 0 <= j < upto && crate::table::key_view(#[trigger] keys[j]) == k
}

/// The text reported when a route is added under a key already bound.
pub open spec fn duplicate_route_text(binding: Seq<char>, capid: Seq<char>) -> Seq<char> {
    "Route already exists: ("@ + binding + ","@ + capid + ")"@
}

/// The concurrent address table of the host. Operations address a route
/// by binding name and capability id; each entry holds the channel state
/// of one provider.
pub struct Router {
    table: Table<RouteEntry>,
}

impl View for Router {
    type V = Map<(Seq<char>, Seq<char>), RouteEntryView>;

    closed spec fn view(&self) -> Map<(Seq<char>, Seq<char>), RouteEntryView> {
        routes_view(self.table@)
    }
}

impl Router {
    /// The table's keys are unique; every operation keeps this.
    pub closed spec fn wf(&self) -> bool {
        self.table.wf()
    }

    /// An empty router.
    pub fn new() -> (r: Self)
        ensures
            r.wf(),
            r@ == Map::<(Seq<char>, Seq<char>), RouteEntryView>::empty(),
    {
        let r = Router { table: Table::new() };
        proof {
            assert(r@ =~= Map::<(Seq<char>, Seq<char>), RouteEntryView>::empty());
        }
        r
    }

    /// Whether a route is registered under the key.
    pub fn route_exists(&self, binding: &str, capid: &str) -> (r: bool)
        ensures
            r == self@.contains_key((binding@, capid@)),
    {
        self.table.contains_key(binding, capid)
    }

    /// Registers a fresh route under the key; fails, changing nothing,
    /// when the key is already bound.
    pub fn add_route(&mut self, binding: &str, capid: &str) -> (r: Result<(), Error>)
        requires
            old(self).wf(),
        ensures
            final(self).wf(),
            match r {
                Ok(()) => !old(self)@.contains_key((binding@, capid@)) && final(self)@ == old(
                    self,
                )@.insert((binding@, capid@), empty_entry()),
                Err(e) => old(self)@.contains_key((binding@, capid@)) && final(self)@ == old(
                    self,
                )@ && e@ == ErrorKindView::MiscHost(duplicate_route_text(binding@, capid@)),
            },
    {
        let ghost m0 = self@;
        let entry = RouteEntry::new();
        match self.table.insert_new(binding.to_owned(), capid.to_owned(), entry) {
            Ok(()) => {
                proof {
                    assert(self@ =~= m0.insert((binding@, capid@), empty_entry()));
                }
                Ok(())
            },
            Err(_) => {
                let mut s = "Route already exists: (".to_owned();
                push_str(&mut s, binding);
                push_str(&mut s, ",");
                push_str(&mut s, capid);
                push_str(&mut s, ")");
                Err(new(ErrorKind::MiscHost(s)))
            },
        }
    }

    /// Removes the route under the key; removing a missing key is not an
    /// error.
    pub fn remove_route(&mut self, binding: &str, capid: &str)
        requires
            old(self).wf(),
        ensures
            final(self).wf(),
            final(self)@ == old(self)@.remove((binding@, capid@)),
    {
        let ghost m0 = self@;
        let _ = self.table.remove(binding, capid);
        proof {
            assert(self@ =~= m0.remove((binding@, capid@)));
        }
    }

    /// Appends an invocation to the inbound channel of the route under
    /// the key; reports whether such a route exists.
    pub fn push_invocation(&mut self, binding: &str, capid: &str, inv: Invocation) -> (r: bool)
        requires
            old(self).wf(),
        ensures
            final(self).wf(),
            r == old(self)@.contains_key((binding@, capid@)),
            r ==> final(self)@ == old(self)@.insert(
                (binding@, capid@),
                entry_with_invocation(old(self)@[(binding@, capid@)], inv@),
            ),
            !r ==> final(self)@ == old(self)@,
    {
        let ghost m0 = self@;
        let ghost k = (binding@, capid@);
        match self.table.remove(binding, capid) {
            Some(mut e) => {
                let ghost ev0 = e@;
                e.inbound.push(inv);
                proof {
                    assert(e@.inbound =~= ev0.inbound.push(inv@));
                    assert(e@ =~= entry_with_invocation(ev0, inv@));
                }
                match self.table.insert_new(binding.to_owned(), capid.to_owned(), e) {
                    Ok(()) => {
                        proof {
                            assert(self@ =~= m0.insert(k, entry_with_invocation(m0[k], inv@)));
                        }
                        true
                    },
                    Err(_) => vstd::pervasive::unreached(),
                }
            },
            None => {
                proof {
                    assert(self@ =~= m0);
                }
                false
            },
        }
    }

    /// Takes the invocation at the front of the inbound channel of the
    /// route under the key, if the route exists and has one waiting.
    pub fn pop_invocation(&mut self, binding: &str, capid: &str) -> (r: Option<Invocation>)
        requires
            old(self).wf(),
        ensures
            final(self).wf(),
            match r {
                Some(inv) => old(self)@.contains_key((binding@, capid@)) && old(self)@[(
                    binding@,
                    capid@,
                )].inbound.len() > 0 && inv@ == old(self)@[(binding@, capid@)].inbound[0]
                    && final(self)@ == old(self)@.insert(
                    (binding@, capid@),
                    entry_pop_inbound(old(self)@[(binding@, capid@)]),
                ),
                None => final(self)@ == old(self)@ && (!old(self)@.contains_key((
                    binding@,
                    capid@,
                )) || old(self)@[(binding@, capid@)].inbound.len() == 0),
            },
    {
        let ghost m0 = self@;
        let ghost k = (binding@, capid@);
        match self.table.remove(binding, capid) {
            Some(mut e) => {
                let ghost ev0 = e@;
                if e.inbound.len() > 0 {
                    let inv = e.inbound.remove(0);
                    proof {
                        assert(e@.inbound =~= ev0.inbound.drop_first());
                        assert(e@ =~= entry_pop_inbound(ev0));
                        assert(inv@ == ev0.inbound[0]);
                    }
                    match self.table.insert_new(binding.to_owned(), capid.to_owned(), e) {
                        Ok(()) => {
                            proof {
                                assert(self@ =~= m0.insert(k, entry_pop_inbound(m0[k])));
                            }
                            Some(inv)
                        },
                        Err(_) => vstd::pervasive::unreached(),
                    }
                } else {
                    match self.table.insert_new(binding.to_owned(), capid.to_owned(), e) {
                        Ok(()) => {
                            proof {
                                assert(self@ =~= m0);
                            }
                            None
                        },
                        Err(_) => vstd::pervasive::unreached(),
                    }
                }
            },
            None => {
                proof {
                    assert(self@ =~= m0);
                }
                None
            },
        }
    }

    /// Appends a response to the response channel of the route under the
    /// key; reports whether such a route exists.
    pub fn push_response(&mut self, binding: &str, capid: &str, resp: InvocationResponse) -> (r:
        bool)
        requires
            old(self).wf(),
        ensures
            final(self).wf(),
            r == old(self)@.contains_key((binding@, capid@)),
            r ==> final(self)@ == old(self)@.insert(
                (binding@, capid@),
                entry_with_response(old(self)@[(binding@, capid@)], resp@),
            ),
            !r ==> final(self)@ == old(self)@,
    {
        let ghost m0 = self@;
        let ghost k = (binding@, capid@);
        match self.table.remove(binding, capid) {
            Some(mut e) => {
                let ghost ev0 = e@;
                e.responses.push(resp);
                proof {
                    assert(e@.responses =~= ev0.responses.push(resp@));
                    assert(e@ =~= entry_with_response(ev0, resp@));
                }
                match self.table.insert_new(binding.to_owned(), capid.to_owned(), e) {
                    Ok(()) => {
                        proof {
                            assert(self@ =~= m0.insert(k, entry_with_response(m0[k], resp@)));
                        }
                        true
                    },
                    Err(_) => vstd::pervasive::unreached(),
                }
            },
            None => {
                proof {
                    assert(self@ =~= m0);
                }
                false
            },
        }
    }

    /// Takes the response at the front of the response channel of the
    /// route under the key, if the route exists and has one waiting.
    pub fn pop_response(&mut self, binding: &str, capid: &str) -> (r: Option<InvocationResponse>)
        requires
            old(self).wf(),
        ensures
            final(self).wf(),
            match r {
                Some(resp) => old(self)@.contains_key((binding@, capid@)) && old(self)@[(
                    binding@,
                    capid@,
                )].responses.len() > 0 && resp@ == old(self)@[(binding@, capid@)].responses[0]
                    && final(self)@ == old(self)@.insert(
                    (binding@, capid@),
                    entry_pop_response(old(self)@[(binding@, capid@)]),
                ),
                None => final(self)@ == old(self)@ && (!old(self)@.contains_key((
                    binding@,
                    capid@,
                )) || old(self)@[(binding@, capid@)].responses.len() == 0),
            },
    {
        let ghost m0 = self@;
        let ghost k = (binding@, capid@);
        match self.table.remove(binding, capid) {
            Some(mut e) => {
                let ghost ev0 = e@;
                if e.responses.len() > 0 {
                    let resp = e.responses.remove(0);
                    proof {
                        assert(e@.responses =~= ev0.responses.drop_first());
                        assert(e@ =~= entry_pop_response(ev0));
                        assert(resp@ == ev0.responses[0]);
                    }
                    match self.table.insert_new(binding.to_owned(), capid.to_owned(), e) {
                        Ok(()) => {
                            proof {
                                assert(self@ =~= m0.insert(k, entry_pop_response(m0[k])));
                            }
                            Some(resp)
                        },
                        Err(_) => vstd::pervasive::unreached(),
                    }
                } else {
                    match self.table.insert_new(binding.to_owned(), capid.to_owned(), e) {
                        Ok(()) => {
                            proof {
                                assert(self@ =~= m0);
                            }
                            None
                        },
                        Err(_) => vstd::pervasive::unreached(),
                    }
                }
            },
            None => {
                proof {
                    assert(self@ =~= m0);
                }
                None
            },
        }
    }

    /// Consumes one pending terminate signal of the route under the key,
    /// if the route exists and one is pending.
    pub fn take_terminate(&mut self, binding: &str, capid: &str) -> (r: bool)
        requires
            old(self).wf(),
        ensures
            final(self).wf(),
            r ==> old(self)@.contains_key((binding@, capid@)) && old(self)@[(
                binding@,
                capid@,
            )].terminates.len() > 0 && final(self)@ == old(self)@.insert(
                (binding@, capid@),
                entry_pop_terminate(old(self)@[(binding@, capid@)]),
            ),
            !r ==> final(self)@ == old(self)@ && (!old(self)@.contains_key((binding@, capid@))
                || old(self)@[(binding@, capid@)].terminates.len() == 0),
    {
        let ghost m0 = self@;
        let ghost k = (binding@, capid@);
        match self.table.remove(binding, capid) {
            Some(mut e) => {
                let ghost ev0 = e@;
                if e.terminates.len() > 0 {
                    let _ = e.terminates.remove(0);
                    proof {
                        assert(e@.terminates =~= ev0.terminates.drop_first());
                        assert(e@ =~= entry_pop_terminate(ev0));
                    }
                    match self.table.insert_new(binding.to_owned(), capid.to_owned(), e) {
                        Ok(()) => {
                            proof {
                                assert(self@ =~= m0.insert(k, entry_pop_terminate(m0[k])));
                            }
                            true
                        },
                        Err(_) => vstd::pervasive::unreached(),
                    }
                } else {
                    match self.table.insert_new(binding.to_owned(), capid.to_owned(), e) {
                        Ok(()) => {
                            proof {
                                assert(self@ =~= m0);
                            }
                            false
                        },
                        Err(_) => vstd::pervasive::unreached(),
                    }
                }
            },
            None => {
                proof {
                    assert(self@ =~= m0);
                }
                false
            },
        }
    }

    /// Sends a terminate signal on the route under the key; the caller
    /// does not wait for the worker to consume it. Reports whether such a
    /// route exists.
    pub fn terminate_route(&mut self, binding: &str, capid: &str) -> (r: bool)
        requires
            old(self).wf(),
        ensures
            final(self).wf(),
            r == old(self)@.contains_key((binding@, capid@)),
            r ==> final(self)@ == old(self)@.insert(
                (binding@, capid@),
                entry_terminated(old(self)@[(binding@, capid@)]),
            ),
            !r ==> final(self)@ == old(self)@,
    {
        let ghost m0 = self@;
        let ghost k = (binding@, capid@);
        match self.table.remove(binding, capid) {
            Some(mut e) => {
                let ghost ev0 = e@;
                e.terminates.push(true);
                proof {
                    assert(e@ =~= entry_terminated(ev0));
                }
                match self.table.insert_new(binding.to_owned(), capid.to_owned(), e) {
                    Ok(()) => {
                        proof {
                            assert(self@ =~= m0.insert(k, entry_terminated(m0[k])));
                        }
                        true
                    },
                    Err(_) => vstd::pervasive::unreached(),
                }
            },
            None => {
                proof {
                    assert(self@ =~= m0);
                }
                false
            },
        }
    }

    /// Signals every registered route to terminate, iterating over a
    /// snapshot of the keys.
    pub fn terminate_all(&mut self)
        requires
            old(self).wf(),
        ensures
            final(self).wf(),
            final(self)@.dom() == old(self)@.dom(),
            forall|k: (Seq<char>, Seq<char>)|
                old(self)@.contains_key(k) ==> final(self)@[k] == entry_terminated(
                    #[trigger] old(self)@[k],
                ),
    {
        let ghost m0 = self@;
        let keys = self.table.keys();
        proof {
            assert forall|j: int| 0 <= j < keys@.len() implies m0.contains_key(
                crate::table::key_view(#[trigger] keys@[j]),
            ) by {}
        }
        let n = keys.len();
        let mut idx: usize = 0;
        while idx < n
            invariant
                self.wf(),
                n == keys@.len(),
                idx <= n,
                self@.dom() == m0.dom(),
                forall|j: int|
                    0 <= j < keys@.len() ==> m0.contains_key(
                        crate::table::key_view(#[trigger] keys@[j]),
                    ),
                forall|j1: int, j2: int|
                    0 <= j1 < keys@.len() && 0 <= j2 < keys@.len() && j1 != j2
                        ==> crate::table::key_view(#[trigger] keys@[j1]) != crate::table::key_view(
                        #[trigger] keys@[j2],
                    ),
                forall|k: (Seq<char>, Seq<char>)|
                    #[trigger] m0.contains_key(k) && signalled(keys@, idx as int, k) ==> self@[k]
                        == entry_terminated(m0[k]),
                forall|k: (Seq<char>, Seq<char>)|
                    #[trigger] m0.contains_key(k) && !signalled(keys@, idx as int, k) ==> self@[k]
                        == m0[k],
                forall|k: (Seq<char>, Seq<char>)|
                    #[trigger] m0.contains_key(k) ==> signalled(keys@, n as int, k),
            decreases n - idx,
        {
            let ghost mpre = self@;
            let ghost kv = crate::table::key_view(keys@[idx as int]);
            proof {
                assert(m0.contains_key(kv));
                if signalled(keys@, idx as int, kv) {
                    let j = choose|j: int|
                        0 <= j < idx && crate::table::key_view(#[trigger] keys@[j]) == kv;
                    assert(false);
                }
                assert(mpre[kv] == m0[kv]);
            }
            let b = keys[idx].0.as_str();
            let c = keys[idx].1.as_str();
            let _ = self.terminate_route(b, c);
            idx = idx + 1;
            proof {
                assert(self@.dom() =~= m0.dom());
                assert(signalled(keys@, idx as int, kv)) by {
                    assert(crate::table::key_view(keys@[idx - 1]) == kv);
                }
                assert forall|k: (Seq<char>, Seq<char>)|
                    #[trigger] m0.contains_key(k) && signalled(keys@, idx as int, k) implies self@[k]
                    == entry_terminated(m0[k]) by {
                    if k == kv {
                    } else {
                        let j = choose|j: int|
                            0 <= j < idx && crate::table::key_view(#[trigger] keys@[j]) == k;
                        assert(j < idx - 1);
                        assert(signalled(keys@, idx as int - 1, k));
                    }
                }
                assert forall|k: (Seq<char>, Seq<char>)|
                    #[trigger] m0.contains_key(k) && !signalled(keys@, idx as int, k) implies self@[k]
                    == m0[k] by {
                    assert(k != kv);
                    if signalled(keys@, idx as int - 1, k) {
                        let j = choose|j: int|
                            0 <= j < idx - 1 && crate::table::key_view(#[trigger] keys@[j]) == k;
                        assert(signalled(keys@, idx as int, k));
                    }
                }
            }
        }
        proof {
            assert forall|k: (Seq<char>, Seq<char>)| m0.contains_key(k) implies self@[k]
                == entry_terminated(#[trigger] m0[k]) by {
                assert(signalled(keys@, n as int, k));
            }
        }
    }

    /// A snapshot of every registered key.
    pub fn route_keys(&self) -> (r: Vec<(String, String)>)
        requires
            self.wf(),
        ensures
            forall|j: int|
                0 <= j < r@.len() ==> self@.contains_key(
                    crate::table::key_view(#[trigger] r@[j]),
                ),
            forall|k: (Seq<char>, Seq<char>)|
                self@.contains_key(k) ==> exists|j: int|
                    0 <= j < r@.len() && crate::table::key_view(#[trigger] r@[j]) == k,
            forall|j1: int, j2: int|
                0 <= j1 < r@.len() && 0 <= j2 < r@.len() && j1 != j2 ==> crate::table::key_view(
                    #[trigger] r@[j1],
                ) != crate::table::key_view(#[trigger] r@[j2]),
    {
        self.table.keys()
    }

    /// A snapshot of the route registered under the key, if one is.
    pub fn get_route(&self, binding: &str, capid: &str) -> (r: Option<RouteEntry>)
        requires
            self.wf(),
        ensures
            match r {
                Some(e) => self@.contains_key((binding@, capid@)) && e@ == self@[(
                    binding@,
                    capid@,
                )],
                None => !self@.contains_key((binding@, capid@)),
            },
    {
        match self.table.get(binding, capid) {
            Some(e) => Some(e.clone()),
            None => None,
        }
    }
}

} // verus!
