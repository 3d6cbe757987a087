use wascc_host::dispatch::WasccNativeDispatcher;
use wascc_host::error::{
    ActorToActorCallNotExist, Authorization, BadDispatch, CapabilityFailure, CapabilityProvider as
    CapabilityProviderError, HostCallFailure, HotSwapFailure, MiscHost as MiscHostError,
    NativeHostCannotBeActor, UnauthorizedCapability, UnknownActor,
};
use wascc_host::errors::{new, ErrorKind};
use wascc_host::inthost::{Invocation, InvocationTarget};
use wascc_host::middleware::{
    run_actor_post_invoke, run_actor_pre_invoke, run_capability_post_invoke,
    run_capability_pre_invoke, invoke_actor, Guest, Middleware,
};
use wascc_host::native_host::{NativeHost, WorkerStep};
use wascc_host::plugins::{CapabilityDescriptor, CapabilityProvider, NativeCapability};
use wascc_host::router::Router;

const ECHO: u8 = 0;
const REJECT_CONFIGURE: u8 = 1;
const FAILING_CALL: u8 = 2;

struct TestProvider {
    kind: u8,
    configured: bool,
}

impl TestProvider {
    fn echo() -> Self {
        TestProvider { kind: ECHO, configured: false }
    }

    fn reject_configure() -> Self {
        TestProvider { kind: REJECT_CONFIGURE, configured: false }
    }

    fn failing_call() -> Self {
        TestProvider { kind: FAILING_CALL, configured: false }
    }
}

impl CapabilityProvider for TestProvider {
    fn configure(&mut self, _dispatcher: WasccNativeDispatcher) -> Result<(), String> {
        if self.kind == REJECT_CONFIGURE {
            Err("configuration rejected".to_string())
        } else {
            self.configured = true;
            Ok(())
        }
    }

    fn handle_call(&mut self, _binding: &str, operation: &str, msg: &[u8]) -> Result<Vec<u8>, String> {
        match self.kind {
            ECHO => {
                if operation == "echo" {
                    Ok(msg.to_vec())
                } else {
                    Err(format!("unknown operation: {}", operation))
                }
            },
            _ => Err("provider failure".to_string()),
        }
    }

    fn descriptor(&self) -> CapabilityDescriptor {
        match self.kind {
            ECHO => CapabilityDescriptor::new("tea:echo", "Echo", "1.0.0"),
            REJECT_CONFIGURE => CapabilityDescriptor::new("tea:reject", "Reject", "1.0.0"),
            _ => CapabilityDescriptor::new("tea:fail", "Fail", "1.0.0"),
        }
    }

    fn shutdown(&mut self) -> Result<(), String> {
        Ok(())
    }
}

struct CounterMiddleware {
    pre: usize,
    post: usize,
    cap_pre: usize,
    cap_post: usize,
    fail_cap_pre: bool,
}

impl CounterMiddleware {
    fn counting() -> Self {
        CounterMiddleware { pre: 0, post: 0, cap_pre: 0, cap_post: 0, fail_cap_pre: false }
    }

    fn failing() -> Self {
        CounterMiddleware { pre: 0, post: 0, cap_pre: 0, cap_post: 0, fail_cap_pre: true }
    }
}

impl Middleware for CounterMiddleware {
    fn actor_pre_invoke(
        &mut self,
        inv: Invocation,
    ) -> Result<Invocation, wascc_host::errors::Error> {
        self.pre += 1;
        Ok(inv)
    }

    fn actor_post_invoke(
        &mut self,
        response: wascc_host::inthost::InvocationResponse,
    ) -> Result<wascc_host::inthost::InvocationResponse, wascc_host::errors::Error> {
        self.post += 1;
        Ok(response)
    }

    fn capability_pre_invoke(
        &mut self,
        inv: Invocation,
    ) -> Result<Invocation, wascc_host::errors::Error> {
        self.cap_pre += 1;
        if self.fail_cap_pre {
            Err(new(ErrorKind::Middleware("hook rejected".to_string())))
        } else {
            Ok(inv)
        }
    }

    fn capability_post_invoke(
        &mut self,
        response: wascc_host::inthost::InvocationResponse,
    ) -> Result<wascc_host::inthost::InvocationResponse, wascc_host::errors::Error> {
        self.cap_post += 1;
        Ok(response)
    }
}

struct EchoGuest;

impl Guest for EchoGuest {
    fn call(&mut self, _operation: &str, msg: &[u8]) -> Result<Vec<u8>, String> {
        Ok(msg.to_vec())
    }
}

struct FailingGuest;

impl Guest for FailingGuest {
    fn call(&mut self, _operation: &str, _msg: &[u8]) -> Result<Vec<u8>, String> {
        Err("guest failed".to_string())
    }
}

fn echo_target() -> InvocationTarget {
    InvocationTarget::Capability { capid: "tea:echo".to_string(), binding: "default".to_string() }
}

fn echo_invocation(msg: Vec<u8>) -> Invocation {
    Invocation::new("test".to_string(), echo_target(), "echo", msg)
}

fn echo_host() -> NativeHost<TestProvider, CounterMiddleware> {
    let mut host = NativeHost::new();
    let capability = NativeCapability::from_instance(TestProvider::echo(), None).unwrap();
    host.add_native_capability(capability).unwrap();
    host
}

// The original chain test: two runs of the actor pre-invoke chain over a
// one-middleware chain bump its counter twice.
#[test]
fn simple_add() {
    let inc_mid = CounterMiddleware::counting();
    let mut mids: Vec<CounterMiddleware> = vec![inc_mid];
    let inv = Invocation::new(
        "test".to_string(),
        InvocationTarget::Capability {
            capid: "testing:sample".to_string(),
            binding: "default".to_string(),
        },
        "testing",
        b"abc1234".to_vec(),
    );
    let res = run_actor_pre_invoke(inv.clone(), &mut mids);
    assert!(res.is_ok());
    let res2 = run_actor_pre_invoke(inv, &mut mids);
    assert!(res2.is_ok());
    assert_eq!(mids[0].pre, 2);
}

#[test]
fn s1_echo() {
    let mut host = echo_host();
    let resp = host.invoke(echo_invocation(vec![0x01, 0x02, 0x03])).unwrap();
    assert_eq!(resp.msg, vec![0x01, 0x02, 0x03]);
    assert!(resp.error.is_none());
}

#[test]
fn s2_duplicate_register() {
    let mut host = echo_host();
    let second = NativeCapability::from_instance(TestProvider::echo(), None).unwrap();
    let err = host.add_native_capability(second).unwrap_err();
    let message = err.message();
    assert!(message.contains("tea:echo"));
    assert!(message.contains("default"));
    assert_eq!(
        message,
        "Capability provider tea:echo cannot be bound to the same name (default) twice, loading failed."
    );
    assert!(matches!(err.kind(), ErrorKind::CapabilityProvider(_)));
    // The first registration is intact.
    let resp = host.invoke(echo_invocation(vec![9])).unwrap();
    assert_eq!(resp.msg, vec![9]);
}

#[test]
fn s3_counting_middleware() {
    let mut host = echo_host();
    host.add_middleware(CounterMiddleware::counting());
    for _ in 0..3 {
        let resp = host.invoke(echo_invocation(vec![7])).unwrap();
        assert!(resp.error.is_none());
    }
    let counters = &host.middlewares()[0];
    assert_eq!(counters.pre, 0);
    assert_eq!(counters.post, 0);
    assert_eq!(counters.cap_pre, 3);
    assert_eq!(counters.cap_post, 3);
}

#[test]
fn s4_shutdown_idempotency() {
    let mut host = echo_host();
    host.shutdown().unwrap();
    host.shutdown().unwrap();
    let err = host.invoke(echo_invocation(vec![1])).unwrap_err();
    assert!(matches!(err.kind(), ErrorKind::MiscHost(_)));
    assert_eq!(err.message(), "No route for capability: (default,tea:echo)");
}

#[test]
fn s5_extras_present_at_start() {
    let host: NativeHost<TestProvider, CounterMiddleware> = NativeHost::new();
    assert!(host.router().get_route("default", "wascc:extras").is_some());
}

#[test]
fn s6_actor_target_rejection() {
    let mut host = echo_host();
    let inv = Invocation::new(
        "test".to_string(),
        InvocationTarget::Actor("a1".to_string()),
        "echo",
        vec![1, 2],
    );
    host.post_invocation("default", "tea:echo", inv).unwrap();
    let step = host.run_worker_once("default", "tea:echo");
    assert!(matches!(step, WorkerStep::Served));
    let resp = host.collect_response("default", "tea:echo").unwrap();
    assert_eq!(
        resp.error,
        Some("invocation target of native host can't be actor".to_string())
    );
}

#[test]
fn registration_readiness() {
    let mut host: NativeHost<TestProvider, CounterMiddleware> = NativeHost::new();
    let capability = NativeCapability::from_instance(TestProvider::echo(), None).unwrap();
    host.add_native_capability(capability).unwrap();
    // Immediately invocable: no sleep, no retry.
    let resp = host.invoke(echo_invocation(vec![5, 6])).unwrap();
    assert_eq!(resp.msg, vec![5, 6]);
}

#[test]
fn echo_round_trip_empty_payload() {
    let mut host = echo_host();
    let resp = host.invoke(echo_invocation(Vec::new())).unwrap();
    assert_eq!(resp.msg, Vec::<u8>::new());
    assert!(resp.error.is_none());
}

#[test]
fn middleware_failure_is_non_fatal() {
    let mut host = echo_host();
    host.add_middleware(CounterMiddleware::failing());
    let resp = host.invoke(echo_invocation(vec![42])).unwrap();
    // The failing pre-hook is skipped over: the untransformed invocation
    // still reaches the provider and the caller sees its response.
    assert_eq!(resp.msg, vec![42]);
    assert!(resp.error.is_none());
    assert_eq!(host.middlewares()[0].cap_pre, 1);
}

#[test]
fn fifo_per_provider() {
    let mut host = echo_host();
    for byte in 0..3u8 {
        let inv = echo_invocation(vec![byte]);
        host.post_invocation("default", "tea:echo", inv).unwrap();
    }
    for _ in 0..3 {
        let step = host.run_worker_once("default", "tea:echo");
        assert!(matches!(step, WorkerStep::Served));
    }
    for byte in 0..3u8 {
        let resp = host.collect_response("default", "tea:echo").unwrap();
        assert_eq!(resp.msg, vec![byte]);
        assert_eq!(resp.invocation_id, byte as u64);
    }
    assert!(host.collect_response("default", "tea:echo").is_none());
}

#[test]
fn worker_idle_when_nothing_pending() {
    let mut host = echo_host();
    let step = host.run_worker_once("default", "tea:echo");
    assert!(matches!(step, WorkerStep::Idle));
    let step = host.run_worker_once("default", "tea:none");
    assert!(matches!(step, WorkerStep::NoSuchRoute));
}

#[test]
fn provider_error_becomes_response_error() {
    let mut host: NativeHost<TestProvider, CounterMiddleware> = NativeHost::new();
    let capability = NativeCapability::from_instance(TestProvider::failing_call(), None).unwrap();
    host.add_native_capability(capability).unwrap();
    let inv = Invocation::new(
        "test".to_string(),
        InvocationTarget::Capability {
            capid: "tea:fail".to_string(),
            binding: "default".to_string(),
        },
        "anything",
        vec![],
    );
    let resp = host.invoke(inv).unwrap();
    assert_eq!(resp.error, Some("provider failure".to_string()));
}

#[test]
fn configure_rejection_rolls_registration_back() {
    let mut host: NativeHost<TestProvider, CounterMiddleware> = NativeHost::new();
    let capability =
        NativeCapability::from_instance(TestProvider::reject_configure(), None).unwrap();
    let err = host.add_native_capability(capability).unwrap_err();
    assert!(matches!(err.kind(), ErrorKind::Plugin(_)));
    assert_eq!(err.message(), "configuration rejected");
    assert!(host.router().get_route("default", "tea:reject").is_none());
}

#[test]
fn invoke_unknown_actor_target() {
    let mut host = echo_host();
    let inv = Invocation::new(
        "test".to_string(),
        InvocationTarget::Actor("a1".to_string()),
        "echo",
        vec![],
    );
    let err = host.invoke(inv).unwrap_err();
    assert!(matches!(err.kind(), ErrorKind::MiscHost(_)));
    assert_eq!(err.message(), "Trying to call an unknown actor");
}

#[test]
fn extras_sequence_counts_up() {
    let mut host = echo_host();
    let target = InvocationTarget::Capability {
        capid: "wascc:extras".to_string(),
        binding: "default".to_string(),
    };
    let inv = Invocation::new("test".to_string(), target.clone(), "RequestSequence", vec![]);
    let resp = host.invoke(inv).unwrap();
    assert_eq!(resp.msg, 0u64.to_le_bytes().to_vec());
    let inv = Invocation::new("test".to_string(), target, "RequestSequence", vec![]);
    let resp = host.invoke(inv).unwrap();
    assert_eq!(resp.msg, 1u64.to_le_bytes().to_vec());
}

#[test]
fn extras_rejects_unknown_operation() {
    let mut host = echo_host();
    let target = InvocationTarget::Capability {
        capid: "wascc:extras".to_string(),
        binding: "default".to_string(),
    };
    let inv = Invocation::new("test".to_string(), target, "RequestGuid", vec![]);
    let resp = host.invoke(inv).unwrap();
    assert_eq!(resp.error, Some("Unsupported extras operation: RequestGuid".to_string()));
}

#[test]
fn teardown_empties_router_and_plugins() {
    let mut host = echo_host();
    host.shutdown().unwrap();
    assert!(host.router().get_route("default", "tea:echo").is_none());
    assert!(host.router().get_route("default", "wascc:extras").is_none());
    assert!(host.plugins().is_empty());
}

#[test]
fn invoke_actor_echoes_through_guest() {
    let mut mids: Vec<CounterMiddleware> = Vec::new();
    let inv = Invocation::new(
        "tea:echo".to_string(),
        InvocationTarget::Actor("a1".to_string()),
        "do",
        vec![1, 2, 3],
    );
    let mut guest = EchoGuest;
    let resp = invoke_actor(&mut mids, inv, &mut guest).unwrap();
    assert_eq!(resp.msg, vec![1, 2, 3]);
    assert!(resp.error.is_none());
}

#[test]
fn invoke_actor_guest_failure_becomes_response_error() {
    let mut mids: Vec<CounterMiddleware> = Vec::new();
    let inv = Invocation::new(
        "tea:echo".to_string(),
        InvocationTarget::Actor("a1".to_string()),
        "do",
        vec![],
    );
    let mut guest = FailingGuest;
    let resp = invoke_actor(&mut mids, inv, &mut guest).unwrap();
    assert_eq!(resp.error, Some("guest failed".to_string()));
}

#[test]
fn actor_middleware_counts_on_actor_path() {
    let mut mids: Vec<CounterMiddleware> = vec![CounterMiddleware::counting()];
    let inv = Invocation::new(
        "tea:echo".to_string(),
        InvocationTarget::Actor("a1".to_string()),
        "do",
        vec![],
    );
    let mut guest = EchoGuest;
    let resp = invoke_actor(&mut mids, inv, &mut guest).unwrap();
    assert!(resp.error.is_none());
    assert_eq!(mids[0].pre, 1);
    assert_eq!(mids[0].post, 1);
    assert_eq!(mids[0].cap_pre, 0);
    assert_eq!(mids[0].cap_post, 0);
}

#[test]
fn chain_runners_pass_values_through() {
    let mut mids: Vec<CounterMiddleware> = vec![CounterMiddleware::counting()];
    let inv = echo_invocation(vec![1]);
    let out = run_capability_pre_invoke(inv, &mut mids).unwrap();
    assert_eq!(out.msg, vec![1]);
    let resp = wascc_host::inthost::InvocationResponse::success(&out, vec![2]);
    let out2 = run_capability_post_invoke(resp, &mut mids).unwrap();
    assert_eq!(out2.msg, vec![2]);
    let inv2 = echo_invocation(vec![3]);
    let out3 = run_actor_pre_invoke(inv2, &mut mids).unwrap();
    let resp2 = wascc_host::inthost::InvocationResponse::success(&out3, vec![4]);
    let out4 = run_actor_post_invoke(resp2, &mut mids).unwrap();
    assert_eq!(out4.msg, vec![4]);
    assert_eq!(mids[0].pre, 1);
    assert_eq!(mids[0].post, 1);
    assert_eq!(mids[0].cap_pre, 1);
    assert_eq!(mids[0].cap_post, 1);
}

#[test]
fn router_route_lifecycle() {
    let mut router = Router::new();
    assert!(!router.route_exists("default", "tea:kv"));
    router.add_route("default", "tea:kv").unwrap();
    assert!(router.route_exists("default", "tea:kv"));
    let err = router.add_route("default", "tea:kv").unwrap_err();
    assert_eq!(err.message(), "Route already exists: (default,tea:kv)");
    assert!(router.get_route("default", "tea:kv").is_some());
    router.remove_route("default", "tea:kv");
    assert!(!router.route_exists("default", "tea:kv"));
    // Removing a missing route is not an error.
    router.remove_route("default", "tea:kv");
    assert!(router.get_route("default", "tea:kv").is_none());
}

#[test]
fn router_terminate_signals() {
    let mut router = Router::new();
    router.add_route("default", "tea:kv").unwrap();
    router.add_route("other", "tea:kv").unwrap();
    assert!(!router.take_terminate("default", "tea:kv"));
    router.terminate_all();
    assert!(router.take_terminate("default", "tea:kv"));
    assert!(!router.take_terminate("default", "tea:kv"));
    assert!(router.take_terminate("other", "tea:kv"));
    assert!(!router.terminate_route("missing", "tea:kv"));
    assert!(router.terminate_route("other", "tea:kv"));
    assert!(router.take_terminate("other", "tea:kv"));
}

#[test]
fn dispatcher_builds_actor_envelopes() {
    let dispatcher = WasccNativeDispatcher::new("tea:echo");
    let inv = dispatcher.make_invocation("a1", "do", vec![9, 9]);
    assert_eq!(inv.origin, "tea:echo".to_string());
    assert_eq!(inv.operation, "do".to_string());
    assert_eq!(inv.msg, vec![9, 9]);
    assert!(matches!(inv.target, InvocationTarget::Actor(ref a) if a == "a1"));
}

#[test]
fn dispatcher_interprets_responses() {
    let dispatcher = WasccNativeDispatcher::new("tea:echo");
    let inv = dispatcher.make_invocation("a1", "do", vec![1]);
    let ok = wascc_host::inthost::InvocationResponse::success(&inv, vec![8]);
    assert_eq!(WasccNativeDispatcher::interpret_response(ok).unwrap(), vec![8]);
    let failed = wascc_host::inthost::InvocationResponse::error(&inv, "boom");
    let err = WasccNativeDispatcher::interpret_response(failed).unwrap_err();
    assert!(matches!(err.kind(), ErrorKind::HostCallFailure(_)));
    assert_eq!(err.message(), "boom");
}

#[test]
fn error_kinds_carry_their_text() {
    let e = new(ErrorKind::Wapc("wapc failed".to_string()));
    assert!(matches!(e.kind(), ErrorKind::Wapc(_)));
    assert_eq!(e.message(), "wapc failed");
    let e = new(ErrorKind::HostCallFailure("host call".to_string()));
    assert!(matches!(e.kind(), ErrorKind::HostCallFailure(_)));
    let e = new(ErrorKind::Authorization("denied".to_string()));
    assert!(matches!(e.into_kind(), ErrorKind::Authorization(s) if s == "denied"));
    let e = new(ErrorKind::Middleware("hook".to_string()));
    assert_eq!(e.message(), "hook");
    let e = new(ErrorKind::Plugin("load".to_string()));
    assert_eq!(e.message(), "load");
    let e = new(ErrorKind::MiscHost("misc".to_string()));
    assert_eq!(e.message(), "misc");
    let e = new(ErrorKind::CapabilityProvider("cap".to_string()));
    assert_eq!(e.message(), "cap");
}

#[test]
fn named_failures_spell_their_messages() {
    assert_eq!(UnknownActor.message(), "Trying to call an unknown actor");
    assert_eq!(HotSwapFailure.message(), "Failed to perform hot swap");
    assert_eq!(
        ActorToActorCallNotExist.message(),
        "Attempted actor-to-actor call to non-existent target"
    );
    assert_eq!(BadDispatch.message(), "Bad dispatch");
    assert_eq!(
        NativeHostCannotBeActor.message(),
        "Invocation target of native host can't be actor"
    );
    let unauthorized = UnauthorizedCapability("actor1".to_string(), "tea:kv".to_string());
    assert_eq!(
        unauthorized.message(),
        "Dispatch between actor and unauthorized capability: actor1 <-> tea:kv"
    );
    assert_eq!(CapabilityFailure("inner".to_string()).message(), "inner");
    assert_eq!(HostCallFailure("inner".to_string()).message(), "inner");
    assert_eq!(Authorization("reason".to_string()).message(), "reason");
    assert_eq!(CapabilityProviderError("reason".to_string()).message(), "reason");
    assert_eq!(MiscHostError("reason".to_string()).message(), "reason");
}

#[test]
fn named_binding_is_kept() {
    let mut host: NativeHost<TestProvider, CounterMiddleware> = NativeHost::new();
    let capability =
        NativeCapability::from_instance(TestProvider::echo(), Some("backup".to_string())).unwrap();
    assert_eq!(capability.binding_name, "backup".to_string());
    host.add_native_capability(capability).unwrap();
    assert!(host.router().get_route("backup", "tea:echo").is_some());
    assert!(host.router().get_route("default", "tea:echo").is_none());
    let inv = Invocation::new(
        "test".to_string(),
        InvocationTarget::Capability {
            capid: "tea:echo".to_string(),
            binding: "backup".to_string(),
        },
        "echo",
        vec![1],
    );
    let resp = host.invoke(inv).unwrap();
    assert_eq!(resp.msg, vec![1]);
}
