use script_runtime::event_loop::Worker;
use script_runtime::fetch::{fetch_outcome, fetch_payload, Transport, User};
use script_runtime::isolate::{DriveStatus, InstanceCounter, Isolate};
use script_runtime::locker::Locker;
use script_runtime::pending::{OpFailure, OpKind, Outcome, PendingOps};
use script_runtime::script::{Resolution, ScriptState};
use script_runtime::v8::{Context, Function, Value, ValueT};
use script_runtime::v8_jni::string_t;

fn callback(slot: u64) -> Function {
    Function::Cast(&Value { slot })
}

fn fired(resolution: &Resolution) -> bool {
    matches!(resolution, Resolution::Fired { .. })
}

#[test]
fn pending_set_delivers_each_payload_once() {
    let mut set = PendingOps::new();
    set.push(1, OpKind::Timer { delay: 5, repeat: false });
    set.push(2, OpKind::NetworkFetch { url: String::from("http://example.test/a") });
    set.push(3, OpKind::Timer { delay: 9, repeat: true });
    assert_eq!(set.len(), 3);

    let nothing = set.poll_ready().unwrap();
    assert!(nothing.is_empty());
    assert_eq!(set.len(), 3);

    assert!(set.complete(2, Outcome::Payload(vec![b'o', b'k'])));
    assert!(set.complete(1, Outcome::Payload(vec![1u8])));
    let done = set.poll_ready().unwrap();
    assert_eq!(done.len(), 2);
    assert_eq!(done[0].id, 1);
    assert_eq!(done[0].payload, vec![1u8]);
    assert!(matches!(done[0].kind, OpKind::Timer { delay: 5, repeat: false }));
    assert_eq!(done[1].id, 2);
    assert_eq!(done[1].payload, vec![b'o', b'k']);
    assert_eq!(set.len(), 1);

    let again = set.poll_ready().unwrap();
    assert!(again.is_empty());
    assert_eq!(set.len(), 1);
}

#[test]
fn completing_twice_is_refused() {
    let mut set = PendingOps::new();
    set.push(7, OpKind::Timer { delay: 1, repeat: false });
    assert!(set.complete(7, Outcome::Payload(vec![1u8])));
    assert!(!set.complete(7, Outcome::Payload(vec![2u8])));
    assert!(!set.complete(8, Outcome::Payload(vec![3u8])));
    let done = set.poll_ready().unwrap();
    assert_eq!(done.len(), 1);
    assert_eq!(done[0].payload, vec![1u8]);
    assert!(set.is_empty());
    assert!(!set.complete(7, Outcome::Payload(vec![4u8])));
}

#[test]
fn failed_task_is_surfaced_and_removed() {
    let mut set = PendingOps::new();
    set.push(1, OpKind::Timer { delay: 1, repeat: false });
    set.push(2, OpKind::Timer { delay: 1, repeat: false });
    set.push(3, OpKind::Timer { delay: 1, repeat: false });
    assert!(set.complete(1, Outcome::Payload(vec![1u8])));
    assert!(set.complete(2, Outcome::Failure));
    assert_eq!(set.poll_ready().unwrap_err(), OpFailure { id: 2 });
    assert_eq!(set.len(), 2);
    let done = set.poll_ready().unwrap();
    assert_eq!(done.len(), 1);
    assert_eq!(done[0].id, 1);
    assert_eq!(set.len(), 1);
}

#[test]
fn discard_drops_everything() {
    let mut set = PendingOps::new();
    set.push(1, OpKind::Timer { delay: 1, repeat: false });
    set.complete(1, Outcome::Payload(vec![1u8]));
    set.discard();
    assert!(set.is_empty());
    assert!(set.poll_ready().unwrap().is_empty());
}

#[test]
fn second_resolve_has_no_effect() {
    let mut locker = Locker::new(4);
    let scope = locker.acquire().unwrap();
    let mut script = ScriptState::new(4);
    let id = script.fetch(&scope);
    assert_eq!(id, 1);
    assert!(script.is_pending(id));
    match script.resolve(&scope, id, vec![b'a']) {
        Resolution::Body { promise_id, payload } => {
            assert_eq!(promise_id, id);
            assert_eq!(payload, vec![b'a']);
        },
        _ => panic!("the fetch promise settles with its payload"),
    }
    assert!(!script.is_pending(id));
    assert!(matches!(script.resolve(&scope, id, vec![b'b']), Resolution::Ignored));
    assert!(matches!(script.resolve(&scope, 99, vec![]), Resolution::Ignored));
    assert!(locker.release(scope));
}

#[test]
fn identifiers_count_up_from_one() {
    let mut locker = Locker::new(0);
    let scope = locker.acquire().unwrap();
    let mut script = ScriptState::new(0);
    assert_eq!(script.next_promise(), 1);
    assert_eq!(script.fetch(&scope), 1);
    let start = script.set_timer(&scope, callback(1), 250, false);
    assert_eq!(start.timer_id, 1);
    assert_eq!(start.request.promise_id, 2);
    assert_eq!(start.request.delay, 250);
    let next = script.set_timer(&scope, callback(2), 10, true);
    assert_eq!(next.timer_id, 2);
    assert_eq!(next.request.promise_id, 3);
    assert_eq!(script.fetch(&scope), 4);
    assert!(script.can_allocate());
}

#[test]
fn timeout_fires_once_and_is_removed() {
    let mut counter = InstanceCounter::new();
    let mut isolate = Isolate::new(&mut counter);
    let start = isolate.set_timeout(callback(11), 3000).unwrap();
    assert_eq!(start.timer_id, 1);
    assert_eq!(start.request.promise_id, 1);
    assert_eq!(start.request.delay, 3000);
    let timer = start.timer_id;
    assert!(isolate.has_timer(timer));
    assert_eq!(isolate.pending_len(), 1);
    assert!(isolate.have_unpolled_ops());
    assert!(!isolate.rearms(1));

    assert!(isolate.complete(1, Outcome::Payload(vec![1u8])));
    let report = isolate.poll().unwrap();
    assert_eq!(report.resolutions.len(), 1);
    match &report.resolutions[0] {
        Resolution::Fired { callback: cb, rearm } => {
            assert_eq!(*cb, callback(11));
            assert!(rearm.is_none());
        },
        _ => panic!("the timeout fires"),
    }
    assert_eq!(report.status, DriveStatus::Quiescent);
    assert!(!report.wake);
    assert!(!isolate.has_timer(timer));
    assert_eq!(isolate.pending_len(), 0);
}

#[test]
fn interval_rearms_with_a_new_identifier() {
    let mut counter = InstanceCounter::new();
    let mut isolate = Isolate::new(&mut counter);
    let timer = isolate.set_interval(callback(5), 1000).unwrap().timer_id;
    assert!(isolate.rearms(1));
    assert!(isolate.complete(1, Outcome::Payload(vec![1u8])));
    let report = isolate.poll().unwrap();
    assert_eq!(report.status, DriveStatus::HasMoreWork);
    assert!(report.wake);
    match &report.resolutions[0] {
        Resolution::Fired { callback: cb, rearm: Some(request) } => {
            assert_eq!(*cb, callback(5));
            assert_eq!(request.promise_id, 2);
            assert_eq!(request.delay, 1000);
        },
        _ => panic!("the interval fires and re-arms"),
    }
    assert!(isolate.has_timer(timer));
    assert!(!isolate.is_pending(1));
    assert!(isolate.is_pending(2));
    assert_eq!(isolate.pending_len(), 1);

    let idle = isolate.poll().unwrap();
    assert!(idle.resolutions.is_empty());
    assert_eq!(idle.status, DriveStatus::HasMoreWork);
    assert!(!idle.wake);
}

#[test]
fn interval_cleared_before_first_completion_never_fires() {
    let mut counter = InstanceCounter::new();
    let mut isolate = Isolate::new(&mut counter);
    let timer = isolate.set_interval(callback(5), 2000).unwrap().timer_id;
    isolate.clear_interval(timer);
    assert!(!isolate.has_timer(timer));
    // The native timer is not retracted: it still completes.
    assert_eq!(isolate.pending_len(), 1);
    assert!(isolate.complete(1, Outcome::Payload(vec![1u8])));
    let report = isolate.poll().unwrap();
    assert_eq!(report.resolutions.len(), 1);
    assert!(matches!(report.resolutions[0], Resolution::Suppressed));
    assert_eq!(report.status, DriveStatus::Quiescent);
    let invocations = report.resolutions.iter().filter(|r| fired(r)).count();
    assert_eq!(invocations, 0);
}

#[test]
fn interval_cleared_after_dispatch_fires_once_more() {
    let mut counter = InstanceCounter::new();
    let mut isolate = Isolate::new(&mut counter);
    let timer = isolate.set_interval(callback(5), 2000).unwrap().timer_id;
    assert!(isolate.complete(1, Outcome::Payload(vec![1u8])));
    let first = isolate.poll().unwrap();
    // The invocation is handed out; the script clears the interval before
    // the embedder has run it.
    isolate.clear_interval(timer);
    let mut invocations = first.resolutions.iter().filter(|r| fired(r)).count();
    assert_eq!(invocations, 1);

    assert!(isolate.complete(2, Outcome::Payload(vec![1u8])));
    let second = isolate.poll().unwrap();
    invocations += second.resolutions.iter().filter(|r| fired(r)).count();
    assert_eq!(invocations, 1);
    assert!(matches!(second.resolutions[0], Resolution::Suppressed));
    assert_eq!(second.status, DriveStatus::Quiescent);
    assert!(matches!(isolate.resolve(1, vec![]), Resolution::Ignored));
    assert!(matches!(isolate.resolve(2, vec![]), Resolution::Ignored));
}

#[test]
fn clear_timeout_of_unknown_timer_changes_nothing() {
    let mut counter = InstanceCounter::new();
    let mut isolate = Isolate::new(&mut counter);
    let timer = isolate.set_timeout(callback(1), 10).unwrap().timer_id;
    isolate.clear_timeout(timer + 1);
    assert!(isolate.has_timer(timer));
    isolate.clear_timeout(timer);
    assert!(!isolate.has_timer(timer));
}

#[test]
fn fetch_resolves_with_the_body() {
    let body = "{\"name\":\"ardan\"}";
    let payload = fetch_payload(Transport::Response { body: body.as_bytes().to_vec() });
    let parsed: serde_json::Value = serde_json::from_slice(&payload).unwrap();
    let expected: serde_json::Value = serde_json::from_str("{\"name\":\"ardan\"}").unwrap();
    assert_eq!(parsed, expected);
    assert_eq!(parsed.get("name").and_then(|name| name.as_str()), Some("ardan"));

    let mut counter = InstanceCounter::new();
    let mut isolate = Isolate::new(&mut counter);
    let id = isolate.request_fetch(String::from("https://api.example.test/users/ardanlabs")).unwrap();
    assert_eq!(id, 1);
    assert!(!isolate.have_unpolled_ops());
    assert!(isolate.complete(id, Outcome::Payload(payload)));
    let report = isolate.poll().unwrap();
    match &report.resolutions[0] {
        Resolution::Body { promise_id, payload } => {
            assert_eq!(*promise_id, id);
            assert_eq!(payload.as_slice(), body.as_bytes());
        },
        _ => panic!("the fetch promise settles with the body"),
    }
    assert_eq!(report.status, DriveStatus::Quiescent);
}

#[test]
fn fetch_failure_resolves_with_empty_object() {
    let payload = fetch_payload(Transport::Failure);
    assert_eq!(payload, b"{}".to_vec());
    let parsed: serde_json::Value = serde_json::from_slice(&payload).unwrap();
    let expected: serde_json::Value = serde_json::from_str("{}").unwrap();
    assert_eq!(parsed, expected);
    assert!(matches!(fetch_outcome(Transport::Failure), Outcome::Payload(_)));

    let mut counter = InstanceCounter::new();
    let mut isolate = Isolate::new(&mut counter);
    let id = isolate.request_fetch(String::from("https://unreachable.example.test/")).unwrap();
    match fetch_outcome(Transport::Failure) {
        Outcome::Payload(bytes) => assert!(isolate.complete(id, Outcome::Payload(bytes))),
        Outcome::Failure => panic!("a fetch never fails its task"),
    }
    let report = isolate.poll().unwrap();
    match &report.resolutions[0] {
        Resolution::Body { payload, .. } => assert_eq!(payload.as_slice(), b"{}"),
        _ => panic!("the fetch promise resolves"),
    }
}

#[test]
fn fetch_body_that_is_not_text_resolves_with_empty_object() {
    let payload = fetch_payload(Transport::Response { body: vec![0xff, 0xfe, 0x41] });
    assert_eq!(payload, b"{}".to_vec());
    let multibyte = "caf\u{e9} \u{1f600}";
    let kept = fetch_payload(Transport::Response { body: multibyte.as_bytes().to_vec() });
    assert_eq!(kept, multibyte.as_bytes().to_vec());
    let empty = fetch_payload(Transport::Response { body: Vec::new() });
    assert!(empty.is_empty());
}

#[test]
fn instances_share_the_counter_but_not_their_identifiers() {
    let mut counter = InstanceCounter::new();
    let mut a = Isolate::new(&mut counter);
    let mut b = Isolate::new(&mut counter);
    assert_eq!(a.uuid(), 0);
    assert_eq!(b.uuid(), 1);
    assert_eq!(counter.next_uuid(), 2);

    let a1 = a.request_fetch(String::from("http://a.test/1")).unwrap();
    let b1 = b.request_fetch(String::from("http://b.test/1")).unwrap();
    let a2 = a.request_fetch(String::from("http://a.test/2")).unwrap();
    assert_eq!((a1, a2), (1, 2));
    assert_eq!(b1, 1);

    assert!(matches!(a.resolve(1, vec![b'x']), Resolution::Body { .. }));
    assert!(!a.is_pending(1));
    assert!(b.is_pending(1));
    assert_eq!(b.pending_len(), 1);
    assert!(matches!(b.resolve(1, vec![b'y']), Resolution::Body { .. }));
    assert!(a.is_pending(2));
}

#[test]
fn locker_admits_one_scope_at_a_time() {
    let mut locker = Locker::new(3);
    assert!(!locker.is_locked());
    assert_eq!(locker.entered(), 0);
    let scope = locker.acquire().unwrap();
    assert_eq!(scope.engine_id(), 3);
    assert!(locker.is_locked());
    assert_eq!(locker.entered(), 1);
    assert!(locker.acquire().is_none());
    assert!(locker.acquire().is_none());
    assert_eq!(locker.entered(), 1);
    assert!(locker.release(scope));
    assert_eq!(locker.entered(), 0);
    let again = locker.acquire().unwrap();
    assert_eq!(locker.entered(), 1);

    let mut other = Locker::new(9);
    assert!(!other.release(again));
    assert!(!other.is_locked());
    assert!(locker.is_locked());
}

#[test]
fn bootstrap_is_asked_for_once() {
    let mut counter = InstanceCounter::new();
    let mut worker = Worker::new(&mut counter);
    let first = worker.execute("let a = 1;").unwrap();
    assert!(first.initialize);
    assert_eq!(first.source, "let a = 1;");
    let second = worker.execute("let b = 2;").unwrap();
    assert!(!second.initialize);
    assert_eq!(second.source, "let b = 2;");
}

#[test]
fn worker_stays_busy_until_the_set_is_empty() {
    let mut counter = InstanceCounter::new();
    let mut worker = Worker::new(&mut counter);
    assert!(worker.inner.has_headroom());
    assert_eq!(worker.inner.status(), DriveStatus::Quiescent);
    assert_eq!(worker.poll().unwrap().status, DriveStatus::Quiescent);
    worker.inner.set_timeout(callback(1), 3000).unwrap();
    worker.inner.set_timeout(callback(2), 5000).unwrap();
    assert_eq!(worker.inner.status(), DriveStatus::HasMoreWork);
    let report = worker.poll().unwrap();
    assert_eq!(report.status, DriveStatus::HasMoreWork);
    assert!(report.resolutions.is_empty());
    worker.inner.complete(1, Outcome::Payload(vec![1u8]));
    assert_eq!(worker.poll().unwrap().status, DriveStatus::HasMoreWork);
    worker.inner.complete(2, Outcome::Payload(vec![1u8]));
    let last = worker.poll().unwrap();
    assert_eq!(last.status, DriveStatus::Quiescent);
    assert_eq!(last.resolutions.len(), 1);
}

#[test]
fn failed_task_ends_the_drive_cycle_with_an_error() {
    let mut counter = InstanceCounter::new();
    let mut worker = Worker::new(&mut counter);
    worker.inner.set_timeout(callback(1), 1).unwrap();
    assert!(worker.inner.complete(1, Outcome::Failure));
    assert_eq!(worker.poll().unwrap_err(), OpFailure { id: 1 });
    assert_eq!(worker.inner.pending_len(), 0);
    assert!(worker.inner.is_pending(1));
}

#[test]
fn torn_down_engine_drops_notifications() {
    let mut counter = InstanceCounter::new();
    let mut isolate = Isolate::new(&mut counter);
    isolate.set_timeout(callback(1), 10).unwrap();
    isolate.request_fetch(String::from("http://late.test/")).unwrap();
    assert!(isolate.is_live());
    isolate.teardown();
    assert!(!isolate.is_live());
    assert_eq!(isolate.pending_len(), 0);
    assert!(!isolate.complete(1, Outcome::Payload(vec![1u8])));
    assert!(matches!(isolate.resolve(1, vec![1u8]), Resolution::Ignored));
    assert!(matches!(isolate.resolve(2, vec![b'x']), Resolution::Ignored));
    assert!(!isolate.dispatch(5, 10, false));
    assert!(!isolate.fetch(String::from("http://late.test/"), 6));
    assert!(isolate.set_timeout(callback(2), 10).is_none());
    assert!(isolate.request_fetch(String::from("http://late.test/")).is_none());
    assert!(isolate.execute("1").is_none());
    assert_eq!(isolate.poll().unwrap().status, DriveStatus::Quiescent);
}

#[test]
fn dispatch_marks_unpolled_work() {
    let mut counter = InstanceCounter::new();
    let mut isolate = Isolate::new(&mut counter);
    assert!(!isolate.have_unpolled_ops());
    assert!(isolate.dispatch(40, 1000, false));
    assert!(isolate.have_unpolled_ops());
    assert!(isolate.fetch(String::from("http://x.test/"), 41));
    assert_eq!(isolate.pending_len(), 2);
    let report = isolate.poll().unwrap();
    assert!(!isolate.have_unpolled_ops());
    assert_eq!(report.status, DriveStatus::HasMoreWork);
    // No promise waits for 40: the completion is delivered and ignored.
    assert!(isolate.complete(40, Outcome::Payload(vec![1u8])));
    let report = isolate.poll().unwrap();
    assert!(matches!(report.resolutions[0], Resolution::Ignored));
}

#[test]
fn context_is_invalidated_once() {
    let mut context = Context::new(12);
    assert_eq!(context.instance_id(), 12);
    assert!(context.is_live());
    context.invalidate();
    assert!(!context.is_live());
    assert_eq!(context.instance_id(), 12);
}

#[test]
fn function_is_a_value() {
    let value = Value { slot: 77 };
    let function = Function::Cast(&value);
    assert_eq!(*function.as_val(), value);
    assert_eq!(*value.as_val(), value);
}

#[test]
fn string_t_decodes_lossily() {
    let plain = string_t::new(b"java/lang/Integer".to_vec());
    assert_eq!(plain.len(), 17);
    assert_eq!(plain.to_string(), "java/lang/Integer");
    let accented = string_t::new("h\u{e9}llo".as_bytes().to_vec());
    assert_eq!(accented.to_string(), "h\u{e9}llo");
    let broken = string_t::new(vec![b'a', 0xff, b'b']);
    assert_eq!(broken.to_string(), "a\u{fffd}b");
    assert_eq!(string_t::new(Vec::new()).to_string(), "");
}

#[test]
fn user_keeps_its_name() {
    let user = User::new(String::from("ardan"));
    assert_eq!(user.name(), "ardan");
}
