use tauriless::registry::{CommandDescriptor, Registry};
use tauriless::response::{respond_ok, Body, Response, Status};
use tauriless::router::{begin_async, handle_sync, respond_with, route, AsyncStart};
use tauriless::registry::Channel;
use tauriless::{handle_deserialization_error, handle_serialization_error, handle_unknown_command};

fn registry(commands: &[(&str, bool)]) -> Registry {
    Registry::build(commands.iter().map(|(n, a)| CommandDescriptor::new(n, *a)).collect()).unwrap()
}

fn add(a: i64, b: i64) -> i64 {
    a + b
}

fn answer() -> u32 {
    42
}

/// Serves a synchronous request against a registry of `add` (index 0) and
/// `answer` (index 1), decoding and encoding with Pot.
fn serve(reg: &Registry, path: &str, body: &[u8]) -> Response {
    enum Args {
        Add(i64, i64),
        Answer,
    }
    handle_sync(
        reg,
        path,
        body,
        |i: usize, b: &[u8]| -> Result<Args, pot::Error> {
            if i == 0 {
                pot::from_slice::<(i64, i64)>(b).map(|(x, y)| Args::Add(x, y))
            } else {
                pot::from_slice::<()>(b).map(|_| Args::Answer)
            }
        },
        |_i: usize, a: Args| match a {
            Args::Add(x, y) => add(x, y),
            Args::Answer => answer() as i64,
        },
        |i: usize, v: i64| if i == 0 { pot::to_vec(&v) } else { pot::to_vec(&(v as u32)) },
    )
}

fn encoded(r: &Response) -> &[u8] {
    match &r.body {
        Body::Encoded(b) => b,
        Body::Diagnostic(d) => panic!("diagnostic: {d}"),
    }
}

fn diagnostic(r: &Response) -> &str {
    match &r.body {
        Body::Diagnostic(d) => d,
        Body::Encoded(_) => panic!("encoded body"),
    }
}

#[test]
fn add_scenario_returns_sum() {
    let reg = registry(&[("add", false), ("answer", false)]);
    let body = pot::to_vec(&(2i64, 3i64)).unwrap();
    let r = serve(&reg, "/add", &body);
    assert_eq!(r.status, Status::Success);
    assert_eq!(r.status.code(), 200);
    assert_eq!(r.allow_origin, "*");
    let sum: i64 = pot::from_slice(encoded(&r)).unwrap();
    assert_eq!(sum, 5);
}

#[test]
fn add_scenario_unregistered_subtract() {
    let reg = registry(&[("add", false), ("answer", false)]);
    let body = pot::to_vec(&(2i64, 3i64)).unwrap();
    let r = serve(&reg, "/subtract", &body);
    assert_eq!(r.status.code(), 400);
    assert_eq!(r.allow_origin, "*");
    assert!(diagnostic(&r).contains("command not found"));
}

#[test]
fn zero_argument_command_end_to_end() {
    let reg = registry(&[("add", false), ("answer", false)]);
    let body = pot::to_vec(&()).unwrap();
    let r = serve(&reg, "/answer", &body);
    assert_eq!(r.status.code(), 200);
    let got: u32 = pot::from_slice(encoded(&r)).unwrap();
    assert_eq!(got, answer());
}

#[test]
fn corrupt_body_names_the_command() {
    let reg = registry(&[("add", false), ("answer", false)]);
    let body = pot::to_vec(&(2i64, 3i64)).unwrap();
    let r = serve(&reg, "/add", &body[..4]);
    assert_eq!(r.status.code(), 400);
    assert_eq!(r.allow_origin, "*");
    assert_eq!(diagnostic(&r), "Bad request: failed to deserialize `add::Args`.");
    let r = serve(&reg, "/add", b"not an envelope");
    assert_eq!(r.status, Status::BadRequest);
    assert!(diagnostic(&r).contains("add"));
}

#[test]
fn wrong_argument_shape_is_bad_request() {
    let reg = registry(&[("add", false), ("answer", false)]);
    let body = pot::to_vec(&("two", "three")).unwrap();
    let r = serve(&reg, "/add", &body);
    assert_eq!(r.status.code(), 400);
}

#[test]
fn underscored_path_is_unknown_command() {
    let reg = registry(&[("do_stuff", false)]);
    let ok = handle_sync(&reg, "/do-stuff", &[], |_: usize, _: &[u8]| Ok::<(), ()>(()), |_: usize, _: ()| 7u8, |_: usize, v: u8| Ok::<Vec<u8>, ()>(vec![v]));
    assert_eq!(ok.status.code(), 200);
    assert_eq!(encoded(&ok), &[7u8][..]);
    let r = handle_sync(&reg, "/do_stuff", &[], |_: usize, _: &[u8]| Ok::<(), ()>(()), |_: usize, _: ()| 7u8, |_: usize, v: u8| Ok::<Vec<u8>, ()>(vec![v]));
    assert_eq!(r.status.code(), 400);
    assert_eq!(diagnostic(&r), "Unknown `tauriless` command: command not found: `do_stuff`.");
}

#[test]
fn unregistered_on_either_channel() {
    let reg = registry(&[("add", false), ("fetch", true)]);
    match route(&reg, Channel::Sync, "/nothing") {
        Err(r) => {
            assert_eq!(r.status.code(), 400);
            assert!(diagnostic(&r).contains("command not found"));
        }
        Ok(_) => panic!("resolved"),
    }
    match begin_async(&reg, "/nothing", &[], |_: usize, _: &[u8]| Ok::<(), ()>(())) {
        AsyncStart::Respond(r) => {
            assert_eq!(r.status.code(), 400);
            assert!(diagnostic(&r).contains("command not found"));
        }
        AsyncStart::Spawn { .. } => panic!("spawned"),
    }
    assert_eq!(route(&reg, Channel::Sync, "/fetch").unwrap_err().status.code(), 400);
    assert_eq!(route(&reg, Channel::Async, "/fetch").unwrap(), 1);
}

#[test]
fn encoding_failure_is_server_error() {
    let reg = registry(&[("add", false)]);
    let r = handle_sync(&reg, "/add", &[], |_: usize, _: &[u8]| Ok::<(), ()>(()), |_: usize, _: ()| 1u8, |_: usize, _: u8| Err::<Vec<u8>, &str>("no"));
    assert_eq!(r.status, Status::InternalServerError);
    assert_eq!(r.status.code(), 500);
    assert_eq!(r.allow_origin, "*");
    assert!(diagnostic(&r).contains("`add`"));
    let r = respond_with(&reg, 0, Ok::<Vec<u8>, ()>(vec![1, 2]));
    assert_eq!(encoded(&r), &[1u8, 2][..]);
}

#[test]
fn async_call_responds_exactly_once() {
    let reg = registry(&[("add", false), ("fetch", true)]);
    let body = pot::to_vec(&(5i64,)).unwrap();
    let start = begin_async(&reg, "/fetch", &body, |_: usize, b: &[u8]| pot::from_slice::<(i64,)>(b));
    let (command, args, mut pending) = match start {
        AsyncStart::Spawn { command, args, pending } => (command, args, pending),
        AsyncStart::Respond(r) => panic!("answered at once: {:?}", r),
    };
    assert_eq!(command, 1);
    assert_eq!(pending.command(), 1);
    assert!(!pending.responded());
    let result = args.0 * 2;
    let first = pending.complete(pot::to_vec(&result)).expect("first completion answers");
    assert_eq!(first.status.code(), 200);
    let got: i64 = pot::from_slice(encoded(&first)).unwrap();
    assert_eq!(got, 10);
    assert!(pending.responded());
    assert!(pending.complete(pot::to_vec(&result)).is_none());
    assert!(pending.complete::<()>(Err(())).is_none());
}

#[test]
fn async_call_with_failed_encoding_answers_server_error() {
    let reg = registry(&[("fetch", true)]);
    let start = begin_async(&reg, "fetch", &[], |_: usize, _: &[u8]| Ok::<(), ()>(()));
    let mut pending = match start {
        AsyncStart::Spawn { pending, .. } => pending,
        AsyncStart::Respond(_) => panic!("answered at once"),
    };
    let r = pending.complete::<()>(Err(())).unwrap();
    assert_eq!(r.status.code(), 500);
    assert!(pending.complete(Ok::<Vec<u8>, ()>(vec![])).is_none());
}

#[test]
fn async_corrupt_body_is_answered_at_once() {
    let reg = registry(&[("fetch", true)]);
    match begin_async(&reg, "/fetch", &[0xff], |_: usize, b: &[u8]| pot::from_slice::<(i64,)>(b)) {
        AsyncStart::Respond(r) => {
            assert_eq!(r.status.code(), 400);
            assert_eq!(diagnostic(&r), "Bad request: failed to deserialize `fetch::Args`.");
        }
        AsyncStart::Spawn { .. } => panic!("spawned"),
    }
}

#[test]
fn handler_responses() {
    let r = handle_unknown_command("x");
    assert_eq!(r.status, Status::BadRequest);
    assert_eq!(diagnostic(&r), "Unknown `tauriless` command: command not found: `x`.");
    let r = handle_deserialization_error("do_stuff");
    assert_eq!(r.status.code(), 400);
    assert_eq!(diagnostic(&r), "Bad request: failed to deserialize `do_stuff::Args`.");
    let r = handle_serialization_error("do_stuff");
    assert_eq!(r.status.code(), 500);
    assert_eq!(r.allow_origin, "*");
    assert_eq!(diagnostic(&r), "Internal server error: failed to serialize the response of `do_stuff`.");
    let r = respond_ok(vec![9]);
    assert_eq!(r.status.code(), 200);
    assert_eq!(encoded(&r), &[9u8][..]);
}

#[test]
fn typed_values_round_trip_through_the_router() {
    let reg = registry(&[("echo", false)]);
    let value: (i32, String, Vec<u8>, Option<bool>) = (-7, "héllo".to_string(), vec![0, 255], Some(true));
    let body = pot::to_vec(&value).unwrap();
    let r = handle_sync(
        &reg,
        "/echo",
        &body,
        |_: usize, b: &[u8]| pot::from_slice::<(i32, String, Vec<u8>, Option<bool>)>(b),
        |_: usize, a: (i32, String, Vec<u8>, Option<bool>)| a,
        |_: usize, v: (i32, String, Vec<u8>, Option<bool>)| pot::to_vec(&v),
    );
    let back: (i32, String, Vec<u8>, Option<bool>) = pot::from_slice(encoded(&r)).unwrap();
    assert_eq!(back, value);
}
