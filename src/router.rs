//! The protocol router: resolves a request to a command, hands its body to the
//! argument decoder, runs the command and turns its encoded result into the
//! response.

use vstd::prelude::*;

use crate::registry::{
    Channel, DescriptorView, Registry, descriptor_wf, registry_wf, serves, strip_slashes,
    url_name_of_path,
};
use crate::url::{url_char, url_name_of};
use crate::response::{
    Response, ResponseView, Status, bad_args_response, bad_args_text, unknown_command_text, bad_result_response, ok_response,
    unknown_command_response, handle_deserialization_error, handle_serialization_error,
    handle_unknown_command, respond_ok,
};

verus! {

/// The command that serves `url_name` on `channel`, if one does.
pub open spec fn resolve(ds: Seq<DescriptorView>, channel: Channel, url_name: Seq<char>) -> Option<int> {
    if exists|i: int| 0 <= i < ds.len() && serves(ds[i], channel, url_name) {
        Some(choose|i: int| 0 <= i < ds.len() && serves(ds[i], channel, url_name))
    } else {
        None
    }
}

/// The response for the command `ds[command]` once its result went through
/// the encoder.
pub open spec fn encoded_response(ds: Seq<DescriptorView>, command: int, encoded: Option<Seq<u8>>) -> ResponseView {
    match encoded {
        Some(b) => ok_response(b),
        None => bad_result_response(ds[command].name),
    }
}

/// What an encoder handed back, as a value.
pub open spec fn encoded_view<E>(encoded: Result<Vec<u8>, E>) -> Option<Seq<u8>> {
    match encoded {
        Ok(b) => Some(b@),
        Err(_) => None,
    }
}

/// In a well-formed registry at most one command serves a url-name on a
/// channel, so the one that `resolve` picks is the one there is.
pub proof fn lemma_resolve_unique(ds: Seq<DescriptorView>, channel: Channel, url_name: Seq<char>, i: int)
    requires
        registry_wf(ds),
        0 <= i < ds.len(),
        serves(ds[i], channel, url_name),
    ensures
        resolve(ds, channel, url_name) == Some(i),
{
    let j = choose|j: int| 0 <= j < ds.len() && serves(ds[j], channel, url_name);
    if i != j {
        if i < j {
            assert(ds[i].url_name == ds[j].url_name);
        } else {
            assert(ds[j].url_name == ds[i].url_name);
        }
    }
}

/// Resolves the request path on a channel: the index of the command, or the
/// unknown-command response.
pub fn route(reg: &Registry, channel: Channel, path: &str) -> (r: Result<usize, Response>)
    requires
        reg.wf(),
    ensures
        match r {
            Ok(i) => resolve(reg@, channel, strip_slashes(path@)) == Some(i as int),
            Err(resp) => resolve(reg@, channel, strip_slashes(path@)) is None
                && resp@ == unknown_command_response(strip_slashes(path@)),
        },
{
    match reg.lookup(channel, path) {
        Some(i) => {
            proof {
                lemma_resolve_unique(reg@, channel, strip_slashes(path@), i as int);
            }
            Ok(i)
        },
        None => {
            let url_name = url_name_of_path(path);
            Err(handle_unknown_command(url_name))
        },
    }
}

/// The response for the command at `command` given what the encoder made of
/// its result.
pub fn respond_with<E>(reg: &Registry, command: usize, encoded: Result<Vec<u8>, E>) -> (r: Response)
    requires
        command < reg@.len(),
    ensures
        r@ == encoded_response(reg@, command as int, encoded_view(encoded)),
{
    match encoded {
        Ok(b) => respond_ok(b),
        Err(_) => handle_serialization_error(reg.get(command).name()),
    }
}

/// Serves one request of the synchronous channel from start to finish:
/// resolves `path`, decodes `body` into the command's arguments with `decode`,
/// runs the command with `call` and encodes its result with `encode`.
pub fn handle_sync<A, R, E1, E2, D, C, N>(
    reg: &Registry,
    path: &str,
    body: &[u8],
    decode: D,
    call: C,
    encode: N,
) -> (r: Response) where
    D: Fn(usize, &[u8]) -> Result<A, E1>,
    C: Fn(usize, A) -> R,
    N: Fn(usize, R) -> Result<Vec<u8>, E2>,

    requires
        reg.wf(),
        forall|i: usize, b: &[u8]| decode.requires((i, b)),
        forall|i: usize, a: A| call.requires((i, a)),
        forall|i: usize, v: R| encode.requires((i, v)),
    ensures
        match resolve(reg@, Channel::Sync, strip_slashes(path@)) {
            None => r@ == unknown_command_response(strip_slashes(path@)),
            Some(i) => exists|d: Result<A, E1>|
                {
                    &&& #[trigger] decode.ensures((i as usize, body), d)
                    &&& match d {
                        Err(_) => r@ == bad_args_response(reg@[i].name),
                        Ok(a) => exists|v: R, e: Result<Vec<u8>, E2>|
                            {
                                &&& #[trigger] call.ensures((i as usize, a), v)
                                &&& #[trigger] encode.ensures((i as usize, v), e)
                                &&& r@ == encoded_response(reg@, i, encoded_view(e))
                            },
                    }
                },
        },
{
    let i = match route(reg, Channel::Sync, path) {
        Ok(i) => i,
        Err(resp) => {
            return resp;
        },
    };
    let d = decode(i, body);
    match d {
        Err(e1) => {
            let resp = handle_deserialization_error(reg.get(i).name());
            assert(decode.ensures((i, body), Err::<A, E1>(e1)));
            resp
        },
        Ok(a) => {
            let ghost a0 = a;
            let v = call(i, a);
            let ghost v0 = v;
            let e = encode(i, v);
            let ghost e0 = e;
            let resp = respond_with(reg, i, e);
            assert(call.ensures((i, a0), v0));
            assert(encode.ensures((i, v0), e0));
            assert(decode.ensures((i, body), Ok::<A, E1>(a0)));
            resp
        },
    }
}

/// The state of a call on the asynchronous channel whose command is running:
/// its responder is owed exactly one response.
#[derive(Debug)]
pub struct PendingCall {
    command: usize,
    name: String,
    responded: bool,
}

pub struct PendingView {
    pub command: nat,
    pub name: Seq<char>,
    pub responded: bool,
}

impl View for PendingCall {
    type V = PendingView;

    closed spec fn view(&self) -> PendingView {
        PendingView { command: self.command as nat, name: self.name@, responded: self.responded }
    }
}

/// One completion of a pending call: the first one answers with the encoded
/// result (or the encoding failure) and closes the call; any later one finds
/// the call closed and answers nothing.
pub open spec fn complete_step(p: PendingView, encoded: Option<Seq<u8>>) -> (PendingView, Option<ResponseView>) {
    if p.responded {
        (p, None)
    } else {
        (
            PendingView { responded: true, ..p },
            Some(
                match encoded {
                    Some(b) => ok_response(b),
                    None => bad_result_response(p.name),
                },
            ),
        )
    }
}

pub open spec fn response_view(r: Option<Response>) -> Option<ResponseView> {
    match r {
        Some(x) => Some(x@),
        None => None,
    }
}

impl PendingCall {
    /// The index of the running command.
    pub fn command(&self) -> (r: usize)
        ensures
            r as nat == self@.command,
    {
        self.command
    }

    /// Whether the responder has been answered.
    pub fn responded(&self) -> (r: bool)
        ensures
            r == self@.responded,
    {
        self.responded
    }

    /// Delivers the command's encoded result, once the command has finished.
    /// Returns the response for the responder the first time and nothing after.
    pub fn complete<E>(&mut self, encoded: Result<Vec<u8>, E>) -> (r: Option<Response>)
        ensures
            (final(self)@, response_view(r)) == complete_step(old(self)@, encoded_view(encoded)),
    {
        if self.responded {
            return None;
        }
        self.responded = true;
        match encoded {
            Ok(b) => Some(respond_ok(b)),
            Err(_) => Some(handle_serialization_error(self.name.as_str())),
        }
    }
}

/// How a request on the asynchronous channel starts: answered at once, or with
/// the command to run and the call that waits for its result.
pub enum AsyncStart<A> {
    Respond(Response),
    Spawn { command: usize, args: A, pending: PendingCall },
}

/// Starts serving one request of the asynchronous channel: resolves `path`
/// and decodes `body` into the command's arguments with `decode`. An unknown
/// command or arguments that do not decode are answered at once; otherwise
/// the command is to be run and its result handed to the pending call.
pub fn begin_async<A, E, D>(reg: &Registry, path: &str, body: &[u8], decode: D) -> (r: AsyncStart<A>) where
    D: Fn(usize, &[u8]) -> Result<A, E>,

    requires
        reg.wf(),
        forall|i: usize, b: &[u8]| decode.requires((i, b)),
    ensures
        match resolve(reg@, Channel::Async, strip_slashes(path@)) {
            None => r matches AsyncStart::Respond(resp)
                && resp@ == unknown_command_response(strip_slashes(path@)),
            Some(i) => exists|d: Result<A, E>|
                {
                    &&& #[trigger] decode.ensures((i as usize, body), d)
                    &&& match d {
                        Err(_) => r matches AsyncStart::Respond(resp)
                            && resp@ == bad_args_response(reg@[i].name),
                        Ok(a) => r matches AsyncStart::Spawn { command, args, pending }
                            && command == i && args == a
                            && pending@ == (PendingView { command: i as nat, name: reg@[i].name, responded: false }),
                    }
                },
        },
{
    let i = match route(reg, Channel::Async, path) {
        Ok(i) => i,
        Err(resp) => {
            return AsyncStart::Respond(resp);
        },
    };
    let d = decode(i, body);
    match d {
        Err(e) => {
            assert(decode.ensures((i, body), Err::<A, E>(e)));
            AsyncStart::Respond(handle_deserialization_error(reg.get(i).name()))
        },
        Ok(a) => {
            assert(decode.ensures((i, body), Ok::<A, E>(a)));
            let pending = PendingCall { command: i, name: String::from_str(reg.get(i).name()), responded: false };
            AsyncStart::Spawn { command: i, args: a, pending }
        },
    }
}

/// A pending call answers its responder exactly once: the first completion
/// yields a response, and every completion after it yields none.
pub proof fn lemma_responds_exactly_once(p: PendingView, first: Option<Seq<u8>>, later: Option<Seq<u8>>)
    requires
        !p.responded,
    ensures
        complete_step(p, first).1 is Some,
        complete_step(p, first).0.responded,
        complete_step(complete_step(p, first).0, later).1 is None,
        complete_step(complete_step(p, first).0, later).0 == complete_step(p, first).0,
{
}

/// A request for a url-name that no registered command has is, on either
/// channel, resolved to no command and answered with status 400 and a
/// diagnostic saying that the command was not found.
pub proof fn lemma_unregistered_is_rejected(reg: &Registry, path: Seq<char>)
    requires
        forall|i: int| 0 <= i < reg@.len() ==> reg@[i].url_name != strip_slashes(path),
    ensures
        resolve(reg@, Channel::Sync, strip_slashes(path)) is None,
        resolve(reg@, Channel::Async, strip_slashes(path)) is None,
        unknown_command_response(strip_slashes(path)).status == Status::BadRequest,
        unknown_command_response(strip_slashes(path)).status.spec_code() == 400,
        unknown_command_text(strip_slashes(path)).subrange(29, 46) == "command not found"@,
{
    reveal_strlit("Unknown `tauriless` command: command not found: `");
    reveal_strlit("command not found");
    let text = unknown_command_text(strip_slashes(path));
    assert(text.subrange(29, 46) =~= "command not found"@);
}

/// A request for a registered command whose body does not decode is answered
/// with status 400 and a diagnostic that names the command.
pub proof fn lemma_corrupt_body_names_command(reg: &Registry, channel: Channel, path: Seq<char>, i: int)
    requires
        reg.wf(),
        0 <= i < reg@.len(),
        serves(reg@[i], channel, strip_slashes(path)),
    ensures
        resolve(reg@, channel, strip_slashes(path)) == Some(i),
        bad_args_response(reg@[i].name).status.spec_code() == 400,
        ({
            let prefix = "Bad request: failed to deserialize `"@;
            bad_args_text(reg@[i].name).subrange(prefix.len() as int, (prefix.len() + reg@[i].name.len()) as int)
                == reg@[i].name
        }),
{
    lemma_resolve_unique(reg@, channel, strip_slashes(path), i);
    let prefix = "Bad request: failed to deserialize `"@;
    let name = reg@[i].name;
    assert(bad_args_text(name).subrange(prefix.len() as int, (prefix.len() + name.len()) as int) =~= name);
}

/// Url-names hold no underscore, so a path that still holds one (a command
/// name sent without the dash substitution) names no command on any channel.
pub proof fn lemma_underscored_path_is_unknown(reg: &Registry, channel: Channel, path: Seq<char>, k: int)
    requires
        reg.wf(),
        0 <= k < strip_slashes(path).len(),
        strip_slashes(path)[k] == '_',
    ensures
        resolve(reg@, channel, strip_slashes(path)) is None,
{
    let url_name = strip_slashes(path);
    if exists|i: int| 0 <= i < reg@.len() && serves(reg@[i], channel, url_name) {
        let i = choose|i: int| 0 <= i < reg@.len() && serves(reg@[i], channel, url_name);
        assert(descriptor_wf(reg@[i]));
        assert(url_name_of(reg@[i].name)[k] == url_char(reg@[i].name[k]));
    }
}

} // verus!
