//! The calling side of the bridge: where a call is sent, what it carries, and
//! how its deferred value settles from the response.

use vstd::prelude::*;

use crate::envelope::{
    DecodeError, EncodeError, decode_dynamic, encode_dynamic, pot_accepts, pot_bounded,
};
use crate::registry::Channel;
use crate::url::{
    TAURILESS_ASYNC_PROTOCOL, TAURILESS_PROTOCOL, command_to_async_url, command_to_url, url_of,
};

verus! {

/// The protocol token of a channel.
pub open spec fn protocol_of(channel: Channel) -> Seq<char> {
    match channel {
        Channel::Sync => TAURILESS_PROTOCOL@,
        Channel::Async => TAURILESS_ASYNC_PROTOCOL@,
    }
}

/// The URL to which a call of `cmd_name` on `channel` is posted.
pub fn invocation_url(channel: Channel, cmd_name: &str) -> (r: String)
    ensures
        r@ == url_of(protocol_of(channel), cmd_name@),
{
    match channel {
        Channel::Sync => command_to_url(cmd_name),
        Channel::Async => command_to_async_url(cmd_name),
    }
}

/// A call ready to be posted: its target and its encoded arguments.
#[derive(Debug)]
pub struct Invocation {
    pub url: String,
    pub body: Vec<u8>,
}

/// Prepares a call of `cmd_name` on `channel` with the given arguments: the
/// URL of the command on that channel and the envelope bytes of the
/// arguments, which Pot reads back.
pub fn prepare_invocation(channel: Channel, cmd_name: &str, args: &pot::OwnedValue) -> (r: Result<
    Invocation,
    EncodeError,
>)
    ensures
        r is Ok,
        r matches Ok(inv) ==> {
            &&& inv.url@ == url_of(protocol_of(channel), cmd_name@)
            &&& inv.body@.len() >= 4
            &&& pot_accepts(inv.body@)
        },
{
    let body = encode_dynamic(args)?;
    Ok(Invocation { url: invocation_url(channel, cmd_name), body })
}

/// Why a call was rejected on the calling side.
#[derive(Debug)]
pub enum Rejection {
    /// The router answered with another status than success; its body is
    /// passed on as it came, without being read.
    Diagnostic(Vec<u8>),
    /// The router answered with success but its body does not decode to an
    /// envelope value.
    Undecodable(DecodeError),
}

/// How the deferred value of a call settles.
#[derive(Debug)]
pub enum Settlement {
    Resolve(pot::OwnedValue),
    Reject(Rejection),
}

/// The status code of a successful response.
pub const STATUS_OK: u16 = 200;

/// Settles a call from the status and body of its response: a successful
/// response resolves to the value its body encodes when that body decodes,
/// any other rejects with the body as it came.
pub fn settle(status: u16, body: Vec<u8>) -> (r: Settlement)
    ensures
        status != STATUS_OK ==> (r matches Settlement::Reject(Rejection::Diagnostic(b)) && b@
            == body@),
        status == STATUS_OK ==> (r is Resolve <==> pot_bounded(body@) && pot_accepts(body@)),
        status == STATUS_OK && !(pot_bounded(body@) && pot_accepts(body@)) ==> (r matches Settlement::Reject(
            Rejection::Undecodable(_),
        )),
{
    if status != STATUS_OK {
        return Settlement::Reject(Rejection::Diagnostic(body));
    }
    match decode_dynamic(body.as_slice()) {
        Ok(v) => Settlement::Resolve(v),
        Err(e) => Settlement::Reject(Rejection::Undecodable(e)),
    }
}

} // verus!
