//! Wire names of commands and the URLs under which they are invoked.

use vstd::prelude::*;

verus! {

/// The custom protocol (and host token) of the synchronous channel.
pub const TAURILESS_PROTOCOL: &'static str = "tauiriless";

/// The custom protocol (and host token) of the asynchronous channel.
pub const TAURILESS_ASYNC_PROTOCOL: &'static str = "tauiriless-async";

/// A character of a command name as it appears on the wire: URLs use a dash
/// where an identifier uses an underscore.
pub open spec fn url_char(c: char) -> char {
    if c == '_' {
        '-'
    } else {
        c
    }
}

/// The url-name of a command: its name with every underscore replaced by a dash.
pub open spec fn url_name_of(name: Seq<char>) -> Seq<char> {
    name.map_values(|c: char| url_char(c))
}

/// A command name that can stand as a Rust identifier holds no dash.
pub open spec fn is_dashless(name: Seq<char>) -> bool {
    forall|i: int| 0 <= i < name.len() ==> name[i] != '-'
}

/// The URL of a command on the channel named by `proto`.
pub open spec fn url_of(proto: Seq<char>, name: Seq<char>) -> Seq<char> {
    "http://"@ + proto + ".localhost/"@ + url_name_of(name)
}

/// Relies on `String::push`: the character is appended at the end.
#[verifier::external_body]
pub(crate) fn push_char(s: &mut String, c: char)
    ensures
        final(s)@ == old(s)@.push(c),
{
    s.push(c)
}

/// Derives the url-name of a command from its name.
pub fn url_name(cmd_name: &str) -> (r: String)
    ensures
        r@ == url_name_of(cmd_name@),
{
    let n = cmd_name.unicode_len();
    let mut r = String::new();
    let mut i: usize = 0;
    while i < n
        invariant
            n == cmd_name@.len(),
            i <= n,
            r@ == url_name_of(cmd_name@.subrange(0, i as int)),
        decreases n - i,
    {
        let c = cmd_name.get_char(i);
        let d = if c == '_' {
            '-'
        } else {
            c
        };
        push_char(&mut r, d);
        i = i + 1;
        assert(url_name_of(cmd_name@.subrange(0, i as int)) =~= url_name_of(
            cmd_name@.subrange(0, i - 1),
        ).push(d));
    }
    assert(cmd_name@.subrange(0, n as int) =~= cmd_name@);
    r
}

fn url_for(proto: &str, cmd_name: &str) -> (r: String)
    ensures
        r@ == url_of(proto@, cmd_name@),
{
    let mut r = String::from_str("http://");
    r.append(proto);
    r.append(".localhost/");
    let name = url_name(cmd_name);
    r.append(name.as_str());
    r
}

/// Converts a command name to the URL of its invocation on the synchronous
/// channel. Underscores in the name become dashes, as URLs require.
pub fn command_to_url(cmd_name: &str) -> (r: String)
    ensures
        r@ == url_of(TAURILESS_PROTOCOL@, cmd_name@),
{
    url_for(TAURILESS_PROTOCOL, cmd_name)
}

/// Converts a command name to the URL of its invocation on the asynchronous
/// channel.
pub fn command_to_async_url(cmd_name: &str) -> (r: String)
    ensures
        r@ == url_of(TAURILESS_ASYNC_PROTOCOL@, cmd_name@),
{
    url_for(TAURILESS_ASYNC_PROTOCOL, cmd_name)
}

/// Url-name derivation loses nothing on names without dashes, which every
/// identifier is: two such names with the same url-name are the same name.
pub proof fn lemma_url_name_injective(a: Seq<char>, b: Seq<char>)
    requires
        is_dashless(a),
        is_dashless(b),
        url_name_of(a) == url_name_of(b),
    ensures
        a == b,
{
    assert(a.len() == url_name_of(a).len());
    assert(b.len() == url_name_of(b).len());
    assert forall|i: int| 0 <= i < a.len() implies a[i] == b[i] by {
        assert(url_name_of(a)[i] == url_char(a[i]));
        assert(url_name_of(b)[i] == url_char(b[i]));
    }
    assert(a =~= b);
}

} // verus!
