//! The handshake options that the client sends in `CONNECT`, as JSON.
//!
//! The object is `{"verbose":..,"pedantic":..}`, with `"user"` and `"pass"`
//! added where the server asks for credentials. The two strings are encoded
//! by rustc_serialize's JSON encoder.
use vstd::prelude::*;
use crate::wire::append_bytes;

verus! {

/// What the client uses of the server's `INFO` banner.
#[derive(Debug, Clone, Copy, PartialEq, Eq, Structural)]
pub struct ServerInfo {
    pub auth_required: bool,
    pub tls_required: bool,
}

/// The user name and password sent where the server asks for them.
#[derive(Debug, Clone)]
pub struct Credentials {
    pub user: String,
    pub pass: String,
}

/// The UTF-8 bytes of the JSON string literal that rustc_serialize writes for `s`.
pub uninterp spec fn json_string(s: Seq<char>) -> Seq<u8>;

/// Relies on `rustc_serialize::json::encode` applied to a `&str`: it writes the
/// string as a JSON string literal, which depends on the string alone. The
/// encoder reports an error where its writer fails.
#[verifier::external_body]
fn encode_json_string(s: &str) -> (r: Option<Vec<u8>>)
    ensures
        r is Some ==> r->0@ == json_string(s@),
{
    rustc_serialize::json::encode(&s).ok().map(|t| t.into_bytes())
}

/// `{"verbose":`
pub open spec fn verbose_key() -> Seq<u8> {
    seq![123u8, 34u8, 118u8, 101u8, 114u8, 98u8, 111u8, 115u8, 101u8, 34u8, 58u8]
}

/// `,"pedantic":`
pub open spec fn pedantic_key() -> Seq<u8> {
    seq![44u8, 34u8, 112u8, 101u8, 100u8, 97u8, 110u8, 116u8, 105u8, 99u8, 34u8, 58u8]
}

/// `,"user":`
pub open spec fn user_key() -> Seq<u8> {
    seq![44u8, 34u8, 117u8, 115u8, 101u8, 114u8, 34u8, 58u8]
}

/// `,"pass":`
pub open spec fn pass_key() -> Seq<u8> {
    seq![44u8, 34u8, 112u8, 97u8, 115u8, 115u8, 34u8, 58u8]
}

/// `}`
pub open spec fn close_brace() -> Seq<u8> {
    seq![125u8]
}

/// `true`
pub open spec fn true_text() -> Seq<u8> {
    seq![116u8, 114u8, 117u8, 101u8]
}

/// `false`
pub open spec fn false_text() -> Seq<u8> {
    seq![102u8, 97u8, 108u8, 115u8, 101u8]
}

pub open spec fn bool_text(b: bool) -> Seq<u8> {
    if b {
        true_text()
    } else {
        false_text()
    }
}

/// The `CONNECT` options object; `credentials` holds the user name and
/// password already encoded as JSON strings.
pub open spec fn options_json(
    verbose: bool,
    pedantic: bool,
    credentials: Option<(Seq<u8>, Seq<u8>)>,
) -> Seq<u8> {
    let creds = match credentials {
        Some(c) => user_key() + c.0 + pass_key() + c.1,
        None => Seq::empty(),
    };
    verbose_key() + bool_text(verbose) + pedantic_key() + bool_text(pedantic) + creds
        + close_brace()
}

pub open spec fn pair_view(c: Option<(Vec<u8>, Vec<u8>)>) -> Option<(Seq<u8>, Seq<u8>)> {
    match c {
        Some(c) => Some((c.0@, c.1@)),
        None => None,
    }
}

fn push_bool(out: &mut Vec<u8>, b: bool)
    ensures
        final(out)@ == old(out)@ + bool_text(b),
{
    if b {
        append_bytes(out, &[116u8, 114u8, 117u8, 101u8]);
        assert(true_text() =~= seq![116u8, 114u8, 117u8, 101u8]);
    } else {
        append_bytes(out, &[102u8, 97u8, 108u8, 115u8, 101u8]);
        assert(false_text() =~= seq![102u8, 97u8, 108u8, 115u8, 101u8]);
    }
}

/// The `CONNECT` options object for encoded credentials (see `options_json`).
pub fn connect_options(
    verbose: bool,
    pedantic: bool,
    credentials: Option<(Vec<u8>, Vec<u8>)>,
) -> (r: Vec<u8>)
    ensures
        r@ == options_json(verbose, pedantic, pair_view(credentials)),
{
    let ghost creds = pair_view(credentials);
    let mut out: Vec<u8> = Vec::new();
    // {"verbose":
    append_bytes(&mut out, &[123u8, 34u8, 118u8, 101u8, 114u8, 98u8, 111u8, 115u8, 101u8, 34u8, 58u8]);
    assert(out@ =~= verbose_key());
    push_bool(&mut out, verbose);
    // ,"pedantic":
    append_bytes(&mut out, &[44u8, 34u8, 112u8, 101u8, 100u8, 97u8, 110u8, 116u8, 105u8, 99u8, 34u8, 58u8]);
    push_bool(&mut out, pedantic);
    let ghost head = verbose_key() + bool_text(verbose) + pedantic_key() + bool_text(pedantic);
    assert(out@ =~= head);
    match &credentials {
        Some((user, pass)) => {
            // ,"user":
            append_bytes(&mut out, &[44u8, 34u8, 117u8, 115u8, 101u8, 114u8, 34u8, 58u8]);
            append_bytes(&mut out, user.as_slice());
            // ,"pass":
            append_bytes(&mut out, &[44u8, 34u8, 112u8, 97u8, 115u8, 115u8, 34u8, 58u8]);
            append_bytes(&mut out, pass.as_slice());
            assert(out@ =~= head + (user_key() + user@ + pass_key() + pass@));
        },
        None => {
            assert(out@ =~= head + Seq::<u8>::empty());
        },
    }
    out.push(125u8);
    assert(out@ =~= options_json(verbose, pedantic, creds));
    out
}

/// The `CONNECT` options for a server banner: credentials go along where the
/// server asks for them, each encoded as a JSON string. Where credentials are
/// asked for, `Ok(None)` says that none were given, and `Err(())` that the
/// encoder failed.
pub fn handshake_options(
    verbose: bool,
    pedantic: bool,
    info: &ServerInfo,
    credentials: &Option<Credentials>,
) -> (r: Result<Option<Vec<u8>>, ()>)
    ensures
        !info.auth_required ==> (r matches Ok(Some(o)) && o@ == options_json(verbose, pedantic, None)),
        info.auth_required && credentials is None ==> (r matches Ok(None)),
        info.auth_required && credentials is Some ==> (r matches Ok(Some(o)) ==> o@ == options_json(
            verbose,
            pedantic,
            Some(
                (
                    json_string(credentials->0.user@),
                    json_string(credentials->0.pass@),
                ),
            ),
        )),
        info.auth_required && credentials is Some ==> (r is Err || r matches Ok(Some(_))),
{
    if !info.auth_required {
        return Ok(Some(connect_options(verbose, pedantic, None)));
    }
    match credentials {
        None => Ok(None),
        Some(c) => {
            let user = encode_json_string(c.user.as_str());
            let pass = encode_json_string(c.pass.as_str());
            match (user, pass) {
                (Some(u), Some(p)) => Ok(Some(connect_options(verbose, pedantic, Some((u, p))))),
                _ => Err(()),
            }
        },
    }
}

} // verus!
