//! The server name that a TLS handshake asks for.

use tokio_rustls::rustls::pki_types::ServerName;
use vstd::prelude::*;
use vstd::string::StringSliceAdditionalSpecFns;

use super::framing::host_of;
use crate::codec::raw::string_from_utf8;
use crate::error::TarsError;
use crate::util::parse::{find_byte, text_of};
use crate::util::text::concat3;

verus! {

/// `rustls::pki_types::ServerName`: the name of a server as a TLS handshake
/// takes it, carried as it is.
#[verifier::external_type_specification]
#[verifier::external_body]
pub struct ExServerName<'a>(ServerName<'a>);

/// Whether `rustls` reads a text as the name of a server: a DNS name or an
/// IP address.
pub uninterp spec fn names_server(host: Seq<char>) -> bool;

/// `ServerName::try_from` on a `String`: the server name that the text
/// spells, or the words of the refusal where it spells none.
#[verifier::external_body]
fn server_name_from(host: String) -> (r: Result<ServerName<'static>, String>)
    ensures
        r is Ok <==> names_server(host@),
{
    ServerName::try_from(host).map_err(|e| e.to_string())
}

/// The host of an address "host:port" as text: what stands before the first
/// colon.
pub open spec fn host_text(addr: Seq<char>) -> Option<Seq<char>> {
    let bytes = vstd::utf8::encode_utf8(addr);
    text_of(bytes.subrange(0, find_byte(bytes, 58, 0)))
}

/// The server name for an address "host:port" or "host": the host as
/// `rustls` reads it. A host that it does not read as a server name is a
/// configuration error.
pub fn parse_server_name(addr: &str) -> (r: Result<ServerName<'static>, TarsError>)
    ensures
        r is Ok <==> host_text(addr@) is Some && names_server(host_text(addr@)->0),
        r is Err ==> r->Err_0 is Config,
{
    let host = match string_from_utf8(host_of(addr)) {
        Some(host) => host,
        None => {
            return Err(TarsError::Config("Invalid server name".to_owned()));
        },
    };
    let shown = host.clone();
    match server_name_from(host) {
        Ok(name) => Ok(name),
        Err(why) => Err(
            TarsError::Config(
                concat3(
                    concat3("Invalid server name '", shown.as_str(), "'").as_str(),
                    ": ",
                    why.as_str(),
                ),
            ),
        ),
    }
}

} // verus!
