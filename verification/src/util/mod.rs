//! Common utilities used across the framework.

pub mod clock;
pub mod config;
pub mod context;
pub mod duration;
pub mod parse;
pub mod text;
pub mod request_id;

pub use config::{AdapterConfig, ClientConfig, ServerConfig};
pub use context::Context;
pub use request_id::gen_request_id;

use vstd::prelude::*;
use vstd::string::StringSliceAdditionalSpecFns;

use crate::endpoint::{Endpoint, EndpointView};
use crate::util::parse::{
    byte_views, decimal_value, find_byte, index_of, is_bytes, parse_decimal, parts_from,
    split_on, split_tokens, text_of, to_text, tokens_of, trim, trimmed,
};
use crate::util::text::{eq_ignore_case, same_ignoring_case};

verus! {

/// The signed byte with the bit pattern of an unsigned byte.
pub open spec fn as_signed(b: u8) -> i8 {
    if b >= 128 {
        (b - 256) as i8
    } else {
        b as i8
    }
}

/// The unsigned byte with the bit pattern of a signed byte.
pub open spec fn as_unsigned(b: i8) -> u8 {
    if b < 0 {
        (b + 256) as u8
    } else {
        b as u8
    }
}

/// Bytes as signed bytes, bit pattern by bit pattern.
pub fn bytes_to_int8_slice(data: &[u8]) -> (r: Vec<i8>)
    ensures
        r@.len() == data@.len(),
        forall|i: int| 0 <= i < data@.len() ==> r@[i] == as_signed(data@[i]),
{
    let mut out: Vec<i8> = Vec::new();
    let mut i: usize = 0;
    while i < data.len()
        invariant
            0 <= i <= data@.len(),
            out@.len() == i,
            forall|j: int| 0 <= j < i ==> out@[j] == as_signed(data@[j]),
        decreases data@.len() - i,
    {
        let b: u8 = data[i];
        let v: i8 = if b >= 128 {
            (b as i16 - 256) as i8
        } else {
            b as i8
        };
        out.push(v);
        i = i + 1;
    }
    out
}

/// Signed bytes as bytes, bit pattern by bit pattern.
pub fn int8_slice_to_bytes(data: &[i8]) -> (r: Vec<u8>)
    ensures
        r@.len() == data@.len(),
        forall|i: int| 0 <= i < data@.len() ==> r@[i] == as_unsigned(data@[i]),
{
    let mut out: Vec<u8> = Vec::new();
    let mut i: usize = 0;
    while i < data.len()
        invariant
            0 <= i <= data@.len(),
            out@.len() == i,
            forall|j: int| 0 <= j < i ==> out@[j] == as_unsigned(data@[j]),
        decreases data@.len() - i,
    {
        let b: i8 = data[i];
        let v: u8 = if b < 0 {
            (b as i16 + 256) as u8
        } else {
            b as u8
        };
        out.push(v);
        i = i + 1;
    }
    out
}

/// Bytes that went to signed bytes and back are the bytes they were.
pub proof fn law_int8_roundtrip(b: u8)
    ensures
        as_unsigned(as_signed(b)) == b,
{
}

/// What the flags of an endpoint string say.
pub struct Flags {
    /// The bytes behind `-h`; empty where there is none
    pub host: Seq<u8>,
    /// The number behind `-p`; 0 where there is none or it is no port
    pub port: int,
    /// The number behind `-t`; 3000 where there is none or it is no number
    pub timeout: int,
}

/// The flags of the tokens from `i` on, read on from `f`: `-h`, `-p` and
/// `-t` each take the token behind them, a later one replacing an earlier;
/// every other token is passed over, and so is a flag that stands last.
pub open spec fn scan_flags(tokens: Seq<Seq<u8>>, i: int, f: Flags) -> Flags
    decreases tokens.len() - i,
{
    if i < 0 || i >= tokens.len() {
        f
    } else if i + 1 < tokens.len() && tokens[i] == "-h".spec_bytes() {
        scan_flags(tokens, i + 2, Flags { host: tokens[i + 1], ..f })
    } else if i + 1 < tokens.len() && tokens[i] == "-p".spec_bytes() {
        scan_flags(
            tokens,
            i + 2,
            Flags {
                port: match decimal_value(tokens[i + 1], 65535) {
                    Some(p) => p,
                    None => 0,
                },
                ..f
            },
        )
    } else if i + 1 < tokens.len() && tokens[i] == "-t".spec_bytes() {
        scan_flags(
            tokens,
            i + 2,
            Flags {
                timeout: match decimal_value(tokens[i + 1], u64::MAX as int) {
                    Some(t) => t,
                    None => 3000,
                },
                ..f
            },
        )
    } else {
        scan_flags(tokens, i + 1, f)
    }
}

/// The transport that the first token of an endpoint string names, without
/// regard to the case of ASCII letters.
pub open spec fn transport_of(token: Seq<u8>) -> Option<i32> {
    if same_ignoring_case(token, "tcp".spec_bytes()) {
        Some(1i32)
    } else if same_ignoring_case(token, "udp".spec_bytes()) {
        Some(0i32)
    } else if same_ignoring_case(token, "ssl".spec_bytes()) {
        Some(2i32)
    } else {
        None
    }
}

/// The endpoint that an endpoint string such as
/// "tcp -h 127.0.0.1 -p 10000 -t 3000" describes: none where the string is
/// empty, names no transport, or gives no host or no port.
pub open spec fn spec_parse_endpoint(s: Seq<u8>) -> Option<EndpointView> {
    let tokens = tokens_of(s);
    if tokens.len() == 0 {
        None
    } else {
        match transport_of(tokens[0]) {
            None => None,
            Some(istcp) => {
                let f = scan_flags(tokens, 1, Flags { host: Seq::empty(), port: 0, timeout: 3000 });
                if f.host.len() == 0 || f.port == 0 {
                    None
                } else {
                    match text_of(f.host) {
                        None => None,
                        Some(host) => Some(
                            EndpointView {
                                host,
                                port: f.port as u16,
                                timeout: f.timeout as u64,
                                istcp,
                                grid: 0,
                                qos: 0,
                                weight: 0,
                                weight_type: 0,
                                auth_type: 0,
                                set_id: Seq::empty(),
                            },
                        ),
                    }
                }
            },
        }
    }
}

/// Parses the bytes of an endpoint string.
pub fn parse_endpoint_bytes(s: &[u8]) -> (r: Option<Endpoint>)
    ensures
        match spec_parse_endpoint(s@) {
            Some(v) => r is Some && r->0@ == v,
            None => r is None,
        },
{
    let parts = split_tokens(s);
    if parts.len() == 0 {
        return None;
    }
    let ghost tokens = tokens_of(s@);
    assert(tokens[0] == parts@[0]@);
    let first = parts[0].as_slice();
    let istcp: i32 = if eq_ignore_case(first, "tcp".as_bytes()) {
        1
    } else if eq_ignore_case(first, "udp".as_bytes()) {
        0
    } else if eq_ignore_case(first, "ssl".as_bytes()) {
        2
    } else {
        return None;
    };
    let mut host: Vec<u8> = Vec::new();
    let mut port: u16 = 0;
    let mut timeout: u64 = 3000;
    let mut i: usize = 1;
    while i < parts.len()
        invariant
            1 <= i <= parts@.len() + 1,
            tokens == byte_views(parts@),
            scan_flags(tokens, 1, Flags { host: Seq::empty(), port: 0, timeout: 3000 })
                == scan_flags(
                tokens,
                i as int,
                Flags { host: host@, port: port as int, timeout: timeout as int },
            ),
        decreases parts@.len() + 1 - i,
    {
        assert(tokens[i as int] == parts@[i as int]@);
        if i + 1 < parts.len() {
            assert(tokens[i as int + 1] == parts@[i as int + 1]@);
        }
        if i + 1 < parts.len() && is_bytes(&parts[i], "-h") {
            host = parts[i + 1].clone();
            i = i + 2;
        } else if i + 1 < parts.len() && is_bytes(&parts[i], "-p") {
            port = match parse_decimal(parts[i + 1].as_slice(), 65535) {
                Some(p) => p as u16,
                None => 0,
            };
            i = i + 2;
        } else if i + 1 < parts.len() && is_bytes(&parts[i], "-t") {
            timeout = match parse_decimal(parts[i + 1].as_slice(), u64::MAX) {
                Some(t) => t,
                None => 3000,
            };
            i = i + 2;
        } else {
            i = i + 1;
        }
    }
    if host.len() == 0 || port == 0 {
        return None;
    }
    let host_text = match to_text(&host) {
        Some(t) => t,
        None => {
            return None;
        },
    };
    Some(
        Endpoint {
            host: host_text,
            port,
            timeout,
            istcp,
            grid: 0,
            qos: 0,
            weight: 0,
            weight_type: 0,
            auth_type: 0,
            set_id: String::new(),
        },
    )
}

/// Parses an endpoint string such as "tcp -h 127.0.0.1 -p 10000 -t 3000".
/// Tokens are separated by white space; unknown tokens are passed over.
pub fn parse_endpoint_string(s: &str) -> (r: Option<Endpoint>)
    ensures
        match spec_parse_endpoint(s.spec_bytes()) {
            Some(v) => r is Some && r->0@ == v,
            None => r is None,
        },
{
    parse_endpoint_bytes(s.as_bytes())
}

/// The endpoints that the parts of a list describe, in their order; a part
/// that describes none is left out.
pub open spec fn endpoints_of(parts: Seq<Seq<u8>>) -> Seq<EndpointView>
    decreases parts.len(),
{
    if parts.len() == 0 {
        Seq::empty()
    } else {
        match spec_parse_endpoint(trimmed(parts.last())) {
            Some(v) => endpoints_of(parts.drop_last()).push(v),
            None => endpoints_of(parts.drop_last()),
        }
    }
}

/// The name part of an object name: what stands before the first `@`.
pub open spec fn name_bytes(s: Seq<u8>) -> Seq<u8> {
    s.subrange(0, find_byte(s, 64, 0))
}

/// The endpoints of an object name: the endpoint strings behind the first
/// `@`, separated by `:`; none where there is no `@`.
pub open spec fn spec_obj_endpoints(s: Seq<u8>) -> Seq<EndpointView> {
    if find_byte(s, 64, 0) >= s.len() {
        Seq::empty()
    } else {
        endpoints_of(parts_from(s.subrange(find_byte(s, 64, 0) + 1, s.len() as int), 58, 0))
    }
}

/// Parses an object name with endpoints: "App.Server.Obj" or
/// "App.Server.Obj@tcp -h 127.0.0.1 -p 10000:tcp -h 127.0.0.1 -p 10001".
/// Returns the name and the endpoints.
pub fn parse_obj_name(obj_name: &str) -> (r: (String, Vec<Endpoint>))
    ensures
        match text_of(name_bytes(obj_name.spec_bytes())) {
            Some(name) => r.0@ == name,
            None => r.0@ == obj_name@,
        },
        crate::selector::nodes::views(r.1@) == spec_obj_endpoints(obj_name.spec_bytes()),
{
    let bytes = obj_name.as_bytes();
    let at = index_of(bytes, 64, 0);
    let name_part = vstd::slice::slice_to_vec(vstd::slice::slice_subrange(bytes, 0, at));
    let name = match to_text(&name_part) {
        Some(t) => t,
        None => obj_name.to_owned(),
    };
    let mut endpoints: Vec<Endpoint> = Vec::new();
    if at >= bytes.len() {
        assert(crate::selector::nodes::views(endpoints@) =~= Seq::<EndpointView>::empty());
        return (name, endpoints);
    }
    let rest = vstd::slice::slice_subrange(bytes, at + 1, bytes.len());
    let parts = split_on(rest, 58);
    let ghost all = byte_views(parts@);
    let mut i: usize = 0;
    assert(all.take(0) =~= Seq::<Seq<u8>>::empty());
    assert(crate::selector::nodes::views(endpoints@) =~= Seq::<EndpointView>::empty());
    while i < parts.len()
        invariant
            0 <= i <= parts@.len(),
            all == byte_views(parts@),
            crate::selector::nodes::views(endpoints@) == endpoints_of(all.take(i as int)),
        decreases parts@.len() - i,
    {
        proof {
            assert(all.take(i as int + 1).drop_last() =~= all.take(i as int));
            assert(all.take(i as int + 1).last() == parts@[i as int]@);
        }
        let ghost before = crate::selector::nodes::views(endpoints@);
        let piece = trim(parts[i].as_slice());
        match parse_endpoint_bytes(piece.as_slice()) {
            Some(ep) => {
                endpoints.push(ep);
                assert(crate::selector::nodes::views(endpoints@) =~= before.push(ep@));
            },
            None => {},
        }
        i = i + 1;
    }
    assert(all.take(parts@.len() as int) =~= all);
    (name, endpoints)
}

} // verus!
