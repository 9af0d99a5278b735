//! Locator strings: where the registry itself is found.
//!
//! A locator is `<obj-name>@<endpoint-spec>[:<endpoint-spec>]*`, each
//! endpoint-spec `<proto> -h <host> -p <port>`. The node addresses
//! "host:port" are read from it.

use vstd::prelude::*;
use vstd::slice::{slice_subrange, slice_to_vec};
use vstd::string::StringSliceAdditionalSpecFns;

use crate::util::text::texts;
use crate::util::parse::{
    byte_views, find_byte, index_of, is_bytes, split_tokens, text_of, to_text, tokens_of,
};

verus! {

/// Whether a new endpoint-spec starts at `i`: the bytes there are ":tcp",
/// ":udp" or ":ssl".
pub open spec fn is_cut(s: Seq<u8>, i: int) -> bool {
    &&& 0 <= i
    &&& i + 4 <= s.len()
    &&& s[i] == 58
    &&& ((s[i + 1] == 116 && s[i + 2] == 99 && s[i + 3] == 112) || (s[i + 1] == 117 && s[i + 2]
        == 100 && s[i + 3] == 112) || (s[i + 1] == 115 && s[i + 2] == 115 && s[i + 3] == 108))
}

/// The endpoint-specs of a list: what stands between the cuts; the four
/// bytes of a cut belong to no piece.
pub open spec fn pieces_from(s: Seq<u8>, start: int, i: int) -> Seq<Seq<u8>>
    decreases s.len() - i,
{
    if i < 0 || i >= s.len() || start < 0 || start > i {
        if 0 <= start <= s.len() {
            seq![s.subrange(start, s.len() as int)]
        } else {
            Seq::empty()
        }
    } else if is_cut(s, i) {
        seq![s.subrange(start, i)] + pieces_from(s, i + 4, i + 4)
    } else {
        pieces_from(s, start, i + 1)
    }
}

/// A token without the colons at its end.
pub open spec fn strip_colons(t: Seq<u8>) -> Seq<u8>
    decreases t.len(),
{
    if t.len() > 0 && t.last() == 58 {
        strip_colons(t.drop_last())
    } else {
        t
    }
}

/// The host and the port that the tokens from `i` on give, read on from
/// `host` and `port`: `-h` and `-p` each take the token behind them, a later
/// one replacing an earlier. With `strip`, colons at the end of a port are
/// left off.
pub open spec fn scan_host_port(
    tokens: Seq<Seq<u8>>,
    i: int,
    host: Seq<u8>,
    port: Seq<u8>,
    strip: bool,
) -> (Seq<u8>, Seq<u8>)
    decreases tokens.len() - i,
{
    if i < 0 || i >= tokens.len() {
        (host, port)
    } else if i + 1 < tokens.len() && tokens[i] == "-h".spec_bytes() {
        scan_host_port(tokens, i + 2, tokens[i + 1], port, strip)
    } else if i + 1 < tokens.len() && tokens[i] == "-p".spec_bytes() {
        scan_host_port(
            tokens,
            i + 2,
            host,
            if strip {
                strip_colons(tokens[i + 1])
            } else {
                tokens[i + 1]
            },
            strip,
        )
    } else {
        scan_host_port(tokens, i + 1, host, port, strip)
    }
}

/// The address "host:port" of a host and a port.
pub open spec fn joined_address(host: Seq<u8>, port: Seq<u8>) -> Option<Seq<char>> {
    text_of(host + seq![58u8] + port)
}

/// The node address that one endpoint-spec gives: none where it names no
/// host or no port.
pub open spec fn node_address(piece: Seq<u8>) -> Option<Seq<char>> {
    let found = scan_host_port(tokens_of(piece), 0, Seq::empty(), Seq::empty(), true);
    if found.0.len() == 0 || found.1.len() == 0 {
        None
    } else {
        joined_address(found.0, found.1)
    }
}

/// The node addresses of endpoint-specs, in their order.
pub open spec fn nodes_of(pieces: Seq<Seq<u8>>) -> Seq<Seq<char>>
    decreases pieces.len(),
{
    if pieces.len() == 0 {
        Seq::empty()
    } else {
        match node_address(pieces.last()) {
            Some(a) => nodes_of(pieces.drop_last()).push(a),
            None => nodes_of(pieces.drop_last()),
        }
    }
}

/// The one node address of a locator read in the simple way: the host and
/// the port between the first `@` and the next, "127.0.0.1" and "17890"
/// where they are not given; none for a locator without `@`.
pub open spec fn spec_single_locator(s: Seq<u8>) -> Option<Seq<char>> {
    let at = find_byte(s, 64, 0);
    if at >= s.len() {
        None
    } else {
        let found = scan_host_port(
            tokens_of(s.subrange(at + 1, find_byte(s, 64, at + 1))),
            0,
            "127.0.0.1".spec_bytes(),
            "17890".spec_bytes(),
            false,
        );
        joined_address(found.0, found.1)
    }
}

/// The node addresses of a locator: those of the endpoint-specs behind the
/// first `@`; where these give none, the one read in the simple way; none
/// for a locator without `@`.
pub open spec fn spec_all_nodes(s: Seq<u8>) -> Seq<Seq<char>> {
    let at = find_byte(s, 64, 0);
    if at >= s.len() {
        Seq::empty()
    } else {
        let listed = nodes_of(pieces_from(s.subrange(at + 1, s.len() as int), 0, 0));
        if listed.len() > 0 {
            listed
        } else {
            match spec_single_locator(s) {
                Some(a) => seq![a],
                None => Seq::empty(),
            }
        }
    }
}

/// Splits a list of endpoint-specs at its cuts.
pub fn split_specs(s: &[u8]) -> (r: Vec<Vec<u8>>)
    ensures
        byte_views(r@) == pieces_from(s@, 0, 0),
{
    let mut out: Vec<Vec<u8>> = Vec::new();
    let mut start: usize = 0;
    let mut i: usize = 0;
    assert(byte_views(out@) =~= Seq::<Seq<u8>>::empty());
    while i < s.len()
        invariant
            0 <= start <= i <= s@.len(),
            pieces_from(s@, 0, 0) == byte_views(out@) + pieces_from(s@, start as int, i as int),
        decreases s@.len() - i,
    {
        let cut: bool = s.len() - i >= 4 && s[i] == 58 && ((s[i + 1] == 116 && s[i + 2] == 99
            && s[i + 3] == 112) || (s[i + 1] == 117 && s[i + 2] == 100 && s[i + 3] == 112) || (s[i
            + 1] == 115 && s[i + 2] == 115 && s[i + 3] == 108));
        if cut {
            let ghost before = byte_views(out@);
            let piece = slice_to_vec(slice_subrange(s, start, i));
            out.push(piece);
            proof {
                assert(byte_views(out@) =~= before.push(s@.subrange(start as int, i as int)));
                assert(before + (seq![s@.subrange(start as int, i as int)] + pieces_from(
                    s@,
                    i as int + 4,
                    i as int + 4,
                )) =~= before.push(s@.subrange(start as int, i as int)) + pieces_from(
                    s@,
                    i as int + 4,
                    i as int + 4,
                ));
            }
            i = i + 4;
            start = i;
        } else {
            i = i + 1;
        }
    }
    let ghost before = byte_views(out@);
    let piece = slice_to_vec(slice_subrange(s, start, s.len()));
    out.push(piece);
    assert(byte_views(out@) =~= before + seq![s@.subrange(start as int, s@.len() as int)]);
    out
}

/// Takes the colons off the end of a token.
pub fn without_colons(t: &Vec<u8>) -> (r: Vec<u8>)
    ensures
        r@ == strip_colons(t@),
{
    let mut end: usize = t.len();
    assert(t@.subrange(0, end as int) =~= t@);
    while end > 0 && t[end - 1] == 58
        invariant
            0 <= end <= t@.len(),
            strip_colons(t@) == strip_colons(t@.subrange(0, end as int)),
        decreases end,
    {
        proof {
            assert(t@.subrange(0, end as int).drop_last() =~= t@.subrange(0, end as int - 1));
        }
        end = end - 1;
    }
    slice_to_vec(slice_subrange(t.as_slice(), 0, end))
}

/// Reads host and port from the tokens of an endpoint-spec.
pub fn read_host_port(s: &[u8], host: Vec<u8>, port: Vec<u8>, strip: bool) -> (r: (
    Vec<u8>,
    Vec<u8>,
))
    ensures
        (r.0@, r.1@) == scan_host_port(tokens_of(s@), 0, host@, port@, strip),
{
    let tokens = split_tokens(s);
    let ghost all = tokens_of(s@);
    let ghost host0 = host@;
    let ghost port0 = port@;
    let mut host = host;
    let mut port = port;
    let mut i: usize = 0;
    while i < tokens.len()
        invariant
            0 <= i <= tokens@.len() + 1,
            all == byte_views(tokens@),
            scan_host_port(all, 0, host0, port0, strip) == scan_host_port(
                all,
                i as int,
                host@,
                port@,
                strip,
            ),
        decreases tokens@.len() + 1 - i,
    {
        assert(all[i as int] == tokens@[i as int]@);
        if i + 1 < tokens.len() {
            assert(all[i as int + 1] == tokens@[i as int + 1]@);
        }
        if i + 1 < tokens.len() && is_bytes(&tokens[i], "-h") {
            host = tokens[i + 1].clone();
            i = i + 2;
        } else if i + 1 < tokens.len() && is_bytes(&tokens[i], "-p") {
            port = if strip {
                without_colons(&tokens[i + 1])
            } else {
                tokens[i + 1].clone()
            };
            i = i + 2;
        } else {
            i = i + 1;
        }
    }
    (host, port)
}

/// Joins a host and a port to the address "host:port".
pub fn join_address(host: &Vec<u8>, port: &Vec<u8>) -> (r: Option<String>)
    ensures
        match joined_address(host@, port@) {
            Some(a) => r is Some && r->0@ == a,
            None => r is None,
        },
{
    let mut bytes: Vec<u8> = host.clone();
    bytes.push(58);
    let mut tail = port.clone();
    bytes.append(&mut tail);
    assert(bytes@ =~= host@ + seq![58u8] + port@);
    to_text(&bytes)
}

/// Reads the one node address of a locator in the simple way: host and
/// port between the first `@` and the next, with "127.0.0.1" and "17890"
/// for what is not given.
pub fn parse_single_locator(locator: &str) -> (r: Option<String>)
    ensures
        match spec_single_locator(locator.spec_bytes()) {
            Some(a) => r is Some && r->0@ == a,
            None => r is None,
        },
{
    let bytes = locator.as_bytes();
    let at = index_of(bytes, 64, 0);
    if at >= bytes.len() {
        return None;
    }
    let end = index_of(bytes, 64, at + 1);
    let segment = slice_subrange(bytes, at + 1, end);
    let default_host = slice_to_vec("127.0.0.1".as_bytes());
    let default_port = slice_to_vec("17890".as_bytes());
    let (host, port) = read_host_port(segment, default_host, default_port, false);
    join_address(&host, &port)
}

/// Reads all node addresses of a locator such as
/// "Obj@tcp -h host1 -p port1:tcp -h host2 -p port2".
pub fn parse_all_nodes(locator: &str) -> (r: Vec<String>)
    ensures
        texts(r@) == spec_all_nodes(locator.spec_bytes()),
{
    let mut nodes: Vec<String> = Vec::new();
    let bytes = locator.as_bytes();
    let at = index_of(bytes, 64, 0);
    assert(texts(nodes@) =~= Seq::<Seq<char>>::empty());
    if at >= bytes.len() {
        return nodes;
    }
    let rest = slice_subrange(bytes, at + 1, bytes.len());
    let pieces = split_specs(rest);
    let ghost all = byte_views(pieces@);
    let mut i: usize = 0;
    assert(all.take(0) =~= Seq::<Seq<u8>>::empty());
    while i < pieces.len()
        invariant
            0 <= i <= pieces@.len(),
            all == byte_views(pieces@),
            texts(nodes@) == nodes_of(all.take(i as int)),
        decreases pieces@.len() - i,
    {
        proof {
            assert(all.take(i as int + 1).drop_last() =~= all.take(i as int));
            assert(all.take(i as int + 1).last() == pieces@[i as int]@);
        }
        let ghost before = texts(nodes@);
        let (host, port) = read_host_port(pieces[i].as_slice(), Vec::new(), Vec::new(), true);
        if host.len() > 0 && port.len() > 0 {
            match join_address(&host, &port) {
                Some(address) => {
                    nodes.push(address);
                    assert(texts(nodes@) =~= before.push(address@));
                },
                None => {},
            }
        }
        i = i + 1;
    }
    assert(all.take(pieces@.len() as int) =~= all);
    if nodes.len() == 0 {
        match parse_single_locator(locator) {
            Some(address) => {
                nodes.push(address);
                assert(texts(nodes@) =~= seq![address@]);
            },
            None => {},
        }
    }
    nodes
}

} // verus!
