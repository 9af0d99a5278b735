//! What holds between encoding a packet and decoding it.

use vstd::prelude::*;

use super::packet::{
    request_body, request_encodable, request_fields_encodable, response_body, response_encodable,
    response_fields_encodable, spec_decode_request, spec_decode_response, spec_read_request,
    spec_read_response, unframed, RequestView, ResponseView,
};
use crate::codec::laws::{
    holds_at, law_bytes_roundtrip, law_int_roundtrip, law_string_map_roundtrip,
    law_string_roundtrip, lemma_be32_roundtrip, lemma_holds_at_split,
};
use crate::codec::string_map::distinct_keys;
use crate::codec::types::{frame_length, spec_parse_package, PackageStatus};
use crate::consts::MAX_PACKAGE_LENGTH;
use crate::codec::wire::{
    be32, bytes_field, framed, int_field, string_field, string_map_field,
};
use crate::error::CodecError;

verus! {

/// Stripping the prefix from a frame gives its body back.
pub proof fn law_unframed_framed(body: Seq<u8>)
    requires
        body.len() + 4 <= u32::MAX,
    ensures
        unframed(framed(body)) == body,
{
    let data = framed(body);
    let n = body.len() as int + 4;
    lemma_be32_roundtrip(n);
    assert(data[0] == be32(n)[0]);
    assert(data[1] == be32(n)[1]);
    assert(data[2] == be32(n)[2]);
    assert(data[3] == be32(n)[3]);
    assert(frame_length(data) == n);
    assert(data.subrange(4, data.len() as int) =~= body);
}

/// The frame boundary: a frame of at most 100 MiB whose body is not empty
/// is found whole at the front of a stream, whatever follows it, with
/// exactly its length; and a stream that has not brought all of the frame
/// yet asks for more. A prefix alone, without a body, is no frame.
pub proof fn law_frame_boundary(body: Seq<u8>, rest: Seq<u8>, k: int)
    requires
        body.len() > 0,
        body.len() + 4 <= MAX_PACKAGE_LENGTH,
        0 <= k < body.len() + 4,
    ensures
        spec_parse_package(framed(body) + rest) == (
            body.len() as int + 4,
            PackageStatus::Full,
        ),
        (framed(body) + rest).subrange(0, body.len() as int + 4) == framed(body),
        (framed(body) + rest).subrange(
            body.len() as int + 4,
            (framed(body) + rest).len() as int,
        ) == rest,
        spec_parse_package(framed(body).subrange(0, k)) == (0int, PackageStatus::Less),
        spec_parse_package(framed(Seq::<u8>::empty()) + rest) == (0int, PackageStatus::Error),
{
    let n = body.len() as int + 4;
    let data = framed(body) + rest;
    lemma_be32_roundtrip(n);
    assert(data[0] == be32(n)[0]);
    assert(data[1] == be32(n)[1]);
    assert(data[2] == be32(n)[2]);
    assert(data[3] == be32(n)[3]);
    assert(frame_length(data) == n);
    assert(data.subrange(0, n) =~= framed(body));
    assert(data.subrange(n, data.len() as int) =~= rest);
    let bare = framed(Seq::<u8>::empty()) + rest;
    lemma_be32_roundtrip(4);
    assert(bare[0] == be32(4)[0]);
    assert(bare[1] == be32(4)[1]);
    assert(bare[2] == be32(4)[2]);
    assert(bare[3] == be32(4)[3]);
    assert(frame_length(bare) == 4);
    let part = framed(body).subrange(0, k);
    if k >= 4 {
        assert(part[0] == be32(n)[0]);
        assert(part[1] == be32(n)[1]);
        assert(part[2] == be32(n)[2]);
        assert(part[3] == be32(n)[3]);
        assert(frame_length(part) == n);
    }
}

/// Where five pieces stand one after the other, each stands at the sum of
/// the lengths before it.
pub proof fn lemma_holds_at_five(
    data: Seq<u8>,
    pos: int,
    f1: Seq<u8>,
    f2: Seq<u8>,
    f3: Seq<u8>,
    f4: Seq<u8>,
    f5: Seq<u8>,
)
    requires
        holds_at(data, pos, f1 + f2 + f3 + f4 + f5),
    ensures
        holds_at(data, pos, f1),
        holds_at(data, pos + f1.len(), f2),
        holds_at(data, pos + f1.len() + f2.len(), f3),
        holds_at(data, pos + f1.len() + f2.len() + f3.len(), f4),
        holds_at(data, pos + f1.len() + f2.len() + f3.len() + f4.len(), f5),
{
    lemma_holds_at_split(data, pos, f1 + f2 + f3 + f4, f5);
    lemma_holds_at_split(data, pos, f1 + f2 + f3, f4);
    lemma_holds_at_split(data, pos, f1 + f2, f3);
    lemma_holds_at_split(data, pos, f1, f2);
}

/// A request whose fields stand at `pos` is read back whole, and the cursor
/// moves behind it.
pub proof fn law_request_read(data: Seq<u8>, pos: int, v: RequestView)
    requires
        request_fields_encodable(v),
        distinct_keys(v.context),
        distinct_keys(v.status),
        holds_at(data, pos, request_body(v)),
    ensures
        spec_read_request(data, pos) == Ok::<(RequestView, int), CodecError>(
            (v, pos + request_body(v).len()),
        ),
{
    let f1 = int_field(v.version as int, 1);
    let f2 = int_field(v.packet_type as int, 2);
    let f3 = int_field(v.message_type as int, 3);
    let f4 = int_field(v.request_id as int, 4);
    let f5 = string_field(v.servant_name, 5);
    let f6 = string_field(v.func_name, 6);
    let f7 = bytes_field(v.buffer, 7);
    let f8 = int_field(v.timeout as int, 8);
    let f9 = string_map_field(v.context, 9);
    let f10 = string_map_field(v.status, 10);
    let front = f1 + f2 + f3 + f4 + f5;
    let back = f6 + f7 + f8 + f9 + f10;
    assert(request_body(v) =~= front + back);
    lemma_holds_at_split(data, pos, front, back);
    lemma_holds_at_five(data, pos, f1, f2, f3, f4, f5);
    let mid = pos + front.len();
    lemma_holds_at_five(data, mid, f6, f7, f8, f9, f10);
    let at1 = pos + f1.len();
    let at2 = at1 + f2.len();
    let at3 = at2 + f3.len();
    let at4 = at3 + f4.len();
    let at5 = at4 + f5.len();
    assert(at5 == mid);
    let at6 = at5 + f6.len();
    let at7 = at6 + f7.len();
    let at8 = at7 + f8.len();
    let at9 = at8 + f9.len();
    law_int_roundtrip(data, pos, v.version as int, 1, false, 2);
    law_int_roundtrip(data, at1, v.packet_type as int, 2, false, 1);
    law_int_roundtrip(data, at2, v.message_type as int, 3, false, 4);
    law_int_roundtrip(data, at3, v.request_id as int, 4, false, 4);
    law_string_roundtrip(data, at4, v.servant_name, 5, false);
    law_string_roundtrip(data, at5, v.func_name, 6, false);
    law_bytes_roundtrip(data, at6, v.buffer, 7, false);
    law_int_roundtrip(data, at7, v.timeout as int, 8, false, 4);
    law_string_map_roundtrip(data, at8, v.context, 9, false);
    law_string_map_roundtrip(data, at9, v.status, 10, false);
    assert(at9 + f10.len() == pos + request_body(v).len());
}

/// Request round-trip with length prefix: decoding the frame that encoding
/// gave yields the request.
pub proof fn law_request_roundtrip(v: RequestView)
    requires
        request_encodable(v),
        distinct_keys(v.context),
        distinct_keys(v.status),
    ensures
        spec_decode_request(framed(request_body(v))) == Ok::<RequestView, CodecError>(v),
{
    let body = request_body(v);
    law_unframed_framed(body);
    assert(body.subrange(0, body.len() as int) =~= body);
    law_request_read(body, 0, v);
}

/// A response whose fields stand at `pos` is read back whole, and the
/// cursor moves behind it.
pub proof fn law_response_read(data: Seq<u8>, pos: int, v: ResponseView)
    requires
        response_fields_encodable(v),
        distinct_keys(v.context),
        distinct_keys(v.status),
        holds_at(data, pos, response_body(v)),
    ensures
        spec_read_response(data, pos) == Ok::<(ResponseView, int), CodecError>(
            (v, pos + response_body(v).len()),
        ),
{
    let f1 = int_field(v.version as int, 1);
    let f2 = int_field(v.packet_type as int, 2);
    let f3 = int_field(v.request_id as int, 3);
    let f4 = int_field(v.message_type as int, 4);
    let f5 = int_field(v.ret as int, 5);
    let f6 = bytes_field(v.buffer, 6);
    let f7 = string_map_field(v.status, 7);
    let f8 = string_field(v.result_desc, 8);
    let f9 = string_map_field(v.context, 9);
    let front = f1 + f2 + f3 + f4 + f5;
    let back = f6 + f7 + f8 + f9 + Seq::<u8>::empty();
    assert(response_body(v) =~= front + back);
    lemma_holds_at_split(data, pos, front, back);
    lemma_holds_at_five(data, pos, f1, f2, f3, f4, f5);
    let mid = pos + front.len();
    lemma_holds_at_five(data, mid, f6, f7, f8, f9, Seq::<u8>::empty());
    let at1 = pos + f1.len();
    let at2 = at1 + f2.len();
    let at3 = at2 + f3.len();
    let at4 = at3 + f4.len();
    let at5 = at4 + f5.len();
    assert(at5 == mid);
    let at6 = at5 + f6.len();
    let at7 = at6 + f7.len();
    let at8 = at7 + f8.len();
    law_int_roundtrip(data, pos, v.version as int, 1, false, 2);
    law_int_roundtrip(data, at1, v.packet_type as int, 2, false, 1);
    law_int_roundtrip(data, at2, v.request_id as int, 3, false, 4);
    law_int_roundtrip(data, at3, v.message_type as int, 4, false, 4);
    law_int_roundtrip(data, at4, v.ret as int, 5, false, 4);
    law_bytes_roundtrip(data, at5, v.buffer, 6, false);
    law_string_map_roundtrip(data, at6, v.status, 7, false);
    law_string_roundtrip(data, at7, v.result_desc, 8, false);
    law_string_map_roundtrip(data, at8, v.context, 9, false);
    assert(at8 + f9.len() == pos + response_body(v).len());
}

/// Response round-trip with length prefix: decoding the frame that
/// encoding gave yields the response.
pub proof fn law_response_roundtrip(v: ResponseView)
    requires
        response_encodable(v),
        distinct_keys(v.context),
        distinct_keys(v.status),
    ensures
        spec_decode_response(framed(response_body(v))) == Ok::<ResponseView, CodecError>(v),
{
    let body = response_body(v);
    law_unframed_framed(body);
    assert(body.subrange(0, body.len() as int) =~= body);
    law_response_read(body, 0, v);
}

} // verus!
