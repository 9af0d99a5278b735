//! Types of the service-discovery query.

use vstd::prelude::*;

use super::lenient::{int_or, read_int32_or, read_string_or, string_or};
use crate::codec::decode::{
    spec_enter, spec_read_count, spec_read_int, spec_read_string, struct_end,
};
use crate::codec::types::TarsType;
use crate::codec::wire::{encodable_text, int_field, string_field};
use crate::codec::{Buffer, Reader};
use crate::error::{CodecError, TarsError};

verus! {

/// One endpoint as the registry reports it.
#[derive(Debug)]
pub struct EndpointF {
    pub host: String,
    pub port: i32,
    pub timeout: i32,
    /// 0=UDP, 1=TCP, 2=SSL
    pub istcp: i32,
    pub grid: i32,
    pub groupworkid: i32,
    pub grouprealid: i32,
    pub set_id: String,
    pub qos: i32,
    pub bak_flag: i32,
    pub weight: i32,
    /// 0=round-robin, 1=static weight
    pub weight_type: i32,
    pub auth_type: i32,
}

/// A reported endpoint as mathematics.
pub struct EndpointFView {
    pub host: Seq<char>,
    pub port: i32,
    pub timeout: i32,
    pub istcp: i32,
    pub grid: i32,
    pub groupworkid: i32,
    pub grouprealid: i32,
    pub set_id: Seq<char>,
    pub qos: i32,
    pub bak_flag: i32,
    pub weight: i32,
    pub weight_type: i32,
    pub auth_type: i32,
}

impl View for EndpointF {
    type V = EndpointFView;

    open spec fn view(&self) -> EndpointFView {
        EndpointFView {
            host: self.host@,
            port: self.port,
            timeout: self.timeout,
            istcp: self.istcp,
            grid: self.grid,
            groupworkid: self.groupworkid,
            grouprealid: self.grouprealid,
            set_id: self.set_id@,
            qos: self.qos,
            bak_flag: self.bak_flag,
            weight: self.weight,
            weight_type: self.weight_type,
            auth_type: self.auth_type,
        }
    }
}

/// The reported endpoint with every number zero and every text empty.
pub open spec fn empty_endpoint() -> EndpointFView {
    EndpointFView {
        host: Seq::empty(),
        port: 0,
        timeout: 0,
        istcp: 0,
        grid: 0,
        groupworkid: 0,
        grouprealid: 0,
        set_id: Seq::empty(),
        qos: 0,
        bak_flag: 0,
        weight: 0,
        weight_type: 0,
        auth_type: 0,
    }
}

/// The fields of a reported endpoint by tag; tag 10 is not used.
pub open spec fn endpoint_body(v: EndpointFView) -> Seq<u8> {
    string_field(v.host, 0) + int_field(v.port as int, 1) + int_field(v.timeout as int, 2)
        + int_field(v.istcp as int, 3) + int_field(v.grid as int, 4) + int_field(
        v.groupworkid as int,
        5,
    ) + int_field(v.grouprealid as int, 6) + string_field(v.set_id, 7) + int_field(
        v.qos as int,
        8,
    ) + int_field(v.bak_flag as int, 9) + int_field(v.weight as int, 11) + int_field(
        v.weight_type as int,
        12,
    ) + int_field(v.auth_type as int, 13)
}

/// The optional fields of a reported endpoint, tags 5 to 13, read from
/// `pos` on behind the required fields given. A field that cannot be read
/// counts as zero or empty.
pub open spec fn endpoint_tail(
    data: Seq<u8>,
    pos: int,
    host: Seq<char>,
    port: int,
    timeout: int,
    istcp: int,
    grid: int,
) -> (EndpointFView, int) {
    let (groupworkid, at5) = int_or(data, pos, 5, 0);
    let (grouprealid, at6) = int_or(data, at5, 6, 0);
    let (set_id, at7) = string_or(data, at6, 7, Seq::empty());
    let (qos, at8) = int_or(data, at7, 8, 0);
    let (bak_flag, at9) = int_or(data, at8, 9, 0);
    let (weight, at11) = int_or(data, at9, 11, 0);
    let (weight_type, at12) = int_or(data, at11, 12, 0);
    let (auth_type, at13) = int_or(data, at12, 13, 0);
    (
        EndpointFView {
            host,
            port: port as i32,
            timeout: timeout as i32,
            istcp: istcp as i32,
            grid: grid as i32,
            groupworkid: groupworkid as i32,
            grouprealid: grouprealid as i32,
            set_id,
            qos: qos as i32,
            bak_flag: bak_flag as i32,
            weight: weight as i32,
            weight_type: weight_type as i32,
            auth_type: auth_type as i32,
        },
        at13,
    )
}

/// A reported endpoint read from `pos` on: host, port, timeout, transport
/// and grid are required, the rest is optional.
pub open spec fn spec_decode_endpoint(data: Seq<u8>, pos: int) -> Result<
    (EndpointFView, int),
    CodecError,
> {
    match spec_read_string(data, pos, 0, true) {
        Err(e) => Err(e),
        Ok((host, at0)) => match spec_read_int(data, at0, 1, true, 4) {
            Err(e) => Err(e),
            Ok((port, at1)) => match spec_read_int(data, at1, 2, true, 4) {
                Err(e) => Err(e),
                Ok((timeout, at2)) => match spec_read_int(data, at2, 3, true, 4) {
                    Err(e) => Err(e),
                    Ok((istcp, at3)) => match spec_read_int(data, at3, 4, true, 4) {
                        Err(e) => Err(e),
                        Ok((grid, at4)) => Ok(
                            endpoint_tail(data, at4, host, port, timeout, istcp, grid),
                        ),
                    },
                },
            },
        },
    }
}

/// A reported endpoint read from inside the struct at `tag`; the empty
/// endpoint where the struct is absent and not required.
pub open spec fn spec_decode_endpoint_struct(data: Seq<u8>, pos: int, tag: u8, require: bool)
    -> Result<(EndpointFView, int), CodecError> {
    match spec_enter(data, pos, tag, require, TarsType::StructBegin) {
        Err(e) => Err(e),
        Ok((false, at)) => Ok((empty_endpoint(), at)),
        Ok((true, at)) => match spec_decode_endpoint(data, at) {
            Err(e) => Err(e),
            Ok((v, p)) => match struct_end(data, p) {
                Err(e) => Err(e),
                Ok(end) => Ok((v, end)),
            },
        },
    }
}

/// `n` reported endpoints from `pos` on, each a required struct at tag 0.
pub open spec fn endpoint_items(data: Seq<u8>, pos: int, n: int) -> Result<
    (Seq<EndpointFView>, int),
    CodecError,
>
    decreases n,
{
    if n <= 0 {
        Ok((Seq::empty(), pos))
    } else {
        match endpoint_items(data, pos, n - 1) {
            Err(e) => Err(e),
            Ok((front, at)) => match spec_decode_endpoint_struct(data, at, 0, true) {
                Err(e) => Err(e),
                Ok((v, end)) => Ok((front.push(v), end)),
            },
        }
    }
}

/// The list of reported endpoints at `tag`; no endpoints where the list is
/// absent and not required. A negative count is an error.
pub open spec fn spec_decode_endpoint_list(data: Seq<u8>, pos: int, tag: u8, require: bool)
    -> Result<(Seq<EndpointFView>, int), CodecError> {
    match spec_enter(data, pos, tag, require, TarsType::List) {
        Err(e) => Err(e),
        Ok((false, at)) => Ok((Seq::empty(), at)),
        Ok((true, at)) => match spec_read_count(data, at) {
            Err(e) => Err(e),
            Ok((n, start)) => if n < 0 {
                Err(CodecError::NegativeLength)
            } else {
                endpoint_items(data, start, n)
            },
        },
    }
}

/// An error among the first `n` endpoints is the error of any longer read.
pub proof fn lemma_endpoint_items_error(data: Seq<u8>, pos: int, n: int, m: int)
    requires
        n <= m,
    ensures
        endpoint_items(data, pos, n) is Err ==> endpoint_items(data, pos, m) == endpoint_items(
            data,
            pos,
            n,
        ),
    decreases m - n,
{
    if n < m {
        lemma_endpoint_items_error(data, pos, n, m - 1);
        if endpoint_items(data, pos, n) is Err {
            assert(m > 0) by {
                if n <= 0 {
                    assert(endpoint_items(data, pos, n) is Ok);
                }
            }
        }
    }
}

/// The views of a vector of reported endpoints.
pub open spec fn endpoint_views(v: Seq<EndpointF>) -> Seq<EndpointFView> {
    Seq::new(v.len(), |i: int| v[i]@)
}

impl EndpointF {
    /// Appends the fields by tag. What was written before a text that does
    /// not fit stays.
    pub fn encode(&self, buf: &mut Buffer) -> (r: Result<(), TarsError>)
        ensures
            encodable_text(self.host@) && encodable_text(self.set_id@) ==> r is Ok
                && final(buf)@ == old(buf)@ + endpoint_body(self@),
            !(encodable_text(self.host@) && encodable_text(self.set_id@)) ==> r == Err::<
                (),
                TarsError,
            >(TarsError::Codec(CodecError::LengthOverflow)),
            old(buf)@.is_prefix_of(final(buf)@),
    {
        let ghost start = buf@;
        let ghost v = self@;
        match buf.write_string(self.host.as_str(), 0) {
            Ok(()) => {},
            Err(e) => {
                return Err(e);
            },
        }
        let _ = buf.write_int32(self.port, 1);
        let _ = buf.write_int32(self.timeout, 2);
        let _ = buf.write_int32(self.istcp, 3);
        let _ = buf.write_int32(self.grid, 4);
        let _ = buf.write_int32(self.groupworkid, 5);
        let _ = buf.write_int32(self.grouprealid, 6);
        let ghost upto6 = string_field(v.host, 0) + int_field(v.port as int, 1) + int_field(
            v.timeout as int,
            2,
        ) + int_field(v.istcp as int, 3) + int_field(v.grid as int, 4) + int_field(
            v.groupworkid as int,
            5,
        ) + int_field(v.grouprealid as int, 6);
        assert(buf@ =~= start + upto6);
        match buf.write_string(self.set_id.as_str(), 7) {
            Ok(()) => {},
            Err(e) => {
                assert(start.is_prefix_of(buf@));
                return Err(e);
            },
        }
        let _ = buf.write_int32(self.qos, 8);
        let _ = buf.write_int32(self.bak_flag, 9);
        let _ = buf.write_int32(self.weight, 11);
        let _ = buf.write_int32(self.weight_type, 12);
        let _ = buf.write_int32(self.auth_type, 13);
        assert(buf@ =~= start + endpoint_body(v));
        Ok(())
    }

    /// The reported endpoint with every number zero and every text empty.
    pub fn empty() -> (ep: EndpointF)
        ensures
            ep@ == empty_endpoint(),
    {
        EndpointF {
            host: String::new(),
            port: 0,
            timeout: 0,
            istcp: 0,
            grid: 0,
            groupworkid: 0,
            grouprealid: 0,
            set_id: String::new(),
            qos: 0,
            bak_flag: 0,
            weight: 0,
            weight_type: 0,
            auth_type: 0,
        }
    }

    /// Reads the fields by tag: host, port, timeout, transport and grid are
    /// required; each of the others counts as zero or empty where it is
    /// absent or cannot be read.
    pub fn decode(reader: &mut Reader) -> (r: Result<EndpointF, TarsError>)
        ensures
            final(reader).input() == old(reader).input(),
            match spec_decode_endpoint(old(reader).input(), old(reader).offset()) {
                Ok((v, end)) => r is Ok && r->Ok_0@ == v && final(reader).offset() == end,
                Err(e) => r == Err::<EndpointF, TarsError>(TarsError::Codec(e)),
            },
    {
        let mut ep = EndpointF::empty();
        ep.host = match reader.read_string(0, true) {
            Ok(v) => v,
            Err(e) => {
                return Err(e);
            },
        };
        ep.port = match reader.read_int32(1, true) {
            Ok(v) => v,
            Err(e) => {
                return Err(e);
            },
        };
        ep.timeout = match reader.read_int32(2, true) {
            Ok(v) => v,
            Err(e) => {
                return Err(e);
            },
        };
        ep.istcp = match reader.read_int32(3, true) {
            Ok(v) => v,
            Err(e) => {
                return Err(e);
            },
        };
        ep.grid = match reader.read_int32(4, true) {
            Ok(v) => v,
            Err(e) => {
                return Err(e);
            },
        };
        ep.groupworkid = read_int32_or(reader, 5, 0);
        ep.grouprealid = read_int32_or(reader, 6, 0);
        ep.set_id = read_string_or(reader, 7, "");
        ep.qos = read_int32_or(reader, 8, 0);
        ep.bak_flag = read_int32_or(reader, 9, 0);
        ep.weight = read_int32_or(reader, 11, 0);
        ep.weight_type = read_int32_or(reader, 12, 0);
        ep.auth_type = read_int32_or(reader, 13, 0);
        proof {
            reveal_strlit("");
            assert(""@ =~= Seq::<char>::empty());
        }
        Ok(ep)
    }

    /// Reads a reported endpoint from inside the struct at `tag`, and leaves
    /// the struct; the empty endpoint where the struct is absent and not
    /// required.
    pub fn decode_from_struct(reader: &mut Reader, tag: u8, require: bool) -> (r: Result<
        EndpointF,
        TarsError,
    >)
        ensures
            final(reader).input() == old(reader).input(),
            match spec_decode_endpoint_struct(
                old(reader).input(),
                old(reader).offset(),
                tag,
                require,
            ) {
                Ok((v, end)) => r is Ok && r->Ok_0@ == v && final(reader).offset() == end,
                Err(e) => r == Err::<EndpointF, TarsError>(TarsError::Codec(e)),
            },
    {
        match reader.skip_to_struct_begin(tag, require) {
            Ok(true) => {},
            Ok(false) => {
                return Ok(EndpointF::empty());
            },
            Err(e) => {
                return Err(e);
            },
        }
        let ep = match Self::decode(reader) {
            Ok(ep) => ep,
            Err(e) => {
                return Err(e);
            },
        };
        match reader.skip_to_struct_end() {
            Ok(()) => {},
            Err(e) => {
                return Err(e);
            },
        }
        Ok(ep)
    }
}

/// Reads the list of reported endpoints at `tag`; no endpoints where the
/// list is absent and not required.
pub fn decode_endpoint_list(reader: &mut Reader, tag: u8, require: bool) -> (r: Result<
    Vec<EndpointF>,
    TarsError,
>)
    ensures
        final(reader).input() == old(reader).input(),
        match spec_decode_endpoint_list(old(reader).input(), old(reader).offset(), tag, require) {
            Ok((v, end)) => r is Ok && endpoint_views(r->Ok_0@) == v && final(reader).offset()
                == end,
            Err(e) => r == Err::<Vec<EndpointF>, TarsError>(TarsError::Codec(e)),
        },
{
    let mut result: Vec<EndpointF> = Vec::new();
    match reader.skip_to_list(tag, require) {
        Ok(true) => {},
        Ok(false) => {
            assert(endpoint_views(result@) =~= Seq::<EndpointFView>::empty());
            return Ok(result);
        },
        Err(e) => {
            return Err(e);
        },
    }
    let count: i32 = match reader.read_int32(0, true) {
        Ok(n) => n,
        Err(e) => {
            return Err(e);
        },
    };
    if count < 0 {
        return Err(TarsError::Codec(CodecError::NegativeLength));
    }
    let ghost data = reader.input();
    let ghost start = reader.offset();
    let mut i: i32 = 0;
    assert(endpoint_views(result@) =~= Seq::<EndpointFView>::empty());
    while i < count
        invariant
            reader.input() == data,
            data == old(reader).input(),
            spec_decode_endpoint_list(old(reader).input(), old(reader).offset(), tag, require)
                == endpoint_items(data, start, count as int),
            0 <= i <= count,
            endpoint_items(data, start, i as int) == Ok::<(Seq<EndpointFView>, int), CodecError>(
                (endpoint_views(result@), reader.offset()),
            ),
        decreases count - i,
    {
        proof {
            lemma_endpoint_items_error(data, start, i as int + 1, count as int);
        }
        let ghost before = endpoint_views(result@);
        let ep = match EndpointF::decode_from_struct(reader, 0, true) {
            Ok(ep) => ep,
            Err(e) => {
                return Err(e);
            },
        };
        result.push(ep);
        assert(endpoint_views(result@) =~= before.push(ep@));
        i = i + 1;
    }
    Ok(result)
}

/// Names of the query methods.
pub fn query_find_object_by_id() -> (s: &'static str)
    ensures
        s@ == "findObjectById"@,
{
    "findObjectById"
}

pub fn query_find_object_by_id_4_any() -> (s: &'static str)
    ensures
        s@ == "findObjectById4Any"@,
{
    "findObjectById4Any"
}

pub fn query_find_object_by_id_4_all() -> (s: &'static str)
    ensures
        s@ == "findObjectById4All"@,
{
    "findObjectById4All"
}

pub fn query_find_object_by_id_in_same_group() -> (s: &'static str)
    ensures
        s@ == "findObjectByIdInSameGroup"@,
{
    "findObjectByIdInSameGroup"
}

pub fn query_find_object_by_id_in_same_set() -> (s: &'static str)
    ensures
        s@ == "findObjectByIdInSameSet"@,
{
    "findObjectByIdInSameSet"
}

} // verus!
