//! Types of the statistics report.

use vstd::prelude::*;

use super::lenient::{read_string_or, string_or};
use crate::codec::decode::{spec_read_int, spec_read_string};
use crate::codec::wire::{encodable_text, int_field, map_header, string_field, struct_field};
use crate::codec::{Buffer, Reader};
use crate::error::{CodecError, TarsError};

verus! {

/// The upper bounds, in milliseconds, of the buckets that response times
/// are counted in.
pub fn time_points() -> (points: [i32; 9])
    ensures
        points@ == spec_time_points(),
{
    [5, 10, 50, 100, 200, 500, 1000, 2000, 3000]
}

/// The bucket bounds as mathematics.
pub open spec fn spec_time_points() -> Seq<i32> {
    seq![5i32, 10i32, 50i32, 100i32, 200i32, 500i32, 1000i32, 2000i32, 3000i32]
}

/// The bucket of a response time: the first bound above it, or none for
/// times of 3000 ms and more.
pub open spec fn bucket_of(rsp_time: int) -> Option<i32> {
    if rsp_time < 5 {
        Some(5i32)
    } else if rsp_time < 10 {
        Some(10i32)
    } else if rsp_time < 50 {
        Some(50i32)
    } else if rsp_time < 100 {
        Some(100i32)
    } else if rsp_time < 200 {
        Some(200i32)
    } else if rsp_time < 500 {
        Some(500i32)
    } else if rsp_time < 1000 {
        Some(1000i32)
    } else if rsp_time < 2000 {
        Some(2000i32)
    } else if rsp_time < 3000 {
        Some(3000i32)
    } else {
        None
    }
}

/// Finds the bucket of a response time: the first bound above it.
pub fn bucket(rsp_time: i32) -> (r: Option<i32>)
    ensures
        r == bucket_of(rsp_time as int),
{
    let points = time_points();
    let mut i: usize = 0;
    while i < 9
        invariant
            0 <= i <= 9,
            points@ == spec_time_points(),
            forall|j: int| 0 <= j < i ==> rsp_time >= #[trigger] points@[j],
        decreases 9 - i,
    {
        let point: i32 = points[i];
        if rsp_time < point {
            proof {
                if i > 0 {
                    assert(rsp_time >= points@[i - 1]);
                }
            }
            return Some(point);
        }
        i = i + 1;
    }
    assert(rsp_time >= points@[8]);
    None
}

/// Identifies one call chain in the statistics.
#[derive(Debug)]
pub struct StatMicMsgHead {
    /// Caller module name
    pub master_name: String,
    /// Callee module name
    pub slave_name: String,
    /// Interface name
    pub interface_name: String,
    /// Caller IP
    pub master_ip: String,
    /// Callee IP
    pub slave_ip: String,
    /// Callee port
    pub slave_port: i32,
    /// Return value
    pub return_value: i32,
    /// Callee SET name
    pub slave_set_name: String,
    /// Callee SET area
    pub slave_set_area: String,
    /// Callee SET group
    pub slave_set_id: String,
    /// Framework version
    pub tars_version: String,
}

/// A statistics head as mathematics.
pub struct StatHeadView {
    pub master_name: Seq<char>,
    pub slave_name: Seq<char>,
    pub interface_name: Seq<char>,
    pub master_ip: Seq<char>,
    pub slave_ip: Seq<char>,
    pub slave_port: i32,
    pub return_value: i32,
    pub slave_set_name: Seq<char>,
    pub slave_set_area: Seq<char>,
    pub slave_set_id: Seq<char>,
    pub tars_version: Seq<char>,
}

impl View for StatMicMsgHead {
    type V = StatHeadView;

    open spec fn view(&self) -> StatHeadView {
        StatHeadView {
            master_name: self.master_name@,
            slave_name: self.slave_name@,
            interface_name: self.interface_name@,
            master_ip: self.master_ip@,
            slave_ip: self.slave_ip@,
            slave_port: self.slave_port,
            return_value: self.return_value,
            slave_set_name: self.slave_set_name@,
            slave_set_area: self.slave_set_area@,
            slave_set_id: self.slave_set_id@,
            tars_version: self.tars_version@,
        }
    }
}

/// The fields of a statistics head by tag.
pub open spec fn stat_head_body(v: StatHeadView) -> Seq<u8> {
    string_field(v.master_name, 0) + string_field(v.slave_name, 1) + string_field(
        v.interface_name,
        2,
    ) + string_field(v.master_ip, 3) + string_field(v.slave_ip, 4) + int_field(
        v.slave_port as int,
        5,
    ) + int_field(v.return_value as int, 6) + string_field(v.slave_set_name, 7) + string_field(
        v.slave_set_area,
        8,
    ) + string_field(v.slave_set_id, 9) + string_field(v.tars_version, 10)
}

/// Whether every text of a statistics head fits a string field.
pub open spec fn stat_head_encodable(v: StatHeadView) -> bool {
    &&& encodable_text(v.master_name)
    &&& encodable_text(v.slave_name)
    &&& encodable_text(v.interface_name)
    &&& encodable_text(v.master_ip)
    &&& encodable_text(v.slave_ip)
    &&& encodable_text(v.slave_set_name)
    &&& encodable_text(v.slave_set_area)
    &&& encodable_text(v.slave_set_id)
    &&& encodable_text(v.tars_version)
}

/// The optional texts of a statistics head, tags 7 to 10, read from `pos`
/// on; a text that cannot be read counts as empty.
pub open spec fn stat_head_tail(
    data: Seq<u8>,
    pos: int,
    front: StatHeadView,
) -> (StatHeadView, int) {
    let (slave_set_name, at7) = string_or(data, pos, 7, Seq::empty());
    let (slave_set_area, at8) = string_or(data, at7, 8, Seq::empty());
    let (slave_set_id, at9) = string_or(data, at8, 9, Seq::empty());
    let (tars_version, at10) = string_or(data, at9, 10, Seq::empty());
    (StatHeadView { slave_set_name, slave_set_area, slave_set_id, tars_version, ..front }, at10)
}

/// A statistics head read from `pos` on: tags 0 to 6 are required, the SET
/// texts and the version are optional.
pub open spec fn spec_decode_stat_head(data: Seq<u8>, pos: int) -> Result<
    (StatHeadView, int),
    CodecError,
> {
    match spec_read_string(data, pos, 0, true) {
        Err(e) => Err(e),
        Ok((master_name, at0)) => match spec_read_string(data, at0, 1, true) {
            Err(e) => Err(e),
            Ok((slave_name, at1)) => match spec_read_string(data, at1, 2, true) {
                Err(e) => Err(e),
                Ok((interface_name, at2)) => match spec_read_string(data, at2, 3, true) {
                    Err(e) => Err(e),
                    Ok((master_ip, at3)) => match spec_read_string(data, at3, 4, true) {
                        Err(e) => Err(e),
                        Ok((slave_ip, at4)) => match spec_read_int(data, at4, 5, true, 4) {
                            Err(e) => Err(e),
                            Ok((slave_port, at5)) => match spec_read_int(data, at5, 6, true, 4) {
                                Err(e) => Err(e),
                                Ok((return_value, at6)) => Ok(
                                    stat_head_tail(
                                        data,
                                        at6,
                                        StatHeadView {
                                            master_name,
                                            slave_name,
                                            interface_name,
                                            master_ip,
                                            slave_ip,
                                            slave_port: slave_port as i32,
                                            return_value: return_value as i32,
                                            slave_set_name: Seq::empty(),
                                            slave_set_area: Seq::empty(),
                                            slave_set_id: Seq::empty(),
                                            tars_version: Seq::empty(),
                                        },
                                    ),
                                ),
                            },
                        },
                    },
                },
            },
        },
    }
}

impl StatMicMsgHead {
    /// Appends the fields by tag. What was written before a text that does
    /// not fit stays.
    #[verifier::rlimit(60)]
    pub fn encode(&self, buf: &mut Buffer) -> (r: Result<(), TarsError>)
        ensures
            stat_head_encodable(self@) ==> r is Ok && final(buf)@ == old(buf)@ + stat_head_body(
                self@,
            ),
            !stat_head_encodable(self@) ==> r == Err::<(), TarsError>(
                TarsError::Codec(CodecError::LengthOverflow),
            ),
            old(buf)@.is_prefix_of(final(buf)@),
    {
        let ghost start = buf@;
        let ghost v = self@;
        match buf.write_string(self.master_name.as_str(), 0) {
            Ok(()) => {},
            Err(e) => {
                return Err(e);
            },
        }
        let ghost a0 = string_field(v.master_name, 0);
        assert(buf@ =~= start + a0);
        match buf.write_string(self.slave_name.as_str(), 1) {
            Ok(()) => {},
            Err(e) => {
                return Err(e);
            },
        }
        let ghost a1 = a0 + string_field(v.slave_name, 1);
        assert(buf@ =~= start + a1);
        match buf.write_string(self.interface_name.as_str(), 2) {
            Ok(()) => {},
            Err(e) => {
                return Err(e);
            },
        }
        let ghost a2 = a1 + string_field(v.interface_name, 2);
        assert(buf@ =~= start + a2);
        match buf.write_string(self.master_ip.as_str(), 3) {
            Ok(()) => {},
            Err(e) => {
                return Err(e);
            },
        }
        let ghost a3 = a2 + string_field(v.master_ip, 3);
        assert(buf@ =~= start + a3);
        match buf.write_string(self.slave_ip.as_str(), 4) {
            Ok(()) => {},
            Err(e) => {
                return Err(e);
            },
        }
        let ghost a4 = a3 + string_field(v.slave_ip, 4);
        assert(buf@ =~= start + a4);
        let _ = buf.write_int32(self.slave_port, 5);
        let ghost a5 = a4 + int_field(v.slave_port as int, 5);
        assert(buf@ =~= start + a5);
        let _ = buf.write_int32(self.return_value, 6);
        let ghost a6 = a5 + int_field(v.return_value as int, 6);
        assert(buf@ =~= start + a6);
        match buf.write_string(self.slave_set_name.as_str(), 7) {
            Ok(()) => {},
            Err(e) => {
                return Err(e);
            },
        }
        let ghost a7 = a6 + string_field(v.slave_set_name, 7);
        assert(buf@ =~= start + a7);
        match buf.write_string(self.slave_set_area.as_str(), 8) {
            Ok(()) => {},
            Err(e) => {
                return Err(e);
            },
        }
        let ghost a8 = a7 + string_field(v.slave_set_area, 8);
        assert(buf@ =~= start + a8);
        match buf.write_string(self.slave_set_id.as_str(), 9) {
            Ok(()) => {},
            Err(e) => {
                return Err(e);
            },
        }
        let ghost a9 = a8 + string_field(v.slave_set_id, 9);
        assert(buf@ =~= start + a9);
        match buf.write_string(self.tars_version.as_str(), 10) {
            Ok(()) => {},
            Err(e) => {
                return Err(e);
            },
        }
        let ghost a10 = a9 + string_field(v.tars_version, 10);
        assert(buf@ =~= start + a10);
        assert(a10 == stat_head_body(v));
        Ok(())
    }

    /// Reads the fields by tag: tags 0 to 6 are required; each of the SET
    /// texts and the version counts as empty where it cannot be read.
    pub fn decode(reader: &mut Reader) -> (r: Result<StatMicMsgHead, TarsError>)
        ensures
            final(reader).input() == old(reader).input(),
            match spec_decode_stat_head(old(reader).input(), old(reader).offset()) {
                Ok((v, end)) => r is Ok && r->Ok_0@ == v && final(reader).offset() == end,
                Err(e) => r == Err::<StatMicMsgHead, TarsError>(TarsError::Codec(e)),
            },
    {
        let master_name = match reader.read_string(0, true) {
            Ok(v) => v,
            Err(e) => {
                return Err(e);
            },
        };
        let slave_name = match reader.read_string(1, true) {
            Ok(v) => v,
            Err(e) => {
                return Err(e);
            },
        };
        let interface_name = match reader.read_string(2, true) {
            Ok(v) => v,
            Err(e) => {
                return Err(e);
            },
        };
        let master_ip = match reader.read_string(3, true) {
            Ok(v) => v,
            Err(e) => {
                return Err(e);
            },
        };
        let slave_ip = match reader.read_string(4, true) {
            Ok(v) => v,
            Err(e) => {
                return Err(e);
            },
        };
        let slave_port = match reader.read_int32(5, true) {
            Ok(v) => v,
            Err(e) => {
                return Err(e);
            },
        };
        let return_value = match reader.read_int32(6, true) {
            Ok(v) => v,
            Err(e) => {
                return Err(e);
            },
        };
        let slave_set_name = read_string_or(reader, 7, "");
        let slave_set_area = read_string_or(reader, 8, "");
        let slave_set_id = read_string_or(reader, 9, "");
        let tars_version = read_string_or(reader, 10, "");
        proof {
            reveal_strlit("");
            assert(""@ =~= Seq::<char>::empty());
        }
        Ok(
            StatMicMsgHead {
                master_name,
                slave_name,
                interface_name,
                master_ip,
                slave_ip,
                slave_port,
                return_value,
                slave_set_name,
                slave_set_area,
                slave_set_id,
                tars_version,
            },
        )
    }

    /// Whether two heads name the same call chain: every field agrees.
    pub fn same_as(&self, other: &StatMicMsgHead) -> (r: bool)
        ensures
            r == (self@ == other@),
    {
        self.master_name == other.master_name && self.slave_name == other.slave_name
            && self.interface_name == other.interface_name && self.master_ip == other.master_ip
            && self.slave_ip == other.slave_ip && self.slave_port == other.slave_port
            && self.return_value == other.return_value && self.slave_set_name
            == other.slave_set_name && self.slave_set_area == other.slave_set_area
            && self.slave_set_id == other.slave_set_id && self.tars_version == other.tars_version
    }
}

/// Counts per bucket as mathematics: pairs of bucket bound and count.
pub type Counts = Seq<(i32, i32)>;

/// The index of the first pair at or behind `from` whose bound is `point`,
/// or the length of `s` where there is none.
pub open spec fn find_point(s: Counts, point: i32, from: int) -> int
    decreases s.len() - from,
{
    if from < 0 || from >= s.len() {
        s.len() as int
    } else if s[from].0 == point {
        from
    } else {
        find_point(s, point, from + 1)
    }
}

/// The count that stands under `point`; 0 where the bucket is absent.
pub open spec fn count_of(s: Counts, point: i32) -> int {
    if find_point(s, point, 0) < s.len() {
        s[find_point(s, point, 0)].1 as int
    } else {
        0
    }
}

/// The counts after `amount` was added under `point`: the count is raised
/// where the bucket stands, else the bucket is added at the end.
pub open spec fn raised(s: Counts, point: i32, amount: i32) -> Counts {
    if find_point(s, point, 0) < s.len() {
        s.update(
            find_point(s, point, 0),
            (point, (s[find_point(s, point, 0)].1 + amount) as i32),
        )
    } else {
        s.push((point, amount))
    }
}

/// No bucket stands twice.
pub open spec fn distinct_points(s: Counts) -> bool {
    forall|i: int, j: int| 0 <= i < j < s.len() ==> #[trigger] s[i].0 != #[trigger] s[j].0
}

/// What `find_point` finds: the first match from `from` on.
pub proof fn lemma_find_point(s: Counts, point: i32, from: int)
    requires
        0 <= from <= s.len(),
    ensures
        from <= find_point(s, point, from) <= s.len(),
        find_point(s, point, from) < s.len() ==> s[find_point(s, point, from)].0 == point,
        forall|j: int| from <= j < find_point(s, point, from) ==> (#[trigger] s[j]).0 != point,
    decreases s.len() - from,
{
    if from < s.len() && s[from].0 != point {
        lemma_find_point(s, point, from + 1);
    }
}

/// Raising a bucket keeps the buckets distinct, raises its count by the
/// amount and leaves every other count as it was.
pub proof fn lemma_raised(s: Counts, point: i32, amount: i32, other: i32)
    requires
        distinct_points(s),
        i32::MIN <= count_of(s, point) + amount <= i32::MAX,
    ensures
        distinct_points(raised(s, point, amount)),
        count_of(raised(s, point, amount), point) == count_of(s, point) + amount,
        other != point ==> count_of(raised(s, point, amount), other) == count_of(s, other),
{
    let t = raised(s, point, amount);
    let i = find_point(s, point, 0);
    lemma_find_point(s, point, 0);
    lemma_find_point(t, point, 0);
    lemma_find_point(s, other, 0);
    lemma_find_point(t, other, 0);
    if i < s.len() {
        assert(t[i].0 == point);
        assert forall|a: int, b: int| 0 <= a < b < t.len() implies #[trigger] t[a].0
            != #[trigger] t[b].0 by {
            assert(s[a].0 != s[b].0);
        }
        let ft = find_point(t, point, 0);
        if ft != i {
            assert(t[ft].0 == point);
            assert(s[ft].0 == point);
            if ft < i {
                assert(s[ft].0 != s[i].0);
            }
        }
    } else {
        assert(t[s.len() as int].0 == point);
        assert forall|a: int, b: int| 0 <= a < b < t.len() implies #[trigger] t[a].0
            != #[trigger] t[b].0 by {
            if b == s.len() {
                assert(s[a].0 != point);
            } else {
                assert(s[a].0 != s[b].0);
            }
        }
    }
    if other != point {
        let fs = find_point(s, other, 0);
        let ft = find_point(t, other, 0);
        if fs < s.len() {
            assert(t[fs].0 == other);
            if ft < fs {
                assert(t[ft].0 == other);
                assert(s[ft].0 == other);
            }
            assert(ft == fs);
        } else {
            if ft < t.len() {
                assert(t[ft].0 == other);
                if ft < s.len() {
                    assert(s[ft].0 == other);
                }
            }
        }
    }
}

/// Counts per bucket, in the order in which the buckets first came.
#[derive(Debug)]
pub struct IntervalCounts {
    entries: Vec<(i32, i32)>,
}

impl View for IntervalCounts {
    type V = Counts;

    closed spec fn view(&self) -> Counts {
        self.entries@
    }
}

impl IntervalCounts {
    #[verifier::type_invariant]
    spec fn points_are_distinct(self) -> bool {
        distinct_points(self.entries@)
    }

    /// No counts.
    pub fn new() -> (c: IntervalCounts)
        ensures
            c@ == Seq::<(i32, i32)>::empty(),
    {
        IntervalCounts { entries: Vec::new() }
    }

    /// Shows that no bucket of these counts stands twice; it computes
    /// nothing.
    pub fn points_distinct(&self)
        ensures
            distinct_points(self@),
    {
        proof {
            use_type_invariant(self);
        }
    }

    /// The number of buckets.
    pub fn len(&self) -> (n: usize)
        ensures
            n == self@.len(),
    {
        self.entries.len()
    }

    /// Whether there is no bucket.
    pub fn is_empty(&self) -> (r: bool)
        ensures
            r == (self@.len() == 0),
    {
        self.entries.len() == 0
    }

    /// The index of the bucket `point`.
    fn position(&self, point: i32) -> (r: Option<usize>)
        ensures
            match r {
                Some(i) => i == find_point(self@, point, 0) && i < self@.len(),
                None => find_point(self@, point, 0) >= self@.len(),
            },
    {
        let mut i: usize = 0;
        while i < self.entries.len()
            invariant
                0 <= i <= self.entries@.len(),
                find_point(self@, point, 0) == find_point(self@, point, i as int),
            decreases self.entries@.len() - i,
        {
            if self.entries[i].0 == point {
                return Some(i);
            }
            i = i + 1;
        }
        None
    }

    /// The count under `point`, if the bucket is there.
    pub fn get(&self, point: i32) -> (r: Option<i32>)
        ensures
            r is Some <==> find_point(self@, point, 0) < self@.len(),
            r is Some ==> r->0 == count_of(self@, point),
    {
        match self.position(point) {
            Some(i) => Some(self.entries[i].1),
            None => None,
        }
    }

    /// The bucket bound and the count at index `i`.
    pub fn entry_at(&self, i: usize) -> (e: (i32, i32))
        requires
            i < self@.len(),
        ensures
            e == self@[i as int],
    {
        self.entries[i]
    }

    /// Takes the entries out and leaves the counts empty.
    fn take_entries(&mut self) -> (v: Vec<(i32, i32)>)
        ensures
            v == old(self).entries,
            final(self).entries@.len() == 0,
    {
        let mut emptied = IntervalCounts { entries: Vec::new() };
        std::mem::swap(self, &mut emptied);
        emptied.entries
    }

    /// Adds `amount` to the count under `point`; a bucket that is not there
    /// yet starts at 0.
    pub fn add(&mut self, point: i32, amount: i32)
        requires
            i32::MIN <= count_of(old(self)@, point) + amount <= i32::MAX,
        ensures
            final(self)@ == raised(old(self)@, point, amount),
            count_of(final(self)@, point) == count_of(old(self)@, point) + amount,
            forall|other: i32|
                other != point ==> count_of(final(self)@, other) == count_of(old(self)@, other),
    {
        proof {
            use_type_invariant(&*self);
            lemma_raised(self@, point, amount, point);
            assert forall|other: i32| other != point implies count_of(
                raised(self@, point, amount),
                other,
            ) == count_of(self@, other) by {
                lemma_raised(self@, point, amount, other);
            }
        }
        match self.position(point) {
            Some(i) => {
                let current: i32 = self.entries[i].1;
                let mut entries = self.take_entries();
                entries.set(i, (point, current + amount));
                assert(entries@ =~= raised(old(self)@, point, amount));
                self.entries = entries;
            },
            None => {
                let mut entries = self.take_entries();
                entries.push((point, amount));
                assert(entries@ =~= raised(old(self)@, point, amount));
                self.entries = entries;
            },
        }
    }
}

/// Aggregated metrics of one call chain.
#[derive(Debug)]
pub struct StatMicMsgBody {
    /// Success count
    pub count: i32,
    /// Timeout count
    pub timeout_count: i32,
    /// Exception count
    pub exec_count: i32,
    /// Calls per response-time bucket
    pub interval_count: IntervalCounts,
    /// Total response time (ms)
    pub total_rsp_time: i64,
    /// Longest response time
    pub max_rsp_time: i32,
    /// Shortest response time
    pub min_rsp_time: i32,
}

/// The pairs of a bucket map, each bound at tag 0 and each count at tag 1.
pub open spec fn count_entries(s: Counts) -> Seq<u8>
    decreases s.len(),
{
    if s.len() == 0 {
        Seq::empty()
    } else {
        count_entries(s.drop_last()) + int_field(s.last().0 as int, 0) + int_field(
            s.last().1 as int,
            1,
        )
    }
}

/// A statistics body as mathematics.
pub struct StatBodyView {
    pub count: i32,
    pub timeout_count: i32,
    pub exec_count: i32,
    pub interval_count: Counts,
    pub total_rsp_time: i64,
    pub max_rsp_time: i32,
    pub min_rsp_time: i32,
}

impl View for StatMicMsgBody {
    type V = StatBodyView;

    open spec fn view(&self) -> StatBodyView {
        StatBodyView {
            count: self.count,
            timeout_count: self.timeout_count,
            exec_count: self.exec_count,
            interval_count: self.interval_count@,
            total_rsp_time: self.total_rsp_time,
            max_rsp_time: self.max_rsp_time,
            min_rsp_time: self.min_rsp_time,
        }
    }
}

/// The fields of a statistics body by tag; the buckets are a map at tag 3.
pub open spec fn stat_body_body(v: StatBodyView) -> Seq<u8> {
    int_field(v.count as int, 0) + int_field(v.timeout_count as int, 1) + int_field(
        v.exec_count as int,
        2,
    ) + map_header(v.interval_count.len() as int, 3) + count_entries(v.interval_count)
        + int_field(v.total_rsp_time as int, 4) + int_field(v.max_rsp_time as int, 5) + int_field(
        v.min_rsp_time as int,
        6,
    )
}

/// A statistics body read from `pos` on: every number is required; the
/// buckets are passed over and read as none.
pub open spec fn spec_decode_stat_body(data: Seq<u8>, pos: int) -> Result<
    (StatBodyView, int),
    CodecError,
> {
    match spec_read_int(data, pos, 0, true, 4) {
        Err(e) => Err(e),
        Ok((count, at0)) => match spec_read_int(data, at0, 1, true, 4) {
            Err(e) => Err(e),
            Ok((timeout_count, at1)) => match spec_read_int(data, at1, 2, true, 4) {
                Err(e) => Err(e),
                Ok((exec_count, at2)) => match spec_read_int(data, at2, 4, true, 8) {
                    Err(e) => Err(e),
                    Ok((total, at4)) => match spec_read_int(data, at4, 5, true, 4) {
                        Err(e) => Err(e),
                        Ok((max, at5)) => match spec_read_int(data, at5, 6, true, 4) {
                            Err(e) => Err(e),
                            Ok((min, at6)) => Ok(
                                (
                                    StatBodyView {
                                        count: count as i32,
                                        timeout_count: timeout_count as i32,
                                        exec_count: exec_count as i32,
                                        interval_count: Seq::empty(),
                                        total_rsp_time: total as i64,
                                        max_rsp_time: max as i32,
                                        min_rsp_time: min as i32,
                                    },
                                    at6,
                                ),
                            ),
                        },
                    },
                },
            },
        },
    }
}

/// Whether a number is a value of `i32`.
pub fn fits_i32(v: i64) -> (r: bool)
    ensures
        r == (i32::MIN <= v <= i32::MAX),
{
    v >= -2147483648 && v <= 2147483647
}

/// The larger of two numbers.
pub open spec fn max_of(a: int, b: int) -> int {
    if a >= b {
        a
    } else {
        b
    }
}

/// The smaller of two numbers.
pub open spec fn min_of(a: int, b: int) -> int {
    if a <= b {
        a
    } else {
        b
    }
}

/// Whether two bodies can be merged: no sum leaves its type.
pub open spec fn mergeable(a: StatBodyView, b: StatBodyView) -> bool {
    &&& i32::MIN <= a.count + b.count <= i32::MAX
    &&& i32::MIN <= a.timeout_count + b.timeout_count <= i32::MAX
    &&& i32::MIN <= a.exec_count + b.exec_count <= i32::MAX
    &&& i64::MIN <= a.total_rsp_time + b.total_rsp_time <= i64::MAX
    &&& distinct_points(b.interval_count)
    &&& forall|p: i32|
        i32::MIN <= #[trigger] count_of(a.interval_count, p) + count_of(b.interval_count, p)
            <= i32::MAX
}

/// Whether `after` is `before` with `other` merged into it: counts and
/// total time add up, the longest and shortest times are taken over both,
/// and each bucket has the counts of both.
pub open spec fn merges(before: StatBodyView, other: StatBodyView, after: StatBodyView) -> bool {
    &&& after.count == before.count + other.count
    &&& after.timeout_count == before.timeout_count + other.timeout_count
    &&& after.exec_count == before.exec_count + other.exec_count
    &&& after.total_rsp_time == before.total_rsp_time + other.total_rsp_time
    &&& after.max_rsp_time == max_of(before.max_rsp_time as int, other.max_rsp_time as int)
    &&& after.min_rsp_time == min_of(before.min_rsp_time as int, other.min_rsp_time as int)
    &&& distinct_points(after.interval_count)
    &&& forall|p: i32|
        #[trigger] count_of(after.interval_count, p) == count_of(before.interval_count, p)
            + count_of(other.interval_count, p)
}

impl StatMicMsgBody {
    /// A body that has seen no call: every count 0, the shortest response
    /// time at its maximum.
    pub fn new() -> (b: StatMicMsgBody)
        ensures
            b@ == (StatBodyView {
                count: 0,
                timeout_count: 0,
                exec_count: 0,
                interval_count: Seq::empty(),
                total_rsp_time: 0,
                max_rsp_time: 0,
                min_rsp_time: i32::MAX,
            }),
    {
        StatMicMsgBody {
            count: 0,
            timeout_count: 0,
            exec_count: 0,
            interval_count: IntervalCounts::new(),
            total_rsp_time: 0,
            max_rsp_time: 0,
            min_rsp_time: i32::MAX,
        }
    }

    /// Whether another body can be merged into this one: no sum leaves its
    /// type.
    pub fn can_merge(&self, other: &StatMicMsgBody) -> (r: bool)
        ensures
            r == mergeable(self@, other@),
    {
        other.interval_count.points_distinct();
        let counts_fit: bool = fits_i32(self.count as i64 + other.count as i64) && fits_i32(
            self.timeout_count as i64 + other.timeout_count as i64,
        ) && fits_i32(self.exec_count as i64 + other.exec_count as i64);
        let total: i128 = self.total_rsp_time as i128 + other.total_rsp_time as i128;
        if !counts_fit || total < i64::MIN as i128 || total > i64::MAX as i128 {
            return false;
        }
        let ghost mine = self.interval_count@;
        let ghost theirs = other.interval_count@;
        let n: usize = other.interval_count.len();
        let mut i: usize = 0;
        while i < n
            invariant
                0 <= i <= n,
                n == theirs.len(),
                mine == self.interval_count@,
                theirs == other.interval_count@,
                distinct_points(theirs),
                forall|j: int|
                    0 <= j < i
                        ==> i32::MIN <= count_of(mine, (#[trigger] theirs[j]).0) + theirs[j].1
                        <= i32::MAX,
            decreases n - i,
        {
            let (point, amount) = other.interval_count.entry_at(i);
            let have: i32 = match self.interval_count.get(point) {
                Some(c) => c,
                None => 0,
            };
            if !fits_i32(have as i64 + amount as i64) {
                proof {
                    lemma_count_step(theirs, i as int, point);
                    assert(!(i32::MIN <= count_of(self@.interval_count, point) + count_of(
                        other@.interval_count,
                        point,
                    ) <= i32::MAX));
                    assert(!mergeable(self@, other@));
                }
                return false;
            }
            i = i + 1;
        }
        proof {
            assert forall|p: i32|
                i32::MIN <= #[trigger] count_of(mine, p) + count_of(theirs, p) <= i32::MAX by {
                lemma_find_point(theirs, p, 0);
                let at = find_point(theirs, p, 0);
                if at < theirs.len() {
                    lemma_count_step(theirs, at, p);
                }
            }
        }
        true
    }

    /// Merges another body into this one: counts and total time add up,
    /// the longest and shortest times are taken over both, and each bucket
    /// gets the counts of both.
    pub fn merge(&mut self, other: &StatMicMsgBody)
        requires
            mergeable(old(self)@, other@),
        ensures
            merges(old(self)@, other@, final(self)@),
    {
        self.count = self.count + other.count;
        self.timeout_count = self.timeout_count + other.timeout_count;
        self.exec_count = self.exec_count + other.exec_count;
        self.total_rsp_time = self.total_rsp_time + other.total_rsp_time;
        if other.max_rsp_time > self.max_rsp_time {
            self.max_rsp_time = other.max_rsp_time;
        }
        if other.min_rsp_time < self.min_rsp_time {
            self.min_rsp_time = other.min_rsp_time;
        }
        let mut counts = IntervalCounts::new();
        std::mem::swap(&mut counts, &mut self.interval_count);
        let ghost before = counts@;
        let ghost theirs = other.interval_count@;
        assert(before == old(self).interval_count@);
        assert forall|p: i32|
            i32::MIN <= #[trigger] count_of(before, p) + count_of(theirs, p) <= i32::MAX by {
            assert(i32::MIN <= count_of(old(self)@.interval_count, p) + count_of(
                other@.interval_count,
                p,
            ) <= i32::MAX);
        }
        let n: usize = other.interval_count.len();
        let mut i: usize = 0;
        proof {
            assert forall|p: i32| count_of(theirs.take(0), p) == 0 by {
                lemma_find_point(theirs.take(0), p, 0);
            }
        }
        while i < n
            invariant
                n == theirs.len(),
                theirs == other.interval_count@,
                distinct_points(theirs),
                0 <= i <= n,
                forall|p: i32|
                    i32::MIN <= #[trigger] count_of(before, p) + count_of(theirs, p) <= i32::MAX,
                forall|p: i32|
                    #[trigger] count_of(counts@, p) == count_of(before, p) + count_of(
                        theirs.take(i as int),
                        p,
                    ),
            decreases n - i,
        {
            let (point, amount) = other.interval_count.entry_at(i);
            proof {
                lemma_count_step(theirs, i as int, point);
                assert(count_of(counts@, point) == count_of(before, point) + count_of(
                    theirs.take(i as int),
                    point,
                ));
                assert(count_of(theirs, point) == amount);
                assert(i32::MIN <= count_of(before, point) + count_of(theirs, point) <= i32::MAX);
            }
            let ghost prior = counts@;
            counts.add(point, amount);
            proof {
                assert forall|p: i32| #[trigger] count_of(counts@, p) == count_of(before, p)
                    + count_of(theirs.take(i as int + 1), p) by {
                    lemma_count_step(theirs, i as int, p);
                    assert(count_of(prior, p) == count_of(before, p) + count_of(
                        theirs.take(i as int),
                        p,
                    ));
                }
            }
            i = i + 1;
        }
        assert(theirs.take(n as int) =~= theirs);
        counts.points_distinct();
        self.interval_count = counts;
    }

    /// Counts one response time: adds it to the total, raises the longest
    /// and lowers the shortest time where it passes them, and raises the
    /// count of its bucket by one. A time that does not fit 32 bits counts
    /// as the nearest time that does.
    pub fn add_response_time(&mut self, rsp_time: i64)
        requires
            i64::MIN <= old(self).total_rsp_time + within_i32(rsp_time) <= i64::MAX,
            bucket_of(within_i32(rsp_time) as int) is Some ==> count_of(
                old(self).interval_count@,
                bucket_of(within_i32(rsp_time) as int)->0,
            ) < i32::MAX,
        ensures
            final(self).count == old(self).count,
            final(self).timeout_count == old(self).timeout_count,
            final(self).exec_count == old(self).exec_count,
            final(self).total_rsp_time == old(self).total_rsp_time + within_i32(rsp_time),
            final(self).max_rsp_time == max_of(
                old(self).max_rsp_time as int,
                within_i32(rsp_time) as int,
            ),
            final(self).min_rsp_time == min_of(
                old(self).min_rsp_time as int,
                within_i32(rsp_time) as int,
            ),
            match bucket_of(within_i32(rsp_time) as int) {
                Some(point) => final(self).interval_count@ == raised(
                    old(self).interval_count@,
                    point,
                    1,
                ),
                None => final(self).interval_count@ == old(self).interval_count@,
            },
    {
        let rsp_time_i32: i32 = clamp_time(rsp_time);
        self.total_rsp_time = self.total_rsp_time + rsp_time_i32 as i64;
        if rsp_time_i32 > self.max_rsp_time {
            self.max_rsp_time = rsp_time_i32;
        }
        if rsp_time_i32 < self.min_rsp_time {
            self.min_rsp_time = rsp_time_i32;
        }
        match bucket(rsp_time_i32) {
            Some(point) => {
                let mut counts = IntervalCounts::new();
                std::mem::swap(&mut counts, &mut self.interval_count);
                counts.add(point, 1);
                self.interval_count = counts;
            },
            None => {},
        }
    }

    /// Appends the fields by tag, the buckets as a map from int32 to int32
    /// at tag 3.
    pub fn encode(&self, buf: &mut Buffer) -> (r: Result<(), TarsError>)
        ensures
            self.interval_count@.len() <= i32::MAX ==> r is Ok && final(buf)@ == old(buf)@
                + stat_body_body(self@),
            self.interval_count@.len() > i32::MAX ==> r == Err::<(), TarsError>(
                TarsError::Codec(CodecError::LengthOverflow),
            ),
            old(buf)@.is_prefix_of(final(buf)@),
    {
        let ghost start = buf@;
        let ghost v = self@;
        let _ = buf.write_int32(self.count, 0);
        let _ = buf.write_int32(self.timeout_count, 1);
        let _ = buf.write_int32(self.exec_count, 2);
        let ghost a2 = int_field(v.count as int, 0) + int_field(v.timeout_count as int, 1)
            + int_field(v.exec_count as int, 2);
        assert(buf@ =~= start + a2);
        let n: usize = self.interval_count.len();
        match buf.write_map(n, 3) {
            Ok(()) => {},
            Err(e) => {
                return Err(e);
            },
        }
        let ghost a3 = a2 + map_header(n as int, 3);
        assert(buf@ =~= start + a3);
        let ghost counts = self.interval_count@;
        let mut i: usize = 0;
        while i < n
            invariant
                n == counts.len(),
                counts == self.interval_count@,
                0 <= i <= n,
                buf@ == start + a3 + count_entries(counts.take(i as int)),
            decreases n - i,
        {
            proof {
                assert(counts.take(i as int + 1).drop_last() =~= counts.take(i as int));
                assert(counts.take(i as int + 1).last() == counts[i as int]);
            }
            let (point, amount) = self.interval_count.entry_at(i);
            let _ = buf.write_int32(point, 0);
            let _ = buf.write_int32(amount, 1);
            assert(buf@ =~= start + a3 + count_entries(counts.take(i as int + 1)));
            i = i + 1;
        }
        assert(counts.take(n as int) =~= counts);
        let ghost a4 = a3 + count_entries(counts);
        assert(buf@ =~= start + a4);
        let _ = buf.write_int64(self.total_rsp_time, 4);
        let _ = buf.write_int32(self.max_rsp_time, 5);
        let _ = buf.write_int32(self.min_rsp_time, 6);
        assert(buf@ =~= start + stat_body_body(v));
        Ok(())
    }

    /// Reads the fields by tag: every number is required; the buckets are
    /// passed over and stay empty.
    pub fn decode(reader: &mut Reader) -> (r: Result<StatMicMsgBody, TarsError>)
        ensures
            final(reader).input() == old(reader).input(),
            match spec_decode_stat_body(old(reader).input(), old(reader).offset()) {
                Ok((v, end)) => r is Ok && r->Ok_0@ == v && final(reader).offset() == end,
                Err(e) => r == Err::<StatMicMsgBody, TarsError>(TarsError::Codec(e)),
            },
    {
        let mut body = StatMicMsgBody::new();
        body.count = match reader.read_int32(0, true) {
            Ok(v) => v,
            Err(e) => {
                return Err(e);
            },
        };
        body.timeout_count = match reader.read_int32(1, true) {
            Ok(v) => v,
            Err(e) => {
                return Err(e);
            },
        };
        body.exec_count = match reader.read_int32(2, true) {
            Ok(v) => v,
            Err(e) => {
                return Err(e);
            },
        };
        body.total_rsp_time = match reader.read_int64(4, true) {
            Ok(v) => v,
            Err(e) => {
                return Err(e);
            },
        };
        body.max_rsp_time = match reader.read_int32(5, true) {
            Ok(v) => v,
            Err(e) => {
                return Err(e);
            },
        };
        body.min_rsp_time = match reader.read_int32(6, true) {
            Ok(v) => v,
            Err(e) => {
                return Err(e);
            },
        };
        Ok(body)
    }
}

/// Among distinct buckets, the count of `p` over the first `i + 1` pairs is
/// that over the first `i`, plus the count of pair `i` where its bound is
/// `p`; and the count of a bound over all pairs is the count of its pair.
pub proof fn lemma_count_step(s: Counts, i: int, p: i32)
    requires
        0 <= i < s.len(),
        distinct_points(s),
    ensures
        count_of(s.take(i + 1), p) == count_of(s.take(i), p) + (if s[i].0 == p {
            s[i].1 as int
        } else {
            0
        }),
        s[i].0 == p ==> count_of(s, p) == s[i].1 && count_of(s.take(i), p) == 0,
{
    let a = s.take(i);
    let b = s.take(i + 1);
    lemma_find_point(a, p, 0);
    lemma_find_point(b, p, 0);
    lemma_find_point(s, p, 0);
    let fa = find_point(a, p, 0);
    let fb = find_point(b, p, 0);
    let fs = find_point(s, p, 0);
    if fa < a.len() {
        assert(a[fa] == s[fa]);
        assert(b[fa] == s[fa]);
        assert(s[fa].0 != s[i].0);
        if fb < fa {
            assert(b[fb] == a[fb]);
        }
        assert(fb == fa);
    } else {
        if s[i].0 == p {
            assert(b[i] == s[i]);
            if fb < i {
                assert(b[fb] == a[fb]);
            }
            assert(fb == i);
        } else {
            if fb < b.len() {
                assert(b[fb] == s[fb]);
                if fb < i {
                    assert(a[fb] == s[fb]);
                }
            }
        }
    }
    if s[i].0 == p {
        if fs < i {
            assert(s[fs].0 != s[i].0);
        }
        assert(fs <= i);
        if fa < a.len() {
            assert(s[fa].0 != s[i].0);
        }
    }
}

/// A response time as a 32-bit number: itself where it fits, the nearest
/// bound where it does not.
pub open spec fn within_i32(t: i64) -> i32 {
    if t > i32::MAX {
        i32::MAX
    } else if t < i32::MIN {
        i32::MIN
    } else {
        t as i32
    }
}

/// Brings a response time into 32 bits.
pub fn clamp_time(t: i64) -> (r: i32)
    ensures
        r == within_i32(t),
{
    if t > i32::MAX as i64 {
        i32::MAX
    } else if t < i32::MIN as i64 {
        i32::MIN
    } else {
        t as i32
    }
}

/// One statistics message: a head and its body.
#[derive(Debug)]
pub struct StatInfo {
    pub head: StatMicMsgHead,
    pub body: StatMicMsgBody,
}

impl StatInfo {
    /// A message of the given head and body.
    pub fn new(head: StatMicMsgHead, body: StatMicMsgBody) -> (info: StatInfo)
        ensures
            info.head == head,
            info.body == body,
    {
        StatInfo { head, body }
    }
}

/// Name of the method that reports call statistics.
pub fn stat_report_mic_msg() -> (s: &'static str)
    ensures
        s@ == "reportMicMsg"@,
{
    "reportMicMsg"
}

/// Name of the method that reports samples.
pub fn stat_report_sample_msg() -> (s: &'static str)
    ensures
        s@ == "reportSampleMsg"@,
{
    "reportSampleMsg"
}

/// One entry of a statistics map: the head as a struct at tag 0, the body
/// as a struct at tag 1.
#[verifier::opaque]
pub open spec fn stat_entry(info: StatInfo) -> Seq<u8> {
    struct_field(stat_head_body(info.head@), 0) + struct_field(stat_body_body(info.body@), 1)
}

/// Whether a report fits an entry of a statistics map.
#[verifier::opaque]
pub open spec fn stat_entry_encodable(info: StatInfo) -> bool {
    stat_head_encodable(info.head@) && info.body.interval_count@.len() <= i32::MAX
}

/// The entries of a statistics map, one after the other.
pub open spec fn stat_entries(stats: Seq<StatInfo>) -> Seq<u8>
    decreases stats.len(),
{
    if stats.len() == 0 {
        Seq::empty()
    } else {
        stat_entries(stats.drop_last()) + stat_entry(stats.last())
    }
}

/// Whether a statistics map fits a map field.
pub open spec fn stats_encodable(stats: Seq<StatInfo>) -> bool {
    &&& stats.len() <= i32::MAX
    &&& forall|i: int| 0 <= i < stats.len() ==> stat_entry_encodable(#[trigger] stats[i])
}

/// Appends one statistics message: the head as a struct at tag 0, the body
/// as a struct at tag 1.
fn encode_stat_entry(buf: &mut Buffer, info: &StatInfo) -> (r: Result<(), TarsError>)
    ensures
        stat_entry_encodable(*info) ==> r is Ok && final(buf)@ == old(buf)@ + stat_entry(*info),
        !stat_entry_encodable(*info) ==> r == Err::<(), TarsError>(
            TarsError::Codec(CodecError::LengthOverflow),
        ),
        old(buf)@.is_prefix_of(final(buf)@),
{
    reveal(stat_entry);
    reveal(stat_entry_encodable);
    let ghost before = buf@;
    let _ = buf.write_struct_begin(0);
    match info.head.encode(buf) {
        Ok(()) => {},
        Err(e) => {
            assert(before.is_prefix_of(buf@));
            return Err(e);
        },
    }
    let _ = buf.write_struct_end();
    let ghost first = struct_field(stat_head_body(info.head@), 0);
    assert(buf@ =~= before + first);
    let _ = buf.write_struct_begin(1);
    match info.body.encode(buf) {
        Ok(()) => {},
        Err(e) => {
            assert(before.is_prefix_of(buf@));
            return Err(e);
        },
    }
    let _ = buf.write_struct_end();
    let ghost second = struct_field(stat_body_body(info.body@), 1);
    assert(buf@ =~= before + first + second);
    Ok(())
}

/// Appends a statistics map at `tag`: the number of messages, then each
/// head and body as structs. What was written before a message that does not
/// fit stays.
pub fn encode_stat_map(buf: &mut Buffer, stats: &[StatInfo], tag: u8) -> (r: Result<
    (),
    TarsError,
>)
    ensures
        stats_encodable(stats@) ==> r is Ok && final(buf)@ == old(buf)@ + map_header(
            stats@.len() as int,
            tag,
        ) + stat_entries(stats@),
        !stats_encodable(stats@) ==> r == Err::<(), TarsError>(
            TarsError::Codec(CodecError::LengthOverflow),
        ),
        old(buf)@.is_prefix_of(final(buf)@),
{
    let n: usize = stats.len();
    match buf.write_map(n, tag) {
        Ok(()) => {},
        Err(e) => {
            return Err(e);
        },
    }
    let ghost start = buf@;
    let mut i: usize = 0;
    while i < n
        invariant
            n == stats@.len(),
            n <= i32::MAX,
            0 <= i <= n,
            start == old(buf)@ + map_header(n as int, tag),
            buf@ == start + stat_entries(stats@.take(i as int)),
            forall|j: int| 0 <= j < i ==> stat_entry_encodable(#[trigger] stats@[j]),
        decreases n - i,
    {
        proof {
            assert(stats@.take(i as int + 1).drop_last() =~= stats@.take(i as int));
            assert(stats@.take(i as int + 1).last() == stats@[i as int]);
        }
        let ghost before = buf@;
        match encode_stat_entry(buf, &stats[i]) {
            Ok(()) => {},
            Err(e) => {
                assert(old(buf)@.is_prefix_of(buf@));
                return Err(e);
            },
        }
        assert(buf@ =~= start + stat_entries(stats@.take(i as int + 1)));
        i = i + 1;
    }
    assert(stats@.take(n as int) =~= stats@);
    Ok(())
}

} // verus!
