//! Call statistics: what is reported for a call, how reports add up, and
//! the request that carries them.

use std::time::Duration;
use vstd::prelude::*;

use crate::codec::wire::{int_field, map_header};
use crate::codec::Buffer;
use crate::error::{CodecError, TarsError};
use crate::protocol::packet::RequestPacket;
use crate::protocol::statf::{
    bucket_of, clamp_time, encode_stat_map, mergeable, merges, stat_entries,
    stat_report_mic_msg, stats_encodable, within_i32, StatBodyView, StatHeadView, StatInfo,
    StatMicMsgBody, StatMicMsgHead,
};
use crate::codec::raw::str_eq;
use crate::util::clock::{millis_since, now_millis};

verus! {

/// Configuration of the statistics reporter.
pub struct StatConfig {
    /// Report interval in milliseconds
    pub report_interval_ms: u64,
    /// Channel buffer size
    pub channel_buf_size: usize,
    /// Stat server address
    pub server_addr: String,
    /// Framework version
    pub tars_version: String,
}

impl Default for StatConfig {
    /// A report every ten seconds, a channel of 100000, no server, version
    /// "1.0.0".
    fn default() -> (c: StatConfig)
        ensures
            c.report_interval_ms == 10000,
            c.channel_buf_size == 100000,
            c.server_addr@.len() == 0,
            c.tars_version@ == "1.0.0"@,
    {
        StatConfig {
            report_interval_ms: 10000,
            channel_buf_size: 100000,
            server_addr: String::new(),
            tars_version: "1.0.0".to_owned(),
        }
    }
}

/// How a call has ended, for the statistics.
#[derive(Debug, Clone, Copy, PartialEq, Eq, Structural)]
pub enum CallEnd {
    /// The call succeeded.
    Success,
    /// The call ran out of time.
    Timeout,
    /// The call ended with this return code.
    Exception(i32),
}

/// The return value that is reported for the end of a call.
pub open spec fn reported_value(end: CallEnd) -> i32 {
    match end {
        CallEnd::Success => 0,
        CallEnd::Timeout => (-3i32),
        CallEnd::Exception(ret) => ret,
    }
}

/// The body that is reported for one call that took `cost_ms`, a time
/// that fits 32 bits.
pub open spec fn single_body(success: int, timeout: int, exec: int, cost_ms: i64) -> StatBodyView {
    StatBodyView {
        count: success as i32,
        timeout_count: timeout as i32,
        exec_count: exec as i32,
        interval_count: match bucket_of(cost_ms as int) {
            Some(point) => seq![(point, 1i32)],
            None => Seq::empty(),
        },
        total_rsp_time: cost_ms,
        max_rsp_time: if cost_ms > 0 {
            cost_ms as i32
        } else {
            0
        },
        min_rsp_time: cost_ms as i32,
    }
}

/// Makes the reports of calls.
pub struct StatReporter {
    local_ip: String,
    tars_version: String,
}

impl StatReporter {
    /// The address of this machine as mathematics.
    pub closed spec fn here(&self) -> Seq<char> {
        self.local_ip@
    }

    /// The framework version as mathematics.
    pub closed spec fn version(&self) -> Seq<char> {
        self.tars_version@
    }

    /// The head of the report of a call made by this client: the callee's
    /// name, method and address, this machine as the caller, and the value
    /// that the call returned.
    pub open spec fn call_head(
        &self,
        servant: Seq<char>,
        func: Seq<char>,
        slave_ip: Seq<char>,
        slave_port: i32,
        return_value: i32,
    ) -> StatHeadView {
        StatHeadView {
            master_name: Seq::empty(),
            slave_name: servant,
            interface_name: func,
            master_ip: self.here(),
            slave_ip,
            slave_port,
            return_value,
            slave_set_name: Seq::empty(),
            slave_set_area: Seq::empty(),
            slave_set_id: Seq::empty(),
            tars_version: self.version(),
        }
    }

    /// A reporter for this machine, "127.0.0.1".
    pub fn new(config: &StatConfig) -> (r: StatReporter)
        ensures
            r.here() == "127.0.0.1"@,
            r.version() == config.tars_version@,
    {
        StatReporter { local_ip: "127.0.0.1".to_owned(), tars_version: config.tars_version.clone() }
    }

    /// The body for one call.
    fn body_of(success: i32, timeout: i32, exec: i32, cost_ms: i64) -> (b: StatMicMsgBody)
        requires
            i32::MIN <= cost_ms <= i32::MAX,
        ensures
            b@ == single_body(success as int, timeout as int, exec as int, cost_ms),
    {
        let mut body = StatMicMsgBody::new();
        body.count = success;
        body.timeout_count = timeout;
        body.exec_count = exec;
        proof {
            if bucket_of(cost_ms as int) is Some {
                crate::protocol::statf::lemma_find_point(
                    Seq::<(i32, i32)>::empty(),
                    bucket_of(cost_ms as int)->0,
                    0,
                );
            }
        }
        body.add_response_time(cost_ms);
        assert(body.interval_count@ =~= single_body(
            success as int,
            timeout as int,
            exec as int,
            cost_ms,
        ).interval_count);
        body
    }

    /// The report of a call made by this client: the callee's name, method
    /// and address, this machine as the caller, and one success, timeout or
    /// exception with the time the call took.
    pub fn report_call(
        &self,
        servant: &str,
        func: &str,
        slave_ip: &str,
        slave_port: i32,
        end: CallEnd,
        cost_ms: i64,
    ) -> (info: StatInfo)
        ensures
            info.head@ == self.call_head(
                servant@,
                func@,
                slave_ip@,
                slave_port,
                reported_value(end),
            ),
            info.body@ == (match end {
                CallEnd::Success => single_body(1, 0, 0, within_i32(cost_ms) as i64),
                CallEnd::Timeout => single_body(0, 1, 0, within_i32(cost_ms) as i64),
                CallEnd::Exception(_) => single_body(0, 0, 1, within_i32(cost_ms) as i64),
            }),
    {
        let return_value: i32 = match end {
            CallEnd::Success => 0,
            CallEnd::Timeout => -3,
            CallEnd::Exception(ret) => ret,
        };
        let head = StatMicMsgHead {
            master_name: String::new(),
            slave_name: servant.to_owned(),
            interface_name: func.to_owned(),
            master_ip: self.local_ip.clone(),
            slave_ip: slave_ip.to_owned(),
            slave_port,
            return_value,
            slave_set_name: String::new(),
            slave_set_area: String::new(),
            slave_set_id: String::new(),
            tars_version: self.tars_version.clone(),
        };
        let body = match end {
            CallEnd::Success => Self::body_of(1, 0, 0, clamp_time(cost_ms) as i64),
            CallEnd::Timeout => Self::body_of(0, 1, 0, clamp_time(cost_ms) as i64),
            CallEnd::Exception(_) => Self::body_of(0, 0, 1, clamp_time(cost_ms) as i64),
        };
        StatInfo::new(head, body)
    }

    /// The report of a successful call.
    pub fn report_success(
        &self,
        servant: &str,
        func: &str,
        slave_ip: &str,
        slave_port: i32,
        cost_ms: i64,
    ) -> (info: StatInfo)
        ensures
            info.head@ == self.call_head(servant@, func@, slave_ip@, slave_port, 0),
            info.body@ == single_body(1, 0, 0, within_i32(cost_ms) as i64),
    {
        self.report_call(servant, func, slave_ip, slave_port, CallEnd::Success, cost_ms)
    }

    /// The report of a call that ran out of time.
    pub fn report_timeout(
        &self,
        servant: &str,
        func: &str,
        slave_ip: &str,
        slave_port: i32,
        cost_ms: i64,
    ) -> (info: StatInfo)
        ensures
            info.head@ == self.call_head(servant@, func@, slave_ip@, slave_port, (-3i32)),
            info.body@ == single_body(0, 1, 0, within_i32(cost_ms) as i64),
    {
        self.report_call(servant, func, slave_ip, slave_port, CallEnd::Timeout, cost_ms)
    }

    /// The report of a call that ended with a return code.
    pub fn report_exception(
        &self,
        servant: &str,
        func: &str,
        slave_ip: &str,
        slave_port: i32,
        ret: i32,
        cost_ms: i64,
    ) -> (info: StatInfo)
        ensures
            info.head@ == self.call_head(servant@, func@, slave_ip@, slave_port, ret),
            info.body@ == single_body(0, 0, 1, within_i32(cost_ms) as i64),
    {
        self.report_call(servant, func, slave_ip, slave_port, CallEnd::Exception(ret), cost_ms)
    }

    /// The report of a call that this server has handled: the caller's
    /// address as the caller, "stat_from_server" as the callee, and one
    /// success for return code 0, one exception otherwise.
    pub fn report_from_server(&self, func: &str, client_ip: &str, ret: i32, cost_ms: i64) -> (info:
        StatInfo)
        ensures
            info.head@ == (StatHeadView {
                master_name: client_ip@,
                slave_name: "stat_from_server"@,
                interface_name: func@,
                master_ip: client_ip@,
                slave_ip: self.here(),
                slave_port: 0,
                return_value: ret,
                slave_set_name: Seq::empty(),
                slave_set_area: Seq::empty(),
                slave_set_id: Seq::empty(),
                tars_version: self.version(),
            }),
            info.body@ == (if ret == 0 {
                single_body(1, 0, 0, within_i32(cost_ms) as i64)
            } else {
                single_body(0, 0, 1, within_i32(cost_ms) as i64)
            }),
    {
        let head = StatMicMsgHead {
            master_name: client_ip.to_owned(),
            slave_name: "stat_from_server".to_owned(),
            interface_name: func.to_owned(),
            master_ip: client_ip.to_owned(),
            slave_ip: self.local_ip.clone(),
            slave_port: 0,
            return_value: ret,
            slave_set_name: String::new(),
            slave_set_area: String::new(),
            slave_set_id: String::new(),
            tars_version: self.tars_version.clone(),
        };
        let body = if ret == 0 {
            Self::body_of(1, 0, 0, clamp_time(cost_ms) as i64)
        } else {
            Self::body_of(0, 0, 1, clamp_time(cost_ms) as i64)
        };
        StatInfo::new(head, body)
    }

    /// Starts the timer of a call now: at the milliseconds that the clock
    /// gives.
    pub fn start_call(&self) -> (t: CallTimer)
        ensures
            t.started() >= 0,
            exists|span: Option<Duration>| t.started() == #[trigger] millis_since(span),
    {
        CallTimer { start: now_millis() }
    }
}

/// The place of the reporter that a whole process shares.
pub struct GlobalStatReporter {
    reporter: Option<StatReporter>,
}

impl GlobalStatReporter {
    /// Whether a reporter was set.
    pub closed spec fn is_set(&self) -> bool {
        self.reporter is Some
    }

    /// The reporter that was set.
    pub closed spec fn held(&self) -> StatReporter
        recommends
            self.is_set(),
    {
        self.reporter->0
    }

    /// A place without a reporter.
    pub fn new() -> (g: GlobalStatReporter)
        ensures
            !g.is_set(),
    {
        GlobalStatReporter { reporter: None }
    }

    /// Sets the reporter, in place of one that was there.
    pub fn init(&mut self, reporter: StatReporter)
        ensures
            final(self).is_set(),
            final(self).held() == reporter,
    {
        self.reporter = Some(reporter);
    }

    /// The reporter, where one was set.
    pub fn reporter(&self) -> (r: Option<&StatReporter>)
        ensures
            r is Some <==> self.is_set(),
            r is Some ==> *r->0 == self.held(),
    {
        self.reporter.as_ref()
    }
}

/// The milliseconds from `start` to `now` as a 64-bit number: 0 for a time
/// before the start, the greatest number where the difference does not fit.
pub open spec fn lasted(start: i64, now: i64) -> i64 {
    if now <= start {
        0
    } else if now - start > i64::MAX {
        i64::MAX
    } else {
        (now - start) as i64
    }
}

/// Measures how long a call takes.
pub struct CallTimer {
    start: i64,
}

impl CallTimer {
    /// The time the call started, in milliseconds.
    pub closed spec fn started(&self) -> i64 {
        self.start
    }

    /// A timer that started at `now`.
    pub fn start_at(now: i64) -> (t: CallTimer)
        ensures
            t.started() == now,
    {
        CallTimer { start: now }
    }

    /// The milliseconds since the start at the time `now`; 0 for a time
    /// before the start.
    pub fn elapsed_ms_at(&self, now: i64) -> (r: i64)
        ensures
            r == lasted(self.started(), now),
    {
        if now <= self.start {
            0
        } else {
            let d: i128 = now as i128 - self.start as i128;
            if d > i64::MAX as i128 {
                i64::MAX
            } else {
                d as i64
            }
        }
    }

    /// The milliseconds since the start.
    pub fn elapsed_ms(&self) -> (r: i64)
        ensures
            r >= 0,
            exists|now: i64| r == #[trigger] lasted(self.started(), now),
    {
        self.elapsed_ms_at(now_millis())
    }
}

/// Adds up the reports between two sendings, those of this client's calls
/// apart from those of calls this server has handled.
pub struct StatTable {
    client_stats: Vec<StatInfo>,
    server_stats: Vec<StatInfo>,
}

/// The index of the first report at or behind `from` with the head `head`,
/// or the number of reports where there is none.
pub open spec fn find_head(s: Seq<StatInfo>, head: StatHeadView, from: int) -> int
    decreases s.len() - from,
{
    if from < 0 || from >= s.len() {
        s.len() as int
    } else if s[from].head@ == head {
        from
    } else {
        find_head(s, head, from + 1)
    }
}

/// Whether a report can be added to a list: where a report with its head
/// is there, the two bodies can be merged.
pub open spec fn can_add(stats: Seq<StatInfo>, info: StatInfo) -> bool {
    find_head(stats, info.head@, 0) < stats.len() ==> mergeable(
        stats[find_head(stats, info.head@, 0)].body@,
        info.body@,
    )
}

/// Whether `after` is the list `before` with a report added: its body
/// merged into the first report with the same head, or the report at the
/// end; every other report as it was.
pub open spec fn added(before: Seq<StatInfo>, info: StatInfo, after: Seq<StatInfo>) -> bool {
    let at = find_head(before, info.head@, 0);
    if at >= before.len() {
        after == before.push(info)
    } else {
        &&& after.len() == before.len()
        &&& 0 <= at
        &&& after[at].head == before[at].head
        &&& merges(before[at].body@, info.body@, after[at].body@)
        &&& forall|j: int| 0 <= j < before.len() && j != at ==> after[j] == before[j]
    }
}

/// Where a search for a head ends.
pub proof fn lemma_find_head(s: Seq<StatInfo>, head: StatHeadView, from: int)
    requires
        0 <= from <= s.len(),
    ensures
        from <= find_head(s, head, from) <= s.len(),
        find_head(s, head, from) < s.len() ==> s[find_head(s, head, from)].head@ == head,
    decreases s.len() - from,
{
    if from < s.len() && s[from].head@ != head {
        lemma_find_head(s, head, from + 1);
    }
}

impl StatTable {
    /// The reports of this client's calls.
    pub closed spec fn client(&self) -> Seq<StatInfo> {
        self.client_stats@
    }

    /// The reports of calls this server has handled.
    pub closed spec fn server(&self) -> Seq<StatInfo> {
        self.server_stats@
    }

    /// A table without reports.
    pub fn new() -> (t: StatTable)
        ensures
            t.client().len() == 0,
            t.server().len() == 0,
    {
        StatTable { client_stats: Vec::new(), server_stats: Vec::new() }
    }

    /// The index of the report with a head.
    fn position(stats: &Vec<StatInfo>, head: &StatMicMsgHead) -> (r: Option<usize>)
        ensures
            match r {
                Some(i) => i == find_head(stats@, head@, 0) && i < stats@.len(),
                None => find_head(stats@, head@, 0) >= stats@.len(),
            },
    {
        let mut i: usize = 0;
        while i < stats.len()
            invariant
                0 <= i <= stats@.len(),
                find_head(stats@, head@, 0) == find_head(stats@, head@, i as int),
            decreases stats@.len() - i,
        {
            if stats[i].head.same_as(head) {
                return Some(i);
            }
            i = i + 1;
        }
        None
    }

    /// Whether a report is of a call that this server has handled.
    pub fn is_from_server(info: &StatInfo) -> (r: bool)
        ensures
            r == (info.head@.slave_name == "stat_from_server"@),
    {
        str_eq(info.head.slave_name.as_str(), "stat_from_server")
    }

    /// Adds a report to a list: merged into the report with the same head
    /// where there is one, else added at the end.
    pub fn add_to(stats: &mut Vec<StatInfo>, info: StatInfo)
        requires
            can_add(old(stats)@, info),
        ensures
            added(old(stats)@, info, final(stats)@),
    {
        proof {
            lemma_find_head(stats@, info.head@, 0);
        }
        match Self::position(stats, &info.head) {
            Some(i) => {
                let mut existing = stats.remove(i);
                let ghost head_before = existing.head;
                existing.body.merge(&info.body);
                assert(existing.head == head_before);
                stats.insert(i, existing);
                assert(stats@ =~= old(stats)@.update(i as int, existing));
            },
            None => {
                stats.push(info);
            },
        }
    }

    /// Takes a report that has arrived into the list it belongs to: that of
    /// calls this server has handled where the callee is "stat_from_server",
    /// that of this client's calls otherwise.
    pub fn record(&mut self, info: StatInfo)
        requires
            info.head@.slave_name == "stat_from_server"@ ==> can_add(old(self).server(), info),
            info.head@.slave_name != "stat_from_server"@ ==> can_add(old(self).client(), info),
        ensures
            info.head@.slave_name == "stat_from_server"@
                ==> final(self).client() == old(self).client()
                && added(old(self).server(), info, final(self).server()),
            info.head@.slave_name != "stat_from_server"@
                ==> final(self).server() == old(self).server()
                && added(old(self).client(), info, final(self).client()),
    {
        if Self::is_from_server(&info) {
            Self::add_to(&mut self.server_stats, info);
        } else {
            Self::add_to(&mut self.client_stats, info);
        }
    }

    /// Whether a report can be taken into the list it belongs to.
    pub fn can_record(&self, info: &StatInfo) -> (r: bool)
        ensures
            r == (if info.head@.slave_name == "stat_from_server"@ {
                can_add(self.server(), *info)
            } else {
                can_add(self.client(), *info)
            }),
    {
        let stats = if Self::is_from_server(info) {
            &self.server_stats
        } else {
            &self.client_stats
        };
        match Self::position(stats, &info.head) {
            Some(i) => stats[i].body.can_merge(&info.body),
            None => true,
        }
    }

    /// Takes a report that has arrived into the list it belongs to, if it
    /// can be added there; a report that cannot is dropped. Returns whether
    /// the report was taken.
    pub fn try_record(&mut self, info: StatInfo) -> (taken: bool)
        ensures
            taken == (if info.head@.slave_name == "stat_from_server"@ {
                can_add(old(self).server(), info)
            } else {
                can_add(old(self).client(), info)
            }),
            !taken ==> final(self).client() == old(self).client()
                && final(self).server() == old(self).server(),
            taken && info.head@.slave_name == "stat_from_server"@
                ==> final(self).client() == old(self).client()
                && added(old(self).server(), info, final(self).server()),
            taken && info.head@.slave_name != "stat_from_server"@
                ==> final(self).server() == old(self).server()
                && added(old(self).client(), info, final(self).client()),
    {
        if !self.can_record(&info) {
            return false;
        }
        self.record(info);
        true
    }

    /// Acts on the report timer: what has added up leaves, each list for
    /// sending where there is a server and it holds something, and the table
    /// is empty afterwards.
    pub fn tick(&mut self, has_server: bool) -> (batches: (Option<Vec<StatInfo>>, Option<Vec<StatInfo>>))
        ensures
            final(self).client().len() == 0,
            final(self).server().len() == 0,
            has_server && old(self).client().len() > 0 ==> batches.0 is Some && batches.0->0@
                == old(self).client(),
            !(has_server && old(self).client().len() > 0) ==> batches.0 is None,
            has_server && old(self).server().len() > 0 ==> batches.1 is Some && batches.1->0@
                == old(self).server(),
            !(has_server && old(self).server().len() > 0) ==> batches.1 is None,
    {
        let mut client: Vec<StatInfo> = Vec::new();
        let mut server: Vec<StatInfo> = Vec::new();
        std::mem::swap(&mut client, &mut self.client_stats);
        std::mem::swap(&mut server, &mut self.server_stats);
        let first = if has_server && client.len() > 0 {
            Some(client)
        } else {
            None
        };
        let second = if has_server && server.len() > 0 {
            Some(server)
        } else {
            None
        };
        (first, second)
    }
}

/// The payload of a statistics call: the reports as a map at tag 0, and at
/// tag 1 whether they are of this client's calls.
pub open spec fn stat_payload(stats: Seq<StatInfo>, from_client: bool) -> Seq<u8> {
    map_header(stats.len() as int, 0) + stat_entries(stats) + int_field(
        if from_client {
            1int
        } else {
            0int
        },
        1,
    )
}

/// Builds the request that carries reports: a call of "reportMicMsg" at
/// "tars.tarsstat.StatObj" with a timeout of three seconds. Reports that do
/// not fit their fields are refused.
pub fn build_stat_request(stats: &[StatInfo], from_client: bool) -> (r: Result<
    RequestPacket,
    TarsError,
>)
    ensures
        stats_encodable(stats@) ==> r is Ok && r->Ok_0.s_buffer@ == stat_payload(
            stats@,
            from_client,
        ) && r->Ok_0.s_servant_name@ == "tars.tarsstat.StatObj"@ && r->Ok_0.s_func_name@
            == "reportMicMsg"@ && r->Ok_0.i_timeout == 3000 && r->Ok_0.c_packet_type == 0
            && r->Ok_0.i_version == 1 && r->Ok_0.i_request_id == 0 && r->Ok_0.i_message_type == 0
            && r->Ok_0.context@.len() == 0 && r->Ok_0.status@.len() == 0,
        !stats_encodable(stats@) ==> r == Err::<RequestPacket, TarsError>(
            TarsError::Codec(CodecError::LengthOverflow),
        ),
{
    let mut body_buf = Buffer::new();
    match encode_stat_map(&mut body_buf, stats, 0) {
        Ok(()) => {},
        Err(e) => {
            return Err(e);
        },
    }
    let _ = body_buf.write_bool(from_client, 1);
    assert(body_buf@ =~= stat_payload(stats@, from_client));
    let mut req = RequestPacket::new();
    req.s_servant_name = "tars.tarsstat.StatObj".to_owned();
    req.s_func_name = stat_report_mic_msg().to_owned();
    req.s_buffer = body_buf.to_bytes();
    req.i_timeout = 3000;
    Ok(req)
}

} // verus!
