//! Configuration structures.

use std::time::Duration;
use vstd::prelude::*;

use super::duration::{duration_from_millis, millis_of};

verus! {

pub fn default_accept_timeout() -> (r: u64)
    ensures
        r == 10000,
{
    10000
}

pub fn default_read_timeout() -> (r: u64)
    ensures
        r == 60000,
{
    60000
}

pub fn default_write_timeout() -> (r: u64)
    ensures
        r == 60000,
{
    60000
}

pub fn default_handle_timeout() -> (r: u64)
    ensures
        r == 60000,
{
    60000
}

pub fn default_idle_timeout() -> (r: u64)
    ensures
        r == 600000,
{
    600000
}

pub fn default_max_invoke() -> (r: i32)
    ensures
        r == 200000,
{
    200000
}

pub fn default_queue_cap() -> (r: usize)
    ensures
        r == 10000,
{
    10000
}

pub fn default_tcp_read_buffer() -> (r: usize)
    ensures
        r == 131072,
{
    131072
}

pub fn default_tcp_write_buffer() -> (r: usize)
    ensures
        r == 131072,
{
    131072
}

pub fn default_tcp_no_delay() -> (r: bool)
    ensures
        !r,
{
    false
}

pub fn default_async_timeout() -> (r: u64)
    ensures
        r == 3000,
{
    3000
}

pub fn default_refresh_interval() -> (r: u64)
    ensures
        r == 60000,
{
    60000
}

pub fn default_report_interval() -> (r: u64)
    ensures
        r == 10000,
{
    10000
}

pub fn default_sample_rate() -> (r: u32)
    ensures
        r == 1000,
{
    1000
}

pub fn default_max_sample_count() -> (r: u32)
    ensures
        r == 100,
{
    100
}

pub fn default_dial_timeout() -> (r: u64)
    ensures
        r == 3000,
{
    3000
}

pub fn default_client_idle_timeout() -> (r: u64)
    ensures
        r == 600000,
{
    600000
}

pub fn default_client_read_timeout() -> (r: u64)
    ensures
        r == 3000,
{
    3000
}

pub fn default_client_write_timeout() -> (r: u64)
    ensures
        r == 3000,
{
    3000
}

pub fn default_client_queue_len() -> (r: usize)
    ensures
        r == 10000,
{
    10000
}

pub fn default_obj_queue_max() -> (r: i32)
    ensures
        r == 10000,
{
    10000
}

pub fn default_keep_alive_interval() -> (r: u64)
    ensures
        r == 60000,
{
    60000
}

/// Adapter (listener) configuration.
#[derive(Debug)]
pub struct AdapterConfig {
    /// Servant name
    pub servant: String,
    /// Endpoint string
    pub endpoint: String,
    /// Protocol type (tars or not_tars)
    pub protocol: String,
    /// Max connections
    pub max_conn: i32,
    /// Thread count
    pub threads: i32,
    /// Queue capacity
    pub queue_cap: i32,
    /// Queue timeout in milliseconds
    pub queue_timeout: i32,
}

/// An adapter configuration as mathematics.
pub struct AdapterConfigView {
    pub servant: Seq<char>,
    pub endpoint: Seq<char>,
    pub protocol: Seq<char>,
    pub max_conn: i32,
    pub threads: i32,
    pub queue_cap: i32,
    pub queue_timeout: i32,
}

impl View for AdapterConfig {
    type V = AdapterConfigView;

    open spec fn view(&self) -> AdapterConfigView {
        AdapterConfigView {
            servant: self.servant@,
            endpoint: self.endpoint@,
            protocol: self.protocol@,
            max_conn: self.max_conn,
            threads: self.threads,
            queue_cap: self.queue_cap,
            queue_timeout: self.queue_timeout,
        }
    }
}

/// The default adapter configuration: protocol "tars", everything else
/// empty or zero.
pub open spec fn default_adapter() -> AdapterConfigView {
    AdapterConfigView {
        servant: Seq::empty(),
        endpoint: Seq::empty(),
        protocol: "tars"@,
        max_conn: 0,
        threads: 0,
        queue_cap: 0,
        queue_timeout: 0,
    }
}

impl Default for AdapterConfig {
    /// An adapter of protocol "tars" with everything else empty or zero.
    fn default() -> (c: AdapterConfig)
        ensures
            c@ == default_adapter(),
    {
        AdapterConfig {
            servant: String::new(),
            endpoint: String::new(),
            protocol: "tars".to_owned(),
            max_conn: 0,
            threads: 0,
            queue_cap: 0,
            queue_timeout: 0,
        }
    }
}

/// Server configuration.
#[derive(Debug)]
pub struct ServerConfig {
    /// Application name
    pub app: String,
    /// Server name
    pub server: String,
    /// Base path
    pub base_path: String,
    /// Data path
    pub data_path: String,
    /// Log path
    pub log_path: String,
    /// Log level
    pub log_level: String,
    /// Local endpoint
    pub local: String,
    /// Node address
    pub node: String,
    /// Log server
    pub log: String,
    /// Config server
    pub config: String,
    /// Notify server
    pub notify: String,
    /// Enable SET routing
    pub enable_set: bool,
    /// SET division
    pub set_division: String,
    /// Accept timeout in milliseconds
    pub accept_timeout: u64,
    /// Read timeout in milliseconds
    pub read_timeout: u64,
    /// Write timeout in milliseconds
    pub write_timeout: u64,
    /// Handle timeout in milliseconds
    pub handle_timeout: u64,
    /// Idle timeout in milliseconds
    pub idle_timeout: u64,
    /// Max concurrent invokes
    pub max_invoke: i32,
    /// Queue capacity
    pub queue_cap: usize,
    /// TCP read buffer size
    pub tcp_read_buffer: usize,
    /// TCP write buffer size
    pub tcp_write_buffer: usize,
    /// TCP no delay
    pub tcp_no_delay: bool,
    /// Adapter configurations, each under its name
    pub adapters: Vec<(String, AdapterConfig)>,
}

/// The adapter configurations of a list as mathematics, each under its
/// name.
pub open spec fn adapter_views(list: Seq<(String, AdapterConfig)>) -> Seq<
    (Seq<char>, AdapterConfigView),
> {
    Seq::new(list.len(), |i: int| (list[i].0@, list[i].1@))
}

/// A server configuration as mathematics.
pub struct ServerConfigView {
    pub app: Seq<char>,
    pub server: Seq<char>,
    pub base_path: Seq<char>,
    pub data_path: Seq<char>,
    pub log_path: Seq<char>,
    pub log_level: Seq<char>,
    pub local: Seq<char>,
    pub node: Seq<char>,
    pub log: Seq<char>,
    pub config: Seq<char>,
    pub notify: Seq<char>,
    pub enable_set: bool,
    pub set_division: Seq<char>,
    pub accept_timeout: u64,
    pub read_timeout: u64,
    pub write_timeout: u64,
    pub handle_timeout: u64,
    pub idle_timeout: u64,
    pub max_invoke: i32,
    pub queue_cap: usize,
    pub tcp_read_buffer: usize,
    pub tcp_write_buffer: usize,
    pub tcp_no_delay: bool,
    pub adapters: Seq<(Seq<char>, AdapterConfigView)>,
}

impl View for ServerConfig {
    type V = ServerConfigView;

    open spec fn view(&self) -> ServerConfigView {
        ServerConfigView {
            app: self.app@,
            server: self.server@,
            base_path: self.base_path@,
            data_path: self.data_path@,
            log_path: self.log_path@,
            log_level: self.log_level@,
            local: self.local@,
            node: self.node@,
            log: self.log@,
            config: self.config@,
            notify: self.notify@,
            enable_set: self.enable_set,
            set_division: self.set_division@,
            accept_timeout: self.accept_timeout,
            read_timeout: self.read_timeout,
            write_timeout: self.write_timeout,
            handle_timeout: self.handle_timeout,
            idle_timeout: self.idle_timeout,
            max_invoke: self.max_invoke,
            queue_cap: self.queue_cap,
            tcp_read_buffer: self.tcp_read_buffer,
            tcp_write_buffer: self.tcp_write_buffer,
            tcp_no_delay: self.tcp_no_delay,
            adapters: adapter_views(self.adapters@),
        }
    }
}

/// The default server configuration: the default timers and limits, log
/// level "INFO", every other text empty, no adapter.
pub open spec fn default_server() -> ServerConfigView {
    ServerConfigView {
        app: Seq::empty(),
        server: Seq::empty(),
        base_path: Seq::empty(),
        data_path: Seq::empty(),
        log_path: Seq::empty(),
        log_level: "INFO"@,
        local: Seq::empty(),
        node: Seq::empty(),
        log: Seq::empty(),
        config: Seq::empty(),
        notify: Seq::empty(),
        enable_set: false,
        set_division: Seq::empty(),
        accept_timeout: 10000,
        read_timeout: 60000,
        write_timeout: 60000,
        handle_timeout: 60000,
        idle_timeout: 600000,
        max_invoke: 200000,
        queue_cap: 10000,
        tcp_read_buffer: 131072,
        tcp_write_buffer: 131072,
        tcp_no_delay: false,
        adapters: Seq::empty(),
    }
}

impl Default for ServerConfig {
    /// The server configuration with the default timers and limits, log
    /// level "INFO" and every other text empty.
    fn default() -> (c: ServerConfig)
        ensures
            c@ == default_server(),
    {
        let c = ServerConfig {
            app: String::new(),
            server: String::new(),
            base_path: String::new(),
            data_path: String::new(),
            log_path: String::new(),
            log_level: "INFO".to_owned(),
            local: String::new(),
            node: String::new(),
            log: String::new(),
            config: String::new(),
            notify: String::new(),
            enable_set: false,
            set_division: String::new(),
            accept_timeout: default_accept_timeout(),
            read_timeout: default_read_timeout(),
            write_timeout: default_write_timeout(),
            handle_timeout: default_handle_timeout(),
            idle_timeout: default_idle_timeout(),
            max_invoke: default_max_invoke(),
            queue_cap: default_queue_cap(),
            tcp_read_buffer: default_tcp_read_buffer(),
            tcp_write_buffer: default_tcp_write_buffer(),
            tcp_no_delay: default_tcp_no_delay(),
            adapters: Vec::new(),
        };
        assert(adapter_views(c.adapters@) =~= Seq::empty());
        c
    }
}

impl ServerConfig {
    /// The accept timeout as a span of time.
    pub fn accept_timeout_duration(&self) -> (d: Duration)
        ensures
            millis_of(d) == self.accept_timeout,
    {
        duration_from_millis(self.accept_timeout)
    }

    /// The read timeout as a span of time.
    pub fn read_timeout_duration(&self) -> (d: Duration)
        ensures
            millis_of(d) == self.read_timeout,
    {
        duration_from_millis(self.read_timeout)
    }

    /// The write timeout as a span of time.
    pub fn write_timeout_duration(&self) -> (d: Duration)
        ensures
            millis_of(d) == self.write_timeout,
    {
        duration_from_millis(self.write_timeout)
    }

    /// The handle timeout as a span of time.
    pub fn handle_timeout_duration(&self) -> (d: Duration)
        ensures
            millis_of(d) == self.handle_timeout,
    {
        duration_from_millis(self.handle_timeout)
    }

    /// The idle timeout as a span of time.
    pub fn idle_timeout_duration(&self) -> (d: Duration)
        ensures
            millis_of(d) == self.idle_timeout,
    {
        duration_from_millis(self.idle_timeout)
    }
}

/// Client configuration.
#[derive(Debug)]
pub struct ClientConfig {
    /// Locator address
    pub locator: String,
    /// Stat server
    pub stat: String,
    /// Property server
    pub property: String,
    /// Async invoke timeout in milliseconds
    pub async_invoke_timeout: u64,
    /// Refresh endpoint interval in milliseconds
    pub refresh_endpoint_interval: u64,
    /// Report interval in milliseconds
    pub report_interval: u64,
    /// Sample rate
    pub sample_rate: u32,
    /// Max sample count
    pub max_sample_count: u32,
    /// Dial timeout in milliseconds
    pub dial_timeout: u64,
    /// Idle timeout in milliseconds
    pub idle_timeout: u64,
    /// Read timeout in milliseconds
    pub read_timeout: u64,
    /// Write timeout in milliseconds
    pub write_timeout: u64,
    /// Queue length
    pub queue_len: usize,
    /// Object queue max
    pub obj_queue_max: i32,
    /// Keep alive interval in milliseconds
    pub keep_alive_interval: u64,
}

/// A client configuration as mathematics.
pub struct ClientConfigView {
    pub locator: Seq<char>,
    pub stat: Seq<char>,
    pub property: Seq<char>,
    pub async_invoke_timeout: u64,
    pub refresh_endpoint_interval: u64,
    pub report_interval: u64,
    pub sample_rate: u32,
    pub max_sample_count: u32,
    pub dial_timeout: u64,
    pub idle_timeout: u64,
    pub read_timeout: u64,
    pub write_timeout: u64,
    pub queue_len: usize,
    pub obj_queue_max: i32,
    pub keep_alive_interval: u64,
}

impl View for ClientConfig {
    type V = ClientConfigView;

    open spec fn view(&self) -> ClientConfigView {
        ClientConfigView {
            locator: self.locator@,
            stat: self.stat@,
            property: self.property@,
            async_invoke_timeout: self.async_invoke_timeout,
            refresh_endpoint_interval: self.refresh_endpoint_interval,
            report_interval: self.report_interval,
            sample_rate: self.sample_rate,
            max_sample_count: self.max_sample_count,
            dial_timeout: self.dial_timeout,
            idle_timeout: self.idle_timeout,
            read_timeout: self.read_timeout,
            write_timeout: self.write_timeout,
            queue_len: self.queue_len,
            obj_queue_max: self.obj_queue_max,
            keep_alive_interval: self.keep_alive_interval,
        }
    }
}

/// The default client configuration: the default timers and limits and
/// every text empty.
pub open spec fn default_client() -> ClientConfigView {
    ClientConfigView {
        locator: Seq::empty(),
        stat: Seq::empty(),
        property: Seq::empty(),
        async_invoke_timeout: 3000,
        refresh_endpoint_interval: 60000,
        report_interval: 10000,
        sample_rate: 1000,
        max_sample_count: 100,
        dial_timeout: 3000,
        idle_timeout: 600000,
        read_timeout: 3000,
        write_timeout: 3000,
        queue_len: 10000,
        obj_queue_max: 10000,
        keep_alive_interval: 60000,
    }
}

impl Default for ClientConfig {
    /// The client configuration with the default timers and limits and
    /// every text empty.
    fn default() -> (c: ClientConfig)
        ensures
            c@ == default_client(),
    {
        ClientConfig {
            locator: String::new(),
            stat: String::new(),
            property: String::new(),
            async_invoke_timeout: default_async_timeout(),
            refresh_endpoint_interval: default_refresh_interval(),
            report_interval: default_report_interval(),
            sample_rate: default_sample_rate(),
            max_sample_count: default_max_sample_count(),
            dial_timeout: default_dial_timeout(),
            idle_timeout: default_client_idle_timeout(),
            read_timeout: default_client_read_timeout(),
            write_timeout: default_client_write_timeout(),
            queue_len: default_client_queue_len(),
            obj_queue_max: default_obj_queue_max(),
            keep_alive_interval: default_keep_alive_interval(),
        }
    }
}

impl ClientConfig {
    /// A copy of this configuration.
    pub fn duplicate(&self) -> (c: ClientConfig)
        ensures
            c@ == self@,
    {
        ClientConfig {
            locator: self.locator.clone(),
            stat: self.stat.clone(),
            property: self.property.clone(),
            async_invoke_timeout: self.async_invoke_timeout,
            refresh_endpoint_interval: self.refresh_endpoint_interval,
            report_interval: self.report_interval,
            sample_rate: self.sample_rate,
            max_sample_count: self.max_sample_count,
            dial_timeout: self.dial_timeout,
            idle_timeout: self.idle_timeout,
            read_timeout: self.read_timeout,
            write_timeout: self.write_timeout,
            queue_len: self.queue_len,
            obj_queue_max: self.obj_queue_max,
            keep_alive_interval: self.keep_alive_interval,
        }
    }

    /// The async invoke timeout as a span of time.
    pub fn async_timeout_duration(&self) -> (d: Duration)
        ensures
            millis_of(d) == self.async_invoke_timeout,
    {
        duration_from_millis(self.async_invoke_timeout)
    }

    /// The dial timeout as a span of time.
    pub fn dial_timeout_duration(&self) -> (d: Duration)
        ensures
            millis_of(d) == self.dial_timeout,
    {
        duration_from_millis(self.dial_timeout)
    }

    /// The idle timeout as a span of time.
    pub fn idle_timeout_duration(&self) -> (d: Duration)
        ensures
            millis_of(d) == self.idle_timeout,
    {
        duration_from_millis(self.idle_timeout)
    }

    /// The read timeout as a span of time.
    pub fn read_timeout_duration(&self) -> (d: Duration)
        ensures
            millis_of(d) == self.read_timeout,
    {
        duration_from_millis(self.read_timeout)
    }

    /// The write timeout as a span of time.
    pub fn write_timeout_duration(&self) -> (d: Duration)
        ensures
            millis_of(d) == self.write_timeout,
    {
        duration_from_millis(self.write_timeout)
    }
}

} // verus!
