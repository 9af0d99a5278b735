//! Endpoints: where a service can be reached.

use vstd::prelude::*;
use vstd::std_specs::cmp::PartialEqSpecImpl;
use vstd::string::{StringExecFns, StringSliceAdditionalSpecFns};

use crate::protocol::consts::TransportProtocol;
use crate::util::text::{decimal, u64_to_string};

verus! {

/// Weight type for load balancing.
#[derive(Debug, Clone, Copy, PartialEq, Eq, Structural, Default)]
pub enum WeightType {
    /// Round-robin (no weight), 0
    #[default]
    Loop,
    /// Static weight, 1
    StaticWeight,
}

impl WeightType {
    /// The number that stands for this weight type.
    pub open spec fn number(self) -> i16 {
        match self {
            WeightType::Loop => 0,
            WeightType::StaticWeight => 1,
        }
    }

    /// The weight type that a number stands for; none for numbers other
    /// than 0 and 1.
    pub fn from_i16(value: i16) -> (r: Option<WeightType>)
        ensures
            r is Some <==> 0 <= value <= 1,
            r is Some ==> r->0.number() == value,
    {
        match value {
            0 => Some(WeightType::Loop),
            1 => Some(WeightType::StaticWeight),
            _ => None,
        }
    }

    /// The number that stands for this weight type.
    pub fn as_i16(self) -> (r: i16)
        ensures
            r == self.number(),
    {
        match self {
            WeightType::Loop => 0,
            WeightType::StaticWeight => 1,
        }
    }
}

/// Service endpoint information.
#[derive(Debug)]
pub struct Endpoint {
    /// Host address
    pub host: String,
    /// Port number
    pub port: u16,
    /// Timeout in milliseconds
    pub timeout: u64,
    /// Transport type: 0=UDP, 1=TCP, 2=SSL
    pub istcp: i32,
    /// Grid identifier
    pub grid: i32,
    /// QoS level
    pub qos: i32,
    /// Weight value
    pub weight: u32,
    /// Weight type
    pub weight_type: i16,
    /// Auth type
    pub auth_type: i32,
    /// SET ID (format: setname.setarea.setgroup)
    pub set_id: String,
}

/// An endpoint as mathematics.
pub struct EndpointView {
    pub host: Seq<char>,
    pub port: u16,
    pub timeout: u64,
    pub istcp: i32,
    pub grid: i32,
    pub qos: i32,
    pub weight: u32,
    pub weight_type: i16,
    pub auth_type: i32,
    pub set_id: Seq<char>,
}

impl View for Endpoint {
    type V = EndpointView;

    open spec fn view(&self) -> EndpointView {
        EndpointView {
            host: self.host@,
            port: self.port,
            timeout: self.timeout,
            istcp: self.istcp,
            grid: self.grid,
            qos: self.qos,
            weight: self.weight,
            weight_type: self.weight_type,
            auth_type: self.auth_type,
            set_id: self.set_id@,
        }
    }
}

/// Two endpoints are the same place: host, port and transport agree.
pub open spec fn same_place(a: EndpointView, b: EndpointView) -> bool {
    a.host == b.host && a.port == b.port && a.istcp == b.istcp
}

/// The transport of an endpoint; TCP where the number names none.
pub open spec fn spec_protocol(v: EndpointView) -> TransportProtocol {
    if v.istcp == 0 {
        TransportProtocol::Udp
    } else if v.istcp == 2 {
        TransportProtocol::Ssl
    } else {
        TransportProtocol::Tcp
    }
}

/// The address "host:port".
pub open spec fn spec_address(v: EndpointView) -> Seq<char> {
    v.host + seq![':'] + decimal(v.port as nat)
}

/// The endpoint string "<proto> -h <host> -p <port> -t <timeout>".
pub open spec fn spec_endpoint_string(v: EndpointView) -> Seq<char> {
    spec_protocol(v).name() + " -h "@ + v.host + " -p "@ + decimal(v.port as nat) + " -t "@
        + decimal(v.timeout as nat)
}

/// The endpoint that `new` gives for a host and a port.
pub open spec fn default_endpoint(host: Seq<char>, port: u16, istcp: i32) -> EndpointView {
    EndpointView {
        host,
        port,
        timeout: 3000,
        istcp,
        grid: 0,
        qos: 0,
        weight: 100,
        weight_type: 0,
        auth_type: 0,
        set_id: Seq::empty(),
    }
}

impl Endpoint {
    /// A TCP endpoint with timeout 3000 ms, weight 100 and no static weight.
    pub fn new(host: &str, port: u16) -> (ep: Endpoint)
        ensures
            ep@ == default_endpoint(host@, port, 1),
    {
        Endpoint {
            host: host.to_owned(),
            port,
            timeout: 3000,
            istcp: TransportProtocol::Tcp.as_i32(),
            grid: 0,
            qos: 0,
            weight: 100,
            weight_type: WeightType::Loop.as_i16(),
            auth_type: 0,
            set_id: String::new(),
        }
    }

    /// A TCP endpoint.
    pub fn tcp(host: &str, port: u16) -> (ep: Endpoint)
        ensures
            ep@ == default_endpoint(host@, port, 1),
    {
        let mut ep = Self::new(host, port);
        ep.istcp = TransportProtocol::Tcp.as_i32();
        ep
    }

    /// A UDP endpoint.
    pub fn udp(host: &str, port: u16) -> (ep: Endpoint)
        ensures
            ep@ == default_endpoint(host@, port, 0),
    {
        let mut ep = Self::new(host, port);
        ep.istcp = TransportProtocol::Udp.as_i32();
        ep
    }

    /// An SSL endpoint.
    pub fn ssl(host: &str, port: u16) -> (ep: Endpoint)
        ensures
            ep@ == default_endpoint(host@, port, 2),
    {
        let mut ep = Self::new(host, port);
        ep.istcp = TransportProtocol::Ssl.as_i32();
        ep
    }

    /// The transport; TCP where the number names none.
    pub fn protocol(&self) -> (p: TransportProtocol)
        ensures
            p == spec_protocol(self@),
    {
        match TransportProtocol::from_i32(self.istcp) {
            Some(p) => p,
            None => TransportProtocol::Tcp,
        }
    }

    /// Whether the transport is TCP.
    pub fn is_tcp(&self) -> (r: bool)
        ensures
            r == (self.istcp == 1),
    {
        self.istcp == TransportProtocol::Tcp.as_i32()
    }

    /// Whether the transport is UDP.
    pub fn is_udp(&self) -> (r: bool)
        ensures
            r == (self.istcp == 0),
    {
        self.istcp == TransportProtocol::Udp.as_i32()
    }

    /// Whether the transport is SSL.
    pub fn is_ssl(&self) -> (r: bool)
        ensures
            r == (self.istcp == 2),
    {
        self.istcp == TransportProtocol::Ssl.as_i32()
    }

    /// The weight type; round-robin where the number names none.
    pub fn get_weight_type(&self) -> (w: WeightType)
        ensures
            w == (if self.weight_type == 1 {
                WeightType::StaticWeight
            } else {
                WeightType::Loop
            }),
    {
        match WeightType::from_i16(self.weight_type) {
            Some(w) => w,
            None => WeightType::Loop,
        }
    }

    /// Whether the endpoint carries a static weight.
    pub fn is_static_weight(&self) -> (r: bool)
        ensures
            r == (self.weight_type == 1),
    {
        self.get_weight_type() == WeightType::StaticWeight
    }

    /// The address "host:port".
    pub fn address(&self) -> (s: String)
        ensures
            s@ == spec_address(self@),
    {
        let mut s = self.host.clone();
        s.append(":");
        let port = u64_to_string(self.port as u64);
        s.append(port.as_str());
        proof {
            reveal_strlit(":");
            assert(":"@ =~= seq![':']);
        }
        s
    }

    /// The endpoint string "<proto> -h <host> -p <port> -t <timeout>".
    pub fn to_endpoint_string(&self) -> (s: String)
        ensures
            s@ == spec_endpoint_string(self@),
    {
        let mut s = self.protocol().as_str().to_owned();
        s.append(" -h ");
        s.append(self.host.as_str());
        s.append(" -p ");
        let port = u64_to_string(self.port as u64);
        s.append(port.as_str());
        s.append(" -t ");
        let timeout = u64_to_string(self.timeout);
        s.append(timeout.as_str());
        s
    }

    /// Parses an endpoint string such as "tcp -h 127.0.0.1 -p 10000".
    pub fn from_string(s: &str) -> (r: Option<Endpoint>)
        ensures
            match crate::util::spec_parse_endpoint(s.spec_bytes()) {
                Some(v) => r is Some && r->0@ == v,
                None => r is None,
            },
    {
        crate::util::parse_endpoint_string(s)
    }

    /// A copy of this endpoint.
    pub fn duplicate(&self) -> (ep: Endpoint)
        ensures
            ep@ == self@,
    {
        Endpoint {
            host: self.host.clone(),
            port: self.port,
            timeout: self.timeout,
            istcp: self.istcp,
            grid: self.grid,
            qos: self.qos,
            weight: self.weight,
            weight_type: self.weight_type,
            auth_type: self.auth_type,
            set_id: self.set_id.clone(),
        }
    }
}

impl Clone for Endpoint {
    /// A copy of this endpoint.
    fn clone(&self) -> (ep: Endpoint)
        ensures
            ep@ == self@,
    {
        self.duplicate()
    }
}

impl Default for Endpoint {
    /// The endpoint with every number zero and every text empty.
    fn default() -> (ep: Endpoint)
        ensures
            ep@ == (EndpointView {
                host: Seq::empty(),
                port: 0,
                timeout: 0,
                istcp: 0,
                grid: 0,
                qos: 0,
                weight: 0,
                weight_type: 0,
                auth_type: 0,
                set_id: Seq::empty(),
            }),
    {
        Endpoint {
            host: String::new(),
            port: 0,
            timeout: 0,
            istcp: 0,
            grid: 0,
            qos: 0,
            weight: 0,
            weight_type: 0,
            auth_type: 0,
            set_id: String::new(),
        }
    }
}

impl PartialEq for Endpoint {
    /// Two endpoints are equal where host, port and transport agree.
    fn eq(&self, other: &Self) -> (r: bool) {
        let same_host: bool = self.host == other.host;
        assert(same_host == (self.host@ == other.host@));
        same_host && self.port == other.port && self.istcp == other.istcp
    }
}

impl PartialEqSpecImpl for Endpoint {
    open spec fn obeys_eq_spec() -> bool {
        true
    }

    open spec fn eq_spec(&self, other: &Self) -> bool {
        self.host@ == other.host@ && self.port == other.port && self.istcp == other.istcp
    }
}

impl Eq for Endpoint {

}

/// Servant instance information, for service registration.
#[derive(Debug)]
pub struct ServantInstance {
    /// Framework version
    pub tars_version: String,
    /// Application name
    pub app: String,
    /// Server name
    pub server: String,
    /// Enable SET routing
    pub enable_set: bool,
    /// SET division
    pub set_division: String,
    /// Protocol type
    pub protocol: String,
    /// Servant name
    pub servant: String,
    /// Endpoint
    pub endpoint: Endpoint,
}

impl ServantInstance {
    /// An instance of version "1.0.0" and protocol "tars", without SET
    /// routing.
    pub fn new(app: &str, server: &str, servant: &str, endpoint: Endpoint) -> (s: ServantInstance)
        ensures
            s.tars_version@ == "1.0.0"@,
            s.app@ == app@,
            s.server@ == server@,
            !s.enable_set,
            s.set_division@.len() == 0,
            s.protocol@ == "tars"@,
            s.servant@ == servant@,
            s.endpoint == endpoint,
    {
        ServantInstance {
            tars_version: "1.0.0".to_owned(),
            app: app.to_owned(),
            server: server.to_owned(),
            enable_set: false,
            set_division: String::new(),
            protocol: "tars".to_owned(),
            servant: servant.to_owned(),
            endpoint,
        }
    }

    /// The full object name "app.server.servant".
    pub fn object_name(&self) -> (s: String)
        ensures
            s@ == self.app@ + seq!['.'] + self.server@ + seq!['.'] + self.servant@,
    {
        let mut s = self.app.clone();
        s.append(".");
        s.append(self.server.as_str());
        s.append(".");
        s.append(self.servant.as_str());
        proof {
            reveal_strlit(".");
            assert("."@ =~= seq!['.']);
        }
        s
    }
}

} // verus!
