//! The communicator: the client's configuration, properties and proxies.

pub mod digest;

use vstd::prelude::*;
use vstd::string::StringSliceAdditionalSpecFns;
use vstd::utf8::encode_utf8;

use crate::codec::raw::str_eq;
use crate::codec::string_map::{lookup, put, Entries};
use crate::codec::StringMap;
use crate::endpoint::{Endpoint, EndpointView};
use crate::error::TarsError;
use crate::selector::nodes::views;
use crate::servant::ServantProxy;
use crate::transport::TarsClientConfig;
use crate::util::duration::millis_of;
use crate::util::parse::text_of;
use crate::util::config::{default_client, ClientConfigView};
use crate::util::{name_bytes, parse_obj_name, spec_obj_endpoints, ClientConfig};
use digest::{hex_encode, hex_text, md5_digest, md5_of};

verus! {

/// Client-side communication manager.
pub struct Communicator {
    /// Client configuration
    config: ClientConfig,
    /// Servant proxies, each under the object name it was asked for
    proxies: Vec<(String, ServantProxy)>,
    /// Properties
    properties: StringMap,
}

/// The index of the first proxy at or behind `from` that was asked for as
/// `name`, or the number of proxies where there is none.
pub open spec fn find_proxy(s: Seq<(String, ServantProxy)>, name: Seq<char>, from: int) -> int
    decreases s.len() - from,
{
    if from < 0 || from >= s.len() {
        s.len() as int
    } else if s[from].0@ == name {
        from
    } else {
        find_proxy(s, name, from + 1)
    }
}

/// What goes into the hash key for one property: "key:value" in UTF-8
/// where the property is set, nothing where it is not.
pub open spec fn key_part(props: Entries, key: Seq<char>) -> Seq<u8> {
    match lookup(props, key) {
        Some(value) => encode_utf8(key + ":"@ + value),
        None => Seq::empty(),
    }
}

/// What is digested for the hash key: the parts for "locator", "enableset"
/// and "setdivision", in this order.
pub open spec fn key_material(props: Entries) -> Seq<u8> {
    key_part(props, "locator"@) + key_part(props, "enableset"@) + key_part(
        props,
        "setdivision"@,
    )
}

/// The name that an object name with endpoints stands for.
pub open spec fn proxy_name(obj_name: Seq<char>) -> Seq<char> {
    match text_of(name_bytes(encode_utf8(obj_name))) {
        Some(name) => name,
        None => obj_name,
    }
}

/// What asking a communicator for the proxy of an object name gives, and
/// what the communicator is afterwards.
///
/// An empty name is an invalid argument. A proxy that was asked for before
/// is found again. Otherwise the name is taken apart: a name without
/// endpoints is a service not found; with endpoints a new proxy is kept at
/// the end, under the object name, for the name and the endpoints, with the
/// communicator's timeout for calls.
pub open spec fn asked_for(
    before: Seq<(String, ServantProxy)>,
    call_timeout: u64,
    obj_name: Seq<char>,
    r: Result<usize, TarsError>,
    after: Seq<(String, ServantProxy)>,
) -> bool {
    let at = find_proxy(before, obj_name, 0);
    let count = before.len() as int;
    let endpoints = spec_obj_endpoints(encode_utf8(obj_name));
    if obj_name.len() == 0 {
        r is Err && r->Err_0 is InvalidArgument && r->Err_0->InvalidArgument_0@
            == "empty object name"@ && after == before
    } else if at < count {
        r == Ok::<usize, TarsError>(at as usize) && after == before
    } else if endpoints.len() == 0 {
        r is Err && r->Err_0 is ServiceNotFound && r->Err_0->ServiceNotFound_0@ == proxy_name(
            obj_name,
        ) && after == before
    } else {
        &&& r == Ok::<usize, TarsError>(count as usize)
        &&& after.len() == count + 1
        &&& forall|j: int| 0 <= j < count ==> after[j] == before[j]
        &&& after[count].0@ == obj_name
        &&& after[count].1.service() == proxy_name(obj_name)
        &&& after[count].1.endpoints() == endpoints
        &&& after[count].1.timeout_ms() == call_timeout
        &&& after[count].1.in_flight() == 0
    }
}

/// The transport configuration of a proxy's connections: TCP, with the
/// queue length and the timers of the client configuration.
pub fn connection_config(config: &ClientConfig) -> (c: TarsClientConfig)
    ensures
        c.proto@ == "tcp"@,
        c.queue_len == config.queue_len,
        millis_of(c.idle_timeout) == config.idle_timeout,
        millis_of(c.read_timeout) == config.read_timeout,
        millis_of(c.write_timeout) == config.write_timeout,
        millis_of(c.dial_timeout) == config.dial_timeout,
        !c.has_tls,
{
    TarsClientConfig::tcp().with_queue_len(config.queue_len).with_idle_timeout(
        config.idle_timeout_duration(),
    ).with_read_timeout(config.read_timeout_duration()).with_write_timeout(
        config.write_timeout_duration(),
    ).with_dial_timeout(config.dial_timeout_duration())
}

/// What giving the proxy at index `at` new endpoints leaves: every other
/// proxy as it was; the proxy itself under its name, with its name, timeout
/// and calls in flight as they were, and the new endpoints as its active
/// ones. An index behind the last proxy changes nothing.
pub open spec fn refreshed(
    before: Seq<(String, ServantProxy)>,
    at: int,
    endpoints: Seq<EndpointView>,
    after: Seq<(String, ServantProxy)>,
) -> bool {
    if 0 <= at < before.len() {
        &&& after.len() == before.len()
        &&& forall|j: int| 0 <= j < before.len() && j != at ==> after[j] == before[j]
        &&& after[at].0 == before[at].0
        &&& after[at].1.service() == before[at].1.service()
        &&& after[at].1.timeout_ms() == before[at].1.timeout_ms()
        &&& after[at].1.in_flight() == before[at].1.in_flight()
        &&& after[at].1.endpoints() == endpoints
    } else {
        after == before
    }
}

impl Communicator {
    /// The properties as mathematics.
    pub closed spec fn props(&self) -> Entries {
        self.properties@
    }

    /// The configuration as mathematics.
    pub closed spec fn settings(&self) -> ClientConfigView {
        self.config@
    }

    /// The locator as mathematics.
    pub open spec fn locator_text(&self) -> Seq<char> {
        self.settings().locator
    }

    /// The proxies as mathematics.
    pub closed spec fn proxies(&self) -> Seq<(String, ServantProxy)> {
        self.proxies@
    }

    /// The timeout for calls as mathematics.
    pub open spec fn call_timeout(&self) -> u64 {
        self.settings().async_invoke_timeout
    }

    /// A communicator with the default configuration, no property and no
    /// proxy.
    pub fn new() -> (c: Communicator)
        ensures
            c.props().len() == 0,
            c.settings() == default_client(),
            c.proxies().len() == 0,
    {
        Communicator {
            config: ClientConfig::default(),
            proxies: Vec::new(),
            properties: StringMap::new(),
        }
    }

    /// A communicator with the given configuration.
    pub fn with_config(config: ClientConfig) -> (c: Communicator)
        ensures
            c.props().len() == 0,
            c.settings() == config@,
            c.proxies().len() == 0,
    {
        Communicator { config, proxies: Vec::new(), properties: StringMap::new() }
    }

    /// A copy of the configuration.
    pub fn config(&self) -> (c: ClientConfig)
        ensures
            c@ == self.settings(),
    {
        self.config.duplicate()
    }

    /// Sets the locator, in the configuration and as the property
    /// "locator".
    pub fn set_locator(&mut self, locator: &str)
        ensures
            final(self).settings() == (ClientConfigView {
                locator: locator@,
                ..old(self).settings()
            }),
            final(self).props() == put(old(self).props(), "locator"@, locator@),
            final(self).proxies() == old(self).proxies(),
    {
        self.config.locator = locator.to_owned();
        self.set_property("locator", locator);
    }

    /// The locator.
    pub fn locator(&self) -> (l: String)
        ensures
            l@ == self.locator_text(),
    {
        self.config.locator.clone()
    }

    /// Sets a property.
    pub fn set_property(&mut self, key: &str, value: &str)
        ensures
            final(self).props() == put(old(self).props(), key@, value@),
            final(self).settings() == old(self).settings(),
            final(self).proxies() == old(self).proxies(),
    {
        let mut properties = StringMap::new();
        std::mem::swap(&mut properties, &mut self.properties);
        let _ = properties.insert(key.to_owned(), value.to_owned());
        self.properties = properties;
    }

    /// The value of a property.
    pub fn get_property(&self, key: &str) -> (r: Option<String>)
        ensures
            match lookup(self.props(), key@) {
                Some(v) => r is Some && r->0@ == v,
                None => r is None,
            },
    {
        match self.properties.get(key) {
            Some(v) => Some(v.clone()),
            None => None,
        }
    }

    /// The index of the proxy that was asked for as `obj_name`.
    fn proxy_position(&self, obj_name: &str) -> (r: Option<usize>)
        ensures
            match r {
                Some(i) => i == find_proxy(self.proxies(), obj_name@, 0) && i
                    < self.proxies().len(),
                None => find_proxy(self.proxies(), obj_name@, 0) >= self.proxies().len(),
            },
    {
        let mut i: usize = 0;
        while i < self.proxies.len()
            invariant
                0 <= i <= self.proxies@.len(),
                find_proxy(self.proxies@, obj_name@, 0) == find_proxy(
                    self.proxies@,
                    obj_name@,
                    i as int,
                ),
            decreases self.proxies@.len() - i,
        {
            if str_eq(self.proxies[i].0.as_str(), obj_name) {
                return Some(i);
            }
            i = i + 1;
        }
        None
    }

    /// The proxy at an index.
    pub fn proxy(&self, i: usize) -> (p: &ServantProxy)
        requires
            i < self.proxies().len(),
        ensures
            *p == self.proxies()[i as int].1,
    {
        &self.proxies[i].1
    }

    /// The index of the proxy for an object name such as
    /// "App.Server.Obj@tcp -h 127.0.0.1 -p 10000". An empty name is an
    /// invalid argument. A proxy that was asked for before is found again;
    /// otherwise the name is taken apart, a name without endpoints is a
    /// service not found, and a new proxy for the endpoints is kept under the
    /// object name, with the communicator's timers; its selector picks from
    /// those endpoints.
    pub fn string_to_proxy(&mut self, obj_name: &str) -> (r: Result<usize, TarsError>)
        ensures
            final(self).props() == old(self).props(),
            final(self).settings() == old(self).settings(),
            asked_for(
                old(self).proxies(),
                old(self).call_timeout(),
                obj_name@,
                r,
                final(self).proxies(),
            ),
            r is Ok && r->Ok_0 == old(self).proxies().len()
                ==> final(self).proxies()[r->Ok_0 as int].1.candidates()
                == spec_obj_endpoints(encode_utf8(obj_name@))
                    && final(self).proxies()[r->Ok_0 as int].1.hash_candidates()
                == spec_obj_endpoints(encode_utf8(obj_name@)),
    {
        if obj_name.is_empty() {
            return Err(TarsError::InvalidArgument("empty object name".to_owned()));
        }
        match self.proxy_position(obj_name) {
            Some(i) => {
                return Ok(i);
            },
            None => {},
        }
        let (name, endpoints) = parse_obj_name(obj_name);
        if endpoints.len() == 0 {
            return Err(TarsError::ServiceNotFound(name));
        }
        let client_config = connection_config(&self.config);
        let mut proxy = ServantProxy::new(name.as_str(), endpoints, client_config);
        proxy.set_timeout(self.config.async_invoke_timeout);
        self.proxies.push((obj_name.to_owned(), proxy));
        Ok(self.proxies.len() - 1)
    }

    /// The index of the proxy for an object name, as `string_to_proxy`
    /// gives it.
    pub fn get_servant_proxy(&mut self, obj_name: &str) -> (r: Result<usize, TarsError>)
        ensures
            final(self).props() == old(self).props(),
            final(self).settings() == old(self).settings(),
            asked_for(
                old(self).proxies(),
                old(self).call_timeout(),
                obj_name@,
                r,
                final(self).proxies(),
            ),
            r is Ok && r->Ok_0 == old(self).proxies().len()
                ==> final(self).proxies()[r->Ok_0 as int].1.candidates()
                == spec_obj_endpoints(encode_utf8(obj_name@))
                    && final(self).proxies()[r->Ok_0 as int].1.hash_candidates()
                == spec_obj_endpoints(encode_utf8(obj_name@)),
    {
        self.string_to_proxy(obj_name)
    }

    /// Gives the proxy that was asked for as `obj_name` new endpoints;
    /// nothing happens where there is no such proxy.
    pub fn refresh_servant(&mut self, obj_name: &str, endpoints: Vec<Endpoint>) -> (r: Result<
        (),
        TarsError,
    >)
        ensures
            r is Ok,
            final(self).props() == old(self).props(),
            final(self).settings() == old(self).settings(),
            refreshed(
                old(self).proxies(),
                find_proxy(old(self).proxies(), obj_name@, 0),
                views(endpoints@),
                final(self).proxies(),
            ),
            find_proxy(old(self).proxies(), obj_name@, 0) < old(self).proxies().len()
                ==> final(self).proxies()[find_proxy(old(self).proxies(), obj_name@, 0)].1.candidates()
                    == views(
                endpoints@,
            ) && final(self).proxies()[find_proxy(old(self).proxies(), obj_name@, 0)].1.hash_candidates()
                == views(endpoints@),
    {
        match self.proxy_position(obj_name) {
            Some(i) => {
                let (name, mut proxy) = self.proxies.remove(i);
                proxy.refresh_endpoints(endpoints);
                self.proxies.insert(i, (name, proxy));
            },
            None => {},
        }
        Ok(())
    }

    /// The bytes that the hash key is the digest of.
    fn key_bytes(&self) -> (bytes: Vec<u8>)
        ensures
            bytes@ == key_material(self.props()),
    {
        let mut bytes: Vec<u8> = Vec::new();
        self.append_part(&mut bytes, "locator");
        self.append_part(&mut bytes, "enableset");
        self.append_part(&mut bytes, "setdivision");
        assert(bytes@ =~= key_material(self.props()));
        bytes
    }

    /// Appends the part of one property.
    fn append_part(&self, bytes: &mut Vec<u8>, key: &str)
        ensures
            final(bytes)@ == old(bytes)@ + key_part(self.props(), key@),
    {
        match self.properties.get(key) {
            Some(value) => {
                let text = crate::util::text::concat3(key, ":", value.as_str());
                let mut part = vstd::slice::slice_to_vec(text.as_str().as_bytes());
                bytes.append(&mut part);
            },
            None => {
                assert(bytes@ + Seq::<u8>::empty() =~= bytes@);
            },
        }
    }

    /// The hash key of this communicator: the MD5 digest, in hexadecimal
    /// text, of the properties "locator", "enableset" and "setdivision" as
    /// far as they are set, each as "key:value".
    pub fn hash_key(&self) -> (key: String)
        ensures
            key@ == hex_text(md5_of(key_material(self.props()))),
    {
        let bytes = self.key_bytes();
        let d = md5_digest(bytes.as_slice());
        hex_encode(d.as_slice())
    }
}

/// A new communicator.
pub fn new_communicator() -> (c: Communicator)
    ensures
        c.props().len() == 0,
        c.settings() == default_client(),
        c.proxies().len() == 0,
{
    Communicator::new()
}

} // verus!
