//! Records exchanged with the service-discovery agent: how to reach the
//! agent, how a service registers itself with a health check, what the agent
//! lists, and how a peer is picked from that list.
use vstd::prelude::*;
use vstd::string::StringExecFns;

verus! {

/// How to reach the discovery agent.
#[derive(Debug, Clone)]
pub struct ConsulOption {
    pub addr: String,
    pub timeout_sec: u64,
    pub protocol: String,
}

impl Default for ConsulOption {
    /// The local agent: `http://127.0.0.1:8500`, one second per call.
    fn default() -> (r: Self)
        ensures
            r.addr@ == "127.0.0.1:8500"@,
            r.timeout_sec == 1,
            r.protocol@ == "http"@,
    {
        ConsulOption { addr: "127.0.0.1:8500".to_string(), timeout_sec: 1, protocol: "http".to_string() }
    }
}

impl ConsulOption {
    /// The address of endpoint `api_name` of the agent's HTTP API.
    pub open spec fn spec_api_url(&self, api_name: Seq<char>) -> Seq<char> {
        self.protocol@ + "://"@ + self.addr@ + "/v1/agent/"@ + api_name
    }

    /// Returns `<protocol>://<addr>/v1/agent/<api_name>`.
    pub fn api_url(&self, api_name: &str) -> (r: String)
        ensures
            r@ == self.spec_api_url(api_name@),
    {
        let s = self.protocol.clone();
        let s = s.concat("://");
        let s = s.concat(self.addr.as_str());
        let s = s.concat("/v1/agent/");
        s.concat(api_name)
    }
}

/// The endpoint name that deregisters service `service_id`.
pub open spec fn spec_deregister_api(service_id: Seq<char>) -> Seq<char> {
    "service/deregister/"@ + service_id
}

/// Returns the endpoint name that deregisters service `service_id`.
pub fn deregister_api(service_id: &str) -> (r: String)
    ensures
        r@ == spec_deregister_api(service_id@),
{
    "service/deregister/".to_string().concat(service_id)
}

/// The health check that the agent runs against a registered service: an
/// HTTP GET on `http` every `interval`; after `deregisterCriticalServiceAfter`
/// of continuous failure the service is dropped.
#[allow(non_snake_case)]
#[derive(Debug, Clone)]
pub struct HealthCheck {
    pub deregisterCriticalServiceAfter: String,
    pub http: String,
    pub interval: String,
}

impl HealthCheck {
    /// A check of `http` every 20 seconds, dropping the service after 30
    /// minutes of failure.
    pub fn new(http: String) -> (r: Self)
        ensures
            r.http@ == http@,
            r.interval@ == "20s"@,
            r.deregisterCriticalServiceAfter@ == "30m"@,
    {
        HealthCheck { deregisterCriticalServiceAfter: "30m".to_string(), http, interval: "20s".to_string() }
    }
}

/// Owned copies of borrowed strings, one for one.
pub fn owned_strings(items: &Vec<&str>) -> (r: Vec<String>)
    ensures
        r@.len() == items@.len(),
        forall|i: int| 0 <= i < items@.len() ==> #[trigger] r@[i]@ == items@[i]@,
{
    let mut r: Vec<String> = Vec::new();
    let mut i: usize = 0;
    while i < items.len()
        invariant
            i <= items@.len(),
            r@.len() == i,
            forall|j: int| 0 <= j < i ==> #[trigger] r@[j]@ == items@[j]@,
        decreases items@.len() - i,
    {
        r.push(items[i].to_string());
        i = i + 1;
    }
    r
}

/// The tags of a registration hold the given tags, one for one.
pub open spec fn same_tags(r: Seq<String>, t: Seq<&str>) -> bool {
    r.len() == t.len() && forall|i: int| 0 <= i < t.len() ==> #[trigger] r[i]@ == t[i]@
}

/// A registration of one service instance with its health check.
#[derive(Debug, Clone)]
pub struct Registration {
    pub name: String,
    pub id: String,
    pub tags: Vec<String>,
    pub address: String,
    pub port: i32,
    pub check: HealthCheck,
}

impl Registration {
    /// A registration with every field given.
    pub fn new(name: &str, id: &str, tags: Vec<&str>, addr: &str, port: i32, health_check: HealthCheck) -> (r: Self)
        ensures
            r.name@ == name@,
            r.id@ == id@,
            same_tags(r.tags@, tags@),
            r.address@ == addr@,
            r.port == port,
            r.check == health_check,
    {
        Registration {
            name: name.to_string(),
            id: id.to_string(),
            tags: owned_strings(&tags),
            address: addr.to_string(),
            port,
            check: health_check,
        }
    }

    /// A registration whose id is its name, without tags.
    pub fn simple_with_health_check(name: &str, addr: &str, port: i32, health_check: HealthCheck) -> (r: Self)
        ensures
            r.name@ == name@,
            r.id@ == name@,
            r.tags@.len() == 0,
            r.address@ == addr@,
            r.port == port,
            r.check == health_check,
    {
        Self::new(name, name, Vec::new(), addr, port, health_check)
    }
}

/// One service instance as the agent lists it.
#[derive(Debug, Clone)]
pub struct Service {
    pub id: String,
    pub service: String,
    pub tags: Vec<String>,
    pub address: String,
    pub port: i32,
    pub datacenter: String,
}

/// How a peer is picked: by service name or by instance id.
#[derive(Debug, Clone)]
pub enum Filter {
    Service(String),
    ID(String),
}

impl Filter {
    /// `s` is picked by this filter.
    pub open spec fn spec_matches(&self, s: Service) -> bool {
        match self {
            Filter::ID(id) => id@ == s.id@,
            Filter::Service(name) => name@ == s.service@,
        }
    }

    /// Whether `s` is picked by this filter.
    pub fn matches(&self, s: &Service) -> (r: bool)
        ensures
            r == self.spec_matches(*s),
    {
        match self {
            Filter::ID(id) => *id == s.id,
            Filter::Service(name) => *name == s.service,
        }
    }
}

/// The first service of `services` that `filter` picks, if any. Each call
/// works on a fresh listing; nothing is cached or ranked.
pub fn find_service(services: Vec<Service>, filter: &Filter) -> (r: Option<Service>)
    ensures
        match r {
            Some(s) => exists|k: int|
                0 <= k < services@.len() && services@[k] == s && filter.spec_matches(s)
                    && forall|j: int| 0 <= j < k ==> !filter.spec_matches(#[trigger] services@[j]),
            None => forall|k: int| 0 <= k < services@.len() ==> !filter.spec_matches(#[trigger] services@[k]),
        },
{
    let mut list = services;
    let mut k: usize = 0;
    while k < list.len()
        invariant
            list@ == services@,
            k <= services@.len(),
            forall|j: int| 0 <= j < k ==> !filter.spec_matches(#[trigger] services@[j]),
        decreases services@.len() - k,
    {
        if filter.matches(&list[k]) {
            let s = list.remove(k);
            assert(services@[k as int] == s);
            return Some(s);
        }
        k = k + 1;
    }
    None
}

} // verus!
