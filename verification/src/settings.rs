//! Configuration data: a service descriptor (static files or reverse proxy),
//! the named collection of configured services, and the process settings.

use vstd::prelude::*;

verus! {

/// Default binding address.
pub const DEFAULT_BIND: &'static str = "0.0.0.0";

/// Default binding port.
pub const DEFAULT_PORT: u16 = 8080;

/// Default mount path.
pub const DEFAULT_PATH: &'static str = "";

/// Default served directory.
pub const DEFAULT_DIR: &'static str = ".";

/// One configured route: a mount path served either from a local directory
/// or by forwarding to a remote HTTP origin.
#[derive(Debug, Clone)]
pub enum Service {
    Files { path: String, dir: String },
    Proxy { path: String, url: String },
}

impl Service {
    /// The mount path under which this service is exposed.
    pub open spec fn spec_mount_path(&self) -> Seq<char> {
        match self {
            Service::Files { path, .. } => path@,
            Service::Proxy { path, .. } => path@,
        }
    }

    /// Returns a copy equal to `self`.
    pub fn duplicate(&self) -> (r: Service)
        ensures
            r == *self,
    {
        match self {
            Service::Files { path, dir } => Service::Files {
                path: path.clone(),
                dir: dir.clone(),
            },
            Service::Proxy { path, url } => Service::Proxy {
                path: path.clone(),
                url: url.clone(),
            },
        }
    }

    /// Returns the mount path under which this service is exposed.
    pub fn mount_path(&self) -> (r: &String)
        ensures
            r@ == self.spec_mount_path(),
    {
        match self {
            Service::Files { path, .. } => path,
            Service::Proxy { path, .. } => path,
        }
    }
}

/// Severity threshold for process-wide logging.
#[derive(Debug, Clone, Copy, PartialEq, Eq, Structural)]
pub enum LogLevel {
    Off,
    Error,
    Warn,
    Info,
    Debug,
    Trace,
}

/// The configured services, keyed by their configuration name. Keys are
/// unique; insertion with an existing key replaces that entry in place.
#[derive(Debug, Clone)]
pub struct ServiceMap {
    entries: Vec<(String, Service)>,
}

impl View for ServiceMap {
    type V = Seq<(String, Service)>;

    closed spec fn view(&self) -> Seq<(String, Service)> {
        self.entries@
    }
}

impl ServiceMap {
    /// Keys are pairwise distinct.
    pub open spec fn wf(&self) -> bool {
        forall|i: int, j: int|
            0 <= i < j < self@.len() ==> self@[i].0@ != self@[j].0@
    }

    /// Whether some entry carries the key `k`.
    pub open spec fn spec_contains_key(&self, k: Seq<char>) -> bool {
        exists|i: int| 0 <= i < self@.len() && self@[i].0@ == k
    }

    /// Creates an empty map.
    pub fn new() -> (r: ServiceMap)
        ensures
            r@ =~= Seq::<(String, Service)>::empty(),
            r.wf(),
    {
        ServiceMap { entries: Vec::new() }
    }

    /// The number of configured services.
    pub fn len(&self) -> (r: usize)
        ensures
            r == self@.len(),
    {
        self.entries.len()
    }

    /// The entries, in insertion order.
    pub fn entries(&self) -> (r: &Vec<(String, Service)>)
        ensures
            r@ == self@,
    {
        &self.entries
    }

    /// Inserts `value` under `key`: replaces the entry holding `key` if one
    /// exists, otherwise appends a new entry.
    pub fn insert(&mut self, key: String, value: Service)
        requires
            old(self).wf(),
        ensures
            final(self).wf(),
            old(self).spec_contains_key(key@) ==> {
                exists|i: int|
                    0 <= i < old(self)@.len() && old(self)@[i].0@ == key@
                        && final(self)@ =~= old(self)@.update(i, (key, value))
            },
            !old(self).spec_contains_key(key@) ==> final(self)@ =~= old(self)@.push(
                (key, value),
            ),
    {
        let n = self.entries.len();
        let mut i: usize = 0;
        while i < n
            invariant
                n == self@.len(),
                i <= n,
                self.wf(),
                self@ == old(self)@,
                forall|j: int| 0 <= j < i ==> self@[j].0@ != key@,
            decreases n - i,
        {
            if crate::text::str_eq(self.entries[i].0.as_str(), key.as_str()) {
                self.entries.set(i, (key, value));
                proof {
                    assert(final(self).wf());
                }
                return;
            }
            i = i + 1;
        }
        self.entries.push((key, value));
    }

    /// Returns the service stored under `key`, if any.
    pub fn get(&self, key: &str) -> (r: Option<&Service>)
        requires
            self.wf(),
        ensures
            match r {
                Some(s) => exists|i: int|
                    0 <= i < self@.len() && self@[i].0@ == key@ && *s == self@[i].1,
                None => !self.spec_contains_key(key@),
            },
    {
        let n = self.entries.len();
        let mut i: usize = 0;
        while i < n
            invariant
                n == self@.len(),
                i <= n,
                forall|j: int| 0 <= j < i ==> self@[j].0@ != key@,
            decreases n - i,
        {
            if crate::text::str_eq(self.entries[i].0.as_str(), key) {
                return Some(&self.entries[i].1);
            }
            i = i + 1;
        }
        None
    }
}

/// Process settings: binding address and port, log level, and the set of
/// configured services.
#[derive(Debug, Clone)]
pub struct Settings {
    pub bind: String,
    pub port: u16,
    pub log: LogLevel,
    pub services: ServiceMap,
}

impl Settings {
    /// The settings are well formed when the service keys are unique.
    pub open spec fn wf(&self) -> bool {
        self.services.wf()
    }

    /// Applies command-line overrides: each given value replaces the
    /// corresponding field, absent ones leave it unchanged.
    pub fn apply_overrides(
        &mut self,
        bind: Option<String>,
        port: Option<u16>,
        log: Option<LogLevel>,
    )
        ensures
            match bind {
                Some(b) => final(self).bind == b,
                None => final(self).bind == old(self).bind,
            },
            match port {
                Some(p) => final(self).port == p,
                None => final(self).port == old(self).port,
            },
            match log {
                Some(l) => final(self).log == l,
                None => final(self).log == old(self).log,
            },
            final(self).services == old(self).services,
    {
        if let Some(b) = bind {
            self.bind = b;
        }
        if let Some(p) = port {
            self.port = p;
        }
        if let Some(l) = log {
            self.log = l;
        }
    }

    /// Builds the settings for a single service mounted under the default
    /// name: the default settings with their one entry replaced by `service`.
    pub fn single_service(service: Service) -> (r: Settings)
        ensures
            r.wf(),
            r.bind@ == DEFAULT_BIND@,
            r.port == DEFAULT_PORT,
            r.log == LogLevel::Off,
            r.services@.len() == 1,
            r.services@[0].0@ == "default"@,
            r.services@[0].1 == service,
    {
        let mut settings = Settings::default();
        settings.services.insert(String::from_str("default"), service);
        settings
    }
}

impl Default for Settings {
    /// The default settings: serve the current directory under the root
    /// mount path, bound to the default address and port, logging off.
    fn default() -> (r: Settings)
        ensures
            r.wf(),
            r.bind@ == DEFAULT_BIND@,
            r.port == DEFAULT_PORT,
            r.log == LogLevel::Off,
            r.services@.len() == 1,
            r.services@[0].0@ == "default"@,
            r.services@[0].1 matches Service::Files { path, dir } && path@ == DEFAULT_PATH@
                && dir@ == DEFAULT_DIR@,
    {
        let mut services = ServiceMap::new();
        let service = Service::Files {
            path: String::from_str(DEFAULT_PATH),
            dir: String::from_str(DEFAULT_DIR),
        };
        services.insert(String::from_str("default"), service);
        Settings {
            bind: String::from_str(DEFAULT_BIND),
            port: DEFAULT_PORT,
            log: LogLevel::Off,
            services,
        }
    }
}

} // verus!
