//! Connection settings: per-network parameters, the application-wide
//! configuration with its defaults, and the resolution of a network name
//! to concrete connection details.

use vstd::prelude::*;
use vstd::string::StringExecFns;
use crate::strings::{chars_of, dec_digits, append_dec_u64};
use crate::trusted::{lower_of, lowercase, now_secs};

verus! {

/// The ASCII-case-insensitive code of a character.
pub open spec fn lower_code(c: char) -> int {
    if 'A' <= c <= 'Z' {
        c as u32 + 32
    } else {
        c as u32 as int
    }
}

/// ASCII-case-insensitive equality of two texts.
pub open spec fn eq_icase(a: Seq<char>, b: Seq<char>) -> bool {
    a.len() == b.len() && forall|i: int| 0 <= i < a.len() ==> lower_code(a[i]) == lower_code(b[i])
}

/// ASCII-case-insensitive equality of two string slices.
pub fn eq_ignore_case(a: &str, b: &str) -> (r: bool)
    ensures
        r == eq_icase(a@, b@),
{
    let va = chars_of(a);
    let vb = chars_of(b);
    if va.len() != vb.len() {
        return false;
    }
    let n: usize = va.len();
    let mut i: usize = 0;
    while i < n
        invariant
            i <= n,
            n == va@.len() == vb@.len(),
            va@ == a@,
            vb@ == b@,
            forall|j: int| 0 <= j < i ==> lower_code(a@[j]) == lower_code(b@[j]),
        decreases n - i,
    {
        let ca = va[i];
        let cb = vb[i];
        let la: u32 = if 'A' <= ca && ca <= 'Z' {
            ca as u32 + 32
        } else {
            ca as u32
        };
        let lb: u32 = if 'A' <= cb && cb <= 'Z' {
            cb as u32 + 32
        } else {
            cb as u32
        };
        proof {
            assert(la == lower_code(a@[i as int]));
            assert(lb == lower_code(b@[i as int]));
        }
        if la != lb {
            return false;
        }
        i = i + 1;
    }
    true
}

/// Whether the text contains a dot, marking an already qualified host.
pub fn contains_dot(s: &str) -> (r: bool)
    ensures
        r == s@.contains('.'),
{
    let v = chars_of(s);
    let n: usize = v.len();
    let mut i: usize = 0;
    while i < n
        invariant
            i <= n,
            n == v@.len(),
            v@ == s@,
            forall|j: int| 0 <= j < i ==> s@[j] != '.',
        decreases n - i,
    {
        if v[i] == '.' {
            return true;
        }
        i = i + 1;
    }
    false
}

/// The heuristic hostname for an unqualified network name.
pub open spec fn guessed_host(network: Seq<char>) -> Seq<char> {
    seq!['i', 'r', 'c', '.'] + lower_of(network) + seq!['.', 'n', 'e', 't']
}

/// Build the heuristic hostname `irc.<lowercased-name>.net`.
fn guess_host(network: &str) -> (r: String)
    ensures
        r@ == guessed_host(network@),
{
    let mut s = "irc.".to_owned();
    proof {
        reveal_strlit("irc.");
        assert(s@ =~= seq!['i', 'r', 'c', '.']);
    }
    let low = lowercase(network);
    s.append(low.as_str());
    s.append(".net");
    proof {
        reveal_strlit(".net");
        assert(".net"@ =~= seq!['.', 'n', 'e', 't']);
        assert(s@ =~= guessed_host(network@));
    }
    s
}

/// Connection parameters for one IRC network.
pub struct NetworkConfig {
    pub host: String,
    pub port: u16,
    pub ssl: bool,
    pub autojoin_channels: Vec<String>,
    pub join_delay_secs: u64,
}

/// Copy a list of strings, keeping every element's text.
pub fn clone_string_vec(v: &Vec<String>) -> (r: Vec<String>)
    ensures
        r@.len() == v@.len(),
        forall|i: int| 0 <= i < v@.len() ==> r@[i] == v@[i],
{
    let mut r: Vec<String> = Vec::new();
    let n: usize = v.len();
    let mut i: usize = 0;
    while i < n
        invariant
            i <= n,
            n == v@.len(),
            r@.len() == i,
            forall|j: int| 0 <= j < i ==> r@[j] == v@[j],
        decreases n - i,
    {
        r.push(v[i].clone());
        i = i + 1;
    }
    r
}

impl Clone for NetworkConfig {
    fn clone(&self) -> (r: Self)
        ensures
            r.host == self.host,
            r.port == self.port,
            r.ssl == self.ssl,
            r.autojoin_channels@.len() == self.autojoin_channels@.len(),
            forall|i: int|
                0 <= i < self.autojoin_channels@.len() ==> r.autojoin_channels@[i]
                    == self.autojoin_channels@[i],
            r.join_delay_secs == self.join_delay_secs,
    {
        NetworkConfig {
            host: self.host.clone(),
            port: self.port,
            ssl: self.ssl,
            autojoin_channels: clone_string_vec(&self.autojoin_channels),
            join_delay_secs: self.join_delay_secs,
        }
    }
}

/// The network resolution shared by the application configuration and
/// the client configuration: the first case-insensitively matching
/// explicit entry wins; a dotted name is used as given; anything else
/// falls back to the heuristic `irc.<name>.net`. The fallback port and
/// TLS flag follow the global TLS default; the fallback join delay is
/// the caller's.
pub open spec fn resolves_to(
    networks: Seq<(Seq<char>, NetworkConfig)>,
    network: Seq<char>,
    use_ssl: bool,
    fallback_delay: u64,
    r: (String, u16, bool, Vec<String>, u64),
) -> bool {
    if exists|k: int| 0 <= k < networks.len() && eq_icase((#[trigger] networks[k]).0, network) {
        exists|k: int|
            0 <= k < networks.len() && eq_icase((#[trigger] networks[k]).0, network) && (forall|
                j: int,
            |
                0 <= j < k ==> !eq_icase((#[trigger] networks[j]).0, network)) && r.0
                == networks[k].1.host && r.1 == networks[k].1.port && r.2 == networks[k].1.ssl
                && r.3@.len() == networks[k].1.autojoin_channels@.len() && (forall|i: int|
                0 <= i < r.3@.len() ==> r.3@[i] == networks[k].1.autojoin_channels@[i]) && r.4
                == networks[k].1.join_delay_secs
    } else if network.contains('.') {
        r.0@ == network && r.1 == (if use_ssl {
            6697int
        } else {
            6667int
        }) && r.2 == use_ssl && r.3@.len() == 0 && r.4 == fallback_delay
    } else {
        r.0@ == guessed_host(network) && r.1 == (if use_ssl {
            6697int
        } else {
            6667int
        }) && r.2 == use_ssl && r.3@.len() == 0 && r.4 == fallback_delay
    }
}

/// Resolve a network name against a list of explicit entries.
fn resolve_in(
    networks: &Vec<(String, NetworkConfig)>,
    network: &str,
    use_ssl: bool,
    fallback_delay: u64,
) -> (r: (String, u16, bool, Vec<String>, u64))
    ensures
        resolves_to(
            networks@.map_values(|e: (String, NetworkConfig)| (e.0@, e.1)),
            network@,
            use_ssl,
            fallback_delay,
            r,
        ),
{
    let ghost nv = networks@.map_values(|e: (String, NetworkConfig)| (e.0@, e.1));
    let n: usize = networks.len();
    let mut i: usize = 0;
    while i < n
        invariant
            i <= n,
            n == networks@.len(),
            nv == networks@.map_values(|e: (String, NetworkConfig)| (e.0@, e.1)),
            forall|j: int| 0 <= j < i ==> !eq_icase((#[trigger] nv[j]).0, network@),
        decreases n - i,
    {
        if eq_ignore_case(networks[i].0.as_str(), network) {
            let e = networks[i].1.clone();
            proof {
                assert(nv[i as int].0 == networks@[i as int].0@);
                assert(nv[i as int].1 == networks@[i as int].1);
            }
            return (e.host, e.port, e.ssl, e.autojoin_channels, e.join_delay_secs);
        }
        proof {
            assert(nv[i as int].0 == networks@[i as int].0@);
        }
        i = i + 1;
    }
    let port: u16 = if use_ssl {
        6697
    } else {
        6667
    };
    if contains_dot(network) {
        (network.to_owned(), port, use_ssl, Vec::new(), fallback_delay)
    } else {
        (guess_host(network), port, use_ssl, Vec::new(), fallback_delay)
    }
}

/// The application configuration: connection, identity, retry, DCC,
/// search and per-network settings. Timeouts and delays are seconds.
pub struct AppConfig {
    pub use_ssl: bool,
    pub connect_timeout: u64,
    pub general_timeout: u64,
    pub proxy_enabled: bool,
    pub proxy_url: String,
    pub nickname: String,
    pub username: String,
    pub realname: String,
    pub max_retries: u32,
    pub retry_delay: u64,
    pub queue_limit: u32,
    pub passive_dcc: bool,
    pub dcc_port_min: u16,
    pub dcc_port_max: u16,
    pub resume_enabled: bool,
    pub enabled_providers: Vec<String>,
    pub results_per_page: u32,
    pub search_timeout: u64,
    pub networks: Vec<(String, NetworkConfig)>,
    pub download_dir: String,
}

impl AppConfig {
    /// The built-in network entries.
    fn default_networks() -> (r: Vec<(String, NetworkConfig)>)
        ensures
            r@.len() == 3,
    {
        let mut v: Vec<(String, NetworkConfig)> = Vec::new();
        v.push(
            (
                "SceneP2P".to_owned(),
                NetworkConfig {
                    host: "irc.scenep2p.net".to_owned(),
                    port: 6697,
                    ssl: true,
                    autojoin_channels: Vec::new(),
                    join_delay_secs: 6,
                },
            ),
        );
        v.push(
            (
                "Rizon".to_owned(),
                NetworkConfig {
                    host: "irc.rizon.net".to_owned(),
                    port: 6667,
                    ssl: false,
                    autojoin_channels: Vec::new(),
                    join_delay_secs: 6,
                },
            ),
        );
        v.push(
            (
                "Abjects".to_owned(),
                NetworkConfig {
                    host: "irc.abjects.net".to_owned(),
                    port: 6667,
                    ssl: false,
                    autojoin_channels: Vec::new(),
                    join_delay_secs: 6,
                },
            ),
        );
        v
    }

    /// Resolve a network name to its connection details; the fallback
    /// join delay here is six seconds.
    pub fn resolve_network(&self, network: &str) -> (r: (String, u16, bool, Vec<String>, u64))
        ensures
            resolves_to(
                self.networks@.map_values(|e: (String, NetworkConfig)| (e.0@, e.1)),
                network@,
                self.use_ssl,
                6,
                r,
            ),
    {
        resolve_in(&self.networks, network, self.use_ssl, 6)
    }
}

impl Default for AppConfig {
    /// The defaults: TLS on, 15 s connect and 120 s general timeouts,
    /// the `botarr` identity, three retries thirty seconds apart, DCC
    /// resume on, every search provider enabled, and the built-in
    /// networks.
    fn default() -> (r: Self)
        ensures
            r.use_ssl,
            r.connect_timeout == 15,
            r.general_timeout == 120,
            !r.proxy_enabled,
            r.proxy_url@.len() == 0,
            r.nickname@ == "botarr"@,
            r.username@ == "botarr"@,
            r.realname@ == "Botarr XDCC Client"@,
            r.max_retries == 3,
            r.retry_delay == 30,
            r.queue_limit == 2,
            !r.passive_dcc,
            r.dcc_port_min == 49152,
            r.dcc_port_max == 65535,
            r.resume_enabled,
            r.enabled_providers@.len() == 3,
            r.results_per_page == 50,
            r.search_timeout == 30,
            r.networks@.len() == 3,
            r.download_dir@ == "./downloads"@,
    {
        let mut providers: Vec<String> = Vec::new();
        providers.push("SkullXDCC".to_owned());
        providers.push("XDCC.rocks".to_owned());
        providers.push("XDCC.eu".to_owned());
        AppConfig {
            use_ssl: true,
            connect_timeout: 15,
            general_timeout: 120,
            proxy_enabled: false,
            proxy_url: String::new(),
            nickname: "botarr".to_owned(),
            username: "botarr".to_owned(),
            realname: "Botarr XDCC Client".to_owned(),
            max_retries: 3,
            retry_delay: 30,
            queue_limit: 2,
            passive_dcc: false,
            dcc_port_min: 49152,
            dcc_port_max: 65535,
            resume_enabled: true,
            enabled_providers: providers,
            results_per_page: 50,
            search_timeout: 30,
            networks: Self::default_networks(),
            download_dir: "./downloads".to_owned(),
        }
    }
}

/// The client-side configuration a session driver needs.
pub struct XdccConfig {
    pub nickname: String,
    pub username: String,
    pub realname: String,
    pub use_ssl: bool,
    pub connect_timeout_secs: u64,
    pub timeout_secs: u64,
    pub download_dir: String,
    pub networks: Vec<(String, NetworkConfig)>,
    pub proxy_enabled: bool,
    pub proxy_url: String,
    pub resume_enabled: bool,
}

impl XdccConfig {
    /// Resolve a network name to its connection details; the fallback
    /// join delay here is zero.
    pub fn resolve_network(&self, network: &str) -> (r: (String, u16, bool, Vec<String>, u64))
        ensures
            resolves_to(
                self.networks@.map_values(|e: (String, NetworkConfig)| (e.0@, e.1)),
                network@,
                self.use_ssl,
                0,
                r,
            ),
    {
        resolve_in(&self.networks, network, self.use_ssl, 0)
    }
}

impl Default for XdccConfig {
    /// The defaults: a nickname salted with the clock, TLS on, a 15 s
    /// connect and 120 s general timeout, and resume enabled.
    fn default() -> (r: Self)
        ensures
            exists|k: nat|
                k < 10000 && r.nickname@ == "botarr"@ + dec_digits(k),
            r.username@ == "botarr"@,
            r.realname@ == "Botarr XDCC Client"@,
            r.use_ssl,
            r.connect_timeout_secs == 15,
            r.timeout_secs == 120,
            r.download_dir@ == "./downloads"@,
            r.networks@.len() == 0,
            !r.proxy_enabled,
            r.proxy_url@.len() == 0,
            r.resume_enabled,
    {
        let now = now_secs();
        let salt: u64 = ((if now >= 0 {
            now
        } else {
            0
        }) as u64) % 10000;
        let mut nickname = "botarr".to_owned();
        append_dec_u64(&mut nickname, salt);
        proof {
            assert(salt < 10000);
            assert(nickname@ == "botarr"@ + dec_digits(salt as nat));
        }
        XdccConfig {
            nickname,
            username: "botarr".to_owned(),
            realname: "Botarr XDCC Client".to_owned(),
            use_ssl: true,
            connect_timeout_secs: 15,
            timeout_secs: 120,
            download_dir: "./downloads".to_owned(),
            networks: Vec::new(),
            proxy_enabled: false,
            proxy_url: String::new(),
            resume_enabled: true,
        }
    }
}

/// The client: holds the configuration a driver spawns sessions from.
pub struct XdccClient {
    pub config: XdccConfig,
}

impl XdccClient {
    /// Wrap a configuration.
    pub fn new(config: XdccConfig) -> (r: Self)
        ensures
            r.config == config,
    {
        XdccClient { config }
    }
}

} // verus!
