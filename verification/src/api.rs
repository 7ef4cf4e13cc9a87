//! The HTTP boundary's request and response shapes, and the pure rules
//! behind two handlers: reading a priority word and clamping a settings
//! update. The routing and serialisation run with the caller.

use vstd::prelude::*;
use crate::config::AppConfig;
use crate::locator::XdccUrl;
use crate::search::XdccSearchResult;
use crate::transfer::TransferPriority;

verus! {

pub struct SearchRequest {
    pub query: String,
    pub providers: Option<String>,
}

pub struct SearchResponse {
    pub results: Vec<XdccSearchResult>,
    pub count: usize,
}

pub struct ParseUrlRequest {
    pub url: String,
}

pub struct ParseUrlResponse {
    pub valid: bool,
    pub url: Option<XdccUrl>,
    pub error: Option<String>,
}

pub struct DownloadRequest {
    pub url: String,
    pub priority: Option<String>,
}

pub struct DownloadResponse {
    pub transfer_id: String,
    pub status: String,
}

pub struct ErrorResponse {
    pub error: String,
}

pub struct SetPriorityRequest {
    pub priority: String,
}

pub struct HistoryRequest {
    pub limit: usize,
}

pub struct DeleteHistoryParams {
    pub delete_file: bool,
}

pub struct PaginationParams {
    pub page: i64,
    pub limit: i64,
}

pub struct BulkDeleteRequest {
    pub ids: Vec<String>,
    pub delete_files: bool,
}

pub struct BulkDeleteSearchRequest {
    pub ids: Vec<i64>,
}

/// A partial settings update; absent fields stay as they are.
pub struct UpdateSettingsRequest {
    pub use_ssl: Option<bool>,
    pub connect_timeout: Option<u64>,
    pub general_timeout: Option<u64>,
    pub proxy_enabled: Option<bool>,
    pub proxy_url: Option<String>,
    pub nickname: Option<String>,
    pub username: Option<String>,
    pub realname: Option<String>,
    pub max_retries: Option<u32>,
    pub retry_delay: Option<u64>,
    pub queue_limit: Option<u32>,
    pub passive_dcc: Option<bool>,
    pub dcc_port_min: Option<u16>,
    pub dcc_port_max: Option<u16>,
    pub resume_enabled: Option<bool>,
    pub enabled_providers: Option<Vec<String>>,
    pub results_per_page: Option<u32>,
    pub search_timeout: Option<u64>,
}

/// A value forced into an inclusive range.
pub open spec fn clamped(v: int, lo: int, hi: int) -> int {
    if v < lo {
        lo
    } else if v > hi {
        hi
    } else {
        v
    }
}

fn clamp_u64(v: u64, lo: u64, hi: u64) -> (r: u64)
    requires
        lo <= hi,
    ensures
        r == clamped(v as int, lo as int, hi as int),
{
    if v < lo {
        lo
    } else if v > hi {
        hi
    } else {
        v
    }
}

fn clamp_u32(v: u32, lo: u32, hi: u32) -> (r: u32)
    requires
        lo <= hi,
    ensures
        r == clamped(v as int, lo as int, hi as int),
{
    if v < lo {
        lo
    } else if v > hi {
        hi
    } else {
        v
    }
}

/// The priority a request word names; anything unrecognised is `Normal`.
pub fn priority_from_str(word: &str) -> (r: TransferPriority)
    ensures
        word@ == "low"@ ==> r is Low,
        word@ == "high"@ ==> r is High,
        word@ == "urgent"@ ==> r is Urgent,
        word@ != "low"@ && word@ != "high"@ && word@ != "urgent"@ ==> r is Normal,
{
    proof {
        reveal_strlit("low");
        reveal_strlit("high");
        reveal_strlit("urgent");
        assert("low"@.len() == 3 && "high"@.len() == 4 && "urgent"@.len() == 6);
    }
    if crate::strings::str_eq(word, "low") {
        TransferPriority::Low
    } else if crate::strings::str_eq(word, "high") {
        TransferPriority::High
    } else if crate::strings::str_eq(word, "urgent") {
        TransferPriority::Urgent
    } else {
        TransferPriority::Normal
    }
}

/// Apply the identity and connection half of a settings update.
fn apply_connection_update(
    config: &mut AppConfig,
    use_ssl: Option<bool>,
    connect_timeout: Option<u64>,
    general_timeout: Option<u64>,
    proxy_enabled: Option<bool>,
    proxy_url: Option<String>,
    nickname: Option<String>,
    username: Option<String>,
    realname: Option<String>,
)
    ensures
        final(config).use_ssl == (match use_ssl {
            Some(v) => v,
            None => old(config).use_ssl,
        }),
        final(config).connect_timeout == (match connect_timeout {
            Some(v) => clamped(v as int, 5, 60) as u64,
            None => old(config).connect_timeout,
        }),
        final(config).general_timeout == (match general_timeout {
            Some(v) => clamped(v as int, 30, 300) as u64,
            None => old(config).general_timeout,
        }),
        final(config).proxy_enabled == (match proxy_enabled {
            Some(v) => v,
            None => old(config).proxy_enabled,
        }),
        final(config).proxy_url == (match proxy_url {
            Some(v) => v,
            None => old(config).proxy_url,
        }),
        final(config).nickname == (match nickname {
            Some(v) => v,
            None => old(config).nickname,
        }),
        final(config).username == (match username {
            Some(v) => v,
            None => old(config).username,
        }),
        final(config).realname == (match realname {
            Some(v) => v,
            None => old(config).realname,
        }),
        final(config).max_retries == old(config).max_retries,
        final(config).retry_delay == old(config).retry_delay,
        final(config).queue_limit == old(config).queue_limit,
        final(config).passive_dcc == old(config).passive_dcc,
        final(config).dcc_port_min == old(config).dcc_port_min,
        final(config).dcc_port_max == old(config).dcc_port_max,
        final(config).resume_enabled == old(config).resume_enabled,
        final(config).enabled_providers == old(config).enabled_providers,
        final(config).results_per_page == old(config).results_per_page,
        final(config).search_timeout == old(config).search_timeout,
        final(config).networks == old(config).networks,
        final(config).download_dir == old(config).download_dir,
{
    match use_ssl {
        Some(v) => {
            config.use_ssl = v;
        },
        None => {},
    }
    match connect_timeout {
        Some(v) => {
            config.connect_timeout = clamp_u64(v, 5, 60);
        },
        None => {},
    }
    match general_timeout {
        Some(v) => {
            config.general_timeout = clamp_u64(v, 30, 300);
        },
        None => {},
    }
    match proxy_enabled {
        Some(v) => {
            config.proxy_enabled = v;
        },
        None => {},
    }
    match proxy_url {
        Some(v) => {
            config.proxy_url = v;
        },
        None => {},
    }
    match nickname {
        Some(v) => {
            config.nickname = v;
        },
        None => {},
    }
    match username {
        Some(v) => {
            config.username = v;
        },
        None => {},
    }
    match realname {
        Some(v) => {
            config.realname = v;
        },
        None => {},
    }
}

/// Apply the retry, DCC and search half of a settings update.
fn apply_behavior_update(
    config: &mut AppConfig,
    max_retries: Option<u32>,
    retry_delay: Option<u64>,
    queue_limit: Option<u32>,
    passive_dcc: Option<bool>,
    dcc_port_min: Option<u16>,
    dcc_port_max: Option<u16>,
    resume_enabled: Option<bool>,
    enabled_providers: Option<Vec<String>>,
    results_per_page: Option<u32>,
    search_timeout: Option<u64>,
)
    ensures
        final(config).max_retries == (match max_retries {
            Some(v) => clamped(v as int, 0, 10) as u32,
            None => old(config).max_retries,
        }),
        final(config).retry_delay == (match retry_delay {
            Some(v) => clamped(v as int, 5, 300) as u64,
            None => old(config).retry_delay,
        }),
        final(config).queue_limit == (match queue_limit {
            Some(v) => clamped(v as int, 1, 10) as u32,
            None => old(config).queue_limit,
        }),
        final(config).passive_dcc == (match passive_dcc {
            Some(v) => v,
            None => old(config).passive_dcc,
        }),
        final(config).dcc_port_min == (match dcc_port_min {
            Some(v) => if v >= 1024 {
                v
            } else {
                1024u16
            },
            None => old(config).dcc_port_min,
        }),
        final(config).dcc_port_max == (match dcc_port_max {
            Some(v) => v,
            None => old(config).dcc_port_max,
        }),
        final(config).resume_enabled == (match resume_enabled {
            Some(v) => v,
            None => old(config).resume_enabled,
        }),
        final(config).enabled_providers == (match enabled_providers {
            Some(v) => v,
            None => old(config).enabled_providers,
        }),
        final(config).results_per_page == (match results_per_page {
            Some(v) => clamped(v as int, 10, 200) as u32,
            None => old(config).results_per_page,
        }),
        final(config).search_timeout == (match search_timeout {
            Some(v) => clamped(v as int, 10, 120) as u64,
            None => old(config).search_timeout,
        }),
        final(config).use_ssl == old(config).use_ssl,
        final(config).connect_timeout == old(config).connect_timeout,
        final(config).general_timeout == old(config).general_timeout,
        final(config).proxy_enabled == old(config).proxy_enabled,
        final(config).proxy_url == old(config).proxy_url,
        final(config).nickname == old(config).nickname,
        final(config).username == old(config).username,
        final(config).realname == old(config).realname,
        final(config).networks == old(config).networks,
        final(config).download_dir == old(config).download_dir,
{
    match max_retries {
        Some(v) => {
            config.max_retries = clamp_u32(v, 0, 10);
        },
        None => {},
    }
    match retry_delay {
        Some(v) => {
            config.retry_delay = clamp_u64(v, 5, 300);
        },
        None => {},
    }
    match queue_limit {
        Some(v) => {
            config.queue_limit = clamp_u32(v, 1, 10);
        },
        None => {},
    }
    match passive_dcc {
        Some(v) => {
            config.passive_dcc = v;
        },
        None => {},
    }
    match dcc_port_min {
        Some(v) => {
            config.dcc_port_min = if v >= 1024 {
                v
            } else {
                1024
            };
        },
        None => {},
    }
    match dcc_port_max {
        Some(v) => {
            config.dcc_port_max = v;
        },
        None => {},
    }
    match resume_enabled {
        Some(v) => {
            config.resume_enabled = v;
        },
        None => {},
    }
    match enabled_providers {
        Some(v) => {
            config.enabled_providers = v;
        },
        None => {},
    }
    match results_per_page {
        Some(v) => {
            config.results_per_page = clamp_u32(v, 10, 200);
        },
        None => {},
    }
    match search_timeout {
        Some(v) => {
            config.search_timeout = clamp_u64(v, 10, 120);
        },
        None => {},
    }
}

/// Apply a partial settings update: each present field lands in the
/// configuration, the bounded ones clamped into their allowed ranges.
pub fn apply_settings_update(config: &mut AppConfig, req: UpdateSettingsRequest)
    ensures
        final(config).use_ssl == (match req.use_ssl {
            Some(v) => v,
            None => old(config).use_ssl,
        }),
        final(config).connect_timeout == (match req.connect_timeout {
            Some(v) => clamped(v as int, 5, 60) as u64,
            None => old(config).connect_timeout,
        }),
        final(config).general_timeout == (match req.general_timeout {
            Some(v) => clamped(v as int, 30, 300) as u64,
            None => old(config).general_timeout,
        }),
        final(config).proxy_enabled == (match req.proxy_enabled {
            Some(v) => v,
            None => old(config).proxy_enabled,
        }),
        final(config).proxy_url == (match req.proxy_url {
            Some(v) => v,
            None => old(config).proxy_url,
        }),
        final(config).nickname == (match req.nickname {
            Some(v) => v,
            None => old(config).nickname,
        }),
        final(config).username == (match req.username {
            Some(v) => v,
            None => old(config).username,
        }),
        final(config).realname == (match req.realname {
            Some(v) => v,
            None => old(config).realname,
        }),
        final(config).max_retries == (match req.max_retries {
            Some(v) => clamped(v as int, 0, 10) as u32,
            None => old(config).max_retries,
        }),
        final(config).retry_delay == (match req.retry_delay {
            Some(v) => clamped(v as int, 5, 300) as u64,
            None => old(config).retry_delay,
        }),
        final(config).queue_limit == (match req.queue_limit {
            Some(v) => clamped(v as int, 1, 10) as u32,
            None => old(config).queue_limit,
        }),
        final(config).passive_dcc == (match req.passive_dcc {
            Some(v) => v,
            None => old(config).passive_dcc,
        }),
        final(config).dcc_port_min == (match req.dcc_port_min {
            Some(v) => if v >= 1024 {
                v
            } else {
                1024u16
            },
            None => old(config).dcc_port_min,
        }),
        final(config).dcc_port_max == (match req.dcc_port_max {
            Some(v) => v,
            None => old(config).dcc_port_max,
        }),
        final(config).resume_enabled == (match req.resume_enabled {
            Some(v) => v,
            None => old(config).resume_enabled,
        }),
        final(config).enabled_providers == (match req.enabled_providers {
            Some(v) => v,
            None => old(config).enabled_providers,
        }),
        final(config).results_per_page == (match req.results_per_page {
            Some(v) => clamped(v as int, 10, 200) as u32,
            None => old(config).results_per_page,
        }),
        final(config).search_timeout == (match req.search_timeout {
            Some(v) => clamped(v as int, 10, 120) as u64,
            None => old(config).search_timeout,
        }),
        final(config).networks == old(config).networks,
        final(config).download_dir == old(config).download_dir,
{
    let UpdateSettingsRequest {
        use_ssl,
        connect_timeout,
        general_timeout,
        proxy_enabled,
        proxy_url,
        nickname,
        username,
        realname,
        max_retries,
        retry_delay,
        queue_limit,
        passive_dcc,
        dcc_port_min,
        dcc_port_max,
        resume_enabled,
        enabled_providers,
        results_per_page,
        search_timeout,
    } = req;
    apply_connection_update(
        config,
        use_ssl,
        connect_timeout,
        general_timeout,
        proxy_enabled,
        proxy_url,
        nickname,
        username,
        realname,
    );
    apply_behavior_update(
        config,
        max_retries,
        retry_delay,
        queue_limit,
        passive_dcc,
        dcc_port_min,
        dcc_port_max,
        resume_enabled,
        enabled_providers,
        results_per_page,
        search_timeout,
    );
}

} // verus!
