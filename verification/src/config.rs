//! Configuration as the core consumes it.
//!
//! Loading the files, fetching a shared grid configuration and reading
//! the environment stay outside; this module holds the shapes, the pure
//! merges of the two on-disk layouts, the self-removal from the roster,
//! and the application of raw override values to a loaded configuration.
//! The poll period is whole seconds.

use vstd::prelude::*;

use crate::numparse::{parse_i64, spec_parse_i64};
use crate::timeparse::{parse_duration_phrase, spec_duration_phrase};
use crate::order::str_eq;

verus! {

/// Where and how the HTTP server binds.
#[derive(Debug)]
pub struct ServerConfig {
    pub host: String,
    pub ssl: bool,
    pub cert_path: Option<String>,
    pub key_path: Option<String>,
}

/// One roster entry: a peer's identity, chat handle and base address.
#[derive(Debug)]
pub struct NodeConfig {
    pub name: String,
    pub telegram_handle: Option<String>,
    pub address: String,
}

impl Clone for NodeConfig {
    /// A clone is the same entry.
    fn clone(&self) -> (r: Self)
        ensures
            r == *self,
    {
        NodeConfig {
            name: self.name.clone(),
            telegram_handle: match &self.telegram_handle {
                Some(h) => Some(h.clone()),
                None => None,
            },
            address: self.address.clone(),
        }
    }
}

/// Where announcements go.
#[derive(Debug, Clone, Copy, PartialEq, Eq, Structural)]
pub enum AnnouncementMode {
    Telegram,
    Log,
}

impl Default for AnnouncementMode {
    /// Announcements go to the chat service unless configured otherwise.
    fn default() -> (r: Self)
        ensures
            r is Telegram,
    {
        AnnouncementMode::Telegram
    }
}

/// Instance-specific settings of one node.
#[derive(Debug)]
pub struct LocalConfig {
    pub name: String,
    pub server: ServerConfig,
    pub webui_enabled: bool,
    pub grid_config_path: Option<String>,
    pub grid_config_url: Option<String>,
    pub auto_update_grid_config: bool,
}

/// Settings shared across the whole grid.
#[derive(Debug)]
pub struct GridConfig {
    pub telegram_token: String,
    pub telegram_chat_id: i64,
    pub secret_key: String,
    pub poll_time: Option<u64>,
    pub announcement_mode: AnnouncementMode,
    pub nodes: Vec<NodeConfig>,
}

/// The single-file layout that predates the local/grid split.
#[derive(Debug)]
pub struct LegacyConfig {
    pub name: String,
    pub telegram_token: String,
    pub telegram_chat_id: i64,
    pub secret_key: String,
    pub poll_time: Option<u64>,
    pub announcement_mode: AnnouncementMode,
    pub server: ServerConfig,
    pub nodes: Vec<NodeConfig>,
    pub webui_enabled: bool,
}

/// The combined configuration the running node works with.
#[derive(Debug)]
pub struct Config {
    pub name: String,
    pub telegram_token: String,
    pub telegram_chat_id: i64,
    pub secret_key: String,
    pub poll_time: Option<u64>,
    pub announcement_mode: AnnouncementMode,
    pub server: ServerConfig,
    pub nodes: Vec<NodeConfig>,
    pub webui_enabled: bool,
}

/// The roster without this node's own entry.
pub open spec fn peers_of(nodes: Seq<NodeConfig>, me: Seq<char>) -> Seq<NodeConfig>
    decreases nodes.len(),
{
    if nodes.len() == 0 {
        Seq::empty()
    } else {
        let prefix = peers_of(nodes.drop_last(), me);
        if nodes.last().name@ == me {
            prefix
        } else {
            prefix.push(nodes.last())
        }
    }
}

impl Config {
    /// Takes a single-file configuration over, field by field.
    pub fn from_legacy(legacy: LegacyConfig) -> (r: Config)
        ensures
            r.name == legacy.name,
            r.telegram_token == legacy.telegram_token,
            r.telegram_chat_id == legacy.telegram_chat_id,
            r.secret_key == legacy.secret_key,
            r.poll_time == legacy.poll_time,
            r.announcement_mode == legacy.announcement_mode,
            r.server == legacy.server,
            r.nodes == legacy.nodes,
            r.webui_enabled == legacy.webui_enabled,
    {
        Config {
            name: legacy.name,
            telegram_token: legacy.telegram_token,
            telegram_chat_id: legacy.telegram_chat_id,
            secret_key: legacy.secret_key,
            poll_time: legacy.poll_time,
            announcement_mode: legacy.announcement_mode,
            server: legacy.server,
            nodes: legacy.nodes,
            webui_enabled: legacy.webui_enabled,
        }
    }

    /// Merges the split layout: identity and server from the local file,
    /// everything shared from the grid file.
    pub fn from_split(local: LocalConfig, grid: GridConfig) -> (r: Config)
        ensures
            r.name == local.name,
            r.telegram_token == grid.telegram_token,
            r.telegram_chat_id == grid.telegram_chat_id,
            r.secret_key == grid.secret_key,
            r.poll_time == grid.poll_time,
            r.announcement_mode == grid.announcement_mode,
            r.server == local.server,
            r.nodes == grid.nodes,
            r.webui_enabled == local.webui_enabled,
    {
        Config {
            name: local.name,
            telegram_token: grid.telegram_token,
            telegram_chat_id: grid.telegram_chat_id,
            secret_key: grid.secret_key,
            poll_time: grid.poll_time,
            announcement_mode: grid.announcement_mode,
            server: local.server,
            nodes: grid.nodes,
            webui_enabled: local.webui_enabled,
        }
    }

    /// Drops this node's own entry from the roster, so that iteration
    /// afterwards yields the true peers.
    pub fn remove_self_from_roster(&mut self)
        ensures
            final(self).nodes@ =~= peers_of(old(self).nodes@, old(self).name@),
            final(self).name == old(self).name,
            final(self).telegram_token == old(self).telegram_token,
            final(self).telegram_chat_id == old(self).telegram_chat_id,
            final(self).secret_key == old(self).secret_key,
            final(self).poll_time == old(self).poll_time,
            final(self).announcement_mode == old(self).announcement_mode,
            final(self).server == old(self).server,
            final(self).webui_enabled == old(self).webui_enabled,
    {
        let mut kept: Vec<NodeConfig> = Vec::new();
        let mut i: usize = 0;
        while i < self.nodes.len()
            invariant
                i <= self.nodes@.len(),
                *self == *old(self),
                kept@ =~= peers_of(self.nodes@.subrange(0, i as int), self.name@),
            decreases self.nodes@.len() - i,
        {
            proof {
                assert(self.nodes@.subrange(0, i + 1).drop_last() =~= self.nodes@.subrange(
                    0,
                    i as int,
                ));
                assert(self.nodes@.subrange(0, i + 1).last() == self.nodes@[i as int]);
            }
            if !(self.nodes[i].name == self.name) {
                let n = self.nodes[i].clone();
                kept.push(n);
            }
            i = i + 1;
        }
        proof {
            assert(self.nodes@.subrange(0, self.nodes@.len() as int) =~= self.nodes@);
        }
        self.nodes = kept;
    }
}

/// Whether `c` reads as the lowercase reference character `k`, ASCII
/// case-insensitively.
pub open spec fn char_matches_ci(c: char, k: char) -> bool {
    c as u32 == k as u32 || (65 <= c as u32 <= 90 && c as u32 + 32 == k as u32)
}

/// Whether `s` spells the lowercase keyword `kw`, ASCII
/// case-insensitively.
pub open spec fn keyword_matches_ci(s: Seq<char>, kw: Seq<char>) -> bool {
    s.len() == kw.len() && forall|i: int| 0 <= i < s.len() ==> char_matches_ci(s[i], #[trigger] kw[i])
}

/// Decides [`keyword_matches_ci`] by walking both strings in step.
fn matches_keyword_ci(s: &str, kw: &str) -> (r: bool)
    ensures
        r == keyword_matches_ci(s@, kw@),
{
    let slen = s.unicode_len();
    let klen = kw.unicode_len();
    if slen != klen {
        return false;
    }
    let mut i: usize = 0;
    while i < slen
        invariant
            i <= slen,
            slen == s@.len(),
            slen == kw@.len(),
            forall|j: int| 0 <= j < i ==> char_matches_ci(s@[j], #[trigger] kw@[j]),
        decreases slen - i,
    {
        let c = s.get_char(i) as u32;
        let k = kw.get_char(i) as u32;
        if !(c == k || (65 <= c && c <= 90 && c + 32 == k)) {
            return false;
        }
        i = i + 1;
    }
    true
}

/// What the announcement-mode keyword denotes: `telegram` or `log`, in
/// any ASCII casing; anything else is refused.
pub open spec fn spec_parse_mode(s: Seq<char>) -> Option<AnnouncementMode> {
    if keyword_matches_ci(s, "telegram"@) {
        Some(AnnouncementMode::Telegram)
    } else if keyword_matches_ci(s, "log"@) {
        Some(AnnouncementMode::Log)
    } else {
        None
    }
}

/// Reads the announcement-mode keyword as [`spec_parse_mode`] defines it.
pub fn parse_announcement_mode(s: &str) -> (r: Option<AnnouncementMode>)
    ensures
        r == spec_parse_mode(s@),
{
    if matches_keyword_ci(s, "telegram") {
        Some(AnnouncementMode::Telegram)
    } else if matches_keyword_ci(s, "log") {
        Some(AnnouncementMode::Log)
    } else {
        None
    }
}

/// Whether a switch value turns a feature on: exactly `1`, `true`, `yes`
/// or `on`.
pub open spec fn spec_flag_on(s: Seq<char>) -> bool {
    s == "1"@ || s == "true"@ || s == "yes"@ || s == "on"@
}

/// Reads a switch value as [`spec_flag_on`] defines it.
pub fn flag_enabled(s: &str) -> (r: bool)
    ensures
        r == spec_flag_on(s@),
{
    str_eq(s, "1") || str_eq(s, "true") || str_eq(s, "yes") || str_eq(s, "on")
}

/// Raw override values, exactly as the environment hands them in; `None`
/// where no override is present.
#[derive(Debug)]
pub struct EnvOverrides {
    pub name: Option<String>,
    pub telegram_token: Option<String>,
    pub telegram_chat_id: Option<String>,
    pub secret_key: Option<String>,
    pub poll_time: Option<String>,
    pub announcement_mode: Option<String>,
    pub webui_enabled: Option<String>,
    pub server_host: Option<String>,
    pub server_ssl: Option<String>,
    pub server_cert_path: Option<String>,
    pub server_key_path: Option<String>,
}

/// Why a set of overrides cannot be applied.
#[derive(Debug, Clone, Copy, PartialEq, Eq, Structural)]
pub enum ConfigError {
    InvalidTelegramChatId,
    InvalidPollTime,
    InvalidAnnouncementMode,
}

/// Whether the overrides apply, and the first reason when they do not:
/// the chat identifier must be a decimal integer, the poll period a
/// duration phrase, the mode one of the two keywords.
pub open spec fn spec_override_result(o: EnvOverrides) -> Result<(), ConfigError> {
    if o.telegram_chat_id matches Some(s) && spec_parse_i64(s@) is None {
        Err(ConfigError::InvalidTelegramChatId)
    } else if o.poll_time matches Some(s) && spec_duration_phrase(s@) is None {
        Err(ConfigError::InvalidPollTime)
    } else if o.announcement_mode matches Some(s) && spec_parse_mode(s@) is None {
        Err(ConfigError::InvalidAnnouncementMode)
    } else {
        Ok(())
    }
}

/// How a configuration looks once a valid set of overrides is applied:
/// each overridden field carries the override's (parsed) value, each
/// other field is untouched.
pub open spec fn overridden(oldc: Config, newc: Config, o: EnvOverrides) -> bool {
    &&& newc.name == (match o.name {
        Some(v) => v,
        None => oldc.name,
    })
    &&& newc.telegram_token == (match o.telegram_token {
        Some(v) => v,
        None => oldc.telegram_token,
    })
    &&& newc.telegram_chat_id == (match o.telegram_chat_id {
        Some(s) => spec_parse_i64(s@)->0,
        None => oldc.telegram_chat_id,
    })
    &&& newc.secret_key == (match o.secret_key {
        Some(v) => v,
        None => oldc.secret_key,
    })
    &&& newc.poll_time == (match o.poll_time {
        Some(s) => Some(spec_duration_phrase(s@)->0),
        None => oldc.poll_time,
    })
    &&& newc.announcement_mode == (match o.announcement_mode {
        Some(s) => spec_parse_mode(s@)->0,
        None => oldc.announcement_mode,
    })
    &&& newc.webui_enabled == (match o.webui_enabled {
        Some(s) => spec_flag_on(s@),
        None => oldc.webui_enabled,
    })
    &&& newc.server.host == (match o.server_host {
        Some(v) => v,
        None => oldc.server.host,
    })
    &&& newc.server.ssl == (match o.server_ssl {
        Some(s) => spec_flag_on(s@),
        None => oldc.server.ssl,
    })
    &&& newc.server.cert_path == (match o.server_cert_path {
        Some(v) => Some(v),
        None => oldc.server.cert_path,
    })
    &&& newc.server.key_path == (match o.server_key_path {
        Some(v) => Some(v),
        None => oldc.server.key_path,
    })
    &&& newc.nodes == oldc.nodes
}

/// Applies raw override values to a loaded configuration. The values are
/// parsed first: on the first invalid one nothing is changed and the
/// reason is returned.
#[verifier::rlimit(60)]
pub fn apply_env_overrides(config: &mut Config, o: EnvOverrides) -> (r: Result<(), ConfigError>)
    ensures
        r == spec_override_result(o),
        r is Ok ==> overridden(*old(config), *final(config), o),
        r is Err ==> *final(config) == *old(config),
{
    let chat_id: Option<i64> = match &o.telegram_chat_id {
        Some(s) => match parse_i64(s.as_str()) {
            Some(v) => Some(v),
            None => {
                return Err(ConfigError::InvalidTelegramChatId);
            },
        },
        None => None,
    };
    let poll: Option<u64> = match &o.poll_time {
        Some(s) => match parse_duration_phrase(s.as_str()) {
            Some(d) => Some(d),
            None => {
                return Err(ConfigError::InvalidPollTime);
            },
        },
        None => None,
    };
    let mode: Option<AnnouncementMode> = match &o.announcement_mode {
        Some(s) => match parse_announcement_mode(s.as_str()) {
            Some(m) => Some(m),
            None => {
                return Err(ConfigError::InvalidAnnouncementMode);
            },
        },
        None => None,
    };
    if let Some(v) = o.name {
        config.name = v;
    }
    if let Some(v) = o.telegram_token {
        config.telegram_token = v;
    }
    if let Some(v) = chat_id {
        config.telegram_chat_id = v;
    }
    if let Some(v) = o.secret_key {
        config.secret_key = v;
    }
    if let Some(v) = poll {
        config.poll_time = Some(v);
    }
    if let Some(v) = mode {
        config.announcement_mode = v;
    }
    if let Some(s) = &o.webui_enabled {
        config.webui_enabled = flag_enabled(s.as_str());
    }
    if let Some(v) = o.server_host {
        config.server.host = v;
    }
    if let Some(s) = &o.server_ssl {
        config.server.ssl = flag_enabled(s.as_str());
    }
    if let Some(v) = o.server_cert_path {
        config.server.cert_path = Some(v);
    }
    if let Some(v) = o.server_key_path {
        config.server.key_path = Some(v);
    }
    Ok(())
}

} // verus!
