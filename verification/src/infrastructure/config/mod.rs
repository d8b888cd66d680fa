//! The configuration, and the settings that it makes for the session.

use vstd::prelude::*;

use crate::text;
use sections::{
    ActiveLimitsConfig,
    AlertConfig,
    AlgorithmsConfig,
    AutoManageConfig,
    CacheConfig,
    ConnectionsConfig,
    DhtConfig,
    DiskIoConfig,
    EncryptionConfig,
    LocalDiscoveryConfig,
    MiscConfig,
    PerformanceConfig,
    PiecesConfig,
    ProxyConfig,
    RateLimitsConfig,
    TimeoutsConfig,
    TrackerConfig,
    UserAgentConfig,
};

pub mod laws;
pub mod sections;
pub mod settings;

verus! {

/// The whole configuration. What is not given has the session's own default.
#[derive(Debug)]
pub struct TorrentfsConfig {
    pub connections: ConnectionsConfig,
    pub dht: DhtConfig,
    pub local_discovery: LocalDiscoveryConfig,
    pub rate_limits: RateLimitsConfig,
    pub disk_io: DiskIoConfig,
    pub cache: CacheConfig,
    pub pieces: PiecesConfig,
    pub timeouts: TimeoutsConfig,
    pub tracker: TrackerConfig,
    pub algorithms: AlgorithmsConfig,
    pub active_limits: ActiveLimitsConfig,
    pub auto_manage: AutoManageConfig,
    pub encryption: EncryptionConfig,
    pub proxy: ProxyConfig,
    pub user_agent: UserAgentConfig,
    pub alert: AlertConfig,
    pub performance: PerformanceConfig,
    pub misc: MiscConfig,
}

impl TorrentfsConfig {
    /// Nothing is given.
    pub open spec fn unset() -> TorrentfsConfig {
        TorrentfsConfig {
            connections: ConnectionsConfig::unset(),
            dht: DhtConfig::unset(),
            local_discovery: LocalDiscoveryConfig::unset(),
            rate_limits: RateLimitsConfig::unset(),
            disk_io: DiskIoConfig::unset(),
            cache: CacheConfig::unset(),
            pieces: PiecesConfig::unset(),
            timeouts: TimeoutsConfig::unset(),
            tracker: TrackerConfig::unset(),
            algorithms: AlgorithmsConfig::unset(),
            active_limits: ActiveLimitsConfig::unset(),
            auto_manage: AutoManageConfig::unset(),
            encryption: EncryptionConfig::unset(),
            proxy: ProxyConfig::unset(),
            user_agent: UserAgentConfig::unset(),
            alert: AlertConfig::unset(),
            performance: PerformanceConfig::unset(),
            misc: MiscConfig::unset(),
        }
    }

    /// The settings for the session.
    pub open spec fn settings(&self) -> Map<Seq<char>, settings::Setting> {
        let m = settings::no_settings();
        let m = self.connections.written(m);
        let m = self.dht.written(m);
        let m = self.local_discovery.written(m);
        let m = self.rate_limits.written(m);
        let m = self.disk_io.written(m);
        let m = self.cache.written(m);
        let m = self.pieces.written(m);
        let m = self.timeouts.written(m);
        let m = self.tracker.written(m);
        let m = self.algorithms.written(m);
        let m = self.active_limits.written(m);
        let m = self.auto_manage.written(m);
        let m = self.encryption.written(m);
        let m = self.proxy.written(m);
        let m = self.user_agent.written(m);
        let m = self.alert.written(m);
        let m = self.performance.written(m);
        let m = self.misc.written(m);
        m
    }

    /// The text of the settings; an empty object where they have none.
    pub open spec fn settings_text(&self) -> Seq<char> {
        match settings::json_text(self.settings()) {
            Some(t) => t,
            None => "{}"@,
        }
    }

    pub fn default_config() -> (r: Self)
        ensures
            r == TorrentfsConfig::unset(),
    {
        TorrentfsConfig::default()
    }

    /// The settings for the session as one JSON object; an empty object where they have no text.
    pub fn to_settings_json(&self) -> (r: String)
        ensures
            r@ == self.settings_text(),
            self.settings() == settings::no_settings() ==> r@ == "{}"@,
    {
        let mut map = settings::new_settings();
        self.connections.write_json(&mut map);
        self.dht.write_json(&mut map);
        self.local_discovery.write_json(&mut map);
        self.rate_limits.write_json(&mut map);
        self.disk_io.write_json(&mut map);
        self.cache.write_json(&mut map);
        self.pieces.write_json(&mut map);
        self.timeouts.write_json(&mut map);
        self.tracker.write_json(&mut map);
        self.algorithms.write_json(&mut map);
        self.active_limits.write_json(&mut map);
        self.auto_manage.write_json(&mut map);
        self.encryption.write_json(&mut map);
        self.proxy.write_json(&mut map);
        self.user_agent.write_json(&mut map);
        self.alert.write_json(&mut map);
        self.performance.write_json(&mut map);
        self.misc.write_json(&mut map);
        let written = match settings::settings_to_string(&map) {
            Ok(t) => Some(t),
            Err(_) => None,
        };
        text_or_empty_object(written)
    }

    /// The text that a new session takes its settings from, if there are any.
    pub fn settings_to_apply(&self) -> (r: Option<String>)
        ensures
            match r {
                Some(t) => t@ == self.settings_text() && t@ != "{}"@,
                None => self.settings_text() == "{}"@,
            },
    {
        unless_empty_object(self.to_settings_json())
    }
}

/// The text of an object, or that of an empty one where it could not be written.
pub fn text_or_empty_object(written: Option<String>) -> (r: String)
    ensures
        r@ == match written {
            Some(t) => t@,
            None => "{}"@,
        },
{
    match written {
        Some(t) => t,
        None => "{}".to_owned(),
    }
}

/// The text of an object, unless the object is empty.
pub fn unless_empty_object(json: String) -> (r: Option<String>)
    ensures
        r == if json@ == "{}"@ {
            None
        } else {
            Some(json)
        },
{
    if text::same(json.as_str(), "{}") {
        None
    } else {
        Some(json)
    }
}

impl Default for TorrentfsConfig {
    fn default() -> (r: Self)
        ensures
            r == TorrentfsConfig::unset(),
    {
        TorrentfsConfig {
            connections: ConnectionsConfig::default(),
            dht: DhtConfig::default(),
            local_discovery: LocalDiscoveryConfig::default(),
            rate_limits: RateLimitsConfig::default(),
            disk_io: DiskIoConfig::default(),
            cache: CacheConfig::default(),
            pieces: PiecesConfig::default(),
            timeouts: TimeoutsConfig::default(),
            tracker: TrackerConfig::default(),
            algorithms: AlgorithmsConfig::default(),
            active_limits: ActiveLimitsConfig::default(),
            auto_manage: AutoManageConfig::default(),
            encryption: EncryptionConfig::default(),
            proxy: ProxyConfig::default(),
            user_agent: UserAgentConfig::default(),
            alert: AlertConfig::default(),
            performance: PerformanceConfig::default(),
            misc: MiscConfig::default(),
        }
    }
}

/// A configuration in which nothing is given makes no settings.
pub proof fn default_makes_no_settings()
    ensures
        TorrentfsConfig::unset().settings() == settings::no_settings(),
{
}

/// How long a read may wait is not told to the session.
pub proof fn read_timeout_is_no_setting(a: TorrentfsConfig, seconds: Option<i64>)
    ensures
        (TorrentfsConfig {
            timeouts: TimeoutsConfig { read_timeout_secs: seconds, ..a.timeouts },
            ..a
        }).settings() == a.settings(),
{
}

} // verus!
