//! What the settings say of the configuration.

use vstd::prelude::*;

use super::sections::{
    ActiveLimitsConfig,
    AlertConfig,
    AlgorithmsConfig,
    AutoManageConfig,
    CacheConfig,
    ConnectionsConfig,
    DhtConfig,
    DiskIoConfig,
    EncryptionConfig,
    LocalDiscoveryConfig,
    MiscConfig,
    PerformanceConfig,
    PiecesConfig,
    ProxyConfig,
    RateLimitsConfig,
    TimeoutsConfig,
    TrackerConfig,
    UserAgentConfig,
};
use super::settings;
use super::settings::Setting;
use super::TorrentfsConfig;

verus! {

/// After `m` has become `after`, the number stands under the name, or nothing has changed there where
/// none is given.
pub open spec fn number_stands(
    m: Map<Seq<char>, Setting>,
    after: Map<Seq<char>, Setting>,
    name: Seq<char>,
    value: Option<i64>,
) -> bool {
    match value {
        Some(n) => after.contains_key(name) && after[name] == Setting::Number(
            settings::json_integer(n),
        ),
        None => stays(m, after, name),
    }
}

pub open spec fn flag_stands(
    m: Map<Seq<char>, Setting>,
    after: Map<Seq<char>, Setting>,
    name: Seq<char>,
    value: Option<bool>,
) -> bool {
    match value {
        Some(b) => after.contains_key(name) && after[name] == Setting::Flag(b),
        None => stays(m, after, name),
    }
}

/// An empty text is as good as none.
pub open spec fn text_stands(
    m: Map<Seq<char>, Setting>,
    after: Map<Seq<char>, Setting>,
    name: Seq<char>,
    value: Option<String>,
) -> bool {
    if value is Some && value->0@.len() > 0 {
        after.contains_key(name) && after[name] == Setting::Text(value->0@)
    } else {
        stays(m, after, name)
    }
}

pub open spec fn fraction_stands(
    m: Map<Seq<char>, Setting>,
    after: Map<Seq<char>, Setting>,
    name: Seq<char>,
    value: Option<serde_json::Number>,
) -> bool {
    match value {
        Some(n) => after.contains_key(name) && after[name] == Setting::Number(n),
        None => stays(m, after, name),
    }
}

/// Nothing has changed under the name.
pub open spec fn stays(
    m: Map<Seq<char>, Setting>,
    after: Map<Seq<char>, Setting>,
    name: Seq<char>,
) -> bool {
    after.contains_key(name) == m.contains_key(name) && (m.contains_key(name) ==> after[name]
        == m[name])
}

/// Of a section, each setting stands under its own name where it alone is given, and nothing changes
/// where it is not: connections with peers.
pub proof fn connections_setting_alone_stands(c: ConnectionsConfig, m: Map<Seq<char>, Setting>)
    ensures
        text_stands(
            m,
            (ConnectionsConfig {
                listen_interfaces: c.listen_interfaces,
                ..ConnectionsConfig::unset()
            }).written(m),
            "listen_interfaces"@,
            c.listen_interfaces,
        ),
        text_stands(
            m,
            (ConnectionsConfig {
                outgoing_interfaces: c.outgoing_interfaces,
                ..ConnectionsConfig::unset()
            }).written(m),
            "outgoing_interfaces"@,
            c.outgoing_interfaces,
        ),
        number_stands(
            m,
            (ConnectionsConfig {
                max_connections: c.max_connections,
                ..ConnectionsConfig::unset()
            }).written(m),
            "max_connections"@,
            c.max_connections,
        ),
        number_stands(
            m,
            (ConnectionsConfig {
                max_uploads: c.max_uploads,
                ..ConnectionsConfig::unset()
            }).written(m),
            "max_uploads"@,
            c.max_uploads,
        ),
        number_stands(
            m,
            (ConnectionsConfig {
                listen_queue_size: c.listen_queue_size,
                ..ConnectionsConfig::unset()
            }).written(m),
            "listen_queue_size"@,
            c.listen_queue_size,
        ),
        number_stands(
            m,
            (ConnectionsConfig {
                connection_speed: c.connection_speed,
                ..ConnectionsConfig::unset()
            }).written(m),
            "connection_speed"@,
            c.connection_speed,
        ),
        flag_stands(
            m,
            (ConnectionsConfig {
                smooth_connects: c.smooth_connects,
                ..ConnectionsConfig::unset()
            }).written(m),
            "smooth_connects"@,
            c.smooth_connects,
        ),
        flag_stands(
            m,
            (ConnectionsConfig {
                allow_multiple_connections_per_ip: c.allow_multiple_connections_per_ip,
                ..ConnectionsConfig::unset()
            }).written(m),
            "allow_multiple_connections_per_ip"@,
            c.allow_multiple_connections_per_ip,
        ),
        number_stands(
            m,
            (ConnectionsConfig {
                max_peerlist_size: c.max_peerlist_size,
                ..ConnectionsConfig::unset()
            }).written(m),
            "max_peerlist_size"@,
            c.max_peerlist_size,
        ),
        number_stands(
            m,
            (ConnectionsConfig {
                max_paused_peerlist_size: c.max_paused_peerlist_size,
                ..ConnectionsConfig::unset()
            }).written(m),
            "max_paused_peerlist_size"@,
            c.max_paused_peerlist_size,
        ),
        number_stands(
            m,
            (ConnectionsConfig {
                min_reconnect_time: c.min_reconnect_time,
                ..ConnectionsConfig::unset()
            }).written(m),
            "min_reconnect_time"@,
            c.min_reconnect_time,
        ),
        number_stands(
            m,
            (ConnectionsConfig {
                peer_connect_timeout: c.peer_connect_timeout,
                ..ConnectionsConfig::unset()
            }).written(m),
            "peer_connect_timeout"@,
            c.peer_connect_timeout,
        ),
{
}

/// Of a section, each given setting stands under its own name, and what is not given stays as it
/// was: the distributed hash table.
pub proof fn dht_settings_stand(c: DhtConfig, m: Map<Seq<char>, Setting>)
    ensures
        flag_stands(m, c.written(m), "enable_dht"@, c.enabled),
        number_stands(m, c.written(m), "max_dht_items"@, c.max_dht_items),
        number_stands(m, c.written(m), "dht_announce_interval"@, c.dht_announce_interval),
        number_stands(m, c.written(m), "max_active_dht_limit"@, c.max_active_dht_limit),
{
    reveal_strlit("enable_dht");
    reveal_strlit("max_dht_items");
    reveal_strlit("dht_announce_interval");
    reveal_strlit("max_active_dht_limit");
    assert("enable_dht"@.len() == 10);
    assert("max_dht_items"@.len() == 13);
    assert("dht_announce_interval"@.len() == 21);
    assert("max_active_dht_limit"@.len() == 20);
}

/// Of a section, each given setting stands under its own name, and what is not given stays as it
/// was: finding peers and ports in the local network.
pub proof fn local_discovery_settings_stand(c: LocalDiscoveryConfig, m: Map<Seq<char>, Setting>)
    ensures
        flag_stands(m, c.written(m), "enable_lsd"@, c.lsd_enabled),
        flag_stands(m, c.written(m), "enable_upnp"@, c.upnp_enabled),
        flag_stands(m, c.written(m), "enable_natpmp"@, c.natpmp_enabled),
{
    reveal_strlit("enable_lsd");
    reveal_strlit("enable_upnp");
    reveal_strlit("enable_natpmp");
    assert("enable_lsd"@.len() == 10);
    assert("enable_upnp"@.len() == 11);
    assert("enable_natpmp"@.len() == 13);
}

/// Of a section, each given setting stands under its own name, and what is not given stays as it
/// was: limits on the traffic.
pub proof fn rate_limits_settings_stand(c: RateLimitsConfig, m: Map<Seq<char>, Setting>)
    ensures
        number_stands(m, c.written(m), "download_rate_limit"@, c.download_rate_limit),
        number_stands(m, c.written(m), "upload_rate_limit"@, c.upload_rate_limit),
        flag_stands(m, c.written(m), "rate_limit_utp"@, c.rate_limit_utp),
        flag_stands(m, c.written(m), "rate_limit_ip_overhead"@, c.rate_limit_ip_overhead),
{
    reveal_strlit("download_rate_limit");
    reveal_strlit("upload_rate_limit");
    reveal_strlit("rate_limit_utp");
    reveal_strlit("rate_limit_ip_overhead");
    assert("download_rate_limit"@.len() == 19);
    assert("upload_rate_limit"@.len() == 17);
    assert("rate_limit_utp"@.len() == 14);
    assert("rate_limit_ip_overhead"@.len() == 22);
}

/// Of a section, each setting stands under its own name where it alone is given, and nothing changes
/// where it is not: reading and writing files.
pub proof fn disk_io_setting_alone_stands(c: DiskIoConfig, m: Map<Seq<char>, Setting>)
    ensures
        number_stands(
            m,
            (DiskIoConfig {
                disk_io_write_mode: c.disk_io_write_mode,
                ..DiskIoConfig::unset()
            }).written(m),
            "disk_io_write_mode"@,
            c.disk_io_write_mode,
        ),
        number_stands(
            m,
            (DiskIoConfig {
                disk_io_read_mode: c.disk_io_read_mode,
                ..DiskIoConfig::unset()
            }).written(m),
            "disk_io_read_mode"@,
            c.disk_io_read_mode,
        ),
        number_stands(
            m,
            (DiskIoConfig {
                file_pool_size: c.file_pool_size,
                ..DiskIoConfig::unset()
            }).written(m),
            "file_pool_size"@,
            c.file_pool_size,
        ),
        number_stands(
            m,
            (DiskIoConfig {
                max_queued_disk_bytes: c.max_queued_disk_bytes,
                ..DiskIoConfig::unset()
            }).written(m),
            "max_queued_disk_bytes"@,
            c.max_queued_disk_bytes,
        ),
        number_stands(
            m,
            (DiskIoConfig {
                max_queued_disk_bytes_low_watermark: c.max_queued_disk_bytes_low_watermark,
                ..DiskIoConfig::unset()
            }).written(m),
            "max_queued_disk_bytes_low_watermark"@,
            c.max_queued_disk_bytes_low_watermark,
        ),
        flag_stands(
            m,
            (DiskIoConfig {
                use_disk_read_ahead: c.use_disk_read_ahead,
                ..DiskIoConfig::unset()
            }).written(m),
            "use_disk_read_ahead"@,
            c.use_disk_read_ahead,
        ),
        flag_stands(
            m,
            (DiskIoConfig {
                lock_disk_cache: c.lock_disk_cache,
                ..DiskIoConfig::unset()
            }).written(m),
            "lock_disk_cache"@,
            c.lock_disk_cache,
        ),
        flag_stands(
            m,
            (DiskIoConfig {
                no_atime_storage: c.no_atime_storage,
                ..DiskIoConfig::unset()
            }).written(m),
            "no_atime_storage"@,
            c.no_atime_storage,
        ),
        flag_stands(
            m,
            (DiskIoConfig {
                low_prio_disk: c.low_prio_disk,
                ..DiskIoConfig::unset()
            }).written(m),
            "low_prio_disk"@,
            c.low_prio_disk,
        ),
{
}

/// Of a section, each given setting stands under its own name, and what is not given stays as it
/// was: the session's own cache.
pub proof fn cache_settings_stand(c: CacheConfig, m: Map<Seq<char>, Setting>)
    ensures
        number_stands(m, c.written(m), "cache_size"@, c.cache_size),
        number_stands(m, c.written(m), "cache_expiry"@, c.cache_expiry),
        flag_stands(m, c.written(m), "use_read_cache"@, c.use_read_cache),
        flag_stands(m, c.written(m), "use_disk_cache_pool"@, c.use_disk_cache_pool),
        flag_stands(m, c.written(m), "volatile_read_cache"@, c.volatile_read_cache),
        flag_stands(m, c.written(m), "guided_read_cache"@, c.guided_read_cache),
        number_stands(m, c.written(m), "default_cache_min_age"@, c.default_cache_min_age),
{
    reveal_strlit("cache_size");
    reveal_strlit("cache_expiry");
    reveal_strlit("use_read_cache");
    reveal_strlit("use_disk_cache_pool");
    reveal_strlit("volatile_read_cache");
    reveal_strlit("guided_read_cache");
    reveal_strlit("default_cache_min_age");
    assert("cache_size"@.len() == 10);
    assert("cache_expiry"@.len() == 12);
    assert("use_read_cache"@.len() == 14);
    assert("use_disk_cache_pool"@.len() == 19);
    assert("volatile_read_cache"@.len() == 19);
    assert("guided_read_cache"@.len() == 17);
    assert("default_cache_min_age"@.len() == 21);
    assert("use_disk_cache_pool"@[0] != "volatile_read_cache"@[0]);
}

/// Of a section, each setting stands under its own name where it alone is given, and nothing changes
/// where it is not: requests for pieces.
pub proof fn pieces_setting_alone_stands(c: PiecesConfig, m: Map<Seq<char>, Setting>)
    ensures
        number_stands(
            m,
            (PiecesConfig {
                whole_pieces_threshold: c.whole_pieces_threshold,
                ..PiecesConfig::unset()
            }).written(m),
            "whole_pieces_threshold"@,
            c.whole_pieces_threshold,
        ),
        flag_stands(
            m,
            (PiecesConfig {
                prioritize_partial_pieces: c.prioritize_partial_pieces,
                ..PiecesConfig::unset()
            }).written(m),
            "prioritize_partial_pieces"@,
            c.prioritize_partial_pieces,
        ),
        number_stands(
            m,
            (PiecesConfig {
                max_out_request_queue: c.max_out_request_queue,
                ..PiecesConfig::unset()
            }).written(m),
            "max_out_request_queue"@,
            c.max_out_request_queue,
        ),
        number_stands(
            m,
            (PiecesConfig {
                max_allowed_in_request_queue: c.max_allowed_in_request_queue,
                ..PiecesConfig::unset()
            }).written(m),
            "max_allowed_in_request_queue"@,
            c.max_allowed_in_request_queue,
        ),
        number_stands(
            m,
            (PiecesConfig {
                piece_timeout: c.piece_timeout,
                ..PiecesConfig::unset()
            }).written(m),
            "piece_timeout"@,
            c.piece_timeout,
        ),
        number_stands(
            m,
            (PiecesConfig {
                request_timeout: c.request_timeout,
                ..PiecesConfig::unset()
            }).written(m),
            "request_timeout"@,
            c.request_timeout,
        ),
        number_stands(
            m,
            (PiecesConfig {
                predictive_piece_announce: c.predictive_piece_announce,
                ..PiecesConfig::unset()
            }).written(m),
            "predictive_piece_announce"@,
            c.predictive_piece_announce,
        ),
        number_stands(
            m,
            (PiecesConfig {
                max_suggest_pieces: c.max_suggest_pieces,
                ..PiecesConfig::unset()
            }).written(m),
            "max_suggest_pieces"@,
            c.max_suggest_pieces,
        ),
        flag_stands(
            m,
            (PiecesConfig {
                drop_skipped_requests: c.drop_skipped_requests,
                ..PiecesConfig::unset()
            }).written(m),
            "drop_skipped_requests"@,
            c.drop_skipped_requests,
        ),
        number_stands(
            m,
            (PiecesConfig {
                seeding_piece_quota: c.seeding_piece_quota,
                ..PiecesConfig::unset()
            }).written(m),
            "seeding_piece_quota"@,
            c.seeding_piece_quota,
        ),
        number_stands(
            m,
            (PiecesConfig {
                max_sparse_regions: c.max_sparse_regions,
                ..PiecesConfig::unset()
            }).written(m),
            "max_sparse_regions"@,
            c.max_sparse_regions,
        ),
{
}

/// Of a section, each given setting stands under its own name, and what is not given stays as it
/// was: how long to wait.
pub proof fn timeouts_settings_stand(c: TimeoutsConfig, m: Map<Seq<char>, Setting>)
    ensures
        number_stands(m, c.written(m), "peer_timeout"@, c.peer_timeout),
        number_stands(m, c.written(m), "urlseed_timeout"@, c.urlseed_timeout),
        number_stands(m, c.written(m), "urlseed_pipeline_size"@, c.urlseed_pipeline_size),
        number_stands(m, c.written(m), "stop_tracker_timeout"@, c.stop_tracker_timeout),
        number_stands(m, c.written(m), "tracker_completion_timeout"@, c.tracker_completion_timeout),
        number_stands(m, c.written(m), "tracker_receive_timeout"@, c.tracker_receive_timeout),
        number_stands(m, c.written(m), "inactivity_timeout"@, c.inactivity_timeout),
{
    reveal_strlit("peer_timeout");
    reveal_strlit("urlseed_timeout");
    reveal_strlit("urlseed_pipeline_size");
    reveal_strlit("stop_tracker_timeout");
    reveal_strlit("tracker_completion_timeout");
    reveal_strlit("tracker_receive_timeout");
    reveal_strlit("inactivity_timeout");
    assert("peer_timeout"@.len() == 12);
    assert("urlseed_timeout"@.len() == 15);
    assert("urlseed_pipeline_size"@.len() == 21);
    assert("stop_tracker_timeout"@.len() == 20);
    assert("tracker_completion_timeout"@.len() == 26);
    assert("tracker_receive_timeout"@.len() == 23);
    assert("inactivity_timeout"@.len() == 18);
}

/// Of a section, each given setting stands under its own name, and what is not given stays as it
/// was: announcements to trackers.
pub proof fn tracker_settings_stand(c: TrackerConfig, m: Map<Seq<char>, Setting>)
    ensures
        flag_stands(m, c.written(m), "announce_to_all_trackers"@, c.announce_to_all_trackers),
        flag_stands(m, c.written(m), "announce_to_all_tiers"@, c.announce_to_all_tiers),
        flag_stands(m, c.written(m), "prefer_udp_trackers"@, c.prefer_udp_trackers),
        number_stands(m, c.written(m), "tracker_backoff"@, c.tracker_backoff),
        number_stands(
            m,
            c.written(m),
            "tracker_maximum_response_length"@,
            c.tracker_maximum_response_length,
        ),
        number_stands(m, c.written(m), "min_announce_interval"@, c.min_announce_interval),
        number_stands(m, c.written(m), "udp_tracker_token_expiry"@, c.udp_tracker_token_expiry),
{
    reveal_strlit("announce_to_all_trackers");
    reveal_strlit("announce_to_all_tiers");
    reveal_strlit("prefer_udp_trackers");
    reveal_strlit("tracker_backoff");
    reveal_strlit("tracker_maximum_response_length");
    reveal_strlit("min_announce_interval");
    reveal_strlit("udp_tracker_token_expiry");
    assert("announce_to_all_trackers"@.len() == 24);
    assert("announce_to_all_tiers"@.len() == 21);
    assert("prefer_udp_trackers"@.len() == 19);
    assert("tracker_backoff"@.len() == 15);
    assert("tracker_maximum_response_length"@.len() == 31);
    assert("min_announce_interval"@.len() == 21);
    assert("udp_tracker_token_expiry"@.len() == 24);
    assert("announce_to_all_tiers"@[0] != "min_announce_interval"@[0]);
    assert("announce_to_all_trackers"@[0] != "udp_tracker_token_expiry"@[0]);
}

/// Of a section, each given setting stands under its own name, and what is not given stays as it
/// was: whom to serve and in what way.
pub proof fn algorithms_settings_stand(c: AlgorithmsConfig, m: Map<Seq<char>, Setting>)
    ensures
        number_stands(m, c.written(m), "choking_algorithm"@, c.choking_algorithm),
        number_stands(m, c.written(m), "seed_choking_algorithm"@, c.seed_choking_algorithm),
        number_stands(m, c.written(m), "mixed_mode_algorithm"@, c.mixed_mode_algorithm),
        number_stands(m, c.written(m), "suggest_mode"@, c.suggest_mode),
{
    reveal_strlit("choking_algorithm");
    reveal_strlit("seed_choking_algorithm");
    reveal_strlit("mixed_mode_algorithm");
    reveal_strlit("suggest_mode");
    assert("choking_algorithm"@.len() == 17);
    assert("seed_choking_algorithm"@.len() == 22);
    assert("mixed_mode_algorithm"@.len() == 20);
    assert("suggest_mode"@.len() == 12);
}

/// Of a section, each given setting stands under its own name, and what is not given stays as it
/// was: how many torrents are active.
pub proof fn active_limits_settings_stand(c: ActiveLimitsConfig, m: Map<Seq<char>, Setting>)
    ensures
        number_stands(m, c.written(m), "active_downloads"@, c.active_downloads),
        number_stands(m, c.written(m), "active_seeds"@, c.active_seeds),
        number_stands(m, c.written(m), "active_checking"@, c.active_checking),
        number_stands(m, c.written(m), "active_limit"@, c.active_limit),
        number_stands(m, c.written(m), "active_tracker_limit"@, c.active_tracker_limit),
        number_stands(m, c.written(m), "active_lsd_limit"@, c.active_lsd_limit),
        number_stands(m, c.written(m), "active_dht_limit"@, c.active_dht_limit),
{
    reveal_strlit("active_downloads");
    reveal_strlit("active_seeds");
    reveal_strlit("active_checking");
    reveal_strlit("active_limit");
    reveal_strlit("active_tracker_limit");
    reveal_strlit("active_lsd_limit");
    reveal_strlit("active_dht_limit");
    assert("active_downloads"@.len() == 16);
    assert("active_seeds"@.len() == 12);
    assert("active_checking"@.len() == 15);
    assert("active_limit"@.len() == 12);
    assert("active_tracker_limit"@.len() == 20);
    assert("active_lsd_limit"@.len() == 16);
    assert("active_dht_limit"@.len() == 16);
    assert("active_seeds"@[7] != "active_limit"@[7]);
    assert("active_downloads"@[7] != "active_lsd_limit"@[7]);
    assert("active_downloads"@[8] != "active_dht_limit"@[8]);
    assert("active_lsd_limit"@[7] != "active_dht_limit"@[7]);
}

/// Of a section, each given setting stands under its own name, and what is not given stays as it
/// was: starting and stopping torrents by themselves.
pub proof fn auto_manage_settings_stand(c: AutoManageConfig, m: Map<Seq<char>, Setting>)
    ensures
        number_stands(m, c.written(m), "auto_manage_interval"@, c.auto_manage_interval),
        number_stands(m, c.written(m), "auto_manage_startup"@, c.auto_manage_startup),
        flag_stands(m, c.written(m), "auto_manage_prefer_seeds"@, c.auto_manage_prefer_seeds),
        flag_stands(m, c.written(m), "dont_count_slow_torrents"@, c.dont_count_slow_torrents),
        fraction_stands(m, c.written(m), "share_ratio_limit"@, c.share_ratio_limit),
        fraction_stands(m, c.written(m), "seed_time_ratio_limit"@, c.seed_time_ratio_limit),
        number_stands(m, c.written(m), "seed_time_limit"@, c.seed_time_limit),
{
    reveal_strlit("auto_manage_interval");
    reveal_strlit("auto_manage_startup");
    reveal_strlit("auto_manage_prefer_seeds");
    reveal_strlit("dont_count_slow_torrents");
    reveal_strlit("share_ratio_limit");
    reveal_strlit("seed_time_ratio_limit");
    reveal_strlit("seed_time_limit");
    assert("auto_manage_interval"@.len() == 20);
    assert("auto_manage_startup"@.len() == 19);
    assert("auto_manage_prefer_seeds"@.len() == 24);
    assert("dont_count_slow_torrents"@.len() == 24);
    assert("share_ratio_limit"@.len() == 17);
    assert("seed_time_ratio_limit"@.len() == 21);
    assert("seed_time_limit"@.len() == 15);
    assert("auto_manage_prefer_seeds"@[0] != "dont_count_slow_torrents"@[0]);
}

/// Of a section, each given setting stands under its own name, and what is not given stays as it
/// was: encrypted connections.
pub proof fn encryption_settings_stand(c: EncryptionConfig, m: Map<Seq<char>, Setting>)
    ensures
        number_stands(m, c.written(m), "encryption_policy"@, c.encryption_policy),
        number_stands(m, c.written(m), "allowed_encryption_level"@, c.allowed_encryption_level),
        number_stands(m, c.written(m), "ssl_listen"@, c.ssl_listen),
{
    reveal_strlit("encryption_policy");
    reveal_strlit("allowed_encryption_level");
    reveal_strlit("ssl_listen");
    assert("encryption_policy"@.len() == 17);
    assert("allowed_encryption_level"@.len() == 24);
    assert("ssl_listen"@.len() == 10);
}

/// Of a section, each setting stands under its own name where it alone is given, and nothing changes
/// where it is not: the proxy.
pub proof fn proxy_setting_alone_stands(c: ProxyConfig, m: Map<Seq<char>, Setting>)
    ensures
        text_stands(
            m,
            (ProxyConfig {
                host: c.host,
                ..ProxyConfig::unset()
            }).written(m),
            "host"@,
            c.host,
        ),
        number_stands(
            m,
            (ProxyConfig {
                port: c.port,
                ..ProxyConfig::unset()
            }).written(m),
            "port"@,
            c.port,
        ),
        text_stands(
            m,
            (ProxyConfig {
                proxy_type: c.proxy_type,
                ..ProxyConfig::unset()
            }).written(m),
            "proxy_type"@,
            c.proxy_type,
        ),
        flag_stands(
            m,
            (ProxyConfig {
                proxy_hostnames: c.proxy_hostnames,
                ..ProxyConfig::unset()
            }).written(m),
            "proxy_hostnames"@,
            c.proxy_hostnames,
        ),
        flag_stands(
            m,
            (ProxyConfig {
                proxy_peer_connections: c.proxy_peer_connections,
                ..ProxyConfig::unset()
            }).written(m),
            "proxy_peer_connections"@,
            c.proxy_peer_connections,
        ),
        flag_stands(
            m,
            (ProxyConfig {
                proxy_tracker_connections: c.proxy_tracker_connections,
                ..ProxyConfig::unset()
            }).written(m),
            "proxy_tracker_connections"@,
            c.proxy_tracker_connections,
        ),
        flag_stands(
            m,
            (ProxyConfig {
                anonymous_mode: c.anonymous_mode,
                ..ProxyConfig::unset()
            }).written(m),
            "anonymous_mode"@,
            c.anonymous_mode,
        ),
        flag_stands(
            m,
            (ProxyConfig {
                force_proxy: c.force_proxy,
                ..ProxyConfig::unset()
            }).written(m),
            "force_proxy"@,
            c.force_proxy,
        ),
{
}

/// Of a section, each given setting stands under its own name, and what is not given stays as it
/// was: how the session names itself.
pub proof fn user_agent_settings_stand(c: UserAgentConfig, m: Map<Seq<char>, Setting>)
    ensures
        text_stands(m, c.written(m), "user_agent"@, c.user_agent),
        text_stands(m, c.written(m), "peer_fingerprint"@, c.peer_fingerprint),
        flag_stands(m, c.written(m), "always_send_user_agent"@, c.always_send_user_agent),
{
    reveal_strlit("user_agent");
    reveal_strlit("peer_fingerprint");
    reveal_strlit("always_send_user_agent");
    assert("user_agent"@.len() == 10);
    assert("peer_fingerprint"@.len() == 16);
    assert("always_send_user_agent"@.len() == 22);
}

/// Of a section, each given setting stands under its own name, and what is not given stays as it
/// was: alerts of the session.
pub proof fn alert_settings_stand(c: AlertConfig, m: Map<Seq<char>, Setting>)
    ensures
        number_stands(m, c.written(m), "alert_mask"@, c.alert_mask),
        number_stands(m, c.written(m), "alert_queue_size"@, c.alert_queue_size),
{
    reveal_strlit("alert_mask");
    reveal_strlit("alert_queue_size");
    assert("alert_mask"@.len() == 10);
    assert("alert_queue_size"@.len() == 16);
}

/// Of a section, each setting stands under its own name where it alone is given, and nothing changes
/// where it is not: threads and buffers.
pub proof fn performance_setting_alone_stands(c: PerformanceConfig, m: Map<Seq<char>, Setting>)
    ensures
        number_stands(
            m,
            (PerformanceConfig {
                aio_threads: c.aio_threads,
                ..PerformanceConfig::unset()
            }).written(m),
            "aio_threads"@,
            c.aio_threads,
        ),
        number_stands(
            m,
            (PerformanceConfig {
                network_threads: c.network_threads,
                ..PerformanceConfig::unset()
            }).written(m),
            "network_threads"@,
            c.network_threads,
        ),
        number_stands(
            m,
            (PerformanceConfig {
                checking_mem_usage: c.checking_mem_usage,
                ..PerformanceConfig::unset()
            }).written(m),
            "checking_mem_usage"@,
            c.checking_mem_usage,
        ),
        number_stands(
            m,
            (PerformanceConfig {
                tick_interval: c.tick_interval,
                ..PerformanceConfig::unset()
            }).written(m),
            "tick_interval"@,
            c.tick_interval,
        ),
        number_stands(
            m,
            (PerformanceConfig {
                send_buffer_watermark: c.send_buffer_watermark,
                ..PerformanceConfig::unset()
            }).written(m),
            "send_buffer_watermark"@,
            c.send_buffer_watermark,
        ),
        number_stands(
            m,
            (PerformanceConfig {
                send_buffer_watermark_factor: c.send_buffer_watermark_factor,
                ..PerformanceConfig::unset()
            }).written(m),
            "send_buffer_watermark_factor"@,
            c.send_buffer_watermark_factor,
        ),
        number_stands(
            m,
            (PerformanceConfig {
                send_buffer_low_watermark: c.send_buffer_low_watermark,
                ..PerformanceConfig::unset()
            }).written(m),
            "send_buffer_low_watermark"@,
            c.send_buffer_low_watermark,
        ),
        number_stands(
            m,
            (PerformanceConfig {
                recv_socket_buffer_size: c.recv_socket_buffer_size,
                ..PerformanceConfig::unset()
            }).written(m),
            "recv_socket_buffer_size"@,
            c.recv_socket_buffer_size,
        ),
        number_stands(
            m,
            (PerformanceConfig {
                send_socket_buffer_size: c.send_socket_buffer_size,
                ..PerformanceConfig::unset()
            }).written(m),
            "send_socket_buffer_size"@,
            c.send_socket_buffer_size,
        ),
        number_stands(
            m,
            (PerformanceConfig {
                optimistic_disk_retry: c.optimistic_disk_retry,
                ..PerformanceConfig::unset()
            }).written(m),
            "optimistic_disk_retry"@,
            c.optimistic_disk_retry,
        ),
{
}

/// Of a section, each setting stands under its own name where it alone is given, and nothing changes
/// where it is not: all else.
pub proof fn misc_setting_alone_stands(c: MiscConfig, m: Map<Seq<char>, Setting>)
    ensures
        flag_stands(
            m,
            (MiscConfig {
                ignore_resume_timestamps: c.ignore_resume_timestamps,
                ..MiscConfig::unset()
            }).written(m),
            "ignore_resume_timestamps"@,
            c.ignore_resume_timestamps,
        ),
        flag_stands(
            m,
            (MiscConfig {
                no_recheck_incomplete_resume: c.no_recheck_incomplete_resume,
                ..MiscConfig::unset()
            }).written(m),
            "no_recheck_incomplete_resume"@,
            c.no_recheck_incomplete_resume,
        ),
        flag_stands(
            m,
            (MiscConfig {
                disable_hash_checks: c.disable_hash_checks,
                ..MiscConfig::unset()
            }).written(m),
            "disable_hash_checks"@,
            c.disable_hash_checks,
        ),
        flag_stands(
            m,
            (MiscConfig {
                allow_i2p_mixed: c.allow_i2p_mixed,
                ..MiscConfig::unset()
            }).written(m),
            "allow_i2p_mixed"@,
            c.allow_i2p_mixed,
        ),
        flag_stands(
            m,
            (MiscConfig {
                incoming_starts_queued: c.incoming_starts_queued,
                ..MiscConfig::unset()
            }).written(m),
            "incoming_starts_queued"@,
            c.incoming_starts_queued,
        ),
        flag_stands(
            m,
            (MiscConfig {
                ban_web_seeds: c.ban_web_seeds,
                ..MiscConfig::unset()
            }).written(m),
            "ban_web_seeds"@,
            c.ban_web_seeds,
        ),
        flag_stands(
            m,
            (MiscConfig {
                report_web_seed_downloads: c.report_web_seed_downloads,
                ..MiscConfig::unset()
            }).written(m),
            "report_web_seed_downloads"@,
            c.report_web_seed_downloads,
        ),
        number_stands(
            m,
            (MiscConfig {
                num_optimistic_unchoke_slots: c.num_optimistic_unchoke_slots,
                ..MiscConfig::unset()
            }).written(m),
            "num_optimistic_unchoke_slots"@,
            c.num_optimistic_unchoke_slots,
        ),
        number_stands(
            m,
            (MiscConfig {
                max_failcount: c.max_failcount,
                ..MiscConfig::unset()
            }).written(m),
            "max_failcount"@,
            c.max_failcount,
        ),
        number_stands(
            m,
            (MiscConfig {
                max_rejects: c.max_rejects,
                ..MiscConfig::unset()
            }).written(m),
            "max_rejects"@,
            c.max_rejects,
        ),
        number_stands(
            m,
            (MiscConfig {
                share_mode_target: c.share_mode_target,
                ..MiscConfig::unset()
            }).written(m),
            "share_mode_target"@,
            c.share_mode_target,
        ),
        flag_stands(
            m,
            (MiscConfig {
                apply_ip_filter_to_trackers: c.apply_ip_filter_to_trackers,
                ..MiscConfig::unset()
            }).written(m),
            "apply_ip_filter_to_trackers"@,
            c.apply_ip_filter_to_trackers,
        ),
        flag_stands(
            m,
            (MiscConfig {
                announce_double_nat: c.announce_double_nat,
                ..MiscConfig::unset()
            }).written(m),
            "announce_double_nat"@,
            c.announce_double_nat,
        ),
        flag_stands(
            m,
            (MiscConfig {
                lock_files: c.lock_files,
                ..MiscConfig::unset()
            }).written(m),
            "lock_files"@,
            c.lock_files,
        ),
        number_stands(
            m,
            (MiscConfig {
                local_service_announce_interval: c.local_service_announce_interval,
                ..MiscConfig::unset()
            }).written(m),
            "local_service_announce_interval"@,
            c.local_service_announce_interval,
        ),
        number_stands(
            m,
            (MiscConfig {
                read_job_every: c.read_job_every,
                ..MiscConfig::unset()
            }).written(m),
            "read_job_every"@,
            c.read_job_every,
        ),
        flag_stands(
            m,
            (MiscConfig {
                strict_super_seeding: c.strict_super_seeding,
                ..MiscConfig::unset()
            }).written(m),
            "strict_super_seeding"@,
            c.strict_super_seeding,
        ),
        flag_stands(
            m,
            (MiscConfig {
                enable_os_cache: c.enable_os_cache,
                ..MiscConfig::unset()
            }).written(m),
            "enable_os_cache"@,
            c.enable_os_cache,
        ),
{
}

/// A configuration in which one section alone is given makes the settings of that section.
pub proof fn section_alone_makes_its_settings(c: TorrentfsConfig)
    ensures
        (TorrentfsConfig { connections: c.connections, ..TorrentfsConfig::unset() }).settings()
            == c.connections.written(
            settings::no_settings(),
        ),
        (TorrentfsConfig { dht: c.dht, ..TorrentfsConfig::unset() }).settings() == c.dht.written(
            settings::no_settings(),
        ),
        (TorrentfsConfig { local_discovery: c.local_discovery, ..TorrentfsConfig::unset() }).settings(
        )
            == c.local_discovery.written(
            settings::no_settings(),
        ),
        (TorrentfsConfig { rate_limits: c.rate_limits, ..TorrentfsConfig::unset() }).settings()
            == c.rate_limits.written(
            settings::no_settings(),
        ),
        (TorrentfsConfig { disk_io: c.disk_io, ..TorrentfsConfig::unset() }).settings()
            == c.disk_io.written(
            settings::no_settings(),
        ),
        (TorrentfsConfig { cache: c.cache, ..TorrentfsConfig::unset() }).settings()
            == c.cache.written(
            settings::no_settings(),
        ),
        (TorrentfsConfig { pieces: c.pieces, ..TorrentfsConfig::unset() }).settings()
            == c.pieces.written(
            settings::no_settings(),
        ),
        (TorrentfsConfig { timeouts: c.timeouts, ..TorrentfsConfig::unset() }).settings()
            == c.timeouts.written(
            settings::no_settings(),
        ),
        (TorrentfsConfig { tracker: c.tracker, ..TorrentfsConfig::unset() }).settings()
            == c.tracker.written(
            settings::no_settings(),
        ),
        (TorrentfsConfig { algorithms: c.algorithms, ..TorrentfsConfig::unset() }).settings()
            == c.algorithms.written(
            settings::no_settings(),
        ),
        (TorrentfsConfig { active_limits: c.active_limits, ..TorrentfsConfig::unset() }).settings()
            == c.active_limits.written(
            settings::no_settings(),
        ),
        (TorrentfsConfig { auto_manage: c.auto_manage, ..TorrentfsConfig::unset() }).settings()
            == c.auto_manage.written(
            settings::no_settings(),
        ),
        (TorrentfsConfig { encryption: c.encryption, ..TorrentfsConfig::unset() }).settings()
            == c.encryption.written(
            settings::no_settings(),
        ),
        (TorrentfsConfig { proxy: c.proxy, ..TorrentfsConfig::unset() }).settings()
            == c.proxy.written(
            settings::no_settings(),
        ),
        (TorrentfsConfig { user_agent: c.user_agent, ..TorrentfsConfig::unset() }).settings()
            == c.user_agent.written(
            settings::no_settings(),
        ),
        (TorrentfsConfig { alert: c.alert, ..TorrentfsConfig::unset() }).settings()
            == c.alert.written(
            settings::no_settings(),
        ),
        (TorrentfsConfig { performance: c.performance, ..TorrentfsConfig::unset() }).settings()
            == c.performance.written(
            settings::no_settings(),
        ),
        (TorrentfsConfig { misc: c.misc, ..TorrentfsConfig::unset() }).settings() == c.misc.written(
            settings::no_settings(),
        ),
{
}

} // verus!
