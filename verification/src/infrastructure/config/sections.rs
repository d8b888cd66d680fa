//! The sections of the configuration, and what each of them sets in the session.
//!
//! A field that is not given leaves the session's own default alone, and so does an empty text.

use vstd::prelude::*;

use super::settings;
use super::settings::{put_flag, put_fraction, put_number, put_text, Setting};

verus! {

/// Connections with peers.
#[derive(Debug)]
pub struct ConnectionsConfig {
    pub listen_interfaces: Option<String>,
    pub outgoing_interfaces: Option<String>,
    pub max_connections: Option<i64>,
    pub max_uploads: Option<i64>,
    pub listen_queue_size: Option<i64>,
    pub connection_speed: Option<i64>,
    pub smooth_connects: Option<bool>,
    pub allow_multiple_connections_per_ip: Option<bool>,
    pub max_peerlist_size: Option<i64>,
    pub max_paused_peerlist_size: Option<i64>,
    pub min_reconnect_time: Option<i64>,
    pub peer_connect_timeout: Option<i64>,
}

impl ConnectionsConfig {
    /// Nothing is given.
    pub open spec fn unset() -> ConnectionsConfig {
        ConnectionsConfig {
            listen_interfaces: None,
            outgoing_interfaces: None,
            max_connections: None,
            max_uploads: None,
            listen_queue_size: None,
            connection_speed: None,
            smooth_connects: None,
            allow_multiple_connections_per_ip: None,
            max_peerlist_size: None,
            max_paused_peerlist_size: None,
            min_reconnect_time: None,
            peer_connect_timeout: None,
        }
    }

    /// The settings `m` with those of this section.
    pub open spec fn written(&self, m: Map<Seq<char>, Setting>) -> Map<Seq<char>, Setting> {
        let m = settings::with_text(m, "listen_interfaces"@, self.listen_interfaces);
        let m = settings::with_text(m, "outgoing_interfaces"@, self.outgoing_interfaces);
        let m = settings::with_number(m, "max_connections"@, self.max_connections);
        let m = settings::with_number(m, "max_uploads"@, self.max_uploads);
        let m = settings::with_number(m, "listen_queue_size"@, self.listen_queue_size);
        let m = settings::with_number(m, "connection_speed"@, self.connection_speed);
        let m = settings::with_flag(m, "smooth_connects"@, self.smooth_connects);
        let m = settings::with_flag(m, "allow_multiple_connections_per_ip"@, self.allow_multiple_connections_per_ip);
        let m = settings::with_number(m, "max_peerlist_size"@, self.max_peerlist_size);
        let m = settings::with_number(m, "max_paused_peerlist_size"@, self.max_paused_peerlist_size);
        let m = settings::with_number(m, "min_reconnect_time"@, self.min_reconnect_time);
        let m = settings::with_number(m, "peer_connect_timeout"@, self.peer_connect_timeout);
        m
    }

    pub fn write_json(&self, map: &mut serde_json::Map<String, serde_json::Value>)
        ensures
            settings::contents(*final(map)) == self.written(settings::contents(*old(map))),
    {
        put_text(map, "listen_interfaces", &self.listen_interfaces);
        put_text(map, "outgoing_interfaces", &self.outgoing_interfaces);
        put_number(map, "max_connections", self.max_connections);
        put_number(map, "max_uploads", self.max_uploads);
        put_number(map, "listen_queue_size", self.listen_queue_size);
        put_number(map, "connection_speed", self.connection_speed);
        put_flag(map, "smooth_connects", self.smooth_connects);
        put_flag(map, "allow_multiple_connections_per_ip", self.allow_multiple_connections_per_ip);
        put_number(map, "max_peerlist_size", self.max_peerlist_size);
        put_number(map, "max_paused_peerlist_size", self.max_paused_peerlist_size);
        put_number(map, "min_reconnect_time", self.min_reconnect_time);
        put_number(map, "peer_connect_timeout", self.peer_connect_timeout);
    }
}

impl Default for ConnectionsConfig {
    fn default() -> (r: Self)
        ensures
            r == ConnectionsConfig::unset(),
    {
        ConnectionsConfig {
            listen_interfaces: None,
            outgoing_interfaces: None,
            max_connections: None,
            max_uploads: None,
            listen_queue_size: None,
            connection_speed: None,
            smooth_connects: None,
            allow_multiple_connections_per_ip: None,
            max_peerlist_size: None,
            max_paused_peerlist_size: None,
            min_reconnect_time: None,
            peer_connect_timeout: None,
        }
    }
}

/// The distributed hash table.
#[derive(Debug)]
pub struct DhtConfig {
    pub enabled: Option<bool>,
    pub max_dht_items: Option<i64>,
    pub dht_announce_interval: Option<i64>,
    pub max_active_dht_limit: Option<i64>,
}

impl DhtConfig {
    /// Nothing is given.
    pub open spec fn unset() -> DhtConfig {
        DhtConfig {
            enabled: None,
            max_dht_items: None,
            dht_announce_interval: None,
            max_active_dht_limit: None,
        }
    }

    /// The settings `m` with those of this section.
    pub open spec fn written(&self, m: Map<Seq<char>, Setting>) -> Map<Seq<char>, Setting> {
        let m = settings::with_flag(m, "enable_dht"@, self.enabled);
        let m = settings::with_number(m, "max_dht_items"@, self.max_dht_items);
        let m = settings::with_number(m, "dht_announce_interval"@, self.dht_announce_interval);
        let m = settings::with_number(m, "max_active_dht_limit"@, self.max_active_dht_limit);
        m
    }

    pub fn write_json(&self, map: &mut serde_json::Map<String, serde_json::Value>)
        ensures
            settings::contents(*final(map)) == self.written(settings::contents(*old(map))),
    {
        put_flag(map, "enable_dht", self.enabled);
        put_number(map, "max_dht_items", self.max_dht_items);
        put_number(map, "dht_announce_interval", self.dht_announce_interval);
        put_number(map, "max_active_dht_limit", self.max_active_dht_limit);
    }
}

impl Default for DhtConfig {
    fn default() -> (r: Self)
        ensures
            r == DhtConfig::unset(),
    {
        DhtConfig {
            enabled: None,
            max_dht_items: None,
            dht_announce_interval: None,
            max_active_dht_limit: None,
        }
    }
}

/// Finding peers and ports in the local network.
#[derive(Debug)]
pub struct LocalDiscoveryConfig {
    pub lsd_enabled: Option<bool>,
    pub upnp_enabled: Option<bool>,
    pub natpmp_enabled: Option<bool>,
}

impl LocalDiscoveryConfig {
    /// Nothing is given.
    pub open spec fn unset() -> LocalDiscoveryConfig {
        LocalDiscoveryConfig {
            lsd_enabled: None,
            upnp_enabled: None,
            natpmp_enabled: None,
        }
    }

    /// The settings `m` with those of this section.
    pub open spec fn written(&self, m: Map<Seq<char>, Setting>) -> Map<Seq<char>, Setting> {
        let m = settings::with_flag(m, "enable_lsd"@, self.lsd_enabled);
        let m = settings::with_flag(m, "enable_upnp"@, self.upnp_enabled);
        let m = settings::with_flag(m, "enable_natpmp"@, self.natpmp_enabled);
        m
    }

    pub fn write_json(&self, map: &mut serde_json::Map<String, serde_json::Value>)
        ensures
            settings::contents(*final(map)) == self.written(settings::contents(*old(map))),
    {
        put_flag(map, "enable_lsd", self.lsd_enabled);
        put_flag(map, "enable_upnp", self.upnp_enabled);
        put_flag(map, "enable_natpmp", self.natpmp_enabled);
    }
}

impl Default for LocalDiscoveryConfig {
    fn default() -> (r: Self)
        ensures
            r == LocalDiscoveryConfig::unset(),
    {
        LocalDiscoveryConfig {
            lsd_enabled: None,
            upnp_enabled: None,
            natpmp_enabled: None,
        }
    }
}

/// Limits on the traffic.
#[derive(Debug)]
pub struct RateLimitsConfig {
    pub download_rate_limit: Option<i64>,
    pub upload_rate_limit: Option<i64>,
    pub rate_limit_utp: Option<bool>,
    pub rate_limit_ip_overhead: Option<bool>,
}

impl RateLimitsConfig {
    /// Nothing is given.
    pub open spec fn unset() -> RateLimitsConfig {
        RateLimitsConfig {
            download_rate_limit: None,
            upload_rate_limit: None,
            rate_limit_utp: None,
            rate_limit_ip_overhead: None,
        }
    }

    /// The settings `m` with those of this section.
    pub open spec fn written(&self, m: Map<Seq<char>, Setting>) -> Map<Seq<char>, Setting> {
        let m = settings::with_number(m, "download_rate_limit"@, self.download_rate_limit);
        let m = settings::with_number(m, "upload_rate_limit"@, self.upload_rate_limit);
        let m = settings::with_flag(m, "rate_limit_utp"@, self.rate_limit_utp);
        let m = settings::with_flag(m, "rate_limit_ip_overhead"@, self.rate_limit_ip_overhead);
        m
    }

    pub fn write_json(&self, map: &mut serde_json::Map<String, serde_json::Value>)
        ensures
            settings::contents(*final(map)) == self.written(settings::contents(*old(map))),
    {
        put_number(map, "download_rate_limit", self.download_rate_limit);
        put_number(map, "upload_rate_limit", self.upload_rate_limit);
        put_flag(map, "rate_limit_utp", self.rate_limit_utp);
        put_flag(map, "rate_limit_ip_overhead", self.rate_limit_ip_overhead);
    }
}

impl Default for RateLimitsConfig {
    fn default() -> (r: Self)
        ensures
            r == RateLimitsConfig::unset(),
    {
        RateLimitsConfig {
            download_rate_limit: None,
            upload_rate_limit: None,
            rate_limit_utp: None,
            rate_limit_ip_overhead: None,
        }
    }
}

/// Reading and writing files.
#[derive(Debug)]
pub struct DiskIoConfig {
    pub disk_io_write_mode: Option<i64>,
    pub disk_io_read_mode: Option<i64>,
    pub file_pool_size: Option<i64>,
    pub max_queued_disk_bytes: Option<i64>,
    pub max_queued_disk_bytes_low_watermark: Option<i64>,
    pub use_disk_read_ahead: Option<bool>,
    pub lock_disk_cache: Option<bool>,
    pub no_atime_storage: Option<bool>,
    pub low_prio_disk: Option<bool>,
}

impl DiskIoConfig {
    /// Nothing is given.
    pub open spec fn unset() -> DiskIoConfig {
        DiskIoConfig {
            disk_io_write_mode: None,
            disk_io_read_mode: None,
            file_pool_size: None,
            max_queued_disk_bytes: None,
            max_queued_disk_bytes_low_watermark: None,
            use_disk_read_ahead: None,
            lock_disk_cache: None,
            no_atime_storage: None,
            low_prio_disk: None,
        }
    }

    /// The settings `m` with those of this section.
    pub open spec fn written(&self, m: Map<Seq<char>, Setting>) -> Map<Seq<char>, Setting> {
        let m = settings::with_number(m, "disk_io_write_mode"@, self.disk_io_write_mode);
        let m = settings::with_number(m, "disk_io_read_mode"@, self.disk_io_read_mode);
        let m = settings::with_number(m, "file_pool_size"@, self.file_pool_size);
        let m = settings::with_number(m, "max_queued_disk_bytes"@, self.max_queued_disk_bytes);
        let m = settings::with_number(m, "max_queued_disk_bytes_low_watermark"@, self.max_queued_disk_bytes_low_watermark);
        let m = settings::with_flag(m, "use_disk_read_ahead"@, self.use_disk_read_ahead);
        let m = settings::with_flag(m, "lock_disk_cache"@, self.lock_disk_cache);
        let m = settings::with_flag(m, "no_atime_storage"@, self.no_atime_storage);
        let m = settings::with_flag(m, "low_prio_disk"@, self.low_prio_disk);
        m
    }

    pub fn write_json(&self, map: &mut serde_json::Map<String, serde_json::Value>)
        ensures
            settings::contents(*final(map)) == self.written(settings::contents(*old(map))),
    {
        put_number(map, "disk_io_write_mode", self.disk_io_write_mode);
        put_number(map, "disk_io_read_mode", self.disk_io_read_mode);
        put_number(map, "file_pool_size", self.file_pool_size);
        put_number(map, "max_queued_disk_bytes", self.max_queued_disk_bytes);
        put_number(map, "max_queued_disk_bytes_low_watermark", self.max_queued_disk_bytes_low_watermark);
        put_flag(map, "use_disk_read_ahead", self.use_disk_read_ahead);
        put_flag(map, "lock_disk_cache", self.lock_disk_cache);
        put_flag(map, "no_atime_storage", self.no_atime_storage);
        put_flag(map, "low_prio_disk", self.low_prio_disk);
    }
}

impl Default for DiskIoConfig {
    fn default() -> (r: Self)
        ensures
            r == DiskIoConfig::unset(),
    {
        DiskIoConfig {
            disk_io_write_mode: None,
            disk_io_read_mode: None,
            file_pool_size: None,
            max_queued_disk_bytes: None,
            max_queued_disk_bytes_low_watermark: None,
            use_disk_read_ahead: None,
            lock_disk_cache: None,
            no_atime_storage: None,
            low_prio_disk: None,
        }
    }
}

/// The session's own cache.
#[derive(Debug)]
pub struct CacheConfig {
    pub cache_size: Option<i64>,
    pub cache_expiry: Option<i64>,
    pub use_read_cache: Option<bool>,
    pub use_disk_cache_pool: Option<bool>,
    pub volatile_read_cache: Option<bool>,
    pub guided_read_cache: Option<bool>,
    pub default_cache_min_age: Option<i64>,
}

impl CacheConfig {
    /// Nothing is given.
    pub open spec fn unset() -> CacheConfig {
        CacheConfig {
            cache_size: None,
            cache_expiry: None,
            use_read_cache: None,
            use_disk_cache_pool: None,
            volatile_read_cache: None,
            guided_read_cache: None,
            default_cache_min_age: None,
        }
    }

    /// The settings `m` with those of this section.
    pub open spec fn written(&self, m: Map<Seq<char>, Setting>) -> Map<Seq<char>, Setting> {
        let m = settings::with_number(m, "cache_size"@, self.cache_size);
        let m = settings::with_number(m, "cache_expiry"@, self.cache_expiry);
        let m = settings::with_flag(m, "use_read_cache"@, self.use_read_cache);
        let m = settings::with_flag(m, "use_disk_cache_pool"@, self.use_disk_cache_pool);
        let m = settings::with_flag(m, "volatile_read_cache"@, self.volatile_read_cache);
        let m = settings::with_flag(m, "guided_read_cache"@, self.guided_read_cache);
        let m = settings::with_number(m, "default_cache_min_age"@, self.default_cache_min_age);
        m
    }

    pub fn write_json(&self, map: &mut serde_json::Map<String, serde_json::Value>)
        ensures
            settings::contents(*final(map)) == self.written(settings::contents(*old(map))),
    {
        put_number(map, "cache_size", self.cache_size);
        put_number(map, "cache_expiry", self.cache_expiry);
        put_flag(map, "use_read_cache", self.use_read_cache);
        put_flag(map, "use_disk_cache_pool", self.use_disk_cache_pool);
        put_flag(map, "volatile_read_cache", self.volatile_read_cache);
        put_flag(map, "guided_read_cache", self.guided_read_cache);
        put_number(map, "default_cache_min_age", self.default_cache_min_age);
    }
}

impl Default for CacheConfig {
    fn default() -> (r: Self)
        ensures
            r == CacheConfig::unset(),
    {
        CacheConfig {
            cache_size: None,
            cache_expiry: None,
            use_read_cache: None,
            use_disk_cache_pool: None,
            volatile_read_cache: None,
            guided_read_cache: None,
            default_cache_min_age: None,
        }
    }
}

/// Requests for pieces.
#[derive(Debug)]
pub struct PiecesConfig {
    pub whole_pieces_threshold: Option<i64>,
    pub prioritize_partial_pieces: Option<bool>,
    pub max_out_request_queue: Option<i64>,
    pub max_allowed_in_request_queue: Option<i64>,
    pub piece_timeout: Option<i64>,
    pub request_timeout: Option<i64>,
    pub predictive_piece_announce: Option<i64>,
    pub max_suggest_pieces: Option<i64>,
    pub drop_skipped_requests: Option<bool>,
    pub seeding_piece_quota: Option<i64>,
    pub max_sparse_regions: Option<i64>,
}

impl PiecesConfig {
    /// Nothing is given.
    pub open spec fn unset() -> PiecesConfig {
        PiecesConfig {
            whole_pieces_threshold: None,
            prioritize_partial_pieces: None,
            max_out_request_queue: None,
            max_allowed_in_request_queue: None,
            piece_timeout: None,
            request_timeout: None,
            predictive_piece_announce: None,
            max_suggest_pieces: None,
            drop_skipped_requests: None,
            seeding_piece_quota: None,
            max_sparse_regions: None,
        }
    }

    /// The settings `m` with those of this section.
    pub open spec fn written(&self, m: Map<Seq<char>, Setting>) -> Map<Seq<char>, Setting> {
        let m = settings::with_number(m, "whole_pieces_threshold"@, self.whole_pieces_threshold);
        let m = settings::with_flag(m, "prioritize_partial_pieces"@, self.prioritize_partial_pieces);
        let m = settings::with_number(m, "max_out_request_queue"@, self.max_out_request_queue);
        let m = settings::with_number(m, "max_allowed_in_request_queue"@, self.max_allowed_in_request_queue);
        let m = settings::with_number(m, "piece_timeout"@, self.piece_timeout);
        let m = settings::with_number(m, "request_timeout"@, self.request_timeout);
        let m = settings::with_number(m, "predictive_piece_announce"@, self.predictive_piece_announce);
        let m = settings::with_number(m, "max_suggest_pieces"@, self.max_suggest_pieces);
        let m = settings::with_flag(m, "drop_skipped_requests"@, self.drop_skipped_requests);
        let m = settings::with_number(m, "seeding_piece_quota"@, self.seeding_piece_quota);
        let m = settings::with_number(m, "max_sparse_regions"@, self.max_sparse_regions);
        m
    }

    pub fn write_json(&self, map: &mut serde_json::Map<String, serde_json::Value>)
        ensures
            settings::contents(*final(map)) == self.written(settings::contents(*old(map))),
    {
        put_number(map, "whole_pieces_threshold", self.whole_pieces_threshold);
        put_flag(map, "prioritize_partial_pieces", self.prioritize_partial_pieces);
        put_number(map, "max_out_request_queue", self.max_out_request_queue);
        put_number(map, "max_allowed_in_request_queue", self.max_allowed_in_request_queue);
        put_number(map, "piece_timeout", self.piece_timeout);
        put_number(map, "request_timeout", self.request_timeout);
        put_number(map, "predictive_piece_announce", self.predictive_piece_announce);
        put_number(map, "max_suggest_pieces", self.max_suggest_pieces);
        put_flag(map, "drop_skipped_requests", self.drop_skipped_requests);
        put_number(map, "seeding_piece_quota", self.seeding_piece_quota);
        put_number(map, "max_sparse_regions", self.max_sparse_regions);
    }
}

impl Default for PiecesConfig {
    fn default() -> (r: Self)
        ensures
            r == PiecesConfig::unset(),
    {
        PiecesConfig {
            whole_pieces_threshold: None,
            prioritize_partial_pieces: None,
            max_out_request_queue: None,
            max_allowed_in_request_queue: None,
            piece_timeout: None,
            request_timeout: None,
            predictive_piece_announce: None,
            max_suggest_pieces: None,
            drop_skipped_requests: None,
            seeding_piece_quota: None,
            max_sparse_regions: None,
        }
    }
}

/// How long to wait.
#[derive(Debug)]
pub struct TimeoutsConfig {
    pub peer_timeout: Option<i64>,
    pub urlseed_timeout: Option<i64>,
    pub urlseed_pipeline_size: Option<i64>,
    pub stop_tracker_timeout: Option<i64>,
    pub tracker_completion_timeout: Option<i64>,
    pub tracker_receive_timeout: Option<i64>,
    pub inactivity_timeout: Option<i64>,
    /// How long a read may wait, in seconds. This is not for the session.
    pub read_timeout_secs: Option<i64>,
}

impl TimeoutsConfig {
    /// Nothing is given.
    pub open spec fn unset() -> TimeoutsConfig {
        TimeoutsConfig {
            peer_timeout: None,
            urlseed_timeout: None,
            urlseed_pipeline_size: None,
            stop_tracker_timeout: None,
            tracker_completion_timeout: None,
            tracker_receive_timeout: None,
            inactivity_timeout: None,
            read_timeout_secs: None,
        }
    }

    /// The settings `m` with those of this section.
    pub open spec fn written(&self, m: Map<Seq<char>, Setting>) -> Map<Seq<char>, Setting> {
        let m = settings::with_number(m, "peer_timeout"@, self.peer_timeout);
        let m = settings::with_number(m, "urlseed_timeout"@, self.urlseed_timeout);
        let m = settings::with_number(m, "urlseed_pipeline_size"@, self.urlseed_pipeline_size);
        let m = settings::with_number(m, "stop_tracker_timeout"@, self.stop_tracker_timeout);
        let m = settings::with_number(m, "tracker_completion_timeout"@, self.tracker_completion_timeout);
        let m = settings::with_number(m, "tracker_receive_timeout"@, self.tracker_receive_timeout);
        let m = settings::with_number(m, "inactivity_timeout"@, self.inactivity_timeout);
        m
    }

    pub fn write_json(&self, map: &mut serde_json::Map<String, serde_json::Value>)
        ensures
            settings::contents(*final(map)) == self.written(settings::contents(*old(map))),
    {
        put_number(map, "peer_timeout", self.peer_timeout);
        put_number(map, "urlseed_timeout", self.urlseed_timeout);
        put_number(map, "urlseed_pipeline_size", self.urlseed_pipeline_size);
        put_number(map, "stop_tracker_timeout", self.stop_tracker_timeout);
        put_number(map, "tracker_completion_timeout", self.tracker_completion_timeout);
        put_number(map, "tracker_receive_timeout", self.tracker_receive_timeout);
        put_number(map, "inactivity_timeout", self.inactivity_timeout);
    }
}

impl Default for TimeoutsConfig {
    fn default() -> (r: Self)
        ensures
            r == TimeoutsConfig::unset(),
    {
        TimeoutsConfig {
            peer_timeout: None,
            urlseed_timeout: None,
            urlseed_pipeline_size: None,
            stop_tracker_timeout: None,
            tracker_completion_timeout: None,
            tracker_receive_timeout: None,
            inactivity_timeout: None,
            read_timeout_secs: None,
        }
    }
}

/// Announcements to trackers.
#[derive(Debug)]
pub struct TrackerConfig {
    pub announce_to_all_trackers: Option<bool>,
    pub announce_to_all_tiers: Option<bool>,
    pub prefer_udp_trackers: Option<bool>,
    pub tracker_backoff: Option<i64>,
    pub tracker_maximum_response_length: Option<i64>,
    pub min_announce_interval: Option<i64>,
    pub udp_tracker_token_expiry: Option<i64>,
}

impl TrackerConfig {
    /// Nothing is given.
    pub open spec fn unset() -> TrackerConfig {
        TrackerConfig {
            announce_to_all_trackers: None,
            announce_to_all_tiers: None,
            prefer_udp_trackers: None,
            tracker_backoff: None,
            tracker_maximum_response_length: None,
            min_announce_interval: None,
            udp_tracker_token_expiry: None,
        }
    }

    /// The settings `m` with those of this section.
    pub open spec fn written(&self, m: Map<Seq<char>, Setting>) -> Map<Seq<char>, Setting> {
        let m = settings::with_flag(m, "announce_to_all_trackers"@, self.announce_to_all_trackers);
        let m = settings::with_flag(m, "announce_to_all_tiers"@, self.announce_to_all_tiers);
        let m = settings::with_flag(m, "prefer_udp_trackers"@, self.prefer_udp_trackers);
        let m = settings::with_number(m, "tracker_backoff"@, self.tracker_backoff);
        let m = settings::with_number(m, "tracker_maximum_response_length"@, self.tracker_maximum_response_length);
        let m = settings::with_number(m, "min_announce_interval"@, self.min_announce_interval);
        let m = settings::with_number(m, "udp_tracker_token_expiry"@, self.udp_tracker_token_expiry);
        m
    }

    pub fn write_json(&self, map: &mut serde_json::Map<String, serde_json::Value>)
        ensures
            settings::contents(*final(map)) == self.written(settings::contents(*old(map))),
    {
        put_flag(map, "announce_to_all_trackers", self.announce_to_all_trackers);
        put_flag(map, "announce_to_all_tiers", self.announce_to_all_tiers);
        put_flag(map, "prefer_udp_trackers", self.prefer_udp_trackers);
        put_number(map, "tracker_backoff", self.tracker_backoff);
        put_number(map, "tracker_maximum_response_length", self.tracker_maximum_response_length);
        put_number(map, "min_announce_interval", self.min_announce_interval);
        put_number(map, "udp_tracker_token_expiry", self.udp_tracker_token_expiry);
    }
}

impl Default for TrackerConfig {
    fn default() -> (r: Self)
        ensures
            r == TrackerConfig::unset(),
    {
        TrackerConfig {
            announce_to_all_trackers: None,
            announce_to_all_tiers: None,
            prefer_udp_trackers: None,
            tracker_backoff: None,
            tracker_maximum_response_length: None,
            min_announce_interval: None,
            udp_tracker_token_expiry: None,
        }
    }
}

/// Whom to serve and in what way.
#[derive(Debug)]
pub struct AlgorithmsConfig {
    pub choking_algorithm: Option<i64>,
    pub seed_choking_algorithm: Option<i64>,
    pub mixed_mode_algorithm: Option<i64>,
    pub suggest_mode: Option<i64>,
}

impl AlgorithmsConfig {
    /// Nothing is given.
    pub open spec fn unset() -> AlgorithmsConfig {
        AlgorithmsConfig {
            choking_algorithm: None,
            seed_choking_algorithm: None,
            mixed_mode_algorithm: None,
            suggest_mode: None,
        }
    }

    /// The settings `m` with those of this section.
    pub open spec fn written(&self, m: Map<Seq<char>, Setting>) -> Map<Seq<char>, Setting> {
        let m = settings::with_number(m, "choking_algorithm"@, self.choking_algorithm);
        let m = settings::with_number(m, "seed_choking_algorithm"@, self.seed_choking_algorithm);
        let m = settings::with_number(m, "mixed_mode_algorithm"@, self.mixed_mode_algorithm);
        let m = settings::with_number(m, "suggest_mode"@, self.suggest_mode);
        m
    }

    pub fn write_json(&self, map: &mut serde_json::Map<String, serde_json::Value>)
        ensures
            settings::contents(*final(map)) == self.written(settings::contents(*old(map))),
    {
        put_number(map, "choking_algorithm", self.choking_algorithm);
        put_number(map, "seed_choking_algorithm", self.seed_choking_algorithm);
        put_number(map, "mixed_mode_algorithm", self.mixed_mode_algorithm);
        put_number(map, "suggest_mode", self.suggest_mode);
    }
}

impl Default for AlgorithmsConfig {
    fn default() -> (r: Self)
        ensures
            r == AlgorithmsConfig::unset(),
    {
        AlgorithmsConfig {
            choking_algorithm: None,
            seed_choking_algorithm: None,
            mixed_mode_algorithm: None,
            suggest_mode: None,
        }
    }
}

/// How many torrents are active.
#[derive(Debug)]
pub struct ActiveLimitsConfig {
    pub active_downloads: Option<i64>,
    pub active_seeds: Option<i64>,
    pub active_checking: Option<i64>,
    pub active_limit: Option<i64>,
    pub active_tracker_limit: Option<i64>,
    pub active_lsd_limit: Option<i64>,
    pub active_dht_limit: Option<i64>,
}

impl ActiveLimitsConfig {
    /// Nothing is given.
    pub open spec fn unset() -> ActiveLimitsConfig {
        ActiveLimitsConfig {
            active_downloads: None,
            active_seeds: None,
            active_checking: None,
            active_limit: None,
            active_tracker_limit: None,
            active_lsd_limit: None,
            active_dht_limit: None,
        }
    }

    /// The settings `m` with those of this section.
    pub open spec fn written(&self, m: Map<Seq<char>, Setting>) -> Map<Seq<char>, Setting> {
        let m = settings::with_number(m, "active_downloads"@, self.active_downloads);
        let m = settings::with_number(m, "active_seeds"@, self.active_seeds);
        let m = settings::with_number(m, "active_checking"@, self.active_checking);
        let m = settings::with_number(m, "active_limit"@, self.active_limit);
        let m = settings::with_number(m, "active_tracker_limit"@, self.active_tracker_limit);
        let m = settings::with_number(m, "active_lsd_limit"@, self.active_lsd_limit);
        let m = settings::with_number(m, "active_dht_limit"@, self.active_dht_limit);
        m
    }

    pub fn write_json(&self, map: &mut serde_json::Map<String, serde_json::Value>)
        ensures
            settings::contents(*final(map)) == self.written(settings::contents(*old(map))),
    {
        put_number(map, "active_downloads", self.active_downloads);
        put_number(map, "active_seeds", self.active_seeds);
        put_number(map, "active_checking", self.active_checking);
        put_number(map, "active_limit", self.active_limit);
        put_number(map, "active_tracker_limit", self.active_tracker_limit);
        put_number(map, "active_lsd_limit", self.active_lsd_limit);
        put_number(map, "active_dht_limit", self.active_dht_limit);
    }
}

impl Default for ActiveLimitsConfig {
    fn default() -> (r: Self)
        ensures
            r == ActiveLimitsConfig::unset(),
    {
        ActiveLimitsConfig {
            active_downloads: None,
            active_seeds: None,
            active_checking: None,
            active_limit: None,
            active_tracker_limit: None,
            active_lsd_limit: None,
            active_dht_limit: None,
        }
    }
}

/// Starting and stopping torrents by themselves.
#[derive(Debug)]
pub struct AutoManageConfig {
    pub auto_manage_interval: Option<i64>,
    pub auto_manage_startup: Option<i64>,
    pub auto_manage_prefer_seeds: Option<bool>,
    pub dont_count_slow_torrents: Option<bool>,
    pub share_ratio_limit: Option<serde_json::Number>,
    pub seed_time_ratio_limit: Option<serde_json::Number>,
    pub seed_time_limit: Option<i64>,
}

impl AutoManageConfig {
    /// Nothing is given.
    pub open spec fn unset() -> AutoManageConfig {
        AutoManageConfig {
            auto_manage_interval: None,
            auto_manage_startup: None,
            auto_manage_prefer_seeds: None,
            dont_count_slow_torrents: None,
            share_ratio_limit: None,
            seed_time_ratio_limit: None,
            seed_time_limit: None,
        }
    }

    /// The settings `m` with those of this section.
    pub open spec fn written(&self, m: Map<Seq<char>, Setting>) -> Map<Seq<char>, Setting> {
        let m = settings::with_number(m, "auto_manage_interval"@, self.auto_manage_interval);
        let m = settings::with_number(m, "auto_manage_startup"@, self.auto_manage_startup);
        let m = settings::with_flag(m, "auto_manage_prefer_seeds"@, self.auto_manage_prefer_seeds);
        let m = settings::with_flag(m, "dont_count_slow_torrents"@, self.dont_count_slow_torrents);
        let m = settings::with_fraction(m, "share_ratio_limit"@, self.share_ratio_limit);
        let m = settings::with_fraction(m, "seed_time_ratio_limit"@, self.seed_time_ratio_limit);
        let m = settings::with_number(m, "seed_time_limit"@, self.seed_time_limit);
        m
    }

    pub fn write_json(&self, map: &mut serde_json::Map<String, serde_json::Value>)
        ensures
            settings::contents(*final(map)) == self.written(settings::contents(*old(map))),
    {
        put_number(map, "auto_manage_interval", self.auto_manage_interval);
        put_number(map, "auto_manage_startup", self.auto_manage_startup);
        put_flag(map, "auto_manage_prefer_seeds", self.auto_manage_prefer_seeds);
        put_flag(map, "dont_count_slow_torrents", self.dont_count_slow_torrents);
        put_fraction(map, "share_ratio_limit", &self.share_ratio_limit);
        put_fraction(map, "seed_time_ratio_limit", &self.seed_time_ratio_limit);
        put_number(map, "seed_time_limit", self.seed_time_limit);
    }
}

impl Default for AutoManageConfig {
    fn default() -> (r: Self)
        ensures
            r == AutoManageConfig::unset(),
    {
        AutoManageConfig {
            auto_manage_interval: None,
            auto_manage_startup: None,
            auto_manage_prefer_seeds: None,
            dont_count_slow_torrents: None,
            share_ratio_limit: None,
            seed_time_ratio_limit: None,
            seed_time_limit: None,
        }
    }
}

/// Encrypted connections.
#[derive(Debug)]
pub struct EncryptionConfig {
    pub encryption_policy: Option<i64>,
    pub allowed_encryption_level: Option<i64>,
    pub ssl_listen: Option<i64>,
}

impl EncryptionConfig {
    /// Nothing is given.
    pub open spec fn unset() -> EncryptionConfig {
        EncryptionConfig {
            encryption_policy: None,
            allowed_encryption_level: None,
            ssl_listen: None,
        }
    }

    /// The settings `m` with those of this section.
    pub open spec fn written(&self, m: Map<Seq<char>, Setting>) -> Map<Seq<char>, Setting> {
        let m = settings::with_number(m, "encryption_policy"@, self.encryption_policy);
        let m = settings::with_number(m, "allowed_encryption_level"@, self.allowed_encryption_level);
        let m = settings::with_number(m, "ssl_listen"@, self.ssl_listen);
        m
    }

    pub fn write_json(&self, map: &mut serde_json::Map<String, serde_json::Value>)
        ensures
            settings::contents(*final(map)) == self.written(settings::contents(*old(map))),
    {
        put_number(map, "encryption_policy", self.encryption_policy);
        put_number(map, "allowed_encryption_level", self.allowed_encryption_level);
        put_number(map, "ssl_listen", self.ssl_listen);
    }
}

impl Default for EncryptionConfig {
    fn default() -> (r: Self)
        ensures
            r == EncryptionConfig::unset(),
    {
        EncryptionConfig {
            encryption_policy: None,
            allowed_encryption_level: None,
            ssl_listen: None,
        }
    }
}

/// The proxy.
#[derive(Debug)]
pub struct ProxyConfig {
    pub host: Option<String>,
    pub port: Option<i64>,
    pub proxy_type: Option<String>,
    pub proxy_hostnames: Option<bool>,
    pub proxy_peer_connections: Option<bool>,
    pub proxy_tracker_connections: Option<bool>,
    pub anonymous_mode: Option<bool>,
    pub force_proxy: Option<bool>,
}

impl ProxyConfig {
    /// Nothing is given.
    pub open spec fn unset() -> ProxyConfig {
        ProxyConfig {
            host: None,
            port: None,
            proxy_type: None,
            proxy_hostnames: None,
            proxy_peer_connections: None,
            proxy_tracker_connections: None,
            anonymous_mode: None,
            force_proxy: None,
        }
    }

    /// The settings `m` with those of this section.
    pub open spec fn written(&self, m: Map<Seq<char>, Setting>) -> Map<Seq<char>, Setting> {
        let m = settings::with_text(m, "host"@, self.host);
        let m = settings::with_number(m, "port"@, self.port);
        let m = settings::with_text(m, "proxy_type"@, self.proxy_type);
        let m = settings::with_flag(m, "proxy_hostnames"@, self.proxy_hostnames);
        let m = settings::with_flag(m, "proxy_peer_connections"@, self.proxy_peer_connections);
        let m = settings::with_flag(m, "proxy_tracker_connections"@, self.proxy_tracker_connections);
        let m = settings::with_flag(m, "anonymous_mode"@, self.anonymous_mode);
        let m = settings::with_flag(m, "force_proxy"@, self.force_proxy);
        m
    }

    pub fn write_json(&self, map: &mut serde_json::Map<String, serde_json::Value>)
        ensures
            settings::contents(*final(map)) == self.written(settings::contents(*old(map))),
    {
        put_text(map, "host", &self.host);
        put_number(map, "port", self.port);
        put_text(map, "proxy_type", &self.proxy_type);
        put_flag(map, "proxy_hostnames", self.proxy_hostnames);
        put_flag(map, "proxy_peer_connections", self.proxy_peer_connections);
        put_flag(map, "proxy_tracker_connections", self.proxy_tracker_connections);
        put_flag(map, "anonymous_mode", self.anonymous_mode);
        put_flag(map, "force_proxy", self.force_proxy);
    }
}

impl Default for ProxyConfig {
    fn default() -> (r: Self)
        ensures
            r == ProxyConfig::unset(),
    {
        ProxyConfig {
            host: None,
            port: None,
            proxy_type: None,
            proxy_hostnames: None,
            proxy_peer_connections: None,
            proxy_tracker_connections: None,
            anonymous_mode: None,
            force_proxy: None,
        }
    }
}

/// How the session names itself.
#[derive(Debug)]
pub struct UserAgentConfig {
    pub user_agent: Option<String>,
    pub peer_fingerprint: Option<String>,
    pub always_send_user_agent: Option<bool>,
}

impl UserAgentConfig {
    /// Nothing is given.
    pub open spec fn unset() -> UserAgentConfig {
        UserAgentConfig {
            user_agent: None,
            peer_fingerprint: None,
            always_send_user_agent: None,
        }
    }

    /// The settings `m` with those of this section.
    pub open spec fn written(&self, m: Map<Seq<char>, Setting>) -> Map<Seq<char>, Setting> {
        let m = settings::with_text(m, "user_agent"@, self.user_agent);
        let m = settings::with_text(m, "peer_fingerprint"@, self.peer_fingerprint);
        let m = settings::with_flag(m, "always_send_user_agent"@, self.always_send_user_agent);
        m
    }

    pub fn write_json(&self, map: &mut serde_json::Map<String, serde_json::Value>)
        ensures
            settings::contents(*final(map)) == self.written(settings::contents(*old(map))),
    {
        put_text(map, "user_agent", &self.user_agent);
        put_text(map, "peer_fingerprint", &self.peer_fingerprint);
        put_flag(map, "always_send_user_agent", self.always_send_user_agent);
    }
}

impl Default for UserAgentConfig {
    fn default() -> (r: Self)
        ensures
            r == UserAgentConfig::unset(),
    {
        UserAgentConfig {
            user_agent: None,
            peer_fingerprint: None,
            always_send_user_agent: None,
        }
    }
}

/// Alerts of the session.
#[derive(Debug)]
pub struct AlertConfig {
    pub alert_mask: Option<i64>,
    pub alert_queue_size: Option<i64>,
}

impl AlertConfig {
    /// Nothing is given.
    pub open spec fn unset() -> AlertConfig {
        AlertConfig {
            alert_mask: None,
            alert_queue_size: None,
        }
    }

    /// The settings `m` with those of this section.
    pub open spec fn written(&self, m: Map<Seq<char>, Setting>) -> Map<Seq<char>, Setting> {
        let m = settings::with_number(m, "alert_mask"@, self.alert_mask);
        let m = settings::with_number(m, "alert_queue_size"@, self.alert_queue_size);
        m
    }

    pub fn write_json(&self, map: &mut serde_json::Map<String, serde_json::Value>)
        ensures
            settings::contents(*final(map)) == self.written(settings::contents(*old(map))),
    {
        put_number(map, "alert_mask", self.alert_mask);
        put_number(map, "alert_queue_size", self.alert_queue_size);
    }
}

impl Default for AlertConfig {
    fn default() -> (r: Self)
        ensures
            r == AlertConfig::unset(),
    {
        AlertConfig {
            alert_mask: None,
            alert_queue_size: None,
        }
    }
}

/// Threads and buffers.
#[derive(Debug)]
pub struct PerformanceConfig {
    pub aio_threads: Option<i64>,
    pub network_threads: Option<i64>,
    pub checking_mem_usage: Option<i64>,
    pub tick_interval: Option<i64>,
    pub send_buffer_watermark: Option<i64>,
    pub send_buffer_watermark_factor: Option<i64>,
    pub send_buffer_low_watermark: Option<i64>,
    pub recv_socket_buffer_size: Option<i64>,
    pub send_socket_buffer_size: Option<i64>,
    pub optimistic_disk_retry: Option<i64>,
}

impl PerformanceConfig {
    /// Nothing is given.
    pub open spec fn unset() -> PerformanceConfig {
        PerformanceConfig {
            aio_threads: None,
            network_threads: None,
            checking_mem_usage: None,
            tick_interval: None,
            send_buffer_watermark: None,
            send_buffer_watermark_factor: None,
            send_buffer_low_watermark: None,
            recv_socket_buffer_size: None,
            send_socket_buffer_size: None,
            optimistic_disk_retry: None,
        }
    }

    /// The settings `m` with those of this section.
    pub open spec fn written(&self, m: Map<Seq<char>, Setting>) -> Map<Seq<char>, Setting> {
        let m = settings::with_number(m, "aio_threads"@, self.aio_threads);
        let m = settings::with_number(m, "network_threads"@, self.network_threads);
        let m = settings::with_number(m, "checking_mem_usage"@, self.checking_mem_usage);
        let m = settings::with_number(m, "tick_interval"@, self.tick_interval);
        let m = settings::with_number(m, "send_buffer_watermark"@, self.send_buffer_watermark);
        let m = settings::with_number(m, "send_buffer_watermark_factor"@, self.send_buffer_watermark_factor);
        let m = settings::with_number(m, "send_buffer_low_watermark"@, self.send_buffer_low_watermark);
        let m = settings::with_number(m, "recv_socket_buffer_size"@, self.recv_socket_buffer_size);
        let m = settings::with_number(m, "send_socket_buffer_size"@, self.send_socket_buffer_size);
        let m = settings::with_number(m, "optimistic_disk_retry"@, self.optimistic_disk_retry);
        m
    }

    pub fn write_json(&self, map: &mut serde_json::Map<String, serde_json::Value>)
        ensures
            settings::contents(*final(map)) == self.written(settings::contents(*old(map))),
    {
        put_number(map, "aio_threads", self.aio_threads);
        put_number(map, "network_threads", self.network_threads);
        put_number(map, "checking_mem_usage", self.checking_mem_usage);
        put_number(map, "tick_interval", self.tick_interval);
        put_number(map, "send_buffer_watermark", self.send_buffer_watermark);
        put_number(map, "send_buffer_watermark_factor", self.send_buffer_watermark_factor);
        put_number(map, "send_buffer_low_watermark", self.send_buffer_low_watermark);
        put_number(map, "recv_socket_buffer_size", self.recv_socket_buffer_size);
        put_number(map, "send_socket_buffer_size", self.send_socket_buffer_size);
        put_number(map, "optimistic_disk_retry", self.optimistic_disk_retry);
    }
}

impl Default for PerformanceConfig {
    fn default() -> (r: Self)
        ensures
            r == PerformanceConfig::unset(),
    {
        PerformanceConfig {
            aio_threads: None,
            network_threads: None,
            checking_mem_usage: None,
            tick_interval: None,
            send_buffer_watermark: None,
            send_buffer_watermark_factor: None,
            send_buffer_low_watermark: None,
            recv_socket_buffer_size: None,
            send_socket_buffer_size: None,
            optimistic_disk_retry: None,
        }
    }
}

/// All else.
#[derive(Debug)]
pub struct MiscConfig {
    pub ignore_resume_timestamps: Option<bool>,
    pub no_recheck_incomplete_resume: Option<bool>,
    pub disable_hash_checks: Option<bool>,
    pub allow_i2p_mixed: Option<bool>,
    pub incoming_starts_queued: Option<bool>,
    pub ban_web_seeds: Option<bool>,
    pub report_web_seed_downloads: Option<bool>,
    pub num_optimistic_unchoke_slots: Option<i64>,
    pub max_failcount: Option<i64>,
    pub max_rejects: Option<i64>,
    pub share_mode_target: Option<i64>,
    pub apply_ip_filter_to_trackers: Option<bool>,
    pub announce_double_nat: Option<bool>,
    pub lock_files: Option<bool>,
    pub local_service_announce_interval: Option<i64>,
    pub read_job_every: Option<i64>,
    pub strict_super_seeding: Option<bool>,
    pub enable_os_cache: Option<bool>,
}

impl MiscConfig {
    /// Nothing is given.
    pub open spec fn unset() -> MiscConfig {
        MiscConfig {
            ignore_resume_timestamps: None,
            no_recheck_incomplete_resume: None,
            disable_hash_checks: None,
            allow_i2p_mixed: None,
            incoming_starts_queued: None,
            ban_web_seeds: None,
            report_web_seed_downloads: None,
            num_optimistic_unchoke_slots: None,
            max_failcount: None,
            max_rejects: None,
            share_mode_target: None,
            apply_ip_filter_to_trackers: None,
            announce_double_nat: None,
            lock_files: None,
            local_service_announce_interval: None,
            read_job_every: None,
            strict_super_seeding: None,
            enable_os_cache: None,
        }
    }

    /// The settings `m` with those of this section.
    pub open spec fn written(&self, m: Map<Seq<char>, Setting>) -> Map<Seq<char>, Setting> {
        let m = settings::with_flag(m, "ignore_resume_timestamps"@, self.ignore_resume_timestamps);
        let m = settings::with_flag(m, "no_recheck_incomplete_resume"@, self.no_recheck_incomplete_resume);
        let m = settings::with_flag(m, "disable_hash_checks"@, self.disable_hash_checks);
        let m = settings::with_flag(m, "allow_i2p_mixed"@, self.allow_i2p_mixed);
        let m = settings::with_flag(m, "incoming_starts_queued"@, self.incoming_starts_queued);
        let m = settings::with_flag(m, "ban_web_seeds"@, self.ban_web_seeds);
        let m = settings::with_flag(m, "report_web_seed_downloads"@, self.report_web_seed_downloads);
        let m = settings::with_number(m, "num_optimistic_unchoke_slots"@, self.num_optimistic_unchoke_slots);
        let m = settings::with_number(m, "max_failcount"@, self.max_failcount);
        let m = settings::with_number(m, "max_rejects"@, self.max_rejects);
        let m = settings::with_number(m, "share_mode_target"@, self.share_mode_target);
        let m = settings::with_flag(m, "apply_ip_filter_to_trackers"@, self.apply_ip_filter_to_trackers);
        let m = settings::with_flag(m, "announce_double_nat"@, self.announce_double_nat);
        let m = settings::with_flag(m, "lock_files"@, self.lock_files);
        let m = settings::with_number(m, "local_service_announce_interval"@, self.local_service_announce_interval);
        let m = settings::with_number(m, "read_job_every"@, self.read_job_every);
        let m = settings::with_flag(m, "strict_super_seeding"@, self.strict_super_seeding);
        let m = settings::with_flag(m, "enable_os_cache"@, self.enable_os_cache);
        m
    }

    pub fn write_json(&self, map: &mut serde_json::Map<String, serde_json::Value>)
        ensures
            settings::contents(*final(map)) == self.written(settings::contents(*old(map))),
    {
        put_flag(map, "ignore_resume_timestamps", self.ignore_resume_timestamps);
        put_flag(map, "no_recheck_incomplete_resume", self.no_recheck_incomplete_resume);
        put_flag(map, "disable_hash_checks", self.disable_hash_checks);
        put_flag(map, "allow_i2p_mixed", self.allow_i2p_mixed);
        put_flag(map, "incoming_starts_queued", self.incoming_starts_queued);
        put_flag(map, "ban_web_seeds", self.ban_web_seeds);
        put_flag(map, "report_web_seed_downloads", self.report_web_seed_downloads);
        put_number(map, "num_optimistic_unchoke_slots", self.num_optimistic_unchoke_slots);
        put_number(map, "max_failcount", self.max_failcount);
        put_number(map, "max_rejects", self.max_rejects);
        put_number(map, "share_mode_target", self.share_mode_target);
        put_flag(map, "apply_ip_filter_to_trackers", self.apply_ip_filter_to_trackers);
        put_flag(map, "announce_double_nat", self.announce_double_nat);
        put_flag(map, "lock_files", self.lock_files);
        put_number(map, "local_service_announce_interval", self.local_service_announce_interval);
        put_number(map, "read_job_every", self.read_job_every);
        put_flag(map, "strict_super_seeding", self.strict_super_seeding);
        put_flag(map, "enable_os_cache", self.enable_os_cache);
    }
}

impl Default for MiscConfig {
    fn default() -> (r: Self)
        ensures
            r == MiscConfig::unset(),
    {
        MiscConfig {
            ignore_resume_timestamps: None,
            no_recheck_incomplete_resume: None,
            disable_hash_checks: None,
            allow_i2p_mixed: None,
            incoming_starts_queued: None,
            ban_web_seeds: None,
            report_web_seed_downloads: None,
            num_optimistic_unchoke_slots: None,
            max_failcount: None,
            max_rejects: None,
            share_mode_target: None,
            apply_ip_filter_to_trackers: None,
            announce_double_nat: None,
            lock_files: None,
            local_service_announce_interval: None,
            read_job_every: None,
            strict_super_seeding: None,
            enable_os_cache: None,
        }
    }
}

/// Limits on the work of this program itself; none of them is for the session.
#[derive(Debug, Clone, Copy, PartialEq, Eq, Structural)]
pub struct ConcurrencyConfig {
    /// How many threads serve reads; as many as there are processors where it is not given.
    pub download_workers: Option<usize>,
    /// How many reads may wait for a thread; 256 where it is not given.
    pub download_queue_depth: Option<usize>,
}

impl Default for ConcurrencyConfig {
    fn default() -> (r: Self)
        ensures
            r == (ConcurrencyConfig { download_workers: None, download_queue_depth: None }),
    {
        ConcurrencyConfig { download_workers: None, download_queue_depth: None }
    }
}

/// How many reads may wait for a thread where it is not configured.
pub const DEFAULT_QUEUE_DEPTH: usize = 256;

impl ConcurrencyConfig {
    /// The number of threads on a machine with `processors` processors, at least one where it is
    /// not given.
    pub fn workers(&self, processors: usize) -> (r: usize)
        ensures
            r == match self.download_workers {
                Some(n) => n,
                None => if processors == 0 {
                    1
                } else {
                    processors
                },
            },
    {
        match self.download_workers {
            Some(n) => n,
            None => if processors == 0 {
                1
            } else {
                processors
            },
        }
    }

    pub fn queue_depth(&self) -> (r: usize)
        ensures
            r == match self.download_queue_depth {
                Some(n) => n,
                None => DEFAULT_QUEUE_DEPTH,
            },
    {
        match self.download_queue_depth {
            Some(n) => n,
            None => DEFAULT_QUEUE_DEPTH,
        }
    }
}

/// How much the pieces of a file are wanted, as configured. What is not given has its default.
#[derive(Debug, Clone, Copy)]
pub struct PiecePriorityToml {
    /// How far around a read pieces are wanted, in MiB.
    pub access_window_mb: Option<u32>,
    /// For the pieces of the read range.
    pub current_priority: Option<i32>,
    /// For the first pieces after the read range.
    pub step_priorities: Option<[i32; 4]>,
    /// For the pieces at the far end of the window.
    pub window_edge_priority: Option<i32>,
    /// For the pieces beyond the window.
    pub rest_priority: Option<i32>,
    /// For the pieces before the read range, within the window.
    pub backward_priority: Option<i32>,
}

impl Default for PiecePriorityToml {
    fn default() -> (r: Self)
        ensures
            r.access_window_mb is None,
            r.current_priority is None,
            r.step_priorities is None,
            r.window_edge_priority is None,
            r.rest_priority is None,
            r.backward_priority is None,
    {
        PiecePriorityToml {
            access_window_mb: None,
            current_priority: None,
            step_priorities: None,
            window_edge_priority: None,
            rest_priority: None,
            backward_priority: None,
        }
    }
}

} // verus!
