//! The service configuration: ports, client tuning, storage backend
//! settings and the download size limit. Loading it from files and the
//! environment happens at the edge; the pipeline only reads the plain
//! values held here.

use vstd::prelude::*;

verus! {

/// All settings of a running service. Optional fields fall back to the
/// edge's defaults; `max_file_size` bounds every single download in
/// bytes, enforced while the bytes stream in.
#[derive(Debug, Clone)]
pub struct Configuration {
    pub app_port: u16,
    pub health_port: u16,
    pub log_level: Option<String>,
    pub vips_threads: Option<u16>,
    pub reqwest_timeout_millis: Option<u16>,
    pub reqwest_connection_timeout_millis: Option<u16>,
    pub reqwest_pool_max_idle_per_host: Option<u16>,
    pub reqwest_pool_idle_timeout_millis: Option<u16>,
    pub s3_region: Option<String>,
    pub s3_key: Option<String>,
    pub s3_secret: Option<String>,
    pub s3_endpoint: Option<String>,
    pub s3_bucket: Option<String>,
    pub max_file_size: Option<u32>,
    pub otel_collector_endpoint: Option<String>,
    pub otel_application_name: Option<String>,
}

} // verus!
