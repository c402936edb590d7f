use std::io::Read;

use home_automation_rs::compression::{accepts_gzip, encoded_or_original, maybe_compress, MIN_COMPRESS_BYTES};
use home_automation_rs::device_requests::{
    check_device_id, check_device_name, device_id_from_path, option_device_id_from_path, permit_join_time,
    position_device_id_from_path, turbo_mode_value, DeviceRequestError,
};
use home_automation_rs::floor_plan::{check_svg_upload, check_upload_size, etag_matches, floor_plan_etag, SvgRejection};
use home_automation_rs::query::{DeviceStatePath, ExecutionLogsQuery, QueryParams};
use home_automation_rs::readings::{
    epoch_parts, CHRONO_MAX_TIMESTAMP, CHRONO_MIN_TIMESTAMP,
    bucket_points, latest_timestamp, plan_energy_summary, plan_readings, sql_placeholders, summary_bucket_seconds,
    timestamp_to_datetime, EnergyQueryError, ReadingsSource,
};
use home_automation_rs::routing::{route, Route};
use home_automation_rs::static_files::{content_type_for, static_file_path};
use home_automation_rs::storage_cache::{is_fresh, StorageCache};
use home_automation_rs::websocket::{header_contains, validate_websocket_request, websocket_accept, WebSocketRequestError};

#[test]
fn query_parameters() {
    let q = QueryParams::new(Some("a=1&b=x=y&flag&limit=-5"));
    assert_eq!(q.get("a"), Some("1"));
    assert_eq!(q.get("b"), Some("x=y"));
    assert_eq!(q.get("flag"), None);
    assert_eq!(q.get_i64("limit", 7), -5);
    assert_eq!(q.get_usize("limit", 7), 7);
    assert_eq!(q.get_optional_usize("a"), Some(1));
    assert_eq!(QueryParams::new(None).get("a"), None);
    assert_eq!(ExecutionLogsQuery::new(Some("limit=-5")).limit(), 1);
    assert_eq!(ExecutionLogsQuery::new(Some("limit=5000")).limit(), 1000);
    assert_eq!(ExecutionLogsQuery::new(None).limit(), 100);
}

#[test]
fn device_state_paths() {
    assert_eq!(DeviceStatePath::parse("/api/devices/0xabc/state").map(|d| d.device_id), Some("0xabc"));
    assert!(DeviceStatePath::parse("/api/devices//state").is_none());
    assert!(DeviceStatePath::parse("/api/devices/0xabc").is_none());
    assert!(DeviceStatePath::parse("/api/devices/state").is_none());
}

#[test]
fn routes() {
    assert!(matches!(route("GET", "/"), Route::Index));
    assert!(matches!(route("GET", "/api/devices/0x1/state"), Route::DeviceState("0x1")));
    assert!(matches!(route("PUT", "/api/automation/rules/r7"), Route::UpdateAutomationRule("r7")));
    assert!(matches!(route("DELETE", "/api/automation/rules/r7"), Route::DeleteAutomationRule("r7")));
    assert!(matches!(route("POST", "/api/automation/rules"), Route::CreateAutomationRule));
    assert!(matches!(route("PATCH", "/api/devices/0x1"), Route::UpdateDevice));
    assert!(matches!(route("GET", "/nowhere"), Route::NotFound));
    assert!(matches!(route("GET", "/api/devices/state"), Route::NotFound));
}

#[test]
fn readings_plans() {
    let p = plan_readings(Some("latest=TRUE&device_id=s1"), 100, 200);
    assert_eq!(p.source, ReadingsSource::Latest);
    assert_eq!(p.device_id, Some("s1"));
    let p = plan_readings(Some("start=10&end=20&bucket=60"), 100, 200);
    assert_eq!((p.source, p.start, p.end, p.bucket_seconds), (ReadingsSource::Aggregated, 10, 20, 60));
    let p = plan_readings(Some("hours=2"), 10_000, 20_000);
    assert_eq!((p.source, p.start, p.end), (ReadingsSource::Raw, 10_000 - 7_200, 20_000));
    assert_eq!(latest_timestamp(&vec![3, 9, 4], 1), 9);
    assert_eq!(latest_timestamp(&vec![], 1), 1);
}

#[test]
fn energy_plans_and_buckets() {
    assert_eq!(plan_energy_summary(Some("start=5&end=5"), 100).err(), Some(EnergyQueryError::StartNotBeforeEnd));
    let e = plan_energy_summary(Some("hours=1"), 7_200).unwrap();
    assert_eq!((e.start, e.end, e.bucket_seconds), (3_600, 7_200, 86_400));
    assert_eq!(summary_bucket_seconds(0, 3_000, 1), 3);
    assert_eq!(summary_bucket_seconds(0, 4_500, 1), 4);
    assert_eq!(summary_bucket_seconds(0, 3_000, 2), 2);
    assert_eq!(summary_bucket_seconds(0, 3_001, 2), 3);
    assert_eq!(bucket_points(0, 3_001, 3).len(), 1_002);
    assert_eq!(summary_bucket_seconds(0, 100, 0), 1);
    assert_eq!(bucket_points(0, 10, 4), vec![0, 4, 8, 11]);
    assert_eq!(bucket_points(5, 5, 4), vec![6]);
    assert_eq!(sql_placeholders(3), "?,?,?");
    assert_eq!(sql_placeholders(0), "");
}

#[test]
fn test_timestamp_to_datetime_valid() {
    let ts = 1609459200; // 2021-01-01 00:00:00 UTC
    let dt = timestamp_to_datetime(ts, "test");
    assert_eq!(dt, ts);
}

#[test]
fn test_timestamp_to_datetime_invalid() {
    // Way out of range: the Unix epoch comes back instead.
    let dt = timestamp_to_datetime(i64::MAX, "test");
    assert_eq!(dt, 0);
}

#[test]
fn chrono_range_ends() {
    assert_eq!(timestamp_to_datetime(CHRONO_MIN_TIMESTAMP, "test"), CHRONO_MIN_TIMESTAMP);
    assert_eq!(timestamp_to_datetime(CHRONO_MIN_TIMESTAMP - 1, "test"), 0);
    assert_eq!(timestamp_to_datetime(CHRONO_MAX_TIMESTAMP, "test"), CHRONO_MAX_TIMESTAMP);
    assert_eq!(timestamp_to_datetime(CHRONO_MAX_TIMESTAMP + 1, "test"), 0);
}

#[test]
fn epoch_parts_round_down() {
    assert_eq!(epoch_parts(1_500_000_000), (1, 500_000_000));
    assert_eq!(epoch_parts(-1), (-1, 999_999_999));
    assert_eq!(epoch_parts(-1_000_000_000), (-1, 0));
    assert_eq!(epoch_parts(i128::MAX), (i64::MAX, 999_999_999));
    assert_eq!(epoch_parts(i128::MIN), (i64::MIN, 0));
}

#[test]
fn websocket_upgrade_checks() {
    let ok = validate_websocket_request("GET", Some("keep-alive, Upgrade"), Some("WebSocket"), Some("13"), Some("k=="));
    assert_eq!(ok, Ok("k==".to_string()));
    assert_eq!(
        validate_websocket_request("POST", None, None, None, None),
        Err(WebSocketRequestError::NotGet)
    );
    assert_eq!(
        validate_websocket_request("GET", Some("keep-alive"), Some("websocket"), Some("13"), Some("k")),
        Err(WebSocketRequestError::MissingConnectionUpgrade)
    );
    assert_eq!(
        validate_websocket_request("GET", Some("upgrade"), Some("h2c"), Some("13"), Some("k")),
        Err(WebSocketRequestError::MissingUpgradeWebsocket)
    );
    assert_eq!(
        validate_websocket_request("GET", Some("upgrade"), Some("websocket"), Some("8"), Some("k")),
        Err(WebSocketRequestError::UnsupportedVersion)
    );
    assert_eq!(
        validate_websocket_request("GET", Some("upgrade"), Some("websocket"), Some("13"), None),
        Err(WebSocketRequestError::MissingKey)
    );
    assert_eq!(WebSocketRequestError::MissingKey.message(), "Missing Sec-WebSocket-Key header");
    assert!(!header_contains(None, "upgrade"));
}

#[test]
fn gzip_when_accepted_and_large() {
    assert!(accepts_gzip(Some("br, gzip;q=0.8")));
    assert!(!accepts_gzip(Some("br, deflate")));
    assert!(!accepts_gzip(Some("gzip;q=0, deflate")));
    assert!(!accepts_gzip(Some("gzip; q=0.000")));
    assert!(!accepts_gzip(Some("gzip;Q=0.0")));
    assert!(accepts_gzip(Some("gzip;q=0.001")));
    assert!(accepts_gzip(Some("gzip;q=0, gzip")));
    assert!(accepts_gzip(Some("gzip;level=1")));
    let body: Vec<u8> = std::iter::repeat(b'a').take(4096).collect();
    let out = maybe_compress(Some("gzip"), false, false, body.clone());
    assert!(out.gzipped);
    assert_ne!(out.body, body);
    let mut decoded = Vec::new();
    flate2::read::GzDecoder::new(out.body.as_slice()).read_to_end(&mut decoded).unwrap();
    assert_eq!(decoded, body);

    let small = vec![1u8; MIN_COMPRESS_BYTES - 1];
    let out = maybe_compress(Some("gzip"), false, false, small.clone());
    assert!(!out.gzipped);
    assert_eq!(out.body, small);
    let out = maybe_compress(Some("gzip"), true, false, body.clone());
    assert!(!out.gzipped);
    let out = maybe_compress(Some("gzip"), false, true, body.clone());
    assert!(!out.gzipped);
}

#[test]
fn encoder_result_picks_the_body() {
    let out = encoded_or_original(vec![1, 2, 3], Ok(vec![9, 9]));
    assert!(out.gzipped);
    assert_eq!(out.body, vec![9, 9]);
    let out = encoded_or_original(vec![1, 2, 3], Err(()));
    assert!(!out.gzipped);
    assert_eq!(out.body, vec![1, 2, 3]);
}

#[test]
fn device_request_checks() {
    assert_eq!(device_id_from_path("/api/devices/0x12"), "0x12");
    assert_eq!(device_id_from_path("/elsewhere"), "");
    assert_eq!(option_device_id_from_path("/api/devices/0x12/set"), "0x12");
    assert_eq!(option_device_id_from_path("/api/devices/0x12"), "");
    assert_eq!(position_device_id_from_path("/api/devices/0x12/position"), "0x12");
    assert_eq!(check_device_id(""), Err(DeviceRequestError::MissingDeviceId));
    assert_eq!(check_device_name("  "), Err(DeviceRequestError::EmptyName));
    assert_eq!(check_device_name("Lamp"), Ok(()));
    assert_eq!(DeviceRequestError::EmptyName.message(), "Device name cannot be empty");
    assert_eq!(permit_join_time(true, None), Some(180));
    assert_eq!(permit_join_time(true, Some(60)), Some(60));
    assert_eq!(permit_join_time(false, Some(60)), None);
    assert_eq!(turbo_mode_value(None), Err(DeviceRequestError::MissingTurboMode));
    assert_eq!(turbo_mode_value(Some(true)), Ok(true));
}

#[test]
fn floor_plan_checks() {
    let etag = floor_plan_etag(1_700_000_000, 2_500_000);
    assert_eq!(etag, "W/\"1700000000-2500000\"");
    assert!(etag_matches(Some("\"x\",  W/\"1700000000-2500000\" "), &etag));
    assert!(!etag_matches(Some("w/\"1700000000-2500000\""), &etag));
    assert!(!etag_matches(None, &etag));
    assert_eq!(floor_plan_etag(-5, 0), "W/\"-5-0\"");
    assert_eq!(check_upload_size(5 * 1024 * 1024), Ok(()));
    assert_eq!(
        check_upload_size(5 * 1024 * 1024 + 1),
        Err("SVG content too large. Maximum size is 5242880 bytes".to_string())
    );
    assert_eq!(check_svg_upload("<svg></svg>"), Ok(()));
    assert_eq!(check_svg_upload("<div/>"), Err(SvgRejection::Invalid));
    assert_eq!(check_svg_upload("<svg onload=x></svg>"), Err(SvgRejection::ActiveContent));
    assert_eq!(SvgRejection::Invalid.message(), "Invalid SVG content. Must be a valid SVG document.");
}

#[test]
fn static_assets() {
    assert_eq!(static_file_path("/app.js"), "static/app.js");
    assert_eq!(content_type_for("/app.js"), "application/javascript; charset=utf-8");
    assert_eq!(content_type_for("/a.css"), "text/css; charset=utf-8");
    assert_eq!(content_type_for("/plan.svg"), "image/svg+xml");
    assert_eq!(content_type_for("/i.png"), "image/png");
    assert_eq!(content_type_for("/i.jpeg"), "image/jpeg");
    assert_eq!(content_type_for("/i.JPG"), "application/octet-stream");
}

#[test]
fn storage_cache_freshness() {
    assert!(is_fresh(59_999_999_999));
    assert!(!is_fresh(60_000_000_000));
    let mut cache: StorageCache<u32> = StorageCache::new();
    assert_eq!(cache.fresh_payload(), None);
    cache.store(7);
    assert_eq!(cache.fresh_payload(), Some(&7));
}

#[test]
fn storage_cache_payload_by_age() {
    let mut cache: StorageCache<u32> = StorageCache::new();
    assert_eq!(cache.payload_at_age(0), None);
    cache.store(7);
    assert_eq!(cache.payload_at_age(0), Some(&7));
    assert_eq!(cache.payload_at_age(59_999_999_999), Some(&7));
    assert_eq!(cache.payload_at_age(60_000_000_000), None);
}

#[test]
fn websocket_accept_value_follows_rfc_6455() {
    let accept = websocket_accept(
        "GET",
        Some("Upgrade"),
        Some("websocket"),
        Some("13"),
        Some("dGhlIHNhbXBsZSBub25jZQ=="),
    );
    assert_eq!(accept, Ok("s3pPLMBiTxaQ9kYGzzhZRbK+xOo=".to_string()));
    assert_eq!(
        websocket_accept("GET", Some("Upgrade"), Some("websocket"), Some("12"), Some("k")),
        Err(WebSocketRequestError::UnsupportedVersion)
    );
}
