//! Rendering metric blocks and gathering whole scrapes.

use ipfs_exporter::gather::{
    gather_bw_metrics, gather_metrics, ScrapeError, StatSource,
};
use ipfs_exporter::render::{render_labeled_metric, render_metric, MetricKind};
use ipfs_exporter::render::render_bandwidth_stats;
use ipfs_exporter::stats::{BandwidthStats, DecodeError};
use ipfs_exporter::text::str_to_chars;

fn text(v: &Vec<char>) -> String {
    v.iter().collect()
}

const BW_BODY: &str = "{\"TotalIn\":100,\"TotalOut\":50,\"RateIn\":1.5,\"RateOut\":0.5}";
const REPO_BODY: &str = "{\"RepoSize\":12345.0,\"NumObjects\":42,\"StorageMax\":10000000000,\"RepoPath\":\"/data/ipfs\",\"Version\":\"fs-repo@14\"}";
const BSWAP_BODY: &str = "{\"BlocksReceived\":11,\"BlocksSent\":12,\"DataReceived\":13,\"DataSent\":14,\"DupBlksReceived\":15,\"DupDataReceived\":16,\"MessagesReceived\":17,\"Peers\":[],\"ProvideBufLen\":0}";

const BW_EXPECTED: &str = "# HELP kubo_ipfs_total_in_bytes Total number of bytes received\n\
# TYPE kubo_ipfs_total_in_bytes counter\n\
kubo_ipfs_total_in_bytes 100\n\
# HELP kubo_ipfs_total_out_bytes Total number of bytes sent\n\
# TYPE kubo_ipfs_total_out_bytes counter\n\
kubo_ipfs_total_out_bytes 50\n\
# HELP kubo_ipfs_rate_in_bytes Total rate incoming in bytes\n\
# TYPE kubo_ipfs_rate_in_bytes gauge\n\
kubo_ipfs_rate_in_bytes 1.5\n\
# HELP kubo_ipfs_rate_out_bytes Total rate outgoing in bytes\n\
# TYPE kubo_ipfs_rate_out_bytes gauge\n\
kubo_ipfs_rate_out_bytes 0.5\n";

#[test]
fn render_one_counter_block() {
    let out = render_metric(
        "kubo_ipfs_total_in_bytes",
        MetricKind::Counter,
        "Total number of bytes received",
        &str_to_chars("100"),
    );
    assert_eq!(
        text(&out),
        "# HELP kubo_ipfs_total_in_bytes Total number of bytes received\n\
         # TYPE kubo_ipfs_total_in_bytes counter\n\
         kubo_ipfs_total_in_bytes 100\n"
    );
}

#[test]
fn render_is_idempotent() {
    let a = render_metric("m", MetricKind::Gauge, "h", &str_to_chars("2.5"));
    let b = render_metric("m", MetricKind::Gauge, "h", &str_to_chars("2.5"));
    assert_eq!(text(&a), text(&b));
}

#[test]
fn counter_and_gauge_differ_only_in_kind_token() {
    let c = text(&render_metric("m", MetricKind::Counter, "h", &str_to_chars("7")));
    let g = text(&render_metric("m", MetricKind::Gauge, "h", &str_to_chars("7")));
    assert_ne!(c, g);
    assert_eq!(c.replace("# TYPE m counter\n", "# TYPE m gauge\n"), g);
}

#[test]
fn string_fact_renders_as_label_with_value_one() {
    let out = render_labeled_metric(
        "kubo_ipfs_repo_path",
        MetricKind::Counter,
        "Path to Kubo IPFS repo",
        "path",
        &str_to_chars("/data/ipfs"),
        &str_to_chars("1"),
    );
    assert_eq!(
        text(&out),
        "# HELP kubo_ipfs_repo_path Path to Kubo IPFS repo\n\
         # TYPE kubo_ipfs_repo_path counter\n\
         kubo_ipfs_repo_path{path=\"/data/ipfs\"} 1\n"
    );
}

#[test]
fn bandwidth_record_renders_four_blocks() {
    let record = BandwidthStats {
        total_in: 100,
        total_out: 50,
        rate_in: str_to_chars("1.5"),
        rate_out: str_to_chars("0.5"),
    };
    let out = text(&render_bandwidth_stats(&record));
    assert_eq!(out, BW_EXPECTED);
    assert_eq!(out.matches("# HELP").count(), 4);
    assert_eq!(out.matches("# TYPE").count(), 4);
}

#[test]
fn bandwidth_scrape_emits_four_blocks() {
    let out = gather_bw_metrics(BW_BODY).unwrap();
    assert_eq!(out, BW_EXPECTED);
    assert_eq!(out.matches("# HELP").count(), 4);
    assert_eq!(out.matches("# TYPE").count(), 4);
}

#[test]
fn full_scrape_concatenates_in_order() {
    let out = gather_metrics(Some(BW_BODY), Some(REPO_BODY), Some(BSWAP_BODY)).unwrap();
    assert!(out.starts_with(BW_EXPECTED));
    let bw_end = BW_EXPECTED.len();
    assert!(out[bw_end..].starts_with("# HELP kubo_ipfs_repo_size_in_bytes"));
    assert!(out.contains("kubo_ipfs_repo_size_in_bytes 12345.0\n"));
    assert!(out.contains("kubo_ipfs_repo_num_objects 42\n"));
    assert!(out.contains("kubo_ipfs_repo_storage_max_bytes 10000000000\n"));
    assert!(out.contains("kubo_ipfs_repo_path{path=\"/data/ipfs\"} 1\n"));
    assert!(out.contains("kubo_ipfs_repo_version{path=\"fs-repo@14\"} 1\n"));
    assert!(out.contains("kubo_ipfs_bitswap_messages_received 17\n"));
    assert!(out.contains("kubo_ipfs_bitswap_data_received 13\n"));
    assert!(out.contains("kubo_ipfs_bitswap_data_sent 14\n"));
    assert!(out.contains("kubo_ipfs_bitswap_blocks_received 11\n"));
    assert!(out.ends_with("kubo_ipfs_bitswap_blocks_sent 12\n"));
}

#[test]
fn repo_transport_error_aborts_scrape() {
    let r = gather_metrics(Some(BW_BODY), None, Some(BSWAP_BODY));
    assert_eq!(r, Err(ScrapeError::Transport(StatSource::Repo)));
}

#[test]
fn bandwidth_decode_error_aborts_scrape() {
    let r = gather_metrics(Some("not json"), Some(REPO_BODY), Some(BSWAP_BODY));
    assert_eq!(
        r,
        Err(ScrapeError::Decode(StatSource::Bandwidth, DecodeError::Syntax))
    );
}

#[test]
fn bitswap_shape_error_aborts_scrape() {
    let r = gather_metrics(Some(BW_BODY), Some(REPO_BODY), Some("{}"));
    assert_eq!(
        r,
        Err(ScrapeError::Decode(StatSource::Bitswap, DecodeError::Shape))
    );
}
