//! Decoding the three statistics record shapes.

use ipfs_exporter::stats::{
    decode_bandwidth_stats, decode_bitswap_stats, decode_repo_stats, token_to_i32, token_to_i64,
    token_to_u64, DecodeError,
};
use ipfs_exporter::text::str_to_chars;

fn text(v: &Vec<char>) -> String {
    v.iter().collect()
}

#[test]
fn bandwidth_well_formed() {
    let body = "{\"TotalIn\":100,\"TotalOut\":50,\"RateIn\":1.5,\"RateOut\":0.5}";
    let b = decode_bandwidth_stats(body).unwrap();
    assert_eq!(b.total_in, 100);
    assert_eq!(b.total_out, 50);
    assert_eq!(text(&b.rate_in), "1.5");
    assert_eq!(text(&b.rate_out), "0.5");
}

#[test]
fn bandwidth_field_order_and_extras_ignored() {
    let body = "{ \"RateOut\": 0, \"Extra\": [1, {\"x\": null}], \"TotalOut\": -7, \"RateIn\": 12.25e2, \"TotalIn\": 9223372036854775807 }";
    let b = decode_bandwidth_stats(body).unwrap();
    assert_eq!(b.total_in, i64::MAX);
    assert_eq!(b.total_out, -7);
    assert_eq!(text(&b.rate_in), "12.25e2");
    assert_eq!(text(&b.rate_out), "0");
}

#[test]
fn bandwidth_missing_field() {
    let body = "{\"TotalIn\":100,\"TotalOut\":50,\"RateIn\":1.5}";
    assert_eq!(decode_bandwidth_stats(body), Err(DecodeError::Shape));
}

#[test]
fn bandwidth_wrong_type() {
    let body = "{\"TotalIn\":\"100\",\"TotalOut\":50,\"RateIn\":1.5,\"RateOut\":0.5}";
    assert_eq!(decode_bandwidth_stats(body), Err(DecodeError::Shape));
}

#[test]
fn bandwidth_float_for_integer_field() {
    let body = "{\"TotalIn\":100.0,\"TotalOut\":50,\"RateIn\":1.5,\"RateOut\":0.5}";
    assert_eq!(decode_bandwidth_stats(body), Err(DecodeError::Shape));
}

#[test]
fn bandwidth_duplicate_field() {
    let body = "{\"TotalIn\":100,\"TotalIn\":101,\"TotalOut\":50,\"RateIn\":1.5,\"RateOut\":0.5}";
    assert_eq!(decode_bandwidth_stats(body), Err(DecodeError::Shape));
}

#[test]
fn bandwidth_integer_overflow() {
    let body = "{\"TotalIn\":9223372036854775808,\"TotalOut\":50,\"RateIn\":1.5,\"RateOut\":0.5}";
    assert_eq!(decode_bandwidth_stats(body), Err(DecodeError::Shape));
}

#[test]
fn bandwidth_most_negative_total() {
    let body = "{\"TotalIn\":-9223372036854775808,\"TotalOut\":0,\"RateIn\":0,\"RateOut\":0}";
    let b = decode_bandwidth_stats(body).unwrap();
    assert_eq!(b.total_in, i64::MIN);
}

#[test]
fn bandwidth_bad_json() {
    assert_eq!(decode_bandwidth_stats("{\"TotalIn\":"), Err(DecodeError::Syntax));
    assert_eq!(decode_bandwidth_stats(""), Err(DecodeError::Syntax));
    assert_eq!(decode_bandwidth_stats("{} trailing"), Err(DecodeError::Syntax));
}

#[test]
fn bandwidth_non_object_document() {
    assert_eq!(decode_bandwidth_stats("[1,2,3]"), Err(DecodeError::Shape));
    assert_eq!(decode_bandwidth_stats("42"), Err(DecodeError::Shape));
    assert_eq!(decode_bandwidth_stats("null"), Err(DecodeError::Shape));
}

#[test]
fn repo_well_formed() {
    let body = "{\"RepoSize\":12345.0,\"NumObjects\":42,\"StorageMax\":10000000000,\"RepoPath\":\"/data/ipfs\",\"Version\":\"fs-repo@14\"}";
    let r = decode_repo_stats(body).unwrap();
    assert_eq!(text(&r.repo_size), "12345.0");
    assert_eq!(r.num_objects, 42);
    assert_eq!(text(&r.storage_max), "10000000000");
    assert_eq!(text(&r.repo_path), "/data/ipfs");
    assert_eq!(text(&r.version), "fs-repo@14");
}

#[test]
fn repo_missing_field() {
    let body = "{\"RepoSize\":12345.0,\"NumObjects\":42,\"StorageMax\":1,\"RepoPath\":\"/data/ipfs\"}";
    assert_eq!(decode_repo_stats(body), Err(DecodeError::Shape));
}

#[test]
fn repo_negative_count_rejected() {
    let body = "{\"RepoSize\":1,\"NumObjects\":-1,\"StorageMax\":1,\"RepoPath\":\"p\",\"Version\":\"v\"}";
    assert_eq!(decode_repo_stats(body), Err(DecodeError::Shape));
}

#[test]
fn repo_path_with_escapes() {
    let body = "{\"RepoSize\":1,\"NumObjects\":0,\"StorageMax\":1,\"RepoPath\":\"C:\\\\ipfs\\n\\u0041\",\"Version\":\"v\"}";
    let r = decode_repo_stats(body).unwrap();
    assert_eq!(text(&r.repo_path), "C:\\ipfs\nA");
}

#[test]
fn repo_surrogate_pair_escape() {
    let body = "{\"RepoSize\":1,\"NumObjects\":0,\"StorageMax\":1,\"RepoPath\":\"\\uD83D\\uDE00\",\"Version\":\"v\"}";
    let r = decode_repo_stats(body).unwrap();
    assert_eq!(text(&r.repo_path), "\u{1F600}");
}

#[test]
fn repo_lone_surrogate_rejected() {
    let body = "{\"RepoSize\":1,\"NumObjects\":0,\"StorageMax\":1,\"RepoPath\":\"\\uD83D\",\"Version\":\"v\"}";
    assert_eq!(decode_repo_stats(body), Err(DecodeError::Syntax));
}

#[test]
fn bitswap_well_formed() {
    let body = "{\"BlocksReceived\":11,\"BlocksSent\":12,\"DataReceived\":13,\"DataSent\":14,\"DupBlksReceived\":15,\"DupDataReceived\":16,\"MessagesReceived\":17,\"Peers\":[\"peerA\",\"peerB\"],\"ProvideBufLen\":-3}";
    let b = decode_bitswap_stats(body).unwrap();
    assert_eq!(b.blocks_received, 11);
    assert_eq!(b.blocks_sent, 12);
    assert_eq!(b.data_received, 13);
    assert_eq!(b.data_sent, 14);
    assert_eq!(b.dup_blocks_received, 15);
    assert_eq!(b.dup_data_received, 16);
    assert_eq!(b.messages_received, 17);
    assert_eq!(b.peers.len(), 2);
    assert_eq!(text(&b.peers[0]), "peerA");
    assert_eq!(text(&b.peers[1]), "peerB");
    assert_eq!(b.provide_buf_len, -3);
}

#[test]
fn bitswap_empty_peer_list() {
    let body = "{\"BlocksReceived\":0,\"BlocksSent\":0,\"DataReceived\":0,\"DataSent\":0,\"DupBlksReceived\":0,\"DupDataReceived\":0,\"MessagesReceived\":0,\"Peers\":[],\"ProvideBufLen\":0}";
    let b = decode_bitswap_stats(body).unwrap();
    assert!(b.peers.is_empty());
}

#[test]
fn bitswap_missing_field() {
    let body = "{\"BlocksReceived\":0,\"BlocksSent\":0,\"DataReceived\":0,\"DataSent\":0,\"DupBlksReceived\":0,\"DupDataReceived\":0,\"MessagesReceived\":0,\"Peers\":[]}";
    assert_eq!(decode_bitswap_stats(body), Err(DecodeError::Shape));
}

#[test]
fn bitswap_non_string_peer() {
    let body = "{\"BlocksReceived\":0,\"BlocksSent\":0,\"DataReceived\":0,\"DataSent\":0,\"DupBlksReceived\":0,\"DupDataReceived\":0,\"MessagesReceived\":0,\"Peers\":[\"a\",7],\"ProvideBufLen\":0}";
    assert_eq!(decode_bitswap_stats(body), Err(DecodeError::Shape));
}

#[test]
fn bitswap_counter_at_u64_max() {
    let body = "{\"BlocksReceived\":18446744073709551615,\"BlocksSent\":0,\"DataReceived\":0,\"DataSent\":0,\"DupBlksReceived\":0,\"DupDataReceived\":0,\"MessagesReceived\":0,\"Peers\":[],\"ProvideBufLen\":0}";
    let b = decode_bitswap_stats(body).unwrap();
    assert_eq!(b.blocks_received, u64::MAX);
}

#[test]
fn deeply_nested_document_rejected() {
    let mut body = String::new();
    for _ in 0..200 {
        body.push('[');
    }
    for _ in 0..200 {
        body.push(']');
    }
    assert_eq!(decode_bandwidth_stats(&body), Err(DecodeError::Syntax));
}

#[test]
fn token_conversions() {
    assert_eq!(token_to_i64(&str_to_chars("9223372036854775807")), Some(i64::MAX));
    assert_eq!(token_to_i64(&str_to_chars("-9223372036854775808")), Some(i64::MIN));
    assert_eq!(token_to_i64(&str_to_chars("9223372036854775808")), None);
    assert_eq!(token_to_i64(&str_to_chars("-9223372036854775809")), None);
    assert_eq!(token_to_i64(&str_to_chars("1.5")), None);
    assert_eq!(token_to_u64(&str_to_chars("18446744073709551615")), Some(u64::MAX));
    assert_eq!(token_to_u64(&str_to_chars("18446744073709551616")), None);
    assert_eq!(token_to_u64(&str_to_chars("-0")), Some(0));
    assert_eq!(token_to_u64(&str_to_chars("-1")), None);
    assert_eq!(token_to_i32(&str_to_chars("-2147483648")), Some(i32::MIN));
    assert_eq!(token_to_i32(&str_to_chars("2147483648")), None);
}
