//! Rendering statistics records as Prometheus text-exposition metrics.
//!
//! One metric block is a `# HELP` line, a `# TYPE` line and one sample
//! line; a record renders as the concatenation of one block per entry of
//! its fixed metric catalog.  String-valued facts (the repository path and
//! version) render as a metric with the fixed sample value `1` and the fact
//! attached as a label value.  The specification functions below give each
//! block's text exactly, and the renderers are proved to return it.

use vstd::prelude::*;
use crate::stats::{BandwidthStats, BitswapStats, RepoStats};
use crate::text::{i64_to_chars, push_chars, push_str_chars, spec_i64_chars, spec_u64_chars, u64_to_chars};

verus! {

/// The two metric kinds of the catalog: a monotonic counter or an
/// instantaneous gauge.
#[derive(Clone, Copy, Debug, PartialEq, Eq)]
pub enum MetricKind {
    Counter,
    Gauge,
}

/// The kind's token on the `# TYPE` line.
pub open spec fn kind_token(kind: MetricKind) -> Seq<char> {
    match kind {
        MetricKind::Counter => "counter"@,
        MetricKind::Gauge => "gauge"@,
    }
}

/// A block's text up to its kind token.
pub open spec fn before_kind(name: Seq<char>, help: Seq<char>) -> Seq<char> {
    "# HELP "@ + name + " "@ + help + "\n# TYPE "@ + name + " "@
}

/// A block's text after its kind token: the unlabelled sample line.
pub open spec fn after_kind(name: Seq<char>, value: Seq<char>) -> Seq<char> {
    "\n"@ + name + " "@ + value + "\n"@
}

/// One metric block with a single unlabelled sample.
pub open spec fn spec_metric(
    name: Seq<char>,
    kind: MetricKind,
    help: Seq<char>,
    value: Seq<char>,
) -> Seq<char> {
    before_kind(name, help) + kind_token(kind) + after_kind(name, value)
}

/// One metric block whose sample carries a single label.
pub open spec fn spec_labeled_metric(
    name: Seq<char>,
    kind: MetricKind,
    help: Seq<char>,
    label_key: Seq<char>,
    label_value: Seq<char>,
    value: Seq<char>,
) -> Seq<char> {
    before_kind(name, help) + kind_token(kind) + "\n"@ + name + "{"@ + label_key + "=\""@
        + label_value + "\"} "@ + value + "\n"@
}

/// Renders one metric block with a single unlabelled sample.
pub fn render_metric(name: &str, kind: MetricKind, help: &str, value: &Vec<char>) -> (out: Vec<
    char,
>)
    ensures
        out@ == spec_metric(name@, kind, help@, value@),
{
    let mut v: Vec<char> = Vec::new();
    push_str_chars(&mut v, "# HELP ");
    push_str_chars(&mut v, name);
    push_str_chars(&mut v, " ");
    push_str_chars(&mut v, help);
    push_str_chars(&mut v, "\n# TYPE ");
    push_str_chars(&mut v, name);
    push_str_chars(&mut v, " ");
    match kind {
        MetricKind::Counter => push_str_chars(&mut v, "counter"),
        MetricKind::Gauge => push_str_chars(&mut v, "gauge"),
    }
    push_str_chars(&mut v, "\n");
    push_str_chars(&mut v, name);
    push_str_chars(&mut v, " ");
    push_chars(&mut v, value);
    push_str_chars(&mut v, "\n");
    proof {
        assert(v@ =~= spec_metric(name@, kind, help@, value@));
    }
    v
}

/// Renders one metric block whose sample carries a single label.
pub fn render_labeled_metric(
    name: &str,
    kind: MetricKind,
    help: &str,
    label_key: &str,
    label_value: &Vec<char>,
    value: &Vec<char>,
) -> (out: Vec<char>)
    ensures
        out@ == spec_labeled_metric(name@, kind, help@, label_key@, label_value@, value@),
{
    let mut v: Vec<char> = Vec::new();
    push_str_chars(&mut v, "# HELP ");
    push_str_chars(&mut v, name);
    push_str_chars(&mut v, " ");
    push_str_chars(&mut v, help);
    push_str_chars(&mut v, "\n# TYPE ");
    push_str_chars(&mut v, name);
    push_str_chars(&mut v, " ");
    match kind {
        MetricKind::Counter => push_str_chars(&mut v, "counter"),
        MetricKind::Gauge => push_str_chars(&mut v, "gauge"),
    }
    push_str_chars(&mut v, "\n");
    push_str_chars(&mut v, name);
    push_str_chars(&mut v, "{");
    push_str_chars(&mut v, label_key);
    push_str_chars(&mut v, "=\"");
    push_chars(&mut v, label_value);
    push_str_chars(&mut v, "\"} ");
    push_chars(&mut v, value);
    push_str_chars(&mut v, "\n");
    proof {
        assert(v@ =~= spec_labeled_metric(name@, kind, help@, label_key@, label_value@, value@));
    }
    v
}

/// The four bandwidth metric blocks.
pub open spec fn spec_render_bandwidth(
    total_in: int,
    total_out: int,
    rate_in: Seq<char>,
    rate_out: Seq<char>,
) -> Seq<char> {
    spec_metric(
        "kubo_ipfs_total_in_bytes"@,
        MetricKind::Counter,
        "Total number of bytes received"@,
        spec_i64_chars(total_in),
    ) + spec_metric(
        "kubo_ipfs_total_out_bytes"@,
        MetricKind::Counter,
        "Total number of bytes sent"@,
        spec_i64_chars(total_out),
    ) + spec_metric(
        "kubo_ipfs_rate_in_bytes"@,
        MetricKind::Gauge,
        "Total rate incoming in bytes"@,
        rate_in,
    ) + spec_metric(
        "kubo_ipfs_rate_out_bytes"@,
        MetricKind::Gauge,
        "Total rate outgoing in bytes"@,
        rate_out,
    )
}

/// The five repository metric blocks.
pub open spec fn spec_render_repo(
    repo_size: Seq<char>,
    num_objects: int,
    storage_max: Seq<char>,
    repo_path: Seq<char>,
    version: Seq<char>,
) -> Seq<char> {
    spec_metric(
        "kubo_ipfs_repo_size_in_bytes"@,
        MetricKind::Counter,
        "Total capacity used by IPFS repository"@,
        repo_size,
    ) + spec_metric(
        "kubo_ipfs_repo_num_objects"@,
        MetricKind::Gauge,
        "Number of objects currently persisted in IPFS repo"@,
        spec_u64_chars(num_objects),
    ) + spec_metric(
        "kubo_ipfs_repo_storage_max_bytes"@,
        MetricKind::Counter,
        "Total number of bytes allowed in IPFS repository"@,
        storage_max,
    ) + spec_labeled_metric(
        "kubo_ipfs_repo_path"@,
        MetricKind::Counter,
        "Path to Kubo IPFS repo"@,
        "path"@,
        repo_path,
        "1"@,
    ) + spec_labeled_metric(
        "kubo_ipfs_repo_version"@,
        MetricKind::Counter,
        "IPFS repository version"@,
        "path"@,
        version,
        "1"@,
    )
}

/// The five bitswap metric blocks.
pub open spec fn spec_render_bitswap(
    messages_received: int,
    data_received: int,
    data_sent: int,
    blocks_received: int,
    blocks_sent: int,
) -> Seq<char> {
    spec_metric(
        "kubo_ipfs_bitswap_messages_received"@,
        MetricKind::Counter,
        "Total number of bitswap messages received"@,
        spec_u64_chars(messages_received),
    ) + spec_metric(
        "kubo_ipfs_bitswap_data_received"@,
        MetricKind::Counter,
        "Total number of bitswap bytes received"@,
        spec_u64_chars(data_received),
    ) + spec_metric(
        "kubo_ipfs_bitswap_data_sent"@,
        MetricKind::Counter,
        "Total number of bitswap bytes sent"@,
        spec_u64_chars(data_sent),
    ) + spec_metric(
        "kubo_ipfs_bitswap_blocks_received"@,
        MetricKind::Counter,
        "Total number of bitswap bytes received"@,
        spec_u64_chars(blocks_received),
    ) + spec_metric(
        "kubo_ipfs_bitswap_blocks_sent"@,
        MetricKind::Counter,
        "Total number of bitswap bytes sent"@,
        spec_u64_chars(blocks_sent),
    )
}

/// Renders the bandwidth record's metric blocks, in catalog order.
pub fn render_bandwidth_stats(b: &BandwidthStats) -> (out: Vec<char>)
    ensures
        out@ == spec_render_bandwidth(
            b.total_in as int,
            b.total_out as int,
            b.rate_in@,
            b.rate_out@,
        ),
{
    let tin = i64_to_chars(b.total_in);
    let tout = i64_to_chars(b.total_out);
    let mut out = render_metric(
        "kubo_ipfs_total_in_bytes",
        MetricKind::Counter,
        "Total number of bytes received",
        &tin,
    );
    let m2 = render_metric(
        "kubo_ipfs_total_out_bytes",
        MetricKind::Counter,
        "Total number of bytes sent",
        &tout,
    );
    push_chars(&mut out, &m2);
    let m3 = render_metric(
        "kubo_ipfs_rate_in_bytes",
        MetricKind::Gauge,
        "Total rate incoming in bytes",
        &b.rate_in,
    );
    push_chars(&mut out, &m3);
    let m4 = render_metric(
        "kubo_ipfs_rate_out_bytes",
        MetricKind::Gauge,
        "Total rate outgoing in bytes",
        &b.rate_out,
    );
    push_chars(&mut out, &m4);
    out
}

/// Renders the repository record's metric blocks, in catalog order.  The
/// path and version render with sample value `1` and the fact as a label;
/// the version block reuses the label key `path`, which is kept as the wire
/// format has it.
pub fn render_repo_stats(r: &RepoStats) -> (out: Vec<char>)
    ensures
        out@ == spec_render_repo(
            r.repo_size@,
            r.num_objects as int,
            r.storage_max@,
            r.repo_path@,
            r.version@,
        ),
{
    let num = u64_to_chars(r.num_objects);
    let one = crate::text::str_to_chars("1");
    let mut out = render_metric(
        "kubo_ipfs_repo_size_in_bytes",
        MetricKind::Counter,
        "Total capacity used by IPFS repository",
        &r.repo_size,
    );
    let m2 = render_metric(
        "kubo_ipfs_repo_num_objects",
        MetricKind::Gauge,
        "Number of objects currently persisted in IPFS repo",
        &num,
    );
    push_chars(&mut out, &m2);
    let m3 = render_metric(
        "kubo_ipfs_repo_storage_max_bytes",
        MetricKind::Counter,
        "Total number of bytes allowed in IPFS repository",
        &r.storage_max,
    );
    push_chars(&mut out, &m3);
    let m4 = render_labeled_metric(
        "kubo_ipfs_repo_path",
        MetricKind::Counter,
        "Path to Kubo IPFS repo",
        "path",
        &r.repo_path,
        &one,
    );
    push_chars(&mut out, &m4);
    let m5 = render_labeled_metric(
        "kubo_ipfs_repo_version",
        MetricKind::Counter,
        "IPFS repository version",
        "path",
        &r.version,
        &one,
    );
    push_chars(&mut out, &m5);
    out
}

/// Renders the bitswap record's metric blocks, in catalog order.
pub fn render_bitswap_stats(b: &BitswapStats) -> (out: Vec<char>)
    ensures
        out@ == spec_render_bitswap(
            b.messages_received as int,
            b.data_received as int,
            b.data_sent as int,
            b.blocks_received as int,
            b.blocks_sent as int,
        ),
{
    let msgs = u64_to_chars(b.messages_received);
    let drcv = u64_to_chars(b.data_received);
    let dsnt = u64_to_chars(b.data_sent);
    let brcv = u64_to_chars(b.blocks_received);
    let bsnt = u64_to_chars(b.blocks_sent);
    let mut out = render_metric(
        "kubo_ipfs_bitswap_messages_received",
        MetricKind::Counter,
        "Total number of bitswap messages received",
        &msgs,
    );
    let m2 = render_metric(
        "kubo_ipfs_bitswap_data_received",
        MetricKind::Counter,
        "Total number of bitswap bytes received",
        &drcv,
    );
    push_chars(&mut out, &m2);
    let m3 = render_metric(
        "kubo_ipfs_bitswap_data_sent",
        MetricKind::Counter,
        "Total number of bitswap bytes sent",
        &dsnt,
    );
    push_chars(&mut out, &m3);
    let m4 = render_metric(
        "kubo_ipfs_bitswap_blocks_received",
        MetricKind::Counter,
        "Total number of bitswap bytes received",
        &brcv,
    );
    push_chars(&mut out, &m4);
    let m5 = render_metric(
        "kubo_ipfs_bitswap_blocks_sent",
        MetricKind::Counter,
        "Total number of bitswap bytes sent",
        &bsnt,
    );
    push_chars(&mut out, &m5);
    out
}

/// Rendering is a function of its inputs alone: two renders of one and the
/// same (name, kind, help, value) tuple are identical, character for
/// character.
pub proof fn lemma_render_idempotent(
    r1: Seq<char>,
    r2: Seq<char>,
    name: Seq<char>,
    kind: MetricKind,
    help: Seq<char>,
    value: Seq<char>,
)
    requires
        r1 == spec_metric(name, kind, help, value),
        r2 == spec_metric(name, kind, help, value),
    ensures
        r1 == r2,
{
}

/// A counter block and a gauge block for the same name, help and value are
/// the same text before and after the kind token of the `# TYPE` line; only
/// that token differs.
pub proof fn lemma_kind_only_difference(name: Seq<char>, help: Seq<char>, value: Seq<char>)
    ensures
        spec_metric(name, MetricKind::Counter, help, value) == before_kind(name, help)
            + kind_token(MetricKind::Counter) + after_kind(name, value),
        spec_metric(name, MetricKind::Gauge, help, value) == before_kind(name, help) + kind_token(
            MetricKind::Gauge,
        ) + after_kind(name, value),
{
}

/// A string-valued fact renders with the fact in the label position and the
/// fixed sample value `1`, never as the numeric sample itself.
pub proof fn lemma_string_fact_as_label(
    name: Seq<char>,
    kind: MetricKind,
    help: Seq<char>,
    key: Seq<char>,
    fact: Seq<char>,
)
    ensures
        spec_labeled_metric(name, kind, help, key, fact, "1"@) == before_kind(name, help)
            + kind_token(kind) + ("\n"@ + name + "{"@ + key + "=\""@ + fact + "\"} "@ + "1"@
            + "\n"@),
{
    assert(spec_labeled_metric(name, kind, help, key, fact, "1"@) =~= before_kind(name, help)
        + kind_token(kind) + ("\n"@ + name + "{"@ + key + "=\""@ + fact + "\"} "@ + "1"@ + "\n"@));
}

} // verus!
