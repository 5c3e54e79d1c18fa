//! Gathering one scrape: decode each statistics body, render its metric
//! blocks, and concatenate the three renderings in a fixed order —
//! bandwidth, then repository, then bitswap.
//!
//! The caller performs the three upstream requests and hands the response
//! bodies in; a body given as `None` stands for a transport failure of that
//! fetch.  A scrape is all-or-nothing: the first failure, in that fixed
//! order, is the scrape's single error, and no metric text is produced.

use vstd::prelude::*;
use crate::json::{JsonV, spec_parse_document};
use crate::render::{render_bandwidth_stats, render_bitswap_stats, render_repo_stats, spec_render_bandwidth, spec_render_bitswap, spec_render_repo};
use crate::stats::{DecodeError, bswap_shape_ok, bw_shape_ok, decode_bandwidth_stats, decode_bitswap_stats, decode_repo_stats, int_token_value, num_token_of, repo_shape_ok, str_of};
use crate::text::chars_to_string;

verus! {

/// Which of the three statistics fetches a scrape error belongs to.
#[derive(Clone, Copy, Debug, PartialEq, Eq)]
pub enum StatSource {
    Bandwidth,
    Repo,
    Bitswap,
}

/// Why a scrape failed: the fetch itself, or decoding its body.
#[derive(Clone, Copy, Debug, PartialEq, Eq)]
pub enum ScrapeError {
    Transport(StatSource),
    Decode(StatSource, DecodeError),
}

/// The metric text of a bandwidth body, when it decodes.
pub open spec fn spec_bw_output(s: Seq<char>) -> Option<Seq<char>> {
    match spec_parse_document(s) {
        Option::None => None,
        Option::Some(doc) => match doc {
            JsonV::Obj(ms) => if bw_shape_ok(ms) {
                Some(
                    spec_render_bandwidth(
                        int_token_value(num_token_of(ms, "TotalIn"@)),
                        int_token_value(num_token_of(ms, "TotalOut"@)),
                        num_token_of(ms, "RateIn"@),
                        num_token_of(ms, "RateOut"@),
                    ),
                )
            } else {
                None
            },
            _ => None,
        },
    }
}

/// The metric text of a repository body, when it decodes.
pub open spec fn spec_repo_output(s: Seq<char>) -> Option<Seq<char>> {
    match spec_parse_document(s) {
        Option::None => None,
        Option::Some(doc) => match doc {
            JsonV::Obj(ms) => if repo_shape_ok(ms) {
                Some(
                    spec_render_repo(
                        num_token_of(ms, "RepoSize"@),
                        int_token_value(num_token_of(ms, "NumObjects"@)),
                        num_token_of(ms, "StorageMax"@),
                        str_of(ms, "RepoPath"@),
                        str_of(ms, "Version"@),
                    ),
                )
            } else {
                None
            },
            _ => None,
        },
    }
}

/// The metric text of a bitswap body, when it decodes.
pub open spec fn spec_bswap_output(s: Seq<char>) -> Option<Seq<char>> {
    match spec_parse_document(s) {
        Option::None => None,
        Option::Some(doc) => match doc {
            JsonV::Obj(ms) => if bswap_shape_ok(ms) {
                Some(
                    spec_render_bitswap(
                        int_token_value(num_token_of(ms, "MessagesReceived"@)),
                        int_token_value(num_token_of(ms, "DataReceived"@)),
                        int_token_value(num_token_of(ms, "DataSent"@)),
                        int_token_value(num_token_of(ms, "BlocksReceived"@)),
                        int_token_value(num_token_of(ms, "BlocksSent"@)),
                    ),
                )
            } else {
                None
            },
            _ => None,
        },
    }
}

/// The decode error a body yields: `Syntax` when it is not well-formed
/// JSON, `Shape` otherwise.
pub open spec fn spec_decode_err(s: Seq<char>) -> DecodeError {
    if spec_parse_document(s) is None {
        DecodeError::Syntax
    } else {
        DecodeError::Shape
    }
}

/// Decodes one bandwidth body and renders its metric blocks.
pub fn gather_bw_metrics(body: &str) -> (r: Result<String, DecodeError>)
    ensures
        match spec_bw_output(body@) {
            Option::Some(o) => r matches Ok(out) && out@ == o,
            Option::None => r == Result::<String, DecodeError>::Err(spec_decode_err(body@)),
        },
{
    match decode_bandwidth_stats(body) {
        Err(e) => Err(e),
        Ok(b) => {
            let out = render_bandwidth_stats(&b);
            Ok(chars_to_string(&out))
        },
    }
}

/// Decodes one repository body and renders its metric blocks.
pub fn gather_repo_metrics(body: &str) -> (r: Result<String, DecodeError>)
    ensures
        match spec_repo_output(body@) {
            Option::Some(o) => r matches Ok(out) && out@ == o,
            Option::None => r == Result::<String, DecodeError>::Err(spec_decode_err(body@)),
        },
{
    match decode_repo_stats(body) {
        Err(e) => Err(e),
        Ok(b) => {
            let out = render_repo_stats(&b);
            Ok(chars_to_string(&out))
        },
    }
}

/// Decodes one bitswap body and renders its metric blocks.
pub fn gather_bswap_metrics(body: &str) -> (r: Result<String, DecodeError>)
    ensures
        match spec_bswap_output(body@) {
            Option::Some(o) => r matches Ok(out) && out@ == o,
            Option::None => r == Result::<String, DecodeError>::Err(spec_decode_err(body@)),
        },
{
    match decode_bitswap_stats(body) {
        Err(e) => Err(e),
        Ok(b) => {
            let out = render_bitswap_stats(&b);
            Ok(chars_to_string(&out))
        },
    }
}

/// One whole scrape.  Each body is `Some` of what its fetch returned, or
/// `None` when the fetch itself failed.  The result is the concatenation of
/// the three renderings, bandwidth then repository then bitswap; the first
/// failure in that order is the scrape's single error and nothing partial
/// is produced.
pub fn gather_metrics(bw_body: Option<&str>, repo_body: Option<&str>, bswap_body: Option<&str>) -> (r:
    Result<String, ScrapeError>)
    ensures
        match bw_body {
            Option::None => r == Result::<String, ScrapeError>::Err(
                ScrapeError::Transport(StatSource::Bandwidth),
            ),
            Option::Some(bb) => match spec_bw_output(bb@) {
                Option::None => r == Result::<String, ScrapeError>::Err(
                    ScrapeError::Decode(StatSource::Bandwidth, spec_decode_err(bb@)),
                ),
                Option::Some(bw_out) => match repo_body {
                    Option::None => r == Result::<String, ScrapeError>::Err(
                        ScrapeError::Transport(StatSource::Repo),
                    ),
                    Option::Some(rb) => match spec_repo_output(rb@) {
                        Option::None => r == Result::<String, ScrapeError>::Err(
                            ScrapeError::Decode(StatSource::Repo, spec_decode_err(rb@)),
                        ),
                        Option::Some(repo_out) => match bswap_body {
                            Option::None => r == Result::<String, ScrapeError>::Err(
                                ScrapeError::Transport(StatSource::Bitswap),
                            ),
                            Option::Some(sb) => match spec_bswap_output(sb@) {
                                Option::None => r == Result::<String, ScrapeError>::Err(
                                    ScrapeError::Decode(StatSource::Bitswap, spec_decode_err(sb@)),
                                ),
                                Option::Some(bs_out) => r matches Ok(out) && out@ == bw_out
                                    + repo_out + bs_out,
                            },
                        },
                    },
                },
            },
        },
{
    let bw = match bw_body {
        None => {
            return Err(ScrapeError::Transport(StatSource::Bandwidth));
        },
        Some(bb) => match gather_bw_metrics(bb) {
            Err(e) => {
                return Err(ScrapeError::Decode(StatSource::Bandwidth, e));
            },
            Ok(o) => o,
        },
    };
    let repo = match repo_body {
        None => {
            return Err(ScrapeError::Transport(StatSource::Repo));
        },
        Some(rb) => match gather_repo_metrics(rb) {
            Err(e) => {
                return Err(ScrapeError::Decode(StatSource::Repo, e));
            },
            Ok(o) => o,
        },
    };
    let bswap = match bswap_body {
        None => {
            return Err(ScrapeError::Transport(StatSource::Bitswap));
        },
        Some(sb) => match gather_bswap_metrics(sb) {
            Err(e) => {
                return Err(ScrapeError::Decode(StatSource::Bitswap, e));
            },
            Ok(o) => o,
        },
    };
    let out = bw.concat(repo.as_str()).concat(bswap.as_str());
    Ok(out)
}

} // verus!
