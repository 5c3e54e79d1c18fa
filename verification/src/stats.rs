//! The three statistics records and their decoders.
//!
//! Each decoder takes one response body, parses it as JSON, and checks the
//! document against the record's shape: every required field present exactly
//! once and of the right type, unknown fields ignored.  Integer fields must
//! be written as integer tokens in range; rate and size fields keep their
//! number token as written.  A body that is not well-formed JSON yields
//! `DecodeError::Syntax`; a well-formed document of the wrong shape yields
//! `DecodeError::Shape`; nothing partial is ever returned.

use vstd::prelude::*;
use crate::json::{Json, JsonV, Member, arr_view, jview, lemma_jview_obj, obj_view, is_digit, parse_document, spec_parse_document};
use crate::text::{chars_eq_str, clone_chars, str_to_chars};

verus! {

/// Why a response body could not be decoded.
#[derive(Clone, Copy, Debug, PartialEq, Eq)]
pub enum DecodeError {
    /// The body is not a well-formed JSON document.
    Syntax,
    /// The document does not match the record's shape: a required field is
    /// missing, repeated, or of the wrong type.
    Shape,
}

// ---------------------------------------------------------------------------
// Fields of a JSON object
// ---------------------------------------------------------------------------
/// Whether some member of `ms` has key `k`.
pub open spec fn has_key(ms: Seq<(Seq<char>, JsonV)>, k: Seq<char>) -> bool {
    exists|j: int| 0 <= j < ms.len() && ms[j].0 == k
}

/// Whether at most one member of `ms` has key `k`.
pub open spec fn unique_key(ms: Seq<(Seq<char>, JsonV)>, k: Seq<char>) -> bool {
    forall|j1: int, j2: int|
        (0 <= j1 < ms.len() && 0 <= j2 < ms.len() && ms[j1].0 == k && ms[j2].0 == k) ==> j1 == j2
}

/// The value of the member of `ms` with key `k` (meaningful under
/// `has_key` and `unique_key`).
pub open spec fn key_value(ms: Seq<(Seq<char>, JsonV)>, k: Seq<char>) -> JsonV {
    ms[choose|j: int| 0 <= j < ms.len() && ms[j].0 == k].1
}

// ---------------------------------------------------------------------------
// Integer tokens
// ---------------------------------------------------------------------------
/// Whether every character of `t` from `from` on is a decimal digit.
pub open spec fn all_digits(t: Seq<char>, from: int) -> bool {
    forall|j: int| from <= j < t.len() ==> is_digit(t[j])
}

/// Whether `t` is an integer token: an optional minus sign, then only
/// digits, at least one.
pub open spec fn is_int_token(t: Seq<char>) -> bool {
    t.len() > 0 && if t[0] == '-' {
        t.len() > 1 && all_digits(t, 1)
    } else {
        all_digits(t, 0)
    }
}

/// The value of a sequence of digit characters, most significant first.
pub open spec fn digits_value(t: Seq<char>) -> int
    decreases t.len(),
{
    if t.len() == 0 {
        0
    } else {
        digits_value(t.drop_last()) * 10 + (t.last() as u32 - 48)
    }
}

/// The value of an integer token.
pub open spec fn int_token_value(t: Seq<char>) -> int {
    if t.len() > 0 && t[0] == '-' {
        -digits_value(t.subrange(1, t.len() as int))
    } else {
        digits_value(t)
    }
}

proof fn lemma_digits_value_nonneg(t: Seq<char>)
    requires
        all_digits(t, 0),
    ensures
        digits_value(t) >= 0,
    decreases t.len(),
{
    if t.len() > 0 {
        assert(all_digits(t.drop_last(), 0));
        lemma_digits_value_nonneg(t.drop_last());
    }
}

/// A digit sequence's value never shrinks when more digits follow.
proof fn lemma_digits_prefix_le(t: Seq<char>, a: int, b: int, c: int)
    requires
        0 <= a <= b <= c <= t.len(),
        all_digits(t, a),
    ensures
        digits_value(t.subrange(a, b)) <= digits_value(t.subrange(a, c)),
    decreases c - b,
{
    if b < c {
        lemma_digits_prefix_le(t, a, b, c - 1);
        let p = t.subrange(a, c - 1);
        let q = t.subrange(a, c);
        assert(q.drop_last() =~= p);
        assert(all_digits(p, 0));
        lemma_digits_value_nonneg(p);
        assert(digits_value(q) == digits_value(p) * 10 + (q.last() as u32 - 48));
        assert(is_digit(t[c - 1]));
    }
}

/// The value of the digits of `t` from `from` on, as a machine word, or
/// none when it exceeds `u64::MAX`.
fn digits_to_u64(t: &Vec<char>, from: usize) -> (r: Option<u64>)
    requires
        from <= t@.len(),
        all_digits(t@, from as int),
    ensures
        match r {
            Option::Some(v) => v == digits_value(t@.subrange(from as int, t@.len() as int)),
            Option::None => digits_value(t@.subrange(from as int, t@.len() as int)) > u64::MAX,
        },
{
    let n = t.len();
    let mut acc: u64 = 0;
    let mut i = from;
    while i < n
        invariant
            from <= i <= n,
            n == t@.len(),
            all_digits(t@, from as int),
            acc == digits_value(t@.subrange(from as int, i as int)),
        decreases n - i,
    {
        let d: u64 = (t[i] as u32 as u64) - 48;
        proof {
            assert(is_digit(t@[i as int]));
        }
        if acc > (u64::MAX - d) / 10 {
            proof {
                let pre = t@.subrange(from as int, i as int);
                let ext = t@.subrange(from as int, i + 1);
                assert(ext.drop_last() =~= pre);
                assert(digits_value(ext) == digits_value(pre) * 10 + (t@[i as int] as u32 - 48));
                assert(digits_value(ext) > u64::MAX);
                lemma_digits_prefix_le(t@, from as int, i + 1, n as int);
            }
            return None;
        }
        proof {
            let pre = t@.subrange(from as int, i as int);
            let ext = t@.subrange(from as int, i + 1);
            assert(ext.drop_last() =~= pre);
        }
        acc = acc * 10 + d;
        i += 1;
    }
    proof {
        assert(t@.subrange(from as int, n as int) =~= t@.subrange(from as int, t@.len() as int));
    }
    Some(acc)
}

/// Whether `t` is an integer token.
fn is_int_token_exec(t: &Vec<char>) -> (r: bool)
    ensures
        r == is_int_token(t@),
{
    let n = t.len();
    if n == 0 {
        return false;
    }
    let from: usize = if t[0] == '-' {
        if n == 1 {
            return false;
        }
        1
    } else {
        0
    };
    let mut i = from;
    while i < n
        invariant
            from <= i <= n,
            n == t@.len(),
            n > 0,
            from == 0 || from == 1,
            (from == 1) <==> (t@[0] == '-'),
            t@[0] == '-' ==> n > 1,
            forall|j: int| from <= j < i ==> is_digit(t@[j]),
        decreases n - i,
    {
        let u = t[i] as u32;
        if !(48 <= u && u <= 57) {
            proof {
                assert(!is_digit(t@[i as int]));
                assert(!all_digits(t@, from as int));
            }
            return false;
        }
        i += 1;
    }
    true
}

/// The value of an integer token as an `i64`, or none when the token is not
/// an integer token or its value does not fit.
pub fn token_to_i64(t: &Vec<char>) -> (r: Option<i64>)
    ensures
        r is Some <==> (is_int_token(t@) && i64::MIN <= int_token_value(t@) <= i64::MAX),
        r matches Some(v) ==> v as int == int_token_value(t@),
{
    if !is_int_token_exec(t) {
        return None;
    }
    if t[0] == '-' {
        proof {
            lemma_digits_value_nonneg(t@.subrange(1, t@.len() as int));
        }
        match digits_to_u64(t, 1) {
            None => None,
            Some(m) => {
                if m > 9223372036854775808u64 {
                    None
                } else if m == 9223372036854775808u64 {
                    Some(i64::MIN)
                } else {
                    Some(-(m as i64))
                }
            },
        }
    } else {
        proof {
            assert(t@.subrange(0, t@.len() as int) =~= t@);
        }
        match digits_to_u64(t, 0) {
            None => None,
            Some(m) => {
                if m > i64::MAX as u64 {
                    None
                } else {
                    Some(m as i64)
                }
            },
        }
    }
}

/// The value of an integer token as a `u64`, or none when the token is not
/// an integer token or its value is negative or too large.
pub fn token_to_u64(t: &Vec<char>) -> (r: Option<u64>)
    ensures
        r is Some <==> (is_int_token(t@) && 0 <= int_token_value(t@) <= u64::MAX),
        r matches Some(v) ==> v as int == int_token_value(t@),
{
    if !is_int_token_exec(t) {
        return None;
    }
    if t[0] == '-' {
        proof {
            lemma_digits_value_nonneg(t@.subrange(1, t@.len() as int));
        }
        match digits_to_u64(t, 1) {
            None => None,
            Some(m) => {
                if m == 0 {
                    Some(0)
                } else {
                    None
                }
            },
        }
    } else {
        proof {
            assert(t@.subrange(0, t@.len() as int) =~= t@);
            lemma_digits_value_nonneg(t@);
        }
        digits_to_u64(t, 0)
    }
}

/// The value of an integer token as an `i32`, or none when out of range.
pub fn token_to_i32(t: &Vec<char>) -> (r: Option<i32>)
    ensures
        r is Some <==> (is_int_token(t@) && i32::MIN <= int_token_value(t@) <= i32::MAX),
        r matches Some(v) ==> v as int == int_token_value(t@),
{
    match token_to_i64(t) {
        None => None,
        Some(v) => {
            if v < i32::MIN as i64 || v > i32::MAX as i64 {
                None
            } else {
                Some(v as i32)
            }
        },
    }
}

// ---------------------------------------------------------------------------
// Looking a field up
// ---------------------------------------------------------------------------
/// The member of `ms` whose key is `key`: its value when it stands exactly
/// once, `Ok(None)` when it is absent, and `Err(())` when it is repeated.
fn find_unique<'a>(ms: &'a Vec<Member>, key: &str) -> (r: Result<Option<&'a Json>, ()>)
    ensures
        r is Err <==> !unique_key(obj_view(ms@), key@),
        r == Result::<Option<&'a Json>, ()>::Ok(None) <==> (unique_key(obj_view(ms@), key@)
            && !has_key(obj_view(ms@), key@)),
        r matches Ok(Some(v)) ==> has_key(obj_view(ms@), key@) && unique_key(obj_view(ms@), key@)
            && v@ == key_value(obj_view(ms@), key@),
{
    let ghost msv = obj_view(ms@);
    let n = ms.len();
    let mut found: Option<&Json> = None;
    let ghost mut fidx: int = 0;
    let mut i: usize = 0;
    while i < n
        invariant
            i <= n,
            n == ms@.len(),
            msv == obj_view(ms@),
            msv.len() == n,
            forall|j1: int, j2: int|
                (0 <= j1 < i && 0 <= j2 < i && msv[j1].0 == key@ && msv[j2].0 == key@) ==> j1 == j2,
            found is None ==> forall|j: int| 0 <= j < i ==> msv[j].0 != key@,
            found matches Some(v) ==> 0 <= fidx < i && msv[fidx].0 == key@ && v@ == msv[fidx].1
                && (forall|j: int| (0 <= j < i && msv[j].0 == key@) ==> j == fidx),
        decreases n - i,
    {
        if chars_eq_str(&ms[i].key, key) {
            proof {
                assert(msv[i as int] == (ms@[i as int].key@, jview(ms@[i as int].value)));
            }
            if found.is_some() {
                proof {
                    assert(msv[fidx].0 == key@ && msv[i as int].0 == key@ && fidx != i as int);
                    assert(!unique_key(msv, key@));
                }
                return Err(());
            }
            found = Some(&ms[i].value);
            proof {
                fidx = i as int;
            }
        } else {
            proof {
                assert(msv[i as int] == (ms@[i as int].key@, jview(ms@[i as int].value)));
            }
        }
        i += 1;
    }
    match found {
        None => {
            proof {
                assert(!has_key(msv, key@));
            }
            Ok(None)
        },
        Some(v) => {
            proof {
                assert(has_key(msv, key@));
                let j = choose|j: int| 0 <= j < msv.len() && msv[j].0 == key@;
                assert(j == fidx);
            }
            Ok(Some(v))
        },
    }
}

// ---------------------------------------------------------------------------
// Field shapes
// ---------------------------------------------------------------------------
/// The number token of the field with key `k`.
pub open spec fn num_token_of(ms: Seq<(Seq<char>, JsonV)>, k: Seq<char>) -> Seq<char> {
    key_value(ms, k)->Num_0
}

/// The string content of the field with key `k`.
pub open spec fn str_of(ms: Seq<(Seq<char>, JsonV)>, k: Seq<char>) -> Seq<char> {
    key_value(ms, k)->Str_0
}

/// A field present exactly once whose value is a number token.
pub open spec fn field_num(ms: Seq<(Seq<char>, JsonV)>, k: Seq<char>) -> bool {
    &&& has_key(ms, k)
    &&& unique_key(ms, k)
    &&& key_value(ms, k) is Num
}

/// A number field whose token is an integer in `i64` range.
pub open spec fn field_int_i64(ms: Seq<(Seq<char>, JsonV)>, k: Seq<char>) -> bool {
    &&& field_num(ms, k)
    &&& is_int_token(num_token_of(ms, k))
    &&& i64::MIN <= int_token_value(num_token_of(ms, k)) <= i64::MAX
}

/// A number field whose token is an integer in `u64` range.
pub open spec fn field_int_u64(ms: Seq<(Seq<char>, JsonV)>, k: Seq<char>) -> bool {
    &&& field_num(ms, k)
    &&& is_int_token(num_token_of(ms, k))
    &&& 0 <= int_token_value(num_token_of(ms, k)) <= u64::MAX
}

/// A number field whose token is an integer in `i32` range.
pub open spec fn field_int_i32(ms: Seq<(Seq<char>, JsonV)>, k: Seq<char>) -> bool {
    &&& field_num(ms, k)
    &&& is_int_token(num_token_of(ms, k))
    &&& i32::MIN <= int_token_value(num_token_of(ms, k)) <= i32::MAX
}

/// A field present exactly once whose value is a string.
pub open spec fn field_str(ms: Seq<(Seq<char>, JsonV)>, k: Seq<char>) -> bool {
    &&& has_key(ms, k)
    &&& unique_key(ms, k)
    &&& key_value(ms, k) is Str
}

/// A field present exactly once whose value is an array of strings.
pub open spec fn field_str_arr(ms: Seq<(Seq<char>, JsonV)>, k: Seq<char>) -> bool {
    &&& has_key(ms, k)
    &&& unique_key(ms, k)
    &&& key_value(ms, k) matches JsonV::Arr(es)
    &&& forall|j: int|
        0 <= j < key_value(ms, k)->Arr_0.len() ==> key_value(ms, k)->Arr_0[j] is Str
}

/// The contents of an array of strings.
pub open spec fn str_seq_of(es: Seq<JsonV>) -> Seq<Seq<char>> {
    Seq::new(
        es.len(),
        |j: int|
            if 0 <= j < es.len() {
                es[j]->Str_0
            } else {
                Seq::<char>::empty()
            },
    )
}


// ---------------------------------------------------------------------------
// Typed field access
// ---------------------------------------------------------------------------
/// The number token of the field `key`, present exactly once.
fn get_num_token<'a>(ms: &'a Vec<Member>, key: &str) -> (r: Option<&'a Vec<char>>)
    ensures
        r is Some <==> field_num(obj_view(ms@), key@),
        r matches Some(t) ==> t@ == num_token_of(obj_view(ms@), key@),
{
    match find_unique(ms, key) {
        Err(()) => None,
        Ok(None) => None,
        Ok(Some(v)) => match v {
            Json::Num(t) => {
                proof {
                    assert(jview(*v) == JsonV::Num(t@));
                }
                Some(t)
            },
            _ => None,
        },
    }
}

/// The string content of the field `key`, present exactly once.
fn get_str<'a>(ms: &'a Vec<Member>, key: &str) -> (r: Option<&'a Vec<char>>)
    ensures
        r is Some <==> field_str(obj_view(ms@), key@),
        r matches Some(t) ==> t@ == str_of(obj_view(ms@), key@),
{
    match find_unique(ms, key) {
        Err(()) => None,
        Ok(None) => None,
        Ok(Some(v)) => match v {
            Json::Str(t) => {
                proof {
                    assert(jview(*v) == JsonV::Str(t@));
                }
                Some(t)
            },
            _ => None,
        },
    }
}

/// The elements of the array field `key`, present exactly once.
fn get_arr<'a>(ms: &'a Vec<Member>, key: &str) -> (r: Option<&'a Vec<Json>>)
    ensures
        r is Some <==> (has_key(obj_view(ms@), key@) && unique_key(obj_view(ms@), key@)
            && key_value(obj_view(ms@), key@) is Arr),
        r matches Some(t) ==> arr_view(t@) == key_value(obj_view(ms@), key@)->Arr_0,
{
    match find_unique(ms, key) {
        Err(()) => None,
        Ok(None) => None,
        Ok(Some(v)) => match v {
            Json::Arr(es) => {
                proof {
                    crate::json::lemma_jview_arr_ref(v, es);
                }
                Some(es)
            },
            _ => None,
        },
    }
}

// ---------------------------------------------------------------------------
// The records
// ---------------------------------------------------------------------------
/// One snapshot of the daemon's bandwidth counters.  The byte totals are
/// signed integers; the instantaneous rates keep their number token.
#[derive(Debug, PartialEq, Eq)]
pub struct BandwidthStats {
    pub total_in: i64,
    pub total_out: i64,
    pub rate_in: Vec<char>,
    pub rate_out: Vec<char>,
}

/// One snapshot of the repository statistics.  Size and ceiling keep their
/// number token; the path and version are label strings.
#[derive(Debug, PartialEq, Eq)]
pub struct RepoStats {
    pub repo_size: Vec<char>,
    pub num_objects: u64,
    pub storage_max: Vec<char>,
    pub repo_path: Vec<char>,
    pub version: Vec<char>,
}

/// One snapshot of the bitswap statistics.
#[derive(Debug, PartialEq, Eq)]
pub struct BitswapStats {
    pub blocks_received: u64,
    pub blocks_sent: u64,
    pub data_received: u64,
    pub data_sent: u64,
    pub dup_blocks_received: u64,
    pub dup_data_received: u64,
    pub messages_received: u64,
    pub peers: Vec<Vec<char>>,
    pub provide_buf_len: i32,
}

/// The shape of a bandwidth document.
pub open spec fn bw_shape_ok(ms: Seq<(Seq<char>, JsonV)>) -> bool {
    &&& field_int_i64(ms, "TotalIn"@)
    &&& field_int_i64(ms, "TotalOut"@)
    &&& field_num(ms, "RateIn"@)
    &&& field_num(ms, "RateOut"@)
}

/// The shape of a repository document.
pub open spec fn repo_shape_ok(ms: Seq<(Seq<char>, JsonV)>) -> bool {
    &&& field_num(ms, "RepoSize"@)
    &&& field_int_u64(ms, "NumObjects"@)
    &&& field_num(ms, "StorageMax"@)
    &&& field_str(ms, "RepoPath"@)
    &&& field_str(ms, "Version"@)
}

/// The shape of a bitswap document.
pub open spec fn bswap_shape_ok(ms: Seq<(Seq<char>, JsonV)>) -> bool {
    &&& field_int_u64(ms, "BlocksReceived"@)
    &&& field_int_u64(ms, "BlocksSent"@)
    &&& field_int_u64(ms, "DataReceived"@)
    &&& field_int_u64(ms, "DataSent"@)
    &&& field_int_u64(ms, "DupBlksReceived"@)
    &&& field_int_u64(ms, "DupDataReceived"@)
    &&& field_int_u64(ms, "MessagesReceived"@)
    &&& field_str_arr(ms, "Peers"@)
    &&& field_int_i32(ms, "ProvideBufLen"@)
}

/// Decodes a bandwidth statistics document.  Succeeds exactly on a
/// well-formed JSON object with the four fields each present once and of
/// the right type, and then returns their values exactly.
pub fn decode_bandwidth_stats(body: &str) -> (r: Result<BandwidthStats, DecodeError>)
    ensures
        match spec_parse_document(body@) {
            Option::None => r == Result::<BandwidthStats, DecodeError>::Err(DecodeError::Syntax),
            Option::Some(doc) => match doc {
                JsonV::Obj(ms) => if bw_shape_ok(ms) {
                    &&& r matches Ok(b)
                    &&& b.total_in as int == int_token_value(num_token_of(ms, "TotalIn"@))
                    &&& b.total_out as int == int_token_value(num_token_of(ms, "TotalOut"@))
                    &&& b.rate_in@ == num_token_of(ms, "RateIn"@)
                    &&& b.rate_out@ == num_token_of(ms, "RateOut"@)
                } else {
                    r == Result::<BandwidthStats, DecodeError>::Err(DecodeError::Shape)
                },
                _ => r == Result::<BandwidthStats, DecodeError>::Err(DecodeError::Shape),
            },
        },
{
    let chars = str_to_chars(body);
    let doc = match parse_document(&chars) {
        None => {
            return Err(DecodeError::Syntax);
        },
        Some(j) => j,
    };
    let ms = match doc {
        Json::Obj(ms) => ms,
        _ => {
            return Err(DecodeError::Shape);
        },
    };
    proof {
        lemma_jview_obj(ms);
    }
    let total_in = match get_num_token(&ms, "TotalIn") {
        None => {
            return Err(DecodeError::Shape);
        },
        Some(t) => match token_to_i64(t) {
            None => {
                return Err(DecodeError::Shape);
            },
            Some(v) => v,
        },
    };
    let total_out = match get_num_token(&ms, "TotalOut") {
        None => {
            return Err(DecodeError::Shape);
        },
        Some(t) => match token_to_i64(t) {
            None => {
                return Err(DecodeError::Shape);
            },
            Some(v) => v,
        },
    };
    let rate_in = match get_num_token(&ms, "RateIn") {
        None => {
            return Err(DecodeError::Shape);
        },
        Some(t) => clone_chars(t),
    };
    let rate_out = match get_num_token(&ms, "RateOut") {
        None => {
            return Err(DecodeError::Shape);
        },
        Some(t) => clone_chars(t),
    };
    Ok(BandwidthStats { total_in, total_out, rate_in, rate_out })
}

/// Decodes a repository statistics document, succeeding exactly on a
/// well-formed JSON object of the right shape.
pub fn decode_repo_stats(body: &str) -> (r: Result<RepoStats, DecodeError>)
    ensures
        match spec_parse_document(body@) {
            Option::None => r == Result::<RepoStats, DecodeError>::Err(DecodeError::Syntax),
            Option::Some(doc) => match doc {
                JsonV::Obj(ms) => if repo_shape_ok(ms) {
                    &&& r matches Ok(b)
                    &&& b.repo_size@ == num_token_of(ms, "RepoSize"@)
                    &&& b.num_objects as int == int_token_value(num_token_of(ms, "NumObjects"@))
                    &&& b.storage_max@ == num_token_of(ms, "StorageMax"@)
                    &&& b.repo_path@ == str_of(ms, "RepoPath"@)
                    &&& b.version@ == str_of(ms, "Version"@)
                } else {
                    r == Result::<RepoStats, DecodeError>::Err(DecodeError::Shape)
                },
                _ => r == Result::<RepoStats, DecodeError>::Err(DecodeError::Shape),
            },
        },
{
    let chars = str_to_chars(body);
    let doc = match parse_document(&chars) {
        None => {
            return Err(DecodeError::Syntax);
        },
        Some(j) => j,
    };
    let ms = match doc {
        Json::Obj(ms) => ms,
        _ => {
            return Err(DecodeError::Shape);
        },
    };
    proof {
        lemma_jview_obj(ms);
    }
    let repo_size = match get_num_token(&ms, "RepoSize") {
        None => {
            return Err(DecodeError::Shape);
        },
        Some(t) => clone_chars(t),
    };
    let num_objects = match get_num_token(&ms, "NumObjects") {
        None => {
            return Err(DecodeError::Shape);
        },
        Some(t) => match token_to_u64(t) {
            None => {
                return Err(DecodeError::Shape);
            },
            Some(v) => v,
        },
    };
    let storage_max = match get_num_token(&ms, "StorageMax") {
        None => {
            return Err(DecodeError::Shape);
        },
        Some(t) => clone_chars(t),
    };
    let repo_path = match get_str(&ms, "RepoPath") {
        None => {
            return Err(DecodeError::Shape);
        },
        Some(t) => clone_chars(t),
    };
    let version = match get_str(&ms, "Version") {
        None => {
            return Err(DecodeError::Shape);
        },
        Some(t) => clone_chars(t),
    };
    Ok(RepoStats { repo_size, num_objects, storage_max, repo_path, version })
}

/// Decodes a bitswap statistics document, succeeding exactly on a
/// well-formed JSON object of the right shape.
#[verifier::loop_isolation(false)]
pub fn decode_bitswap_stats(body: &str) -> (r: Result<BitswapStats, DecodeError>)
    ensures
        match spec_parse_document(body@) {
            Option::None => r == Result::<BitswapStats, DecodeError>::Err(DecodeError::Syntax),
            Option::Some(doc) => match doc {
                JsonV::Obj(ms) => if bswap_shape_ok(ms) {
                    &&& r matches Ok(b)
                    &&& b.blocks_received as int == int_token_value(
                        num_token_of(ms, "BlocksReceived"@),
                    )
                    &&& b.blocks_sent as int == int_token_value(num_token_of(ms, "BlocksSent"@))
                    &&& b.data_received as int == int_token_value(
                        num_token_of(ms, "DataReceived"@),
                    )
                    &&& b.data_sent as int == int_token_value(num_token_of(ms, "DataSent"@))
                    &&& b.dup_blocks_received as int == int_token_value(
                        num_token_of(ms, "DupBlksReceived"@),
                    )
                    &&& b.dup_data_received as int == int_token_value(
                        num_token_of(ms, "DupDataReceived"@),
                    )
                    &&& b.messages_received as int == int_token_value(
                        num_token_of(ms, "MessagesReceived"@),
                    )
                    &&& b.peers.deep_view() == str_seq_of(key_value(ms, "Peers"@)->Arr_0)
                    &&& b.provide_buf_len as int == int_token_value(
                        num_token_of(ms, "ProvideBufLen"@),
                    )
                } else {
                    r == Result::<BitswapStats, DecodeError>::Err(DecodeError::Shape)
                },
                _ => r == Result::<BitswapStats, DecodeError>::Err(DecodeError::Shape),
            },
        },
{
    let chars = str_to_chars(body);
    let doc = match parse_document(&chars) {
        None => {
            return Err(DecodeError::Syntax);
        },
        Some(j) => j,
    };
    let ms = match doc {
        Json::Obj(ms) => ms,
        _ => {
            return Err(DecodeError::Shape);
        },
    };
    proof {
        lemma_jview_obj(ms);
    }
    let blocks_received = match get_num_token(&ms, "BlocksReceived") {
        None => {
            return Err(DecodeError::Shape);
        },
        Some(t) => match token_to_u64(t) {
            None => {
                return Err(DecodeError::Shape);
            },
            Some(v) => v,
        },
    };
    let blocks_sent = match get_num_token(&ms, "BlocksSent") {
        None => {
            return Err(DecodeError::Shape);
        },
        Some(t) => match token_to_u64(t) {
            None => {
                return Err(DecodeError::Shape);
            },
            Some(v) => v,
        },
    };
    let data_received = match get_num_token(&ms, "DataReceived") {
        None => {
            return Err(DecodeError::Shape);
        },
        Some(t) => match token_to_u64(t) {
            None => {
                return Err(DecodeError::Shape);
            },
            Some(v) => v,
        },
    };
    let data_sent = match get_num_token(&ms, "DataSent") {
        None => {
            return Err(DecodeError::Shape);
        },
        Some(t) => match token_to_u64(t) {
            None => {
                return Err(DecodeError::Shape);
            },
            Some(v) => v,
        },
    };
    let dup_blocks_received = match get_num_token(&ms, "DupBlksReceived") {
        None => {
            return Err(DecodeError::Shape);
        },
        Some(t) => match token_to_u64(t) {
            None => {
                return Err(DecodeError::Shape);
            },
            Some(v) => v,
        },
    };
    let dup_data_received = match get_num_token(&ms, "DupDataReceived") {
        None => {
            return Err(DecodeError::Shape);
        },
        Some(t) => match token_to_u64(t) {
            None => {
                return Err(DecodeError::Shape);
            },
            Some(v) => v,
        },
    };
    let messages_received = match get_num_token(&ms, "MessagesReceived") {
        None => {
            return Err(DecodeError::Shape);
        },
        Some(t) => match token_to_u64(t) {
            None => {
                return Err(DecodeError::Shape);
            },
            Some(v) => v,
        },
    };
    let peers = match get_arr(&ms, "Peers") {
        None => {
            return Err(DecodeError::Shape);
        },
        Some(es) => {
            let ghost esv = key_value(obj_view(ms@), "Peers"@)->Arr_0;
            let n = es.len();
            let mut out: Vec<Vec<char>> = Vec::new();
            let mut i: usize = 0;
            while i < n
                invariant
                    i <= n,
                    n == es@.len(),
                    esv == arr_view(es@),
                    esv.len() == n,
                    out@.len() == i,
                    forall|j: int| 0 <= j < i ==> esv[j] is Str,
                    forall|j: int| 0 <= j < i ==> out@[j]@ == esv[j]->Str_0,
                decreases n - i,
            {
                match &es[i] {
                    Json::Str(sv) => {
                        proof {
                            assert(esv[i as int] == jview(es@[i as int]));
                        }
                        out.push(clone_chars(sv));
                    },
                    _ => {
                        proof {
                            assert(esv[i as int] == jview(es@[i as int]));
                            assert(!(esv[i as int] is Str));
                        }
                        return Err(DecodeError::Shape);
                    },
                }
                i += 1;
            }
            proof {
                assert(out.deep_view() =~~= str_seq_of(esv));
            }
            out
        },
    };
    let provide_buf_len = match get_num_token(&ms, "ProvideBufLen") {
        None => {
            return Err(DecodeError::Shape);
        },
        Some(t) => match token_to_i32(t) {
            None => {
                return Err(DecodeError::Shape);
            },
            Some(v) => v,
        },
    };
    Ok(
        BitswapStats {
            blocks_received,
            blocks_sent,
            data_received,
            data_sent,
            dup_blocks_received,
            dup_data_received,
            messages_received,
            peers,
            provide_buf_len,
        },
    )
}

} // verus!
