//! A verified JSON parser.
//!
//! The statistics endpoints answer with JSON documents, so the decoder's
//! input language is the JSON grammar: a document is a value surrounded by
//! whitespace; values are `null`, booleans, numbers, strings (with the
//! standard escapes, including `\uXXXX` with surrogate pairs), arrays and
//! objects.  Numbers are kept as their source token, exactly as written, so
//! no precision is lost between decoding and rendering.  Nesting is bounded
//! by a fixed depth budget so that parsing recursion is bounded on every
//! input.
//!
//! `spec_parse_document` is the mathematical definition of the parse, and
//! the executable parser is proved to return exactly what it says.

use vstd::prelude::*;

verus! {

broadcast use {vstd::seq::axiom_seq_index_decreases, vstd::std_specs::vec::axiom_vec_index_decreases};

/// The nesting budget: how many levels of arrays and objects a document may
/// contain before the parser rejects it.
pub const MAX_DEPTH: u32 = 128;

/// The mathematical model of a JSON value.
pub enum JsonV {
    Null,
    Bool(bool),
    /// A number, as its source token (for example `-12.5e3`).
    Num(Seq<char>),
    /// A string, with escapes decoded.
    Str(Seq<char>),
    Arr(Seq<JsonV>),
    Obj(Seq<(Seq<char>, JsonV)>),
}

/// One key/value pair of a JSON object.
pub struct Member {
    pub key: Vec<char>,
    pub value: Json,
}

/// An executable JSON value; its view is a `JsonV`.
pub enum Json {
    Null,
    Bool(bool),
    Num(Vec<char>),
    Str(Vec<char>),
    Arr(Vec<Json>),
    Obj(Vec<Member>),
}

pub open spec fn jview(j: Json) -> JsonV
    decreases j,
{
    match j {
        Json::Null => JsonV::Null,
        Json::Bool(b) => JsonV::Bool(b),
        Json::Num(t) => JsonV::Num(t@),
        Json::Str(t) => JsonV::Str(t@),
        Json::Arr(a) => JsonV::Arr(
            Seq::new(
                a@.len(),
                |k: int|
                    if 0 <= k < a@.len() {
                        jview(a@[k])
                    } else {
                        JsonV::Null
                    },
            ),
        ),
        Json::Obj(m) => JsonV::Obj(
            Seq::new(
                m@.len(),
                |k: int|
                    if 0 <= k < m@.len() {
                        (m@[k].key@, jview(m@[k].value))
                    } else {
                        (Seq::<char>::empty(), JsonV::Null)
                    },
            ),
        ),
    }
}

impl View for Json {
    type V = JsonV;

    open spec fn view(&self) -> JsonV {
        jview(*self)
    }
}

/// The views of the elements of an array.
pub open spec fn arr_view(a: Seq<Json>) -> Seq<JsonV> {
    Seq::new(
        a.len(),
        |k: int|
            if 0 <= k < a.len() {
                jview(a[k])
            } else {
                JsonV::Null
            },
    )
}

/// The views of the members of an object.
pub open spec fn obj_view(m: Seq<Member>) -> Seq<(Seq<char>, JsonV)> {
    Seq::new(
        m.len(),
        |k: int|
            if 0 <= k < m.len() {
                (m[k].key@, jview(m[k].value))
            } else {
                (Seq::<char>::empty(), JsonV::Null)
            },
    )
}

pub proof fn lemma_jview_arr(a: Vec<Json>)
    ensures
        jview(Json::Arr(a)) == JsonV::Arr(arr_view(a@)),
{
    let inner = jview(Json::Arr(a))->Arr_0;
    assert(jview(Json::Arr(a)) == JsonV::Arr(inner));
    assert(inner =~= arr_view(a@));
}

/// The view of a borrowed array value, variant by variant.
pub proof fn lemma_jview_arr_ref(v: &Json, a: &Vec<Json>)
    requires
        *v matches Json::Arr(inner) && inner == *a,
    ensures
        jview(*v) == JsonV::Arr(arr_view(a@)),
{
    let inner = jview(*v)->Arr_0;
    assert(jview(*v) == JsonV::Arr(inner));
    assert(inner =~= arr_view(a@));
}

pub proof fn lemma_jview_obj(m: Vec<Member>)
    ensures
        jview(Json::Obj(m)) == JsonV::Obj(obj_view(m@)),
{
    let inner = jview(Json::Obj(m))->Obj_0;
    assert(jview(Json::Obj(m)) == JsonV::Obj(inner));
    assert(inner =~= obj_view(m@));
}

// ---------------------------------------------------------------------------
// Character classes
// ---------------------------------------------------------------------------
pub open spec fn is_ws(c: char) -> bool {
    c == ' ' || c == '\t' || c == '\n' || c == '\r'
}

pub open spec fn is_digit(c: char) -> bool {
    48 <= c as u32 <= 57
}

/// The value of a hexadecimal digit character, or none.
pub open spec fn spec_hex_val(c: char) -> Option<u32> {
    if 48 <= c as int <= 57 {
        Some((c as int - 48) as u32)
    } else if 97 <= c as int <= 102 {
        Some((c as int - 87) as u32)
    } else if 65 <= c as int <= 70 {
        Some((c as int - 55) as u32)
    } else {
        None
    }
}

/// The character a single-character escape stands for, or none.
pub open spec fn spec_esc_char(c: char) -> Option<char> {
    if c == '"' {
        Some('"')
    } else if c == '\\' {
        Some('\\')
    } else if c == '/' {
        Some('/')
    } else if c == 'b' {
        Some('\u{8}')
    } else if c == 'f' {
        Some('\u{c}')
    } else if c == 'n' {
        Some('\n')
    } else if c == 'r' {
        Some('\r')
    } else if c == 't' {
        Some('\t')
    } else {
        None
    }
}

/// The code unit of a `\uXXXX` escape whose four digits start at `i`.
pub open spec fn spec_hex4(s: Seq<char>, i: int) -> Option<u32> {
    if i < 0 || i + 4 > s.len() {
        None
    } else {
        match (spec_hex_val(s[i]), spec_hex_val(s[i + 1]), spec_hex_val(s[i + 2]), spec_hex_val(
            s[i + 3],
        )) {
            (Some(a), Some(b), Some(c), Some(d)) => Some(
                (a * 4096 + b * 256 + c * 16 + d) as u32,
            ),
            _ => None,
        }
    }
}

// ---------------------------------------------------------------------------
// The specification of the parse
// ---------------------------------------------------------------------------
/// The position of the first non-whitespace character at or after `i`.
pub open spec fn spec_skip_ws(s: Seq<char>, i: int) -> int
    decreases s.len() - i,
{
    if 0 <= i < s.len() && is_ws(s[i]) {
        spec_skip_ws(s, i + 1)
    } else {
        i
    }
}

/// The end of the run of decimal digits starting at `i`.
pub open spec fn spec_digit_run(s: Seq<char>, i: int) -> int
    decreases s.len() - i,
{
    if 0 <= i < s.len() && is_digit(s[i]) {
        spec_digit_run(s, i + 1)
    } else {
        i
    }
}

/// The end of an optional fraction part (`.` and at least one digit) at `j`.
pub open spec fn spec_frac_part(s: Seq<char>, j: int) -> Option<int> {
    if 0 <= j < s.len() && s[j] == '.' {
        let k = spec_digit_run(s, j + 1);
        if k == j + 1 {
            None
        } else {
            Some(k)
        }
    } else {
        Some(j)
    }
}

/// The end of an optional exponent part (`e`/`E`, optional sign, digits).
pub open spec fn spec_exp_part(s: Seq<char>, j: int) -> Option<int> {
    if 0 <= j < s.len() && (s[j] == 'e' || s[j] == 'E') {
        let j1 = if j + 1 < s.len() && (s[j + 1] == '+' || s[j + 1] == '-') {
            j + 2
        } else {
            j + 1
        };
        let k = spec_digit_run(s, j1);
        if k == j1 {
            None
        } else {
            Some(k)
        }
    } else {
        Some(j)
    }
}

/// The end of the number token starting at `i`: an optional minus sign, an
/// integer part with no superfluous leading zero, then optional fraction and
/// exponent parts.
pub open spec fn spec_parse_number(s: Seq<char>, i: int) -> Option<int> {
    if i < 0 || i >= s.len() {
        None
    } else {
        let j0 = if s[i] == '-' {
            i + 1
        } else {
            i
        };
        if j0 >= s.len() || !is_digit(s[j0]) {
            None
        } else {
            let j1 = if s[j0] == '0' {
                j0 + 1
            } else {
                spec_digit_run(s, j0)
            };
            match spec_frac_part(s, j1) {
                None => None,
                Some(j2) => spec_exp_part(s, j2),
            }
        }
    }
}

/// The content and end position of a string body starting at `i`, just after
/// the opening quote.
pub open spec fn spec_str_rest(s: Seq<char>, i: int) -> Option<(Seq<char>, int)>
    decreases s.len() - i,
{
    if i < 0 || i >= s.len() {
        None
    } else {
        let c = s[i];
        if c == '"' {
            Some((Seq::empty(), i + 1))
        } else if c == '\\' {
            if i + 1 >= s.len() {
                None
            } else if s[i + 1] == 'u' {
                match spec_hex4(s, i + 2) {
                    None => None,
                    Some(cu) => {
                        if 0xD800 <= cu < 0xDC00 {
                            // A high surrogate must pair with a following
                            // low surrogate escape.
                            if i + 12 > s.len() || s[i + 6] != '\\' || s[i + 7] != 'u' {
                                None
                            } else {
                                match spec_hex4(s, i + 8) {
                                    None => None,
                                    Some(lo) => {
                                        if 0xDC00 <= lo < 0xE000 {
                                            let cp = (0x10000 + (cu - 0xD800) * 0x400 + (lo
                                                - 0xDC00)) as u32;
                                            match spec_str_rest(s, i + 12) {
                                                None => None,
                                                Some((t, e)) => Some((seq![cp as char] + t, e)),
                                            }
                                        } else {
                                            None
                                        }
                                    },
                                }
                            }
                        } else if 0xDC00 <= cu < 0xE000 {
                            None
                        } else {
                            match spec_str_rest(s, i + 6) {
                                None => None,
                                Some((t, e)) => Some((seq![cu as char] + t, e)),
                            }
                        }
                    },
                }
            } else {
                match spec_esc_char(s[i + 1]) {
                    None => None,
                    Some(ec) => match spec_str_rest(s, i + 2) {
                        None => None,
                        Some((t, e)) => Some((seq![ec] + t, e)),
                    },
                }
            }
        } else if (c as u32) < 0x20 {
            None
        } else {
            match spec_str_rest(s, i + 1) {
                None => None,
                Some((t, e)) => Some((seq![c] + t, e)),
            }
        }
    }
}

/// A position strictly after `i` and within the input, used so that the
/// termination of the mutually recursive productions below is structural.
/// Wherever it appears the parsed unit ending at `j` is non-empty and ends
/// within the input, so `bump(s, i, j) == j`.
pub open spec fn bump(s: Seq<char>, i: int, j: int) -> int {
    if i < j <= s.len() {
        j
    } else {
        i + 1
    }
}

/// A value at `i`: leading whitespace, then one of the six JSON value forms.
pub open spec fn spec_parse_value(s: Seq<char>, i: int, depth: nat) -> Option<(JsonV, int)>
    decreases s.len() - i, 0int,
{
    if i < 0 || i >= s.len() {
        None
    } else {
        let c = s[i];
        if is_ws(c) {
            spec_parse_value(s, i + 1, depth)
        } else if c == 'n' {
            if i + 4 <= s.len() && s[i + 1] == 'u' && s[i + 2] == 'l' && s[i + 3] == 'l' {
                Some((JsonV::Null, i + 4))
            } else {
                None
            }
        } else if c == 't' {
            if i + 4 <= s.len() && s[i + 1] == 'r' && s[i + 2] == 'u' && s[i + 3] == 'e' {
                Some((JsonV::Bool(true), i + 4))
            } else {
                None
            }
        } else if c == 'f' {
            if i + 5 <= s.len() && s[i + 1] == 'a' && s[i + 2] == 'l' && s[i + 3] == 's' && s[i + 4]
                == 'e' {
                Some((JsonV::Bool(false), i + 5))
            } else {
                None
            }
        } else if c == '"' {
            match spec_str_rest(s, i + 1) {
                None => None,
                Some((t, e)) => Some((JsonV::Str(t), e)),
            }
        } else if c == '-' || is_digit(c) {
            match spec_parse_number(s, i) {
                None => None,
                Some(e) => Some((JsonV::Num(s.subrange(i, e)), e)),
            }
        } else if c == '{' {
            if depth == 0 {
                None
            } else {
                match spec_parse_members(s, i + 1, (depth - 1) as nat, true) {
                    None => None,
                    Some((ms, e)) => Some((JsonV::Obj(ms), e)),
                }
            }
        } else if c == '[' {
            if depth == 0 {
                None
            } else {
                match spec_parse_elements(s, i + 1, (depth - 1) as nat, true) {
                    None => None,
                    Some((es, e)) => Some((JsonV::Arr(es), e)),
                }
            }
        } else {
            None
        }
    }
}

/// The members of an object from `i` (just after `{` or a comma) up to and
/// including the closing brace.  `allow_close` is whether a closing brace may
/// come instead of a member (true just after `{`, false after a comma).
pub open spec fn spec_parse_members(s: Seq<char>, i: int, depth: nat, allow_close: bool) -> Option<
    (Seq<(Seq<char>, JsonV)>, int),
>
    decreases s.len() - i, 1int,
{
    if i < 0 || i >= s.len() {
        None
    } else {
        let c = s[i];
        if is_ws(c) {
            spec_parse_members(s, i + 1, depth, allow_close)
        } else if c == '}' && allow_close {
            Some((Seq::empty(), i + 1))
        } else if c == '"' {
            match spec_str_rest(s, i + 1) {
                None => None,
                Some((k, j)) => spec_member_colon(s, bump(s, i, j), depth, k),
            }
        } else {
            None
        }
    }
}

/// The rest of one member after its key: whitespace, a colon, the value,
/// then the remaining members.  Returns all members from this one on.
pub open spec fn spec_member_colon(s: Seq<char>, i: int, depth: nat, k: Seq<char>) -> Option<
    (Seq<(Seq<char>, JsonV)>, int),
>
    decreases s.len() - i, 1int,
{
    if i < 0 || i >= s.len() {
        None
    } else if is_ws(s[i]) {
        spec_member_colon(s, i + 1, depth, k)
    } else if s[i] == ':' {
        match spec_parse_value(s, i + 1, depth) {
            None => None,
            Some((v, m)) => match spec_members_after_value(s, bump(s, i, m), depth) {
                None => None,
                Some((rest, e)) => Some((seq![(k, v)] + rest, e)),
            },
        }
    } else {
        None
    }
}

/// After a member's value: whitespace, then a comma and further members, or
/// the closing brace.
pub open spec fn spec_members_after_value(s: Seq<char>, i: int, depth: nat) -> Option<
    (Seq<(Seq<char>, JsonV)>, int),
>
    decreases s.len() - i, 1int,
{
    if i < 0 || i >= s.len() {
        None
    } else if is_ws(s[i]) {
        spec_members_after_value(s, i + 1, depth)
    } else if s[i] == ',' {
        spec_parse_members(s, i + 1, depth, false)
    } else if s[i] == '}' {
        Some((Seq::empty(), i + 1))
    } else {
        None
    }
}

/// The elements of an array from `i` (just after `[` or a comma) up to and
/// including the closing bracket.
pub open spec fn spec_parse_elements(s: Seq<char>, i: int, depth: nat, allow_close: bool) -> Option<
    (Seq<JsonV>, int),
>
    decreases s.len() - i, 1int,
{
    if i < 0 || i >= s.len() {
        None
    } else if is_ws(s[i]) {
        spec_parse_elements(s, i + 1, depth, allow_close)
    } else if s[i] == ']' && allow_close {
        Some((Seq::empty(), i + 1))
    } else {
        match spec_parse_value(s, i, depth) {
            None => None,
            Some((v, m)) => match spec_elements_after_value(s, bump(s, i, m), depth) {
                None => None,
                Some((rest, e)) => Some((seq![v] + rest, e)),
            },
        }
    }
}

/// After an array element: whitespace, then a comma and further elements, or
/// the closing bracket.
pub open spec fn spec_elements_after_value(s: Seq<char>, i: int, depth: nat) -> Option<
    (Seq<JsonV>, int),
>
    decreases s.len() - i, 1int,
{
    if i < 0 || i >= s.len() {
        None
    } else if is_ws(s[i]) {
        spec_elements_after_value(s, i + 1, depth)
    } else if s[i] == ',' {
        spec_parse_elements(s, i + 1, depth, false)
    } else if s[i] == ']' {
        Some((Seq::empty(), i + 1))
    } else {
        None
    }
}

/// The parse of a whole document: one value with surrounding whitespace and
/// nothing after it.
pub open spec fn spec_parse_document(s: Seq<char>) -> Option<JsonV> {
    match spec_parse_value(s, 0, MAX_DEPTH as nat) {
        None => None,
        Some((v, e)) => if spec_skip_ws(s, e) == s.len() {
            Some(v)
        } else {
            None
        },
    }
}

// ---------------------------------------------------------------------------
// The executable parser
// ---------------------------------------------------------------------------
/// Relies on std's `char::from_u32`: it returns the character of the given
/// code point exactly when the code point is a Unicode scalar value (below
/// the surrogate range, or between `0xE000` and `0x10FFFF`).
#[verifier::external_body]
fn char_from_u32(cp: u32) -> (r: Option<char>)
    ensures
        r is Some <==> (cp < 0xD800 || (0xE000 <= cp && cp <= 0x10FFFF)),
        r matches Some(c) ==> c as u32 == cp,
{
    char::from_u32(cp)
}

fn exec_is_ws(c: char) -> (r: bool)
    ensures
        r == is_ws(c),
{
    c == ' ' || c == '\t' || c == '\n' || c == '\r'
}

fn exec_is_digit(c: char) -> (r: bool)
    ensures
        r == is_digit(c),
{
    let u = c as u32;
    48 <= u && u <= 57
}

fn exec_hex_val(c: char) -> (r: Option<u32>)
    ensures
        r == spec_hex_val(c),
{
    let u = c as u32;
    if 48 <= u && u <= 57 {
        Some(u - 48)
    } else if 97 <= u && u <= 102 {
        Some(u - 87)
    } else if 65 <= u && u <= 70 {
        Some(u - 55)
    } else {
        None
    }
}

fn exec_hex4(s: &Vec<char>, i: usize) -> (r: Option<u32>)
    requires
        i + 4 <= s@.len(),
    ensures
        r == spec_hex4(s@, i as int),
{
    // Reading the length bounds it by `usize::MAX`, which bounds the index
    // arithmetic below.
    let n = s.len();
    match (exec_hex_val(s[i]), exec_hex_val(s[i + 1]), exec_hex_val(s[i + 2]), exec_hex_val(
        s[i + 3],
    )) {
        (Some(a), Some(b), Some(c), Some(d)) => Some(a * 4096 + b * 256 + c * 16 + d),
        _ => None,
    }
}

/// Copies `s[a..b]` into a fresh vector.
fn copy_range(s: &Vec<char>, a: usize, b: usize) -> (r: Vec<char>)
    requires
        a <= b <= s@.len(),
    ensures
        r@ == s@.subrange(a as int, b as int),
{
    let mut v: Vec<char> = Vec::new();
    let mut i: usize = a;
    while i < b
        invariant
            a <= i <= b <= s@.len(),
            v@ == s@.subrange(a as int, i as int),
        decreases b - i,
    {
        v.push(s[i]);
        proof {
            assert(v@ =~= s@.subrange(a as int, i + 1));
        }
        i += 1;
    }
    v
}

fn exec_skip_ws(s: &Vec<char>, i: usize) -> (r: usize)
    requires
        i <= s@.len(),
    ensures
        r == spec_skip_ws(s@, i as int),
        i <= r <= s@.len(),
{
    let mut j = i;
    while j < s.len() && exec_is_ws(s[j])
        invariant
            i <= j <= s@.len(),
            spec_skip_ws(s@, i as int) == spec_skip_ws(s@, j as int),
        decreases s@.len() - j,
    {
        j += 1;
    }
    j
}

fn exec_digit_run(s: &Vec<char>, i: usize) -> (r: usize)
    requires
        i <= s@.len(),
    ensures
        r == spec_digit_run(s@, i as int),
        i <= r <= s@.len(),
{
    let mut j = i;
    while j < s.len() && exec_is_digit(s[j])
        invariant
            i <= j <= s@.len(),
            spec_digit_run(s@, i as int) == spec_digit_run(s@, j as int),
        decreases s@.len() - j,
    {
        j += 1;
    }
    j
}

fn parse_number(s: &Vec<char>, i: usize) -> (r: Option<usize>)
    ensures
        match r {
            Option::None => spec_parse_number(s@, i as int) is None,
            Option::Some(e) => spec_parse_number(s@, i as int) == Some(e as int) && i < e
                <= s@.len(),
        },
{
    if i >= s.len() {
        return None;
    }
    let j0 = if s[i] == '-' {
        i + 1
    } else {
        i
    };
    if j0 >= s.len() {
        return None;
    }
    if !exec_is_digit(s[j0]) {
        return None;
    }
    let j1 = if s[j0] == '0' {
        j0 + 1
    } else {
        let r = exec_digit_run(s, j0 + 1);
        proof {
            assert(spec_digit_run(s@, j0 as int) == spec_digit_run(s@, j0 + 1));
        }
        r
    };
    let j2 = if j1 < s.len() && s[j1] == '.' {
        let k = exec_digit_run(s, j1 + 1);
        if k == j1 + 1 {
            return None;
        }
        k
    } else {
        j1
    };
    if j2 < s.len() && (s[j2] == 'e' || s[j2] == 'E') {
        let j3 = if j2 + 1 < s.len() && (s[j2 + 1] == '+' || s[j2 + 1] == '-') {
            j2 + 2
        } else {
            j2 + 1
        };
        let k = exec_digit_run(s, j3);
        if k == j3 {
            return None;
        }
        Some(k)
    } else {
        Some(j2)
    }
}

#[verifier::rlimit(100)]
fn parse_str_rest(s: &Vec<char>, i: usize) -> (r: Option<(Vec<char>, usize)>)
    ensures
        match r {
            Option::None => spec_str_rest(s@, i as int) is None,
            Option::Some(p) => {
                &&& spec_str_rest(s@, i as int) matches Some(q)
                &&& q.0 == p.0@
                &&& q.1 == p.1 as int
                &&& i < p.1 <= s@.len()
            },
        },
    decreases s@.len() - i,
{
    if i >= s.len() {
        return None;
    }
    let c = s[i];
    if c == '"' {
        let v: Vec<char> = Vec::new();
        proof {
            assert(v@ =~= Seq::<char>::empty());
        }
        return Some((v, i + 1));
    }
    if c == '\\' {
        if s.len() - i < 2 {
            return None;
        }
        let e0 = s[i + 1];
        if e0 == 'u' {
            if s.len() - i < 6 {
                return None;
            }
            match exec_hex4(s, i + 2) {
                None => return None,
                Some(cu) => {
                    if 0xD800 <= cu && cu < 0xDC00 {
                        if s.len() - i < 12 {
                            return None;
                        }
                        if s[i + 6] != '\\' || s[i + 7] != 'u' {
                            return None;
                        }
                        match exec_hex4(s, i + 8) {
                            None => return None,
                            Some(lo) => {
                                if !(0xDC00 <= lo && lo < 0xE000) {
                                    return None;
                                }
                                let cp: u32 = 0x10000 + (cu - 0xD800) * 0x400 + (lo - 0xDC00);
                                let ch = match char_from_u32(cp) {
                                    Some(ch) => ch,
                                    None => {
                                        return None;
                                    },
                                };
                                proof {
                                    vstd::utf8::char_u32_cast(ch, cp);
                                }
                                match parse_str_rest(s, i + 12) {
                                    None => None,
                                    Some((mut t, e)) => {
                                        let mut v: Vec<char> = Vec::new();
                                        v.push(ch);
                                        let ghost t0 = t@;
                                        v.append(&mut t);
                                        proof {
                                            assert(v@ =~= seq![cp as char] + t0);
                                        }
                                        Some((v, e))
                                    },
                                }
                            },
                        }
                    } else if 0xDC00 <= cu && cu < 0xE000 {
                        None
                    } else {
                        let ch = match char_from_u32(cu) {
                            Some(ch) => ch,
                            None => {
                                return None;
                            },
                        };
                        proof {
                            vstd::utf8::char_u32_cast(ch, cu);
                        }
                        match parse_str_rest(s, i + 6) {
                            None => None,
                            Some((mut t, e)) => {
                                let mut v: Vec<char> = Vec::new();
                                v.push(ch);
                                let ghost t0 = t@;
                                v.append(&mut t);
                                proof {
                                    assert(v@ =~= seq![cu as char] + t0);
                                }
                                Some((v, e))
                            },
                        }
                    }
                },
            }
        } else {
            let ec = if e0 == '"' {
                '"'
            } else if e0 == '\\' {
                '\\'
            } else if e0 == '/' {
                '/'
            } else if e0 == 'b' {
                '\u{8}'
            } else if e0 == 'f' {
                '\u{c}'
            } else if e0 == 'n' {
                '\n'
            } else if e0 == 'r' {
                '\r'
            } else if e0 == 't' {
                '\t'
            } else {
                return None;
            };
            match parse_str_rest(s, i + 2) {
                None => None,
                Some((mut t, e)) => {
                    let mut v: Vec<char> = Vec::new();
                    v.push(ec);
                    let ghost t0 = t@;
                    v.append(&mut t);
                    proof {
                        assert(v@ =~= seq![ec] + t0);
                    }
                    Some((v, e))
                },
            }
        }
    } else if (c as u32) < 0x20 {
        None
    } else {
        match parse_str_rest(s, i + 1) {
            None => None,
            Some((mut t, e)) => {
                let mut v: Vec<char> = Vec::new();
                v.push(c);
                let ghost t0 = t@;
                v.append(&mut t);
                proof {
                    assert(v@ =~= seq![c] + t0);
                }
                Some((v, e))
            },
        }
    }
}

fn parse_value(s: &Vec<char>, i: usize, depth: u32) -> (r: Option<(Json, usize)>)
    ensures
        match r {
            Option::None => spec_parse_value(s@, i as int, depth as nat) is None,
            Option::Some(p) => {
                &&& spec_parse_value(s@, i as int, depth as nat) matches Some(q)
                &&& q.0 == p.0@
                &&& q.1 == p.1 as int
                &&& i < p.1 <= s@.len()
            },
        },
    decreases s@.len() - i, 0int,
{
    if i >= s.len() {
        return None;
    }
    let c = s[i];
    if exec_is_ws(c) {
        return parse_value(s, i + 1, depth);
    }
    if c == 'n' {
        if s.len() - i >= 4 && s[i + 1] == 'u' && s[i + 2] == 'l' && s[i + 3] == 'l' {
            return Some((Json::Null, i + 4));
        }
        return None;
    }
    if c == 't' {
        if s.len() - i >= 4 && s[i + 1] == 'r' && s[i + 2] == 'u' && s[i + 3] == 'e' {
            return Some((Json::Bool(true), i + 4));
        }
        return None;
    }
    if c == 'f' {
        if s.len() - i >= 5 && s[i + 1] == 'a' && s[i + 2] == 'l' && s[i + 3] == 's' && s[i + 4]
            == 'e' {
            return Some((Json::Bool(false), i + 5));
        }
        return None;
    }
    if c == '"' {
        return match parse_str_rest(s, i + 1) {
            None => None,
            Some((t, e)) => Some((Json::Str(t), e)),
        };
    }
    if c == '-' || exec_is_digit(c) {
        return match parse_number(s, i) {
            None => None,
            Some(e) => {
                let tok = copy_range(s, i, e);
                Some((Json::Num(tok), e))
            },
        };
    }
    if c == '{' {
        if depth == 0 {
            return None;
        }
        return match parse_members(s, i + 1, depth - 1, true) {
            None => None,
            Some((ms, e)) => {
                proof {
                    lemma_jview_obj(ms);
                }
                Some((Json::Obj(ms), e))
            },
        };
    }
    if c == '[' {
        if depth == 0 {
            return None;
        }
        return match parse_elements(s, i + 1, depth - 1, true) {
            None => None,
            Some((es, e)) => {
                proof {
                    lemma_jview_arr(es);
                }
                Some((Json::Arr(es), e))
            },
        };
    }
    None
}

fn parse_members(s: &Vec<char>, i: usize, depth: u32, allow_close: bool) -> (r: Option<
    (Vec<Member>, usize),
>)
    ensures
        match r {
            Option::None => spec_parse_members(s@, i as int, depth as nat, allow_close) is None,
            Option::Some(p) => {
                &&& spec_parse_members(s@, i as int, depth as nat, allow_close) matches Some(q)
                &&& q.0 == obj_view(p.0@)
                &&& q.1 == p.1 as int
                &&& i < p.1 <= s@.len()
            },
        },
    decreases s@.len() - i, 1int,
{
    if i >= s.len() {
        return None;
    }
    let c = s[i];
    if exec_is_ws(c) {
        return parse_members(s, i + 1, depth, allow_close);
    }
    if c == '}' && allow_close {
        let v: Vec<Member> = Vec::new();
        proof {
            assert(obj_view(v@) =~= Seq::<(Seq<char>, JsonV)>::empty());
        }
        return Some((v, i + 1));
    }
    if c == '"' {
        return match parse_str_rest(s, i + 1) {
            None => None,
            Some((k, j)) => member_colon(s, j, depth, k),
        };
    }
    None
}

fn member_colon(s: &Vec<char>, i: usize, depth: u32, k: Vec<char>) -> (r: Option<
    (Vec<Member>, usize),
>)
    ensures
        match r {
            Option::None => spec_member_colon(s@, i as int, depth as nat, k@) is None,
            Option::Some(p) => {
                &&& spec_member_colon(s@, i as int, depth as nat, k@) matches Some(q)
                &&& q.0 == obj_view(p.0@)
                &&& q.1 == p.1 as int
                &&& i < p.1 <= s@.len()
            },
        },
    decreases s@.len() - i, 1int,
{
    if i >= s.len() {
        return None;
    }
    if exec_is_ws(s[i]) {
        return member_colon(s, i + 1, depth, k);
    }
    if s[i] == ':' {
        return match parse_value(s, i + 1, depth) {
            None => None,
            Some((v, m)) => {
                match members_after_value(s, m, depth) {
                    None => None,
                    Some((mut rest, e)) => {
                        let ghost rest0 = rest@;
                        let ghost kv = k@;
                        let ghost vv = v@;
                        let mut ms: Vec<Member> = Vec::new();
                        ms.push(Member { key: k, value: v });
                        ms.append(&mut rest);
                        proof {
                            assert(obj_view(ms@) =~= seq![(kv, vv)] + obj_view(rest0));
                        }
                        Some((ms, e))
                    },
                }
            },
        };
    }
    None
}

fn members_after_value(s: &Vec<char>, i: usize, depth: u32) -> (r: Option<(Vec<Member>, usize)>)
    ensures
        match r {
            Option::None => spec_members_after_value(s@, i as int, depth as nat) is None,
            Option::Some(p) => {
                &&& spec_members_after_value(s@, i as int, depth as nat) matches Some(q)
                &&& q.0 == obj_view(p.0@)
                &&& q.1 == p.1 as int
                &&& i < p.1 <= s@.len()
            },
        },
    decreases s@.len() - i, 1int,
{
    if i >= s.len() {
        return None;
    }
    if exec_is_ws(s[i]) {
        return members_after_value(s, i + 1, depth);
    }
    if s[i] == ',' {
        return parse_members(s, i + 1, depth, false);
    }
    if s[i] == '}' {
        let v: Vec<Member> = Vec::new();
        proof {
            assert(obj_view(v@) =~= Seq::<(Seq<char>, JsonV)>::empty());
        }
        return Some((v, i + 1));
    }
    None
}

fn parse_elements(s: &Vec<char>, i: usize, depth: u32, allow_close: bool) -> (r: Option<
    (Vec<Json>, usize),
>)
    ensures
        match r {
            Option::None => spec_parse_elements(s@, i as int, depth as nat, allow_close) is None,
            Option::Some(p) => {
                &&& spec_parse_elements(s@, i as int, depth as nat, allow_close) matches Some(q)
                &&& q.0 == arr_view(p.0@)
                &&& q.1 == p.1 as int
                &&& i < p.1 <= s@.len()
            },
        },
    decreases s@.len() - i, 1int,
{
    if i >= s.len() {
        return None;
    }
    if exec_is_ws(s[i]) {
        return parse_elements(s, i + 1, depth, allow_close);
    }
    if s[i] == ']' && allow_close {
        let v: Vec<Json> = Vec::new();
        proof {
            assert(arr_view(v@) =~= Seq::<JsonV>::empty());
        }
        return Some((v, i + 1));
    }
    match parse_value(s, i, depth) {
        None => None,
        Some((v, m)) => {
            match elements_after_value(s, m, depth) {
                None => None,
                Some((mut rest, e)) => {
                    let ghost rest0 = rest@;
                    let ghost vv = v@;
                    let mut es: Vec<Json> = Vec::new();
                    es.push(v);
                    es.append(&mut rest);
                    proof {
                        assert(arr_view(es@) =~= seq![vv] + arr_view(rest0));
                    }
                    Some((es, e))
                },
            }
        },
    }
}

fn elements_after_value(s: &Vec<char>, i: usize, depth: u32) -> (r: Option<(Vec<Json>, usize)>)
    ensures
        match r {
            Option::None => spec_elements_after_value(s@, i as int, depth as nat) is None,
            Option::Some(p) => {
                &&& spec_elements_after_value(s@, i as int, depth as nat) matches Some(q)
                &&& q.0 == arr_view(p.0@)
                &&& q.1 == p.1 as int
                &&& i < p.1 <= s@.len()
            },
        },
    decreases s@.len() - i, 1int,
{
    if i >= s.len() {
        return None;
    }
    if exec_is_ws(s[i]) {
        return elements_after_value(s, i + 1, depth);
    }
    if s[i] == ',' {
        return parse_elements(s, i + 1, depth, false);
    }
    if s[i] == ']' {
        let v: Vec<Json> = Vec::new();
        proof {
            assert(arr_view(v@) =~= Seq::<JsonV>::empty());
        }
        return Some((v, i + 1));
    }
    None
}

/// Parses a whole document, returning its value exactly when
/// `spec_parse_document` says the document is well formed.
pub fn parse_document(s: &Vec<char>) -> (r: Option<Json>)
    ensures
        match r {
            Option::None => spec_parse_document(s@) is None,
            Option::Some(j) => spec_parse_document(s@) == Some(j@),
        },
{
    match parse_value(s, 0, MAX_DEPTH) {
        None => None,
        Some((j, e)) => {
            let t = exec_skip_ws(s, e);
            if t == s.len() {
                Some(j)
            } else {
                None
            }
        },
    }
}

} // verus!
