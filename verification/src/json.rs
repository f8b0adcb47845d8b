//! A codec for the flat JSON objects of the hub's wire formats.
//!
//! Every message this library reads or writes — the duplex negotiation
//! frames and the token-endpoint bodies — is a single JSON object whose
//! members are strings, non-negative integers, booleans or null.  The
//! parser here accepts exactly that shape: it rejects nested objects,
//! arrays, signed or fractional numbers, and `\u` escapes.  Each
//! executable function returns precisely what its specification-level
//! counterpart describes.

use vstd::prelude::*;

use crate::text::push_char;

verus! {

/// A member value of a flat JSON object, at the specification level.
pub enum JsonValue {
    Str(Seq<char>),
    UInt(u64),
    Bool(bool),
    Null,
}

/// A member value of a flat JSON object, as parsed.
#[derive(Debug, Clone, PartialEq, Eq)]
pub enum JsonElem {
    Str(Vec<char>),
    UInt(u64),
    Bool(bool),
    Null,
}

impl View for JsonElem {
    type V = JsonValue;

    open spec fn view(&self) -> JsonValue {
        match self {
            JsonElem::Str(v) => JsonValue::Str(v@),
            JsonElem::UInt(n) => JsonValue::UInt(*n),
            JsonElem::Bool(b) => JsonValue::Bool(*b),
            JsonElem::Null => JsonValue::Null,
        }
    }
}

/// The members of a parsed object, in textual order.
pub type JsonObj = Vec<(Vec<char>, JsonElem)>;

/// The specification-level contents of parsed members.
pub open spec fn pairs_view(ps: Seq<(Vec<char>, JsonElem)>) -> Seq<(Seq<char>, JsonValue)> {
    ps.map(|i: int, p: (Vec<char>, JsonElem)| (p.0@, p.1@))
}

/// JSON insignificant whitespace.
pub open spec fn is_ws(c: char) -> bool {
    c == ' ' || c == '\t' || c == '\n' || c == '\r'
}

/// An ASCII decimal digit.
pub open spec fn is_digit(c: char) -> bool {
    48 <= c as u32 && c as u32 <= 57
}

/// The value of an ASCII decimal digit.
pub open spec fn digit_val(c: char) -> u64
    recommends
        is_digit(c),
{
    (c as u32 - 48) as u64
}

/// The first position at or after `i` holding no whitespace.
pub open spec fn skip_ws(s: Seq<char>, i: int) -> int
    decreases s.len() - i,
    when 0 <= i <= s.len()
{
    if i < s.len() && is_ws(s[i]) {
        skip_ws(s, i + 1)
    } else {
        i
    }
}

pub proof fn lemma_skip_ws_bounds(s: Seq<char>, i: int)
    requires
        0 <= i <= s.len(),
    ensures
        i <= skip_ws(s, i) <= s.len(),
        skip_ws(s, i) < s.len() ==> !is_ws(s[skip_ws(s, i)]),
    decreases s.len() - i,
{
    if i < s.len() && is_ws(s[i]) {
        lemma_skip_ws_bounds(s, i + 1);
    }
}

/// The character named by a single-character escape, if the escape is
/// recognized.  `\u` escapes are not.
pub open spec fn unescape(c: char) -> Option<char> {
    if c == '"' {
        Some('"')
    } else if c == '\\' {
        Some('\\')
    } else if c == '/' {
        Some('/')
    } else if c == 'n' {
        Some('\n')
    } else if c == 't' {
        Some('\t')
    } else if c == 'r' {
        Some('\r')
    } else if c == 'b' {
        Some('\u{8}')
    } else if c == 'f' {
        Some('\u{c}')
    } else {
        None
    }
}

/// Scans the body of a string literal starting just after the opening
/// quote; yields the decoded characters and the position just after the
/// closing quote.
pub open spec fn scan_string(s: Seq<char>, i: int) -> Option<(Seq<char>, int)>
    decreases s.len() - i,
    when 0 <= i <= s.len()
{
    if i >= s.len() {
        None
    } else if s[i] == '"' {
        Some((Seq::<char>::empty(), i + 1))
    } else if s[i] == '\\' {
        if i + 1 >= s.len() {
            None
        } else {
            match unescape(s[i + 1]) {
                Some(u) => match scan_string(s, i + 2) {
                    Some((rest, j)) => Some((seq![u] + rest, j)),
                    None => None,
                },
                None => None,
            }
        }
    } else {
        match scan_string(s, i + 1) {
            Some((rest, j)) => Some((seq![s[i]] + rest, j)),
            None => None,
        }
    }
}

pub proof fn lemma_scan_string_bounds(s: Seq<char>, i: int)
    requires
        0 <= i <= s.len(),
    ensures
        scan_string(s, i) matches Some(r) ==> i < r.1 <= s.len(),
    decreases s.len() - i,
{
    if i < s.len() && s[i] == '\\' && i + 1 < s.len() {
        lemma_scan_string_bounds(s, i + 2);
    } else if i < s.len() && s[i] != '"' && s[i] != '\\' {
        lemma_scan_string_bounds(s, i + 1);
    }
}

/// Accumulates a run of decimal digits into `acc`; fails on overflow.
pub open spec fn scan_uint_rec(s: Seq<char>, i: int, acc: u64) -> Option<(u64, int)>
    decreases s.len() - i,
    when 0 <= i <= s.len()
{
    if i < s.len() && is_digit(s[i]) {
        let d = digit_val(s[i]);
        if acc <= (u64::MAX - d) / 10 {
            scan_uint_rec(s, i + 1, (10 * acc + d) as u64)
        } else {
            None
        }
    } else {
        Some((acc, i))
    }
}

pub proof fn lemma_scan_uint_bounds(s: Seq<char>, i: int, acc: u64)
    requires
        0 <= i <= s.len(),
    ensures
        scan_uint_rec(s, i, acc) matches Some(r) ==> i <= r.1 <= s.len(),
    decreases s.len() - i,
{
    if i < s.len() && is_digit(s[i]) {
        let d = digit_val(s[i]);
        if acc <= (u64::MAX - d) / 10 {
            lemma_scan_uint_bounds(s, i + 1, (10 * acc + d) as u64);
        }
    }
}

/// Reads a non-negative integer literal; there must be at least one
/// digit, and the value must fit in a `u64`.
pub open spec fn parse_uint(s: Seq<char>, i: int) -> Option<(u64, int)>
    recommends
        0 <= i <= s.len(),
{
    if i < s.len() && is_digit(s[i]) {
        scan_uint_rec(s, i, 0)
    } else {
        None
    }
}

/// Reads one member value: a string, an unsigned integer, `true`,
/// `false` or `null`.
pub open spec fn parse_value(s: Seq<char>, i: int) -> Option<(JsonValue, int)>
    recommends
        0 <= i <= s.len(),
{
    if i >= s.len() {
        None
    } else if s[i] == '"' {
        match scan_string(s, i + 1) {
            Some((t, j)) => Some((JsonValue::Str(t), j)),
            None => None,
        }
    } else if is_digit(s[i]) {
        match parse_uint(s, i) {
            Some((n, j)) => Some((JsonValue::UInt(n), j)),
            None => None,
        }
    } else if s[i] == 't' {
        if i + 4 <= s.len() && s[i + 1] == 'r' && s[i + 2] == 'u' && s[i + 3] == 'e' {
            Some((JsonValue::Bool(true), i + 4))
        } else {
            None
        }
    } else if s[i] == 'f' {
        if i + 5 <= s.len() && s[i + 1] == 'a' && s[i + 2] == 'l' && s[i + 3] == 's' && s[i + 4]
            == 'e' {
            Some((JsonValue::Bool(false), i + 5))
        } else {
            None
        }
    } else if s[i] == 'n' {
        if i + 4 <= s.len() && s[i + 1] == 'u' && s[i + 2] == 'l' && s[i + 3] == 'l' {
            Some((JsonValue::Null, i + 4))
        } else {
            None
        }
    } else {
        None
    }
}

pub proof fn lemma_parse_value_bounds(s: Seq<char>, i: int)
    requires
        0 <= i <= s.len(),
    ensures
        parse_value(s, i) matches Some(r) ==> i < r.1 <= s.len(),
{
    if i < s.len() && s[i] == '"' {
        lemma_scan_string_bounds(s, i + 1);
    } else if i < s.len() && is_digit(s[i]) {
        let d = digit_val(s[i]);
        assert(0 <= (u64::MAX - d) / 10);
        lemma_scan_uint_bounds(s, i + 1, (10 * 0 + d) as u64);
    }
}

/// Reads the members of an object, starting at the first key and ending
/// just after the closing brace.
pub open spec fn parse_members(s: Seq<char>, i: int) -> Option<
    (Seq<(Seq<char>, JsonValue)>, int),
>
    decreases s.len() - i,
    when 0 <= i <= s.len()
    via parse_members_decreases
{
    if i >= s.len() || s[i] != '"' {
        None
    } else {
        match scan_string(s, i + 1) {
            None => None,
            Some((k, j1)) => {
                let j2 = skip_ws(s, j1);
                if j2 >= s.len() || s[j2] != ':' {
                    None
                } else {
                    let j3 = skip_ws(s, j2 + 1);
                    match parse_value(s, j3) {
                        None => None,
                        Some((v, j4)) => {
                            let j5 = skip_ws(s, j4);
                            if j5 < s.len() && s[j5] == ',' {
                                let j6 = skip_ws(s, j5 + 1);
                                match parse_members(s, j6) {
                                    Some((rest, j7)) => Some((seq![(k, v)] + rest, j7)),
                                    None => None,
                                }
                            } else if j5 < s.len() && s[j5] == '}' {
                                Some((seq![(k, v)], j5 + 1))
                            } else {
                                None
                            }
                        },
                    }
                }
            },
        }
    }
}

#[via_fn]
proof fn parse_members_decreases(s: Seq<char>, i: int) {
    if 0 <= i <= s.len() && i < s.len() && s[i] == '"' {
        lemma_scan_string_bounds(s, i + 1);
        match scan_string(s, i + 1) {
            None => {},
            Some((k, j1)) => {
                lemma_skip_ws_bounds(s, j1);
                let j2 = skip_ws(s, j1);
                if j2 < s.len() && s[j2] == ':' {
                    lemma_skip_ws_bounds(s, j2 + 1);
                    let j3 = skip_ws(s, j2 + 1);
                    lemma_parse_value_bounds(s, j3);
                    match parse_value(s, j3) {
                        None => {},
                        Some((v, j4)) => {
                            lemma_skip_ws_bounds(s, j4);
                            let j5 = skip_ws(s, j4);
                            if j5 < s.len() && s[j5] == ',' {
                                lemma_skip_ws_bounds(s, j5 + 1);
                            }
                        },
                    }
                }
            },
        }
    }
}

pub proof fn lemma_parse_members_bounds(s: Seq<char>, i: int)
    requires
        0 <= i <= s.len(),
    ensures
        parse_members(s, i) matches Some(r) ==> i < r.1 <= s.len(),
    decreases s.len() - i,
{
    if i < s.len() && s[i] == '"' {
        lemma_scan_string_bounds(s, i + 1);
        match scan_string(s, i + 1) {
            None => {},
            Some((k, j1)) => {
                lemma_skip_ws_bounds(s, j1);
                let j2 = skip_ws(s, j1);
                if j2 < s.len() && s[j2] == ':' {
                    lemma_skip_ws_bounds(s, j2 + 1);
                    let j3 = skip_ws(s, j2 + 1);
                    lemma_parse_value_bounds(s, j3);
                    match parse_value(s, j3) {
                        None => {},
                        Some((v, j4)) => {
                            lemma_skip_ws_bounds(s, j4);
                            let j5 = skip_ws(s, j4);
                            if j5 < s.len() && s[j5] == ',' {
                                lemma_skip_ws_bounds(s, j5 + 1);
                                let j6 = skip_ws(s, j5 + 1);
                                lemma_parse_members_bounds(s, j6);
                            }
                        },
                    }
                }
            },
        }
    }
}

/// Reads a whole object from the opening brace to just after the
/// closing brace.
pub open spec fn parse_object(s: Seq<char>, i: int) -> Option<(Seq<(Seq<char>, JsonValue)>, int)>
    recommends
        0 <= i <= s.len(),
{
    if i < s.len() && s[i] == '{' {
        let j = skip_ws(s, i + 1);
        if j < s.len() && s[j] == '}' {
            Some((Seq::empty(), j + 1))
        } else {
            parse_members(s, j)
        }
    } else {
        None
    }
}

pub proof fn lemma_parse_object_bounds(s: Seq<char>, i: int)
    requires
        0 <= i <= s.len(),
    ensures
        parse_object(s, i) matches Some(r) ==> i < r.1 <= s.len(),
{
    if i < s.len() && s[i] == '{' {
        lemma_skip_ws_bounds(s, i + 1);
        let j = skip_ws(s, i + 1);
        lemma_parse_members_bounds(s, j);
    }
}

/// The members of the text, when the whole text is one flat object with
/// nothing but whitespace around it.
pub open spec fn parse_json_object(s: Seq<char>) -> Option<Seq<(Seq<char>, JsonValue)>> {
    let i = skip_ws(s, 0);
    match parse_object(s, i) {
        Some((ps, j)) => if skip_ws(s, j) == s.len() {
            Some(ps)
        } else {
            None
        },
        None => None,
    }
}

/// The value of the first member with the given key.
pub open spec fn lookup(ps: Seq<(Seq<char>, JsonValue)>, k: Seq<char>) -> Option<JsonValue>
    decreases ps.len(),
{
    if ps.len() == 0 {
        None
    } else if ps[0].0 == k {
        Some(ps[0].1)
    } else {
        lookup(ps.drop_first(), k)
    }
}

/// The text of the member `k`, when it is present and a string.
pub open spec fn str_field(ps: Seq<(Seq<char>, JsonValue)>, k: Seq<char>) -> Option<Seq<char>> {
    match lookup(ps, k) {
        Some(JsonValue::Str(t)) => Some(t),
        _ => None,
    }
}

/// The value of the member `k`, when it is present and an integer.
pub open spec fn uint_field(ps: Seq<(Seq<char>, JsonValue)>, k: Seq<char>) -> Option<u64> {
    match lookup(ps, k) {
        Some(JsonValue::UInt(n)) => Some(n),
        _ => None,
    }
}

/// The value of the member `k`, when it is present and a boolean.
pub open spec fn bool_field(ps: Seq<(Seq<char>, JsonValue)>, k: Seq<char>) -> Option<bool> {
    match lookup(ps, k) {
        Some(JsonValue::Bool(b)) => Some(b),
        _ => None,
    }
}

fn is_ws_exec(c: char) -> (r: bool)
    ensures
        r == is_ws(c),
{
    c == ' ' || c == '\t' || c == '\n' || c == '\r'
}

fn is_digit_exec(c: char) -> (r: bool)
    ensures
        r == is_digit(c),
{
    let u = c as u32;
    48 <= u && u <= 57
}

fn unescape_exec(c: char) -> (r: Option<char>)
    ensures
        r == unescape(c),
{
    if c == '"' {
        Some('"')
    } else if c == '\\' {
        Some('\\')
    } else if c == '/' {
        Some('/')
    } else if c == 'n' {
        Some('\n')
    } else if c == 't' {
        Some('\t')
    } else if c == 'r' {
        Some('\r')
    } else if c == 'b' {
        Some('\u{8}')
    } else if c == 'f' {
        Some('\u{c}')
    } else {
        None
    }
}

fn skip_ws_exec(s: &[char], i: usize) -> (j: usize)
    requires
        i <= s@.len(),
    ensures
        j == skip_ws(s@, i as int),
        i <= j <= s@.len(),
{
    let mut j = i;
    while j < s.len() && is_ws_exec(s[j])
        invariant
            i <= j <= s@.len(),
            skip_ws(s@, i as int) == skip_ws(s@, j as int),
        decreases s@.len() - j,
    {
        j = j + 1;
    }
    j
}

fn scan_string_exec(s: &[char], i: usize) -> (r: Option<(Vec<char>, usize)>)
    requires
        i <= s@.len(),
    ensures
        (match scan_string(s@, i as int) {
            Some(p) => r matches Some(q) && q.0@ == p.0 && q.1 == p.1,
            None => r is None,
        }),
    decreases s@.len() - i,
{
    if i >= s.len() {
        None
    } else {
        let c = s[i];
        if c == '"' {
            Some((Vec::new(), i + 1))
        } else if c == '\\' {
            if i + 1 >= s.len() {
                None
            } else {
                match unescape_exec(s[i + 1]) {
                    Some(u) => match scan_string_exec(s, i + 2) {
                        Some((rest, j)) => {
                            let mut rest = rest;
                            rest.insert(0, u);
                            assert(rest@ =~= seq![u] + rest@.drop_first());
                            Some((rest, j))
                        },
                        None => None,
                    },
                    None => None,
                }
            }
        } else {
            match scan_string_exec(s, i + 1) {
                Some((rest, j)) => {
                    let mut rest = rest;
                    rest.insert(0, c);
                    assert(rest@ =~= seq![c] + rest@.drop_first());
                    Some((rest, j))
                },
                None => None,
            }
        }
    }
}

fn scan_uint_exec(s: &[char], i: usize, acc: u64) -> (r: Option<(u64, usize)>)
    requires
        i <= s@.len(),
    ensures
        (match scan_uint_rec(s@, i as int, acc) {
            Some(p) => r matches Some(q) && q.0 == p.0 && q.1 == p.1,
            None => r is None,
        }),
    decreases s@.len() - i,
{
    if i < s.len() && is_digit_exec(s[i]) {
        let d = (s[i] as u32 - 48) as u64;
        if acc <= (u64::MAX - d) / 10 {
            assert(10 * acc + d <= u64::MAX) by (nonlinear_arith)
                requires
                    acc <= (u64::MAX - d) / 10,
                    d <= 9,
            ;
            scan_uint_exec(s, i + 1, 10 * acc + d)
        } else {
            None
        }
    } else {
        Some((acc, i))
    }
}

fn parse_value_exec(s: &[char], i: usize) -> (r: Option<(JsonElem, usize)>)
    requires
        i <= s@.len(),
    ensures
        (match parse_value(s@, i as int) {
            Some(p) => r matches Some(q) && q.0@ == p.0 && q.1 == p.1,
            None => r is None,
        }),
{
    if i >= s.len() {
        None
    } else if s[i] == '"' {
        match scan_string_exec(s, i + 1) {
            Some((t, j)) => Some((JsonElem::Str(t), j)),
            None => None,
        }
    } else if is_digit_exec(s[i]) {
        match scan_uint_exec(s, i, 0) {
            Some((n, j)) => Some((JsonElem::UInt(n), j)),
            None => None,
        }
    } else if s[i] == 't' {
        if s.len() - i >= 4 && s[i + 1] == 'r' && s[i + 2] == 'u' && s[i + 3] == 'e' {
            Some((JsonElem::Bool(true), i + 4))
        } else {
            None
        }
    } else if s[i] == 'f' {
        if s.len() - i >= 5 && s[i + 1] == 'a' && s[i + 2] == 'l' && s[i + 3] == 's' && s[i + 4]
            == 'e' {
            Some((JsonElem::Bool(false), i + 5))
        } else {
            None
        }
    } else if s[i] == 'n' {
        if s.len() - i >= 4 && s[i + 1] == 'u' && s[i + 2] == 'l' && s[i + 3] == 'l' {
            Some((JsonElem::Null, i + 4))
        } else {
            None
        }
    } else {
        None
    }
}

fn parse_members_exec(s: &[char], i: usize) -> (r: Option<(JsonObj, usize)>)
    requires
        i <= s@.len(),
    ensures
        (match parse_members(s@, i as int) {
            Some(p) => r matches Some(q) && pairs_view(q.0@) == p.0 && q.1 == p.1,
            None => r is None,
        }),
    decreases s@.len() - i,
{
    if i >= s.len() || s[i] != '"' {
        None
    } else {
        match scan_string_exec(s, i + 1) {
            None => None,
            Some((k, j1)) => {
                proof {
                    lemma_scan_string_bounds(s@, i + 1);
                }
                let j2 = skip_ws_exec(s, j1);
                if j2 >= s.len() || s[j2] != ':' {
                    None
                } else {
                    let j3 = skip_ws_exec(s, j2 + 1);
                    match parse_value_exec(s, j3) {
                        None => None,
                        Some((v, j4)) => {
                            proof {
                                lemma_parse_value_bounds(s@, j3 as int);
                            }
                            let j5 = skip_ws_exec(s, j4);
                            if j5 < s.len() && s[j5] == ',' {
                                let j6 = skip_ws_exec(s, j5 + 1);
                                match parse_members_exec(s, j6) {
                                    Some((rest, j7)) => {
                                        let mut rest = rest;
                                        rest.insert(0, (k, v));
                                        assert(rest@ =~= seq![rest@[0]] + rest@.drop_first());
                                        assert(pairs_view(rest@) =~= seq![(rest@[0].0@, rest@[0].1@)]
                                            + pairs_view(rest@.drop_first()));
                                        Some((rest, j7))
                                    },
                                    None => None,
                                }
                            } else if j5 < s.len() && s[j5] == '}' {
                                let mut one: JsonObj = Vec::new();
                                one.push((k, v));
                                assert(pairs_view(one@) =~= seq![(one@[0].0@, one@[0].1@)]);
                                Some((one, j5 + 1))
                            } else {
                                None
                            }
                        },
                    }
                }
            },
        }
    }
}

fn parse_object_exec(s: &[char], i: usize) -> (r: Option<(JsonObj, usize)>)
    requires
        i <= s@.len(),
    ensures
        (match parse_object(s@, i as int) {
            Some(p) => r matches Some(q) && pairs_view(q.0@) == p.0 && q.1 == p.1,
            None => r is None,
        }),
{
    if i < s.len() && s[i] == '{' {
        let j = skip_ws_exec(s, i + 1);
        if j < s.len() && s[j] == '}' {
            let empty: JsonObj = Vec::new();
            assert(pairs_view(empty@) =~= Seq::<(Seq<char>, JsonValue)>::empty());
            Some((empty, j + 1))
        } else {
            parse_members_exec(s, j)
        }
    } else {
        None
    }
}

/// Parses the text as one flat JSON object, exactly as
/// [`parse_json_object`] describes.
pub fn parse_json_text(s: &str) -> (r: Option<JsonObj>)
    ensures
        (match parse_json_object(s@) {
            Some(ps) => r matches Some(o) && pairs_view(o@) == ps,
            None => r is None,
        }),
{
    let v = crate::text::str_to_chars(s);
    let sl = v.as_slice();
    let i = skip_ws_exec(sl, 0);
    match parse_object_exec(sl, i) {
        Some((o, j)) => {
            proof {
                lemma_parse_object_bounds(s@, i as int);
            }
            let e = skip_ws_exec(sl, j);
            if e == sl.len() {
                Some(o)
            } else {
                None
            }
        },
        None => None,
    }
}

proof fn lemma_lookup_skip(ps: Seq<(Seq<char>, JsonValue)>, k: Seq<char>, n: int)
    requires
        0 <= n <= ps.len(),
        forall|j: int| 0 <= j < n ==> ps[j].0 != k,
    ensures
        lookup(ps, k) == lookup(ps.skip(n), k),
    decreases n,
{
    if n == 0 {
        assert(ps.skip(0) =~= ps);
    } else {
        assert(forall|j: int| 0 <= j < n - 1 ==> ps.drop_first()[j].0 != k);
        lemma_lookup_skip(ps.drop_first(), k, n - 1);
        assert(ps.drop_first().skip(n - 1) =~= ps.skip(n));
    }
}

/// The first member with the given key, if any, exactly as [`lookup`]
/// describes.
pub fn get_field<'a>(o: &'a JsonObj, k: &str) -> (r: Option<&'a JsonElem>)
    ensures
        (match lookup(pairs_view(o@), k@) {
            Some(val) => r matches Some(e) && e@ == val,
            None => r is None,
        }),
{
    let ghost ps = pairs_view(o@);
    let mut idx: usize = 0;
    while idx < o.len()
        invariant
            idx <= o@.len(),
            ps == pairs_view(o@),
            forall|j: int| 0 <= j < idx ==> ps[j].0 != k@,
        decreases o@.len() - idx,
    {
        if crate::text::chars_eq_str(o[idx].0.as_slice(), k) {
            proof {
                lemma_lookup_skip(ps, k@, idx as int);
                assert(ps.skip(idx as int)[0] == ps[idx as int]);
            }
            return Some(&o[idx].1);
        }
        idx = idx + 1;
    }
    proof {
        lemma_lookup_skip(ps, k@, idx as int);
        assert(ps.skip(idx as int) =~= Seq::<(Seq<char>, JsonValue)>::empty());
    }
    None
}

/// The text of the member `k`, when present and a string, exactly as
/// [`str_field`] describes.
pub fn get_str_field(o: &JsonObj, k: &str) -> (r: Option<String>)
    ensures
        (match str_field(pairs_view(o@), k@) {
            Some(t) => r matches Some(x) && x@ == t,
            None => r is None,
        }),
{
    match get_field(o, k) {
        Some(JsonElem::Str(v)) => Some(crate::text::chars_to_string(v.as_slice())),
        _ => None,
    }
}

/// The value of the member `k`, when present and an integer, exactly as
/// [`uint_field`] describes.
pub fn get_uint_field(o: &JsonObj, k: &str) -> (r: Option<u64>)
    ensures
        r == uint_field(pairs_view(o@), k@),
{
    match get_field(o, k) {
        Some(JsonElem::UInt(n)) => Some(*n),
        _ => None,
    }
}

/// The value of the member `k`, when present and a boolean, exactly as
/// [`bool_field`] describes.
pub fn get_bool_field(o: &JsonObj, k: &str) -> (r: Option<bool>)
    ensures
        r == bool_field(pairs_view(o@), k@),
{
    match get_field(o, k) {
        Some(JsonElem::Bool(b)) => Some(*b),
        _ => None,
    }
}

/// The escape sequence a character is written with inside a string
/// literal.  Quotes, backslashes and the common control characters get
/// their two-character escapes; everything else stands for itself.
pub open spec fn escape_char(c: char) -> Seq<char> {
    if c == '"' {
        seq!['\\', '"']
    } else if c == '\\' {
        seq!['\\', '\\']
    } else if c == '\n' {
        seq!['\\', 'n']
    } else if c == '\r' {
        seq!['\\', 'r']
    } else if c == '\t' {
        seq!['\\', 't']
    } else if c == '\u{8}' {
        seq!['\\', 'b']
    } else if c == '\u{c}' {
        seq!['\\', 'f']
    } else {
        seq![c]
    }
}

/// The body of the string literal that denotes `t`.
pub open spec fn json_escape(t: Seq<char>) -> Seq<char>
    decreases t.len(),
{
    if t.len() == 0 {
        Seq::empty()
    } else {
        escape_char(t[0]) + json_escape(t.drop_first())
    }
}

pub proof fn lemma_json_escape_push(t: Seq<char>, c: char)
    ensures
        json_escape(t.push(c)) == json_escape(t) + escape_char(c),
    decreases t.len(),
{
    if t.len() == 0 {
        assert(t.push(c)[0] == c);
        assert(t.push(c).drop_first() =~= Seq::<char>::empty());
        assert(json_escape(Seq::<char>::empty()) == Seq::<char>::empty());
        assert(json_escape(t.push(c)) == escape_char(c) + Seq::<char>::empty());
        assert(json_escape(t.push(c)) =~= json_escape(t) + escape_char(c));
    } else {
        lemma_json_escape_push(t.drop_first(), c);
        assert(t.push(c)[0] == t[0]);
        assert(t.push(c).drop_first() =~= t.drop_first().push(c));
        assert(json_escape(t.push(c)) == escape_char(t[0]) + (json_escape(t.drop_first())
            + escape_char(c)));
        assert(json_escape(t.push(c)) =~= json_escape(t) + escape_char(c));
    }
}

/// Appends the escaped form of `t`, as a string-literal body, to `out`.
pub fn append_json_escaped(out: &mut String, t: &str)
    ensures
        final(out)@ == old(out)@ + json_escape(t@),
{
    let n = t.unicode_len();
    let mut i: usize = 0;
    while i < n
        invariant
            n == t@.len(),
            i <= n,
            out@ == old(out)@ + json_escape(t@.subrange(0, i as int)),
        decreases n - i,
    {
        let c = t.get_char(i);
        if c == '"' {
            push_char(out, '\\');
            push_char(out, '"');
        } else if c == '\\' {
            push_char(out, '\\');
            push_char(out, '\\');
        } else if c == '\n' {
            push_char(out, '\\');
            push_char(out, 'n');
        } else if c == '\r' {
            push_char(out, '\\');
            push_char(out, 'r');
        } else if c == '\t' {
            push_char(out, '\\');
            push_char(out, 't');
        } else if c == '\u{8}' {
            push_char(out, '\\');
            push_char(out, 'b');
        } else if c == '\u{c}' {
            push_char(out, '\\');
            push_char(out, 'f');
        } else {
            push_char(out, c);
        }
        proof {
            lemma_json_escape_push(t@.subrange(0, i as int), c);
            assert(t@.subrange(0, i + 1 as int) =~= t@.subrange(0, i as int).push(c));
            assert(out@ =~= old(out)@ + json_escape(t@.subrange(0, i + 1 as int)));
        }
        i = i + 1;
    }
    proof {
        assert(t@.subrange(0, n as int) =~= t@);
    }
}

} // verus!
