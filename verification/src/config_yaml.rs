//! The configuration record's file format.
//!
//! The record is persisted as a small YAML mapping: a `ha:` header
//! followed by one indented `key: value` line per present field.  The
//! writer emits exactly that shape, omitting absent fields; the reader
//! accepts it back, along with an optional leading `---` marker, blank
//! lines, quoted values, `null`/`~` for an absent value, and unknown
//! indented keys, which it ignores.  A later line for the same key wins.

use vstd::prelude::*;
use vstd::string::*;
use vstd::slice::{slice_subrange, slice_to_vec};

use crate::config::{YamlConfig, HaConfig, ConfigView, opt_view};
use crate::errors::SetupError;
use crate::text::{find_char, lemma_find_char_bounds, find_char_exec, str_to_chars,
    chars_to_string, chars_eq_str};

verus! {

/// The lines of a text, split at every newline; a final newline ends
/// the last line rather than opening an empty one.
pub open spec fn split_lines(s: Seq<char>) -> Seq<Seq<char>>
    decreases s.len(),
    via split_lines_decreases
{
    if s.len() == 0 {
        Seq::empty()
    } else {
        let i = find_char(s, 0, '\n');
        if i == s.len() {
            seq![s]
        } else {
            seq![s.subrange(0, i)] + split_lines(s.subrange(i + 1, s.len() as int))
        }
    }
}

#[via_fn]
proof fn split_lines_decreases(s: Seq<char>) {
    if s.len() > 0 {
        lemma_find_char_bounds(s, 0, '\n');
    }
}

/// The specification-level contents of split lines.
pub open spec fn lines_view(ls: Seq<Vec<char>>) -> Seq<Seq<char>> {
    ls.map(|i: int, l: Vec<char>| l@)
}

fn split_lines_exec(s: &[char]) -> (r: Vec<Vec<char>>)
    ensures
        lines_view(r@) == split_lines(s@),
    decreases s@.len(),
{
    if s.len() == 0 {
        let r: Vec<Vec<char>> = Vec::new();
        assert(lines_view(r@) =~= split_lines(s@));
        r
    } else {
        let i = find_char_exec(s, 0, '\n');
        if i == s.len() {
            let mut r: Vec<Vec<char>> = Vec::new();
            r.push(slice_to_vec(s));
            assert(lines_view(r@) =~= split_lines(s@));
            r
        } else {
            let first = slice_to_vec(slice_subrange(s, 0, i));
            let rest = slice_subrange(s, i + 1, s.len());
            let mut r = split_lines_exec(rest);
            r.insert(0, first);
            assert(r@ =~= seq![r@[0]] + r@.drop_first());
            assert(lines_view(r@) =~= seq![r@[0]@] + lines_view(r@.drop_first()));
            assert(lines_view(r@) =~= split_lines(s@));
            r
        }
    }
}

/// Whether the line is `  <key>:` possibly followed by more text.
pub open spec fn key_at(l: Seq<char>, k: Seq<char>) -> bool {
    &&& l.len() >= k.len() + 3
    &&& l[0] == ' '
    &&& l[1] == ' '
    &&& l.subrange(2, 2 + k.len() as int) == k
    &&& l[2 + k.len() as int] == ':'
}

/// A value with matching surrounding double quotes loses them.
pub open spec fn unquote(v: Seq<char>) -> Seq<char> {
    if v.len() >= 2 && v[0] == '"' && v[v.len() - 1] == '"' {
        v.subrange(1, v.len() - 1)
    } else {
        v
    }
}

/// An empty value, `null` or `~` denotes an absent field.
pub open spec fn opt_value(v: Seq<char>) -> Option<Seq<char>> {
    if v.len() == 0 || v == "null"@ || v == "~"@ {
        None
    } else {
        Some(v)
    }
}

/// The value text of a `  key: value` line: what follows the colon and
/// one optional space, unquoted.
pub open spec fn value_of(l: Seq<char>, k: Seq<char>) -> Seq<char>
    recommends
        key_at(l, k),
{
    if l.len() == k.len() + 3 {
        Seq::empty()
    } else if l[k.len() as int + 3] == ' ' {
        unquote(l.subrange(k.len() as int + 4, l.len() as int))
    } else {
        unquote(l.subrange(k.len() as int + 3, l.len() as int))
    }
}

/// The fields read so far.
pub struct ParsedFields {
    pub host: Option<Seq<char>>,
    pub long_lived_token: Option<Seq<char>>,
    pub device_id: Option<Seq<char>>,
    pub webhook_id: Option<Seq<char>>,
}

/// No field read yet.
pub open spec fn empty_fields() -> ParsedFields {
    ParsedFields { host: None, long_lived_token: None, device_id: None, webhook_id: None }
}

/// One line applied to the fields: a known key sets its field, a blank
/// line or an unknown indented key changes nothing, and anything else
/// is a malformed file.
pub open spec fn apply_line(acc: ParsedFields, l: Seq<char>) -> Option<ParsedFields> {
    if l.len() == 0 {
        Some(acc)
    } else if key_at(l, "host"@) {
        Some(
            ParsedFields {
                host: opt_value(value_of(l, "host"@)),
                long_lived_token: acc.long_lived_token,
                device_id: acc.device_id,
                webhook_id: acc.webhook_id,
            },
        )
    } else if key_at(l, "long-lived-token"@) {
        Some(
            ParsedFields {
                host: acc.host,
                long_lived_token: opt_value(value_of(l, "long-lived-token"@)),
                device_id: acc.device_id,
                webhook_id: acc.webhook_id,
            },
        )
    } else if key_at(l, "device-id"@) {
        Some(
            ParsedFields {
                host: acc.host,
                long_lived_token: acc.long_lived_token,
                device_id: opt_value(value_of(l, "device-id"@)),
                webhook_id: acc.webhook_id,
            },
        )
    } else if key_at(l, "webhook-id"@) {
        Some(
            ParsedFields {
                host: acc.host,
                long_lived_token: acc.long_lived_token,
                device_id: acc.device_id,
                webhook_id: opt_value(value_of(l, "webhook-id"@)),
            },
        )
    } else if l.len() >= 2 && l[0] == ' ' && l[1] == ' ' {
        Some(acc)
    } else {
        None
    }
}

/// The lines from `i` on, folded over the fields.
pub open spec fn parse_fields(lines: Seq<Seq<char>>, i: int, acc: ParsedFields) -> Option<
    ParsedFields,
>
    decreases lines.len() - i,
    when 0 <= i <= lines.len()
{
    if i >= lines.len() {
        Some(acc)
    } else {
        match apply_line(acc, lines[i]) {
            Some(a) => parse_fields(lines, i + 1, a),
            None => None,
        }
    }
}

/// The record the fields make, once the required host is there.
pub open spec fn finish_fields(f: Option<ParsedFields>) -> Option<ConfigView> {
    match f {
        Some(f) => match f.host {
            Some(h) => Some(
                ConfigView {
                    host: h,
                    long_lived_token: f.long_lived_token,
                    device_id: f.device_id,
                    webhook_id: f.webhook_id,
                },
            ),
            None => None,
        },
        None => None,
    }
}

/// The record a whole file denotes, if it is well-formed: an optional
/// `---` marker, the `ha:` header, then the field lines.
pub open spec fn spec_parse_config(s: Seq<char>) -> Option<ConfigView> {
    let lines = split_lines(s);
    let start: int = if lines.len() > 0 && lines[0] == "---"@ {
        1
    } else {
        0
    };
    if start < lines.len() && lines[start] == "ha:"@ {
        finish_fields(parse_fields(lines, start + 1, empty_fields()))
    } else {
        None
    }
}

/// A value the format stores verbatim on its line: non-empty, without
/// newlines, not a spelling of the absent value, and not wrapped in
/// double quotes.
pub open spec fn plain_scalar(v: Seq<char>) -> bool {
    &&& v.len() > 0
    &&& forall|j: int| 0 <= j < v.len() ==> v[j] != '\n'
    &&& v != "null"@
    &&& v != "~"@
    &&& !(v.len() >= 2 && v[0] == '"' && v[v.len() - 1] == '"')
}

proof fn lemma_find_char_first(s: Seq<char>, i: int, c: char, m: int)
    requires
        0 <= i <= m < s.len(),
        s[m] == c,
        forall|j: int| i <= j < m ==> s[j] != c,
    ensures
        find_char(s, i, c) == m,
    decreases m - i,
{
    if i < m {
        lemma_find_char_first(s, i + 1, c, m);
    }
}

/// Splitting takes one newline-free line off the front.
proof fn lemma_split_line(line: Seq<char>, rest: Seq<char>)
    requires
        forall|j: int| 0 <= j < line.len() ==> line[j] != '\n',
    ensures
        split_lines(line + seq!['\n'] + rest) == seq![line] + split_lines(rest),
{
    let s = line + seq!['\n'] + rest;
    assert(s[line.len() as int] == '\n');
    assert(forall|j: int| 0 <= j < line.len() ==> s[j] == line[j]);
    lemma_find_char_first(s, 0, '\n', line.len() as int);
    assert(s.subrange(0, line.len() as int) =~= line);
    assert(s.subrange(line.len() as int + 1, s.len() as int) =~= rest);
    assert(split_lines(s) =~= seq![line] + split_lines(rest));
}

proof fn lemma_parse_fields_shift(
    pre: Seq<Seq<char>>,
    rest: Seq<Seq<char>>,
    i: int,
    acc: ParsedFields,
)
    requires
        0 <= i <= rest.len(),
    ensures
        parse_fields(pre + rest, pre.len() + i, acc) == parse_fields(rest, i, acc),
    decreases rest.len() - i,
{
    if i < rest.len() {
        assert((pre + rest)[pre.len() + i] == rest[i]);
        match apply_line(acc, rest[i]) {
            Some(a) => {
                lemma_parse_fields_shift(pre, rest, i + 1, a);
            },
            None => {},
        }
    }
}

proof fn lemma_apply_host_line(acc: ParsedFields, v: Seq<char>)
    requires
        plain_scalar(v),
    ensures
        apply_line(acc, "  host: "@ + v) == Some(
            ParsedFields {
                host: Some(v),
                long_lived_token: acc.long_lived_token,
                device_id: acc.device_id,
                webhook_id: acc.webhook_id,
            },
        ),
{
    reveal_strlit("  host: ");
    reveal_strlit("host");
    let l = "  host: "@ + v;
    assert(l.len() == 8 + v.len());
    assert(l[0] == ' ' && l[1] == ' ');
    assert(l.subrange(2, 6) =~= "host"@);
    assert(l[6] == ':');
    assert(key_at(l, "host"@));
    assert(l[7] == ' ');
    assert(l.subrange(8, l.len() as int) =~= v);
    assert(unquote(v) == v);
    assert(value_of(l, "host"@) == v);
    assert(opt_value(v) == Some(v));
}

proof fn lemma_apply_llt_line(acc: ParsedFields, v: Seq<char>)
    requires
        plain_scalar(v),
    ensures
        apply_line(acc, "  long-lived-token: "@ + v) == Some(
            ParsedFields {
                host: acc.host,
                long_lived_token: Some(v),
                device_id: acc.device_id,
                webhook_id: acc.webhook_id,
            },
        ),
{
    reveal_strlit("  long-lived-token: ");
    reveal_strlit("long-lived-token");
    reveal_strlit("host");
    let l = "  long-lived-token: "@ + v;
    assert(l.len() == 20 + v.len());
    assert(l[2] == 'l');
    assert(l.subrange(2, 6)[0] == l[2]);
    assert(!key_at(l, "host"@));
    assert(l[0] == ' ' && l[1] == ' ');
    assert(l.subrange(2, 18) =~= "long-lived-token"@);
    assert(l[18] == ':');
    assert(key_at(l, "long-lived-token"@));
    assert(l[19] == ' ');
    assert(l.subrange(20, l.len() as int) =~= v);
    assert(unquote(v) == v);
    assert(value_of(l, "long-lived-token"@) == v);
    assert(opt_value(v) == Some(v));
}

proof fn lemma_apply_did_line(acc: ParsedFields, v: Seq<char>)
    requires
        plain_scalar(v),
    ensures
        apply_line(acc, "  device-id: "@ + v) == Some(
            ParsedFields {
                host: acc.host,
                long_lived_token: acc.long_lived_token,
                device_id: Some(v),
                webhook_id: acc.webhook_id,
            },
        ),
{
    reveal_strlit("  device-id: ");
    reveal_strlit("device-id");
    reveal_strlit("long-lived-token");
    reveal_strlit("host");
    let l = "  device-id: "@ + v;
    assert(l.len() == 13 + v.len());
    assert(l[2] == 'd');
    assert(l.subrange(2, 6)[0] == l[2]);
    assert(!key_at(l, "host"@));
    assert(!key_at(l, "long-lived-token"@)) by {
        if l.len() >= ("long-lived-token"@).len() + 3 {
            assert(l.subrange(2, 2 + ("long-lived-token"@).len() as int)[0] == l[2]);
        }
    }
    assert(l[0] == ' ' && l[1] == ' ');
    assert(l.subrange(2, 11) =~= "device-id"@);
    assert(l[11] == ':');
    assert(key_at(l, "device-id"@));
    assert(l[12] == ' ');
    assert(l.subrange(13, l.len() as int) =~= v);
    assert(unquote(v) == v);
    assert(value_of(l, "device-id"@) == v);
    assert(opt_value(v) == Some(v));
}

proof fn lemma_apply_wid_line(acc: ParsedFields, v: Seq<char>)
    requires
        plain_scalar(v),
    ensures
        apply_line(acc, "  webhook-id: "@ + v) == Some(
            ParsedFields {
                host: acc.host,
                long_lived_token: acc.long_lived_token,
                device_id: acc.device_id,
                webhook_id: Some(v),
            },
        ),
{
    reveal_strlit("  webhook-id: ");
    reveal_strlit("webhook-id");
    reveal_strlit("device-id");
    reveal_strlit("long-lived-token");
    reveal_strlit("host");
    let l = "  webhook-id: "@ + v;
    assert(l.len() == 14 + v.len());
    assert(l[2] == 'w');
    assert(l.subrange(2, 6)[0] == l[2]);
    assert(!key_at(l, "host"@));
    assert(!key_at(l, "long-lived-token"@)) by {
        if l.len() >= ("long-lived-token"@).len() + 3 {
            assert(l.subrange(2, 2 + ("long-lived-token"@).len() as int)[0] == l[2]);
        }
    }
    assert(!key_at(l, "device-id"@)) by {
        if l.len() >= ("device-id"@).len() + 3 {
            assert(l.subrange(2, 2 + ("device-id"@).len() as int)[0] == l[2]);
        }
    }
    assert(l[0] == ' ' && l[1] == ' ');
    assert(l.subrange(2, 12) =~= "webhook-id"@);
    assert(l[12] == ':');
    assert(key_at(l, "webhook-id"@));
    assert(l[13] == ' ');
    assert(l.subrange(14, l.len() as int) =~= v);
    assert(unquote(v) == v);
    assert(value_of(l, "webhook-id"@) == v);
    assert(opt_value(v) == Some(v));
}

proof fn lemma_parse_wid_tail(wid: Option<Seq<char>>, acc: ParsedFields)
    requires
        wid matches Some(v) ==> plain_scalar(v),
    ensures
        ({
            let seg = match wid {
                Some(w) => "  webhook-id: "@ + w + "\n"@,
                None => Seq::<char>::empty(),
            };
            parse_fields(split_lines(seg), 0, acc) == Some(
                ParsedFields {
                    host: acc.host,
                    long_lived_token: acc.long_lived_token,
                    device_id: acc.device_id,
                    webhook_id: match wid {
                        Some(w) => Some(w),
                        None => acc.webhook_id,
                    },
                },
            )
        }),
{
    reveal_strlit("\n");
    match wid {
        Some(w) => {
            reveal_strlit("  webhook-id: ");
            let l = "  webhook-id: "@ + w;
            let seg = "  webhook-id: "@ + w + "\n"@;
            assert(seg =~= l + seq!['\n'] + Seq::<char>::empty());
            assert(forall|j: int| 0 <= j < l.len() ==> l[j] != '\n');
            lemma_split_line(l, Seq::empty());
            assert(split_lines(Seq::<char>::empty()) =~= Seq::<Seq<char>>::empty());
            assert(split_lines(seg) =~= seq![l]);
            lemma_apply_wid_line(acc, w);
            let acc2 = ParsedFields {
                host: acc.host,
                long_lived_token: acc.long_lived_token,
                device_id: acc.device_id,
                webhook_id: Some(w),
            };
            assert(seq![l][0] == l);
            assert(parse_fields(seq![l], 1, acc2) == Some(acc2));
            assert(parse_fields(split_lines(seg), 0, acc) == Some(acc2));
        },
        None => {
            assert(split_lines(Seq::<char>::empty()) =~= Seq::<Seq<char>>::empty());
        },
    }
}

proof fn lemma_parse_did_tail(
    did: Option<Seq<char>>,
    wid: Option<Seq<char>>,
    acc: ParsedFields,
)
    requires
        did matches Some(v) ==> plain_scalar(v),
        wid matches Some(v) ==> plain_scalar(v),
    ensures
        ({
            let segd = match did {
                Some(d) => "  device-id: "@ + d + "\n"@,
                None => Seq::<char>::empty(),
            };
            let segw = match wid {
                Some(w) => "  webhook-id: "@ + w + "\n"@,
                None => Seq::<char>::empty(),
            };
            parse_fields(split_lines(segd + segw), 0, acc) == Some(
                ParsedFields {
                    host: acc.host,
                    long_lived_token: acc.long_lived_token,
                    device_id: match did {
                        Some(d) => Some(d),
                        None => acc.device_id,
                    },
                    webhook_id: match wid {
                        Some(w) => Some(w),
                        None => acc.webhook_id,
                    },
                },
            )
        }),
{
    reveal_strlit("\n");
    let segw = match wid {
        Some(w) => "  webhook-id: "@ + w + "\n"@,
        None => Seq::<char>::empty(),
    };
    match did {
        Some(d) => {
            reveal_strlit("  device-id: ");
            let l = "  device-id: "@ + d;
            let segd = "  device-id: "@ + d + "\n"@;
            assert(segd + segw =~= l + seq!['\n'] + segw);
            assert(forall|j: int| 0 <= j < l.len() ==> l[j] != '\n');
            lemma_split_line(l, segw);
            assert(split_lines(segd + segw) =~= seq![l] + split_lines(segw));
            lemma_apply_did_line(acc, d);
            let acc2 = ParsedFields {
                host: acc.host,
                long_lived_token: acc.long_lived_token,
                device_id: Some(d),
                webhook_id: acc.webhook_id,
            };
            assert((seq![l] + split_lines(segw))[0] == l);
            lemma_parse_fields_shift(seq![l], split_lines(segw), 0, acc2);
            lemma_parse_wid_tail(wid, acc2);
        },
        None => {
            assert(Seq::<char>::empty() + segw =~= segw);
            lemma_parse_wid_tail(wid, acc);
        },
    }
}

proof fn lemma_parse_llt_tail(
    llt: Option<Seq<char>>,
    did: Option<Seq<char>>,
    wid: Option<Seq<char>>,
    acc: ParsedFields,
)
    requires
        llt matches Some(v) ==> plain_scalar(v),
        did matches Some(v) ==> plain_scalar(v),
        wid matches Some(v) ==> plain_scalar(v),
    ensures
        ({
            let segl = match llt {
                Some(t) => "  long-lived-token: "@ + t + "\n"@,
                None => Seq::<char>::empty(),
            };
            let segd = match did {
                Some(d) => "  device-id: "@ + d + "\n"@,
                None => Seq::<char>::empty(),
            };
            let segw = match wid {
                Some(w) => "  webhook-id: "@ + w + "\n"@,
                None => Seq::<char>::empty(),
            };
            parse_fields(split_lines(segl + (segd + segw)), 0, acc) == Some(
                ParsedFields {
                    host: acc.host,
                    long_lived_token: match llt {
                        Some(t) => Some(t),
                        None => acc.long_lived_token,
                    },
                    device_id: match did {
                        Some(d) => Some(d),
                        None => acc.device_id,
                    },
                    webhook_id: match wid {
                        Some(w) => Some(w),
                        None => acc.webhook_id,
                    },
                },
            )
        }),
{
    reveal_strlit("\n");
    let segd = match did {
        Some(d) => "  device-id: "@ + d + "\n"@,
        None => Seq::<char>::empty(),
    };
    let segw = match wid {
        Some(w) => "  webhook-id: "@ + w + "\n"@,
        None => Seq::<char>::empty(),
    };
    match llt {
        Some(t) => {
            reveal_strlit("  long-lived-token: ");
            let l = "  long-lived-token: "@ + t;
            let segl = "  long-lived-token: "@ + t + "\n"@;
            assert(segl + (segd + segw) =~= l + seq!['\n'] + (segd + segw));
            assert(forall|j: int| 0 <= j < l.len() ==> l[j] != '\n');
            lemma_split_line(l, segd + segw);
            assert(split_lines(segl + (segd + segw)) =~= seq![l] + split_lines(segd + segw));
            lemma_apply_llt_line(acc, t);
            let acc2 = ParsedFields {
                host: acc.host,
                long_lived_token: Some(t),
                device_id: acc.device_id,
                webhook_id: acc.webhook_id,
            };
            assert((seq![l] + split_lines(segd + segw))[0] == l);
            lemma_parse_fields_shift(seq![l], split_lines(segd + segw), 0, acc2);
            lemma_parse_did_tail(did, wid, acc2);
        },
        None => {
            assert(Seq::<char>::empty() + (segd + segw) =~= segd + segw);
            lemma_parse_did_tail(did, wid, acc);
        },
    }
}

/// Round trip: a record whose present values are plain scalars is read
/// back exactly from its own rendering — in particular, a record with
/// all three optional fields absent comes back with all three still
/// absent.
pub proof fn lemma_config_round_trip(c: ConfigView)
    requires
        plain_scalar(c.host),
        c.long_lived_token matches Some(t) ==> plain_scalar(t),
        c.device_id matches Some(d) ==> plain_scalar(d),
        c.webhook_id matches Some(w) ==> plain_scalar(w),
    ensures
        spec_parse_config(spec_emit_config(c)) == Some(c),
{
    reveal_strlit("ha:\n");
    reveal_strlit("ha:");
    reveal_strlit("\n");
    reveal_strlit("  host: ");
    reveal_strlit("---");
    let lh = "  host: "@ + c.host;
    let segl = match c.long_lived_token {
        Some(t) => "  long-lived-token: "@ + t + "\n"@,
        None => Seq::<char>::empty(),
    };
    let segd = match c.device_id {
        Some(d) => "  device-id: "@ + d + "\n"@,
        None => Seq::<char>::empty(),
    };
    let segw = match c.webhook_id {
        Some(w) => "  webhook-id: "@ + w + "\n"@,
        None => Seq::<char>::empty(),
    };
    let tail = segl + (segd + segw);
    let s = spec_emit_config(c);
    assert(s =~= "ha:"@ + seq!['\n'] + (lh + seq!['\n'] + tail));
    assert(forall|j: int| 0 <= j < ("ha:"@).len() ==> ("ha:"@)[j] != '\n');
    assert(forall|j: int| 0 <= j < lh.len() ==> lh[j] != '\n');
    lemma_split_line("ha:"@, lh + seq!['\n'] + tail);
    lemma_split_line(lh, tail);
    let lines = split_lines(s);
    assert(lines =~= seq!["ha:"@, lh] + split_lines(tail));
    assert(("ha:"@)[0] != ("---"@)[0]);
    assert(lines[0] == "ha:"@);
    assert(lines[0] != "---"@);
    assert(lines[1] == lh);
    lemma_apply_host_line(empty_fields(), c.host);
    let acc1 = ParsedFields {
        host: Some(c.host),
        long_lived_token: None,
        device_id: None,
        webhook_id: None,
    };
    assert(apply_line(empty_fields(), lh) == Some(acc1));
    lemma_parse_fields_shift(seq!["ha:"@, lh], split_lines(tail), 0, acc1);
    lemma_parse_llt_tail(c.long_lived_token, c.device_id, c.webhook_id, acc1);
    assert(parse_fields(lines, 1, empty_fields()) == Some(
        ParsedFields {
            host: Some(c.host),
            long_lived_token: c.long_lived_token,
            device_id: c.device_id,
            webhook_id: c.webhook_id,
        },
    ));
    assert(spec_parse_config(s) == Some(c));
}

/// The file text a record is persisted as.
pub open spec fn spec_emit_config(c: ConfigView) -> Seq<char> {
    "ha:\n"@ + "  host: "@ + c.host + "\n"@ + (match c.long_lived_token {
        Some(t) => "  long-lived-token: "@ + t + "\n"@,
        None => Seq::<char>::empty(),
    }) + (match c.device_id {
        Some(d) => "  device-id: "@ + d + "\n"@,
        None => Seq::<char>::empty(),
    }) + (match c.webhook_id {
        Some(w) => "  webhook-id: "@ + w + "\n"@,
        None => Seq::<char>::empty(),
    })
}

/// Renders the record for persistence, exactly as [`spec_emit_config`]
/// states it.
pub fn config_to_yaml(c: &YamlConfig) -> (r: String)
    ensures
        r@ == spec_emit_config(c@),
{
    let mut r = String::from_str("ha:\n");
    r.append("  host: ");
    r.append(c.ha.host.as_str());
    r.append("\n");
    match &c.ha.long_lived_token {
        Some(t) => {
            r.append("  long-lived-token: ");
            r.append(t.as_str());
            r.append("\n");
        },
        None => {},
    }
    match &c.ha.device_id {
        Some(d) => {
            r.append("  device-id: ");
            r.append(d.as_str());
            r.append("\n");
        },
        None => {},
    }
    match &c.ha.webhook_id {
        Some(w) => {
            r.append("  webhook-id: ");
            r.append(w.as_str());
            r.append("\n");
        },
        None => {},
    }
    r
}

fn line_key_exec(l: &[char], k: &str) -> (r: bool)
    ensures
        r == key_at(l@, k@),
{
    let kn = k.unicode_len();
    if l.len() < 3 || l.len() - 3 < kn {
        return false;
    }
    if l[0] != ' ' || l[1] != ' ' {
        return false;
    }
    if !chars_eq_str(slice_subrange(l, 2, 2 + kn), k) {
        return false;
    }
    if l[2 + kn] != ':' {
        return false;
    }
    true
}

fn unquote_exec(v: &[char]) -> (r: Vec<char>)
    ensures
        r@ == unquote(v@),
{
    if v.len() >= 2 && v[0] == '"' && v[v.len() - 1] == '"' {
        slice_to_vec(slice_subrange(v, 1, v.len() - 1))
    } else {
        slice_to_vec(v)
    }
}

fn value_of_exec(l: &[char], k: &str) -> (r: Vec<char>)
    requires
        key_at(l@, k@),
    ensures
        r@ == value_of(l@, k@),
{
    let kn = k.unicode_len();
    if l.len() == kn + 3 {
        Vec::new()
    } else if l[kn + 3] == ' ' {
        unquote_exec(slice_subrange(l, kn + 4, l.len()))
    } else {
        unquote_exec(slice_subrange(l, kn + 3, l.len()))
    }
}

fn opt_value_exec(v: Vec<char>) -> (r: Option<String>)
    ensures
        opt_view(r) == opt_value(v@),
{
    if v.len() == 0 || chars_eq_str(v.as_slice(), "null") || chars_eq_str(v.as_slice(), "~") {
        None
    } else {
        Some(chars_to_string(v.as_slice()))
    }
}

/// Reads a persisted record back, exactly as [`spec_parse_config`]
/// describes; a file it does not describe is a configuration error.
pub fn parse_config_yml(s: &str) -> (r: Result<YamlConfig, SetupError>)
    ensures
        (match spec_parse_config(s@) {
            Some(cv) => r matches Ok(c) && c@ == cv,
            None => r matches Err(SetupError::ConfigIo(_)),
        }),
{
    let chars = str_to_chars(s);
    let lines = split_lines_exec(chars.as_slice());
    let ghost lv = lines_view(lines@);
    let mut start: usize = 0;
    if lines.len() > 0 {
        proof {
            assert(lv[0] == lines@[0]@);
        }
        if chars_eq_str(lines[0].as_slice(), "---") {
            start = 1;
        }
    }
    if !(start < lines.len() && chars_eq_str(lines[start].as_slice(), "ha:")) {
        proof {
            if start < lv.len() {
                assert(lv[start as int] == lines@[start as int]@);
            }
        }
        return Err(SetupError::ConfigIo(String::from_str("malformed configuration file")));
    }
    proof {
        assert(lv[start as int] == lines@[start as int]@);
    }
    let mut host: Option<String> = None;
    let mut long_lived_token: Option<String> = None;
    let mut device_id: Option<String> = None;
    let mut webhook_id: Option<String> = None;
    let mut i: usize = start + 1;
    while i < lines.len()
        invariant
            start + 1 <= i <= lines@.len(),
            lv == lines_view(lines@),
            spec_parse_config(s@) == finish_fields(
                parse_fields(
                    lv,
                    i as int,
                    (ParsedFields {
                        host: opt_view(host),
                        long_lived_token: opt_view(long_lived_token),
                        device_id: opt_view(device_id),
                        webhook_id: opt_view(webhook_id),
                    }),
                ),
            ),
        decreases lines@.len() - i,
    {
        proof {
            assert(lv[i as int] == lines@[i as int]@);
        }
        let l = lines[i].as_slice();
        if l.len() == 0 {
        } else if line_key_exec(l, "host") {
            host = opt_value_exec(value_of_exec(l, "host"));
        } else if line_key_exec(l, "long-lived-token") {
            long_lived_token = opt_value_exec(value_of_exec(l, "long-lived-token"));
        } else if line_key_exec(l, "device-id") {
            device_id = opt_value_exec(value_of_exec(l, "device-id"));
        } else if line_key_exec(l, "webhook-id") {
            webhook_id = opt_value_exec(value_of_exec(l, "webhook-id"));
        } else if l.len() >= 2 && l[0] == ' ' && l[1] == ' ' {
        } else {
            return Err(SetupError::ConfigIo(String::from_str("malformed configuration file")));
        }
        i = i + 1;
    }
    match host {
        Some(h) => Ok(
            YamlConfig {
                ha: HaConfig {
                    host: h,
                    long_lived_token,
                    device_id,
                    webhook_id,
                },
            },
        ),
        None => Err(SetupError::ConfigIo(String::from_str("missing host in configuration file"))),
    }
}

} // verus!
