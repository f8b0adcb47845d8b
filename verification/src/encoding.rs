//! Percent-encoding for the authorize URL and the form bodies.
//!
//! Two encodings appear at the hub's interfaces.  The authorize URL
//! carries its query percent-encoded with controls, `:` and `/` escaped;
//! form bodies and query strings use the form flavour, which keeps only
//! alphanumerics and `*-._`, writes space as `+`, and escapes the rest.
//! Decoding reverses the form flavour.  All three work character-wise on
//! ASCII; characters outside ASCII stand for themselves.

use vstd::prelude::*;
use vstd::string::*;

use crate::text::{push_char, spec_hex_upper, hex_upper, spec_is_hex_digit, spec_hex_val, hex_val};

verus! {

/// The three characters `%XY` that escape an ASCII character.
pub open spec fn pct_hex(c: char) -> Seq<char>
    recommends
        (c as u32) < 128,
{
    seq!['%', spec_hex_upper(((c as u32) / 16) as u8), spec_hex_upper(((c as u32) % 16) as u8)]
}

/// Whether the authorize-URL flavour escapes `c`: controls, `:` and `/`.
pub open spec fn fragment_escaped(c: char) -> bool {
    (c as u32) < 32 || c as u32 == 127 || c == ':' || c == '/'
}

/// One character under the authorize-URL flavour.
pub open spec fn fragment_encode_char(c: char) -> Seq<char> {
    if fragment_escaped(c) {
        pct_hex(c)
    } else {
        seq![c]
    }
}

/// The authorize-URL flavour over a whole text.
pub open spec fn fragment_encode(s: Seq<char>) -> Seq<char>
    decreases s.len(),
{
    if s.len() == 0 {
        Seq::empty()
    } else {
        fragment_encode_char(s[0]) + fragment_encode(s.drop_first())
    }
}

pub proof fn lemma_fragment_encode_push(s: Seq<char>, c: char)
    ensures
        fragment_encode(s.push(c)) == fragment_encode(s) + fragment_encode_char(c),
    decreases s.len(),
{
    if s.len() == 0 {
        assert(s.push(c)[0] == c);
        assert(s.push(c).drop_first() =~= Seq::<char>::empty());
        assert(fragment_encode(Seq::<char>::empty()) == Seq::<char>::empty());
        assert(fragment_encode(s.push(c)) == fragment_encode_char(c) + Seq::<char>::empty());
        assert(fragment_encode(s.push(c)) =~= fragment_encode(s) + fragment_encode_char(c));
    } else {
        lemma_fragment_encode_push(s.drop_first(), c);
        assert(s.push(c)[0] == s[0]);
        assert(s.push(c).drop_first() =~= s.drop_first().push(c));
        assert(fragment_encode(s.push(c)) == fragment_encode_char(s[0]) + (fragment_encode(
            s.drop_first(),
        ) + fragment_encode_char(c)));
        assert(fragment_encode(s.push(c)) =~= fragment_encode(s) + fragment_encode_char(c));
    }
}

/// Appends `%XY` for an ASCII character.
fn push_pct_hex(out: &mut String, c: char)
    requires
        (c as u32) < 128,
    ensures
        final(out)@ == old(out)@ + pct_hex(c),
{
    let u = c as u32;
    push_char(out, '%');
    push_char(out, hex_upper((u / 16) as u8));
    push_char(out, hex_upper((u % 16) as u8));
    assert(out@ =~= old(out)@ + pct_hex(c));
}

/// Appends the authorize-URL encoding of `s`, exactly as
/// [`fragment_encode`] states it.
pub fn append_fragment_encoded(out: &mut String, s: &str)
    ensures
        final(out)@ == old(out)@ + fragment_encode(s@),
{
    let n = s.unicode_len();
    let mut i: usize = 0;
    while i < n
        invariant
            n == s@.len(),
            i <= n,
            out@ == old(out)@ + fragment_encode(s@.subrange(0, i as int)),
        decreases n - i,
    {
        let c = s.get_char(i);
        let u = c as u32;
        if u < 32 || u == 127 || c == ':' || c == '/' {
            push_pct_hex(out, c);
        } else {
            push_char(out, c);
        }
        proof {
            lemma_fragment_encode_push(s@.subrange(0, i as int), c);
            assert(s@.subrange(0, i + 1 as int) =~= s@.subrange(0, i as int).push(c));
            assert(out@ =~= old(out)@ + fragment_encode(s@.subrange(0, i + 1 as int)));
        }
        i = i + 1;
    }
    proof {
        assert(s@.subrange(0, n as int) =~= s@);
    }
}

/// Whether the form flavour keeps `c` as itself: ASCII alphanumerics
/// and `*-._`.
pub open spec fn form_safe(c: char) -> bool {
    (48 <= c as u32 && c as u32 <= 57) || (65 <= c as u32 && c as u32 <= 90) || (97 <= c as u32
        && c as u32 <= 122) || c == '*' || c == '-' || c == '.' || c == '_'
}

/// One character under the form flavour.
pub open spec fn form_encode_char(c: char) -> Seq<char> {
    if form_safe(c) {
        seq![c]
    } else if c == ' ' {
        seq!['+']
    } else if (c as u32) < 128 {
        pct_hex(c)
    } else {
        seq![c]
    }
}

/// The form flavour over a whole text.
pub open spec fn form_encode(s: Seq<char>) -> Seq<char>
    decreases s.len(),
{
    if s.len() == 0 {
        Seq::empty()
    } else {
        form_encode_char(s[0]) + form_encode(s.drop_first())
    }
}

pub proof fn lemma_form_encode_push(s: Seq<char>, c: char)
    ensures
        form_encode(s.push(c)) == form_encode(s) + form_encode_char(c),
    decreases s.len(),
{
    if s.len() == 0 {
        assert(s.push(c)[0] == c);
        assert(s.push(c).drop_first() =~= Seq::<char>::empty());
        assert(form_encode(Seq::<char>::empty()) == Seq::<char>::empty());
        assert(form_encode(s.push(c)) == form_encode_char(c) + Seq::<char>::empty());
        assert(form_encode(s.push(c)) =~= form_encode(s) + form_encode_char(c));
    } else {
        lemma_form_encode_push(s.drop_first(), c);
        assert(s.push(c)[0] == s[0]);
        assert(s.push(c).drop_first() =~= s.drop_first().push(c));
        assert(form_encode(s.push(c)) == form_encode_char(s[0]) + (form_encode(s.drop_first())
            + form_encode_char(c)));
        assert(form_encode(s.push(c)) =~= form_encode(s) + form_encode_char(c));
    }
}

/// Appends the form encoding of `s`, exactly as [`form_encode`] states
/// it.
pub fn append_form_encoded(out: &mut String, s: &str)
    ensures
        final(out)@ == old(out)@ + form_encode(s@),
{
    let n = s.unicode_len();
    let mut i: usize = 0;
    while i < n
        invariant
            n == s@.len(),
            i <= n,
            out@ == old(out)@ + form_encode(s@.subrange(0, i as int)),
        decreases n - i,
    {
        let c = s.get_char(i);
        let u = c as u32;
        if (48 <= u && u <= 57) || (65 <= u && u <= 90) || (97 <= u && u <= 122) || c == '*' || c
            == '-' || c == '.' || c == '_' {
            push_char(out, c);
        } else if c == ' ' {
            push_char(out, '+');
        } else if u < 128 {
            push_pct_hex(out, c);
        } else {
            push_char(out, c);
        }
        proof {
            lemma_form_encode_push(s@.subrange(0, i as int), c);
            assert(s@.subrange(0, i + 1 as int) =~= s@.subrange(0, i as int).push(c));
            assert(out@ =~= old(out)@ + form_encode(s@.subrange(0, i + 1 as int)));
        }
        i = i + 1;
    }
    proof {
        assert(s@.subrange(0, n as int) =~= s@);
    }
}

/// Form decoding from position `i` on: `+` becomes space, `%XY` with an
/// ASCII value becomes that character, and everything else — including
/// a malformed escape or one above ASCII — stands for itself.
pub open spec fn form_decode_from(s: Seq<char>, i: int) -> Seq<char>
    decreases s.len() - i,
    when 0 <= i <= s.len()
{
    if i >= s.len() {
        Seq::empty()
    } else if s[i] == '+' {
        seq![' '] + form_decode_from(s, i + 1)
    } else if s[i] == '%' && i + 3 <= s.len() && spec_is_hex_digit(s[i + 1]) && spec_is_hex_digit(
        s[i + 2],
    ) && spec_hex_val(s[i + 1]) * 16 + spec_hex_val(s[i + 2]) < 128 {
        seq![((spec_hex_val(s[i + 1]) * 16 + spec_hex_val(s[i + 2])) as u8) as char]
            + form_decode_from(s, i + 3)
    } else {
        seq![s[i]] + form_decode_from(s, i + 1)
    }
}

/// The form decoding of a whole component.
pub open spec fn form_decode(s: Seq<char>) -> Seq<char> {
    form_decode_from(s, 0)
}

/// Decodes from position `i` on, exactly as [`form_decode_from`] states
/// it.
pub fn form_decode_exec(s: &[char], i: usize) -> (r: Vec<char>)
    requires
        i <= s@.len(),
    ensures
        r@ == form_decode_from(s@, i as int),
    decreases s@.len() - i,
{
    if i >= s.len() {
        Vec::new()
    } else if s[i] == '+' {
        let mut rest = form_decode_exec(s, i + 1);
        rest.insert(0, ' ');
        assert(rest@ =~= seq![' '] + rest@.drop_first());
        rest
    } else {
        let mut decoded: Option<(char, usize)> = None;
        if s[i] == '%' && s.len() - i >= 3 {
            let h1 = hex_val(s[i + 1]);
            let h2 = hex_val(s[i + 2]);
            if h1.is_some() && h2.is_some() {
                let v = h1.unwrap() as u32 * 16 + h2.unwrap() as u32;
                if v < 128 {
                    decoded = Some(((v as u8) as char, i + 3));
                }
            }
        }
        match decoded {
            Some((c, j)) => {
                let mut rest = form_decode_exec(s, j);
                rest.insert(0, c);
                assert(rest@ =~= seq![c] + rest@.drop_first());
                rest
            },
            None => {
                let c = s[i];
                let mut rest = form_decode_exec(s, i + 1);
                rest.insert(0, c);
                assert(rest@ =~= seq![c] + rest@.drop_first());
                rest
            },
        }
    }
}

} // verus!
