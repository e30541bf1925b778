//! The Assuan command protocol: parsing a command line, percent-encoding,
//! formatting response lines, and the per-line step of the server loop.
use vstd::prelude::*;
use vstd::string::StringSliceAdditionalSpecFns;
use vstd::utf8::*;

use crate::state::{PinentryState, StateView};
use crate::text::{
    ascii_lower, ascii_upper, chars_of, digit_char, is_ws, contains_lit, contains_seq, decimal, find_first,
    first_in, folded_is, hex_digit_value, occurs_at, upper_char, in_class, lemma_first_in_unique, lemma_content_end_unique, hex_upper, hex_upper_char, hex_value, lemma_first_in,
    push_decimal, str_is, string_push, trim, trim_start, trim_start_str, trim_str,
    utf8_lossy, utf8_lossy_chars, CaseFold, CharClass,
};

verus! {

// gpg-error codes used in Assuan responses
pub const ERR_NOT_IMPLEMENTED: u32 = 83886179;

pub const ERR_UNKNOWN_IPC_COMMAND: u32 = 275;

/// Parsed representation of an Assuan command.
#[derive(Debug)]
pub enum Command {
    SetDesc(String),
    SetPrompt(String),
    SetTitle(String),
    SetOk(String),
    SetCancel(String),
    SetNotOk(String),
    SetError(String),
    SetTimeout(u32),
    SetKeyInfo(String),
    SetRepeat(String),
    SetRepeatError(String),
    /// `SETQUALITYBAR` with an optional custom label; `None` means use the
    /// default.
    SetQualityBar(Option<String>),
    SetQualityBarTooltip(String),
    GetPin,
    Confirm { one_button: bool },
    Message,
    GetInfo(String),
    /// `OPTION key [value]` — a client configuration key-value pair.
    Option(String, Option<String>),
    Reset,
    Bye,
    Nop,
    Unknown(String),
}

/// Mathematical model of a `Command`.
pub enum SpecCommand {
    SetDesc(Seq<char>),
    SetPrompt(Seq<char>),
    SetTitle(Seq<char>),
    SetOk(Seq<char>),
    SetCancel(Seq<char>),
    SetNotOk(Seq<char>),
    SetError(Seq<char>),
    SetTimeout(u32),
    SetKeyInfo(Seq<char>),
    SetRepeat(Seq<char>),
    SetRepeatError(Seq<char>),
    SetQualityBar(Option<Seq<char>>),
    SetQualityBarTooltip(Seq<char>),
    GetPin,
    Confirm { one_button: bool },
    Message,
    GetInfo(Seq<char>),
    Option(Seq<char>, Option<Seq<char>>),
    Reset,
    Bye,
    Nop,
    Unknown(Seq<char>),
}

impl View for Command {
    type V = SpecCommand;

    open spec fn view(&self) -> SpecCommand {
        match self {
            Command::SetDesc(s) => SpecCommand::SetDesc(s@),
            Command::SetPrompt(s) => SpecCommand::SetPrompt(s@),
            Command::SetTitle(s) => SpecCommand::SetTitle(s@),
            Command::SetOk(s) => SpecCommand::SetOk(s@),
            Command::SetCancel(s) => SpecCommand::SetCancel(s@),
            Command::SetNotOk(s) => SpecCommand::SetNotOk(s@),
            Command::SetError(s) => SpecCommand::SetError(s@),
            Command::SetTimeout(t) => SpecCommand::SetTimeout(*t),
            Command::SetKeyInfo(s) => SpecCommand::SetKeyInfo(s@),
            Command::SetRepeat(s) => SpecCommand::SetRepeat(s@),
            Command::SetRepeatError(s) => SpecCommand::SetRepeatError(s@),
            Command::SetQualityBar(l) => SpecCommand::SetQualityBar(l.deep_view()),
            Command::SetQualityBarTooltip(s) => SpecCommand::SetQualityBarTooltip(s@),
            Command::GetPin => SpecCommand::GetPin,
            Command::Confirm { one_button } => SpecCommand::Confirm { one_button: *one_button },
            Command::Message => SpecCommand::Message,
            Command::GetInfo(s) => SpecCommand::GetInfo(s@),
            Command::Option(k, v) => SpecCommand::Option(k@, v.deep_view()),
            Command::Reset => SpecCommand::Reset,
            Command::Bye => SpecCommand::Bye,
            Command::Nop => SpecCommand::Nop,
            Command::Unknown(s) => SpecCommand::Unknown(s@),
        }
    }
}

// ---------------------------------------------------------------------------
// Percent-encoding
// ---------------------------------------------------------------------------

/// Whether a character is escaped in an Assuan response: `%` and every
/// ASCII control character (newline and carriage return among them).
pub open spec fn is_escaped(c: char) -> bool {
    (c as u32) == 0x25 || (c as u32) < 0x20 || (c as u32) == 0x7f
}

/// The text one character becomes in an Assuan response: an escaped
/// character as `%XX` with upper-case hex digits, any other character as it
/// is.
pub open spec fn encode_char(c: char) -> Seq<char> {
    if is_escaped(c) {
        seq!['%', hex_upper(((c as u32) / 16) as int), hex_upper(((c as u32) % 16) as int)]
    } else {
        seq![c]
    }
}

/// `percent_encode` of a text: each character encoded in turn.
pub open spec fn spec_percent_encode(s: Seq<char>) -> Seq<char>
    decreases s.len(),
{
    if s.len() == 0 {
        Seq::empty()
    } else {
        spec_percent_encode(s.drop_last()) + encode_char(s.last())
    }
}

/// Undoes `%XX` escapes (either case of hex digit) in a byte sequence; a `%`
/// that is not followed by two hex digits stays as it is.
pub open spec fn decode_bytes(b: Seq<u8>) -> Seq<u8>
    decreases b.len(),
{
    if b.len() == 0 {
        Seq::empty()
    } else if b[0] == 0x25 && 2 < b.len() && hex_value(b[1]) is Some && hex_value(b[2]) is Some {
        seq![(hex_value(b[1]).unwrap() * 16 + hex_value(b[2]).unwrap()) as u8] + decode_bytes(
            b.skip(3),
        )
    } else {
        seq![b[0]] + decode_bytes(b.skip(1))
    }
}

/// `percent_decode` of a text: escapes undone on its UTF-8 bytes, then the
/// bytes read back as UTF-8 (invalid sequences replaced as
/// `String::from_utf8_lossy` does).
pub open spec fn spec_percent_decode(s: Seq<char>) -> Seq<char> {
    let b = decode_bytes(encode_utf8(s));
    if valid_utf8(b) {
        decode_utf8(b)
    } else {
        utf8_lossy_chars(b)
    }
}

/// Decodes a percent-encoded Assuan string (`%XX` sequences) to a `String`.
pub fn percent_decode(s: &str) -> (r: String)
    ensures
        r@ == spec_percent_decode(s@),
{
    let bytes = s.as_bytes();
    let mut result: Vec<u8> = Vec::with_capacity(bytes.len());
    let mut i: usize = 0;
    proof {
        assert(bytes@.skip(0) =~= bytes@);
    }
    while i < bytes.len()
        invariant
            0 <= i <= bytes@.len(),
            result@ + decode_bytes(bytes@.skip(i as int)) == decode_bytes(bytes@),
        decreases bytes.len() - i,
    {
        let ghost t = bytes@.skip(i as int);
        if bytes[i] == 0x25 && bytes.len() > 2 && i < bytes.len() - 2 {
            let hi = hex_digit_value(bytes[i + 1]);
            let lo = hex_digit_value(bytes[i + 2]);
            if let (Some(h), Some(l)) = (hi, lo) {
                proof {
                    assert(t[0] == bytes@[i as int] && t[1] == bytes@[i + 1] && t[2] == bytes@[i + 2]);
                    assert(t.skip(3) =~= bytes@.skip(i + 3));
                }
                let ghost before = result@;
                result.push(h * 16 + l);
                proof {
                    assert(result@ + decode_bytes(bytes@.skip(i + 3)) =~= before + (seq![
                        (h * 16 + l) as u8,
                    ] + decode_bytes(t.skip(3))));
                }
                i = i + 3;
                continue;
            }
        }
        proof {
            assert(t[0] == bytes@[i as int]);
            assert(t.skip(1) =~= bytes@.skip(i + 1));
        }
        let ghost before = result@;
        result.push(bytes[i]);
        proof {
            assert(result@ + decode_bytes(bytes@.skip(i + 1)) =~= before + (seq![t[0]]
                + decode_bytes(t.skip(1))));
        }
        i = i + 1;
    }
    proof {
        assert(bytes@.skip(bytes@.len() as int) =~= Seq::<u8>::empty());
        assert(result@ =~= result@ + Seq::<u8>::empty());
    }
    utf8_lossy(result.as_slice())
}

/// Percent-encodes a string for use in an Assuan response.
///
/// Encodes `%`, newlines, carriage returns, and other ASCII control characters.
pub fn percent_encode(s: &str) -> (r: String)
    ensures
        r@ == spec_percent_encode(s@),
{
    let chars = chars_of(s);
    let mut result = String::new();
    let mut i: usize = 0;
    while i < chars.len()
        invariant
            0 <= i <= chars@.len(),
            chars@ == s@,
            result@ == spec_percent_encode(chars@.take(i as int)),
        decreases chars.len() - i,
    {
        let c = chars[i];
        let code: u32 = c as u32;
        // `%`, and the ASCII control characters (newline and carriage
        // return among them)
        if code == 0x25 || code < 0x20 || code == 0x7f {
            string_push(&mut result, '%');
            string_push(&mut result, hex_upper_char((code / 16) as u8));
            string_push(&mut result, hex_upper_char((code % 16) as u8));
        } else {
            string_push(&mut result, c);
        }
        proof {
            assert(chars@.take(i + 1).drop_last() =~= chars@.take(i as int));
            assert(result@ =~= spec_percent_encode(chars@.take(i as int)) + encode_char(c));
        }
        i = i + 1;
    }
    proof {
        assert(chars@.take(chars@.len() as int) =~= chars@);
    }
    result
}

// ---------------------------------------------------------------------------
// Laws of the encoding
// ---------------------------------------------------------------------------

/// Whether no character of `cs` is an ASCII control character.
pub open spec fn no_ascii_control(cs: Seq<char>) -> bool {
    forall|i: int| 0 <= i < cs.len() ==> !((cs[i] as u32) < 0x20 || (cs[i] as u32) == 0x7f)
}

proof fn lemma_encode_concat(a: Seq<char>, b: Seq<char>)
    ensures
        spec_percent_encode(a + b) == spec_percent_encode(a) + spec_percent_encode(b),
    decreases b.len(),
{
    if b.len() == 0 {
        assert(a + b =~= a);
        assert(spec_percent_encode(a) + spec_percent_encode(b) =~= spec_percent_encode(a));
    } else {
        lemma_encode_concat(a, b.drop_last());
        assert((a + b).drop_last() =~= a + b.drop_last());
        assert((a + b).last() == b.last());
        assert(spec_percent_encode(a + b) =~= spec_percent_encode(a) + spec_percent_encode(b));
    }
}

proof fn lemma_encode_first(s: Seq<char>)
    requires
        s.len() > 0,
    ensures
        spec_percent_encode(s) == encode_char(s[0]) + spec_percent_encode(s.skip(1)),
{
    let c = s[0];
    assert(s =~= seq![c] + s.skip(1));
    lemma_encode_concat(seq![c], s.skip(1));
    assert(seq![c].drop_last() =~= Seq::<char>::empty());
    assert(seq![c].last() == c);
    assert(spec_percent_encode(Seq::<char>::empty()) == Seq::<char>::empty());
    assert(spec_percent_encode(seq![c]) =~= spec_percent_encode(Seq::<char>::empty())
        + encode_char(c));
}

proof fn lemma_utf8_concat(a: Seq<char>, b: Seq<char>)
    ensures
        encode_utf8(a + b) == encode_utf8(a) + encode_utf8(b),
    decreases a.len(),
{
    if a.len() == 0 {
        assert(a + b =~= b);
        assert(encode_utf8(a) + encode_utf8(b) =~= encode_utf8(b));
    } else {
        lemma_utf8_concat(a.drop_first(), b);
        assert((a + b).drop_first() =~= a.drop_first() + b);
        assert((a + b)[0] == a[0]);
        assert(encode_utf8(a + b) =~= encode_utf8(a) + encode_utf8(b));
    }
}

proof fn lemma_utf8_single(c: char)
    ensures
        encode_utf8(seq![c]) == encode_scalar(c as u32),
{
    assert(seq![c].drop_first() =~= Seq::<char>::empty());
    assert(encode_utf8(Seq::<char>::empty()) == Seq::<u8>::empty());
    assert(encode_utf8(seq![c]) =~= encode_scalar(c as u32) + Seq::<u8>::empty());
}

proof fn lemma_ascii_byte(x: u32)
    requires
        x < 0x80,
    ensures
        leading_byte_width_1(x) == x as u8,
        (leading_byte_width_1(x) as int) == x as int,
{
    assert((x & 0x7F) == x) by (bit_vector)
        requires
            x < 0x80,
    ;
    assert(((x & 0x7F) as u8) as int == x as int) by (bit_vector)
        requires
            x < 0x80,
    ;
}

proof fn lemma_hex_roundtrip(d: int)
    requires
        0 <= d < 16,
    ensures
        hex_value(leading_byte_width_1(hex_upper(d) as u32)) == Some(d),
        (hex_upper(d) as u32) < 0x7f,
        (hex_upper(d) as u32) >= 0x30,
{
    lemma_ascii_byte(hex_upper(d) as u32);
}

/// Whether no byte of `x` is `%`.
pub open spec fn no_percent_byte(x: Seq<u8>) -> bool {
    forall|k: int| 0 <= k < x.len() ==> #[trigger] x[k] != 0x25
}

/// No byte of the UTF-8 encoding of a character other than `%` is `%`.
proof fn lemma_no_percent_byte(c: char)
    requires
        (c as u32) != 0x25,
    ensures
        no_percent_byte(encode_scalar(c as u32)),
{
    let x = c as u32;
    if has_width_1_encoding(x) {
        lemma_ascii_byte(x);
        assert(x != 0x25);
    } else {
        assert(forall|y: u8| (0xC0u8 | y) >= 0x80u8) by (bit_vector);
        assert(forall|y: u8| (0xE0u8 | y) >= 0x80u8) by (bit_vector);
        assert(forall|y: u8| (0xF0u8 | y) >= 0x80u8) by (bit_vector);
        assert(forall|y: u8| (0x80u8 | y) >= 0x80u8) by (bit_vector);
        assert(leading_byte_width_2(x) >= 0x80);
        assert(leading_byte_width_3(x) >= 0x80);
        assert(leading_byte_width_4(x) >= 0x80);
        assert(last_continuation_byte(x) >= 0x80);
        assert(second_last_continuation_byte(x) >= 0x80);
        assert(third_last_continuation_byte(x) >= 0x80);
    }
}

/// Bytes with no `%` among them pass through decoding unchanged.
proof fn lemma_decode_passthrough(x: Seq<u8>, y: Seq<u8>)
    requires
        no_percent_byte(x),
    ensures
        decode_bytes(x + y) == x + decode_bytes(y),
    decreases x.len(),
{
    if x.len() == 0 {
        assert(x + y =~= y);
        assert(x + decode_bytes(y) =~= decode_bytes(y));
    } else {
        let z = x + y;
        assert(z[0] == x[0]);
        assert(z.skip(1) =~= x.skip(1) + y);
        assert forall|k: int| 0 <= k < x.skip(1).len() implies x.skip(1)[k] != 0x25 by {
            assert(x.skip(1)[k] == x[k + 1]);
        }
        lemma_decode_passthrough(x.skip(1), y);
        assert(decode_bytes(z) == seq![x[0]] + decode_bytes(z.skip(1)));
        assert(decode_bytes(z) =~= x + decode_bytes(y));
    }
}

proof fn lemma_decode_encoded(s: Seq<char>)
    ensures
        decode_bytes(encode_utf8(spec_percent_encode(s))) == encode_utf8(s),
    decreases s.len(),
{
    if s.len() == 0 {
        assert(spec_percent_encode(s) == Seq::<char>::empty());
        assert(encode_utf8(Seq::<char>::empty()) == Seq::<u8>::empty());
    } else {
        let c = s[0];
        let r = s.skip(1);
        lemma_encode_first(s);
        lemma_decode_encoded(r);
        lemma_utf8_concat(encode_char(c), spec_percent_encode(r));
        assert(s =~= seq![c] + r);
        lemma_utf8_concat(seq![c], r);
        lemma_utf8_single(c);
        let y = encode_utf8(spec_percent_encode(r));
        let z = encode_utf8(encode_char(c)) + y;
        if is_escaped(c) {
            let code = c as u32;
            let hi = (code / 16) as int;
            let lo = (code % 16) as int;
            lemma_hex_roundtrip(hi);
            lemma_hex_roundtrip(lo);
            lemma_ascii_byte(code);
            let e = encode_char(c);
            let h = hex_upper(hi);
            let l = hex_upper(lo);
            assert(e =~= seq!['%'] + (seq![h] + seq![l]));
            lemma_utf8_concat(seq!['%'], seq![h] + seq![l]);
            lemma_utf8_concat(seq![h], seq![l]);
            lemma_utf8_single('%');
            lemma_utf8_single(h);
            lemma_utf8_single(l);
            lemma_ascii_byte('%' as u32);
            assert(encode_utf8(e) =~= seq![
                0x25u8,
                leading_byte_width_1(hex_upper(hi) as u32),
                leading_byte_width_1(hex_upper(lo) as u32),
            ]);
            assert(z[0] == 0x25);
            assert(z.skip(3) =~= y);
            assert(hi * 16 + lo == code);
            assert(decode_bytes(z) == seq![(hi * 16 + lo) as u8] + decode_bytes(z.skip(3)));
            assert(encode_scalar(code) =~= seq![(hi * 16 + lo) as u8]);
            assert(decode_bytes(z) =~= encode_utf8(s));
        } else {
            lemma_no_percent_byte(c);
            lemma_decode_passthrough(encode_scalar(c as u32), y);
            assert(decode_bytes(z) =~= encode_utf8(s));
        }
    }
}

/// Percent-decoding undoes percent-encoding on every text.
pub proof fn law_percent_roundtrip(s: Seq<char>)
    ensures
        spec_percent_decode(spec_percent_encode(s)) == s,
{
    lemma_decode_encoded(s);
    encode_utf8_valid_utf8(s);
    encode_utf8_decode_utf8(s);
}

/// A text without `%` or ASCII control characters is left unchanged by
/// percent-encoding.
pub proof fn law_percent_encode_keeps_plain_text(s: Seq<char>)
    requires
        forall|i: int|
            0 <= i < s.len() ==> !((#[trigger] s[i] as u32) == 0x25 || (s[i] as u32) < 0x20 || (
            s[i] as u32) == 0x7f),
    ensures
        spec_percent_encode(s) == s,
    decreases s.len(),
{
    if s.len() > 0 {
        assert forall|i: int| 0 <= i < s.drop_last().len() implies !is_escaped(
            #[trigger] s.drop_last()[i],
        ) by {
            assert(s.drop_last()[i] == s[i]);
        }
        law_percent_encode_keeps_plain_text(s.drop_last());
        assert(!is_escaped(s[s.len() - 1]));
        assert(s =~= s.drop_last() + seq![s.last()]);
    }
}

/// Percent-encoding never produces an ASCII control character, so an
/// encoded text always fits on one Assuan line.
pub proof fn law_percent_encode_single_line(s: Seq<char>)
    ensures
        no_ascii_control(spec_percent_encode(s)),
    decreases s.len(),
{
    if s.len() > 0 {
        law_percent_encode_single_line(s.drop_last());
        let x = spec_percent_encode(s.drop_last());
        let c = s.last();
        let y = encode_char(c);
        if is_escaped(c) {
            lemma_hex_roundtrip(((c as u32) / 16) as int);
            lemma_hex_roundtrip(((c as u32) % 16) as int);
        }
        assert forall|i: int| 0 <= i < (x + y).len() implies !(((x + y)[i] as u32) < 0x20 || ((x
            + y)[i] as u32) == 0x7f) by {
            if i < x.len() {
                assert((x + y)[i] == x[i]);
            } else {
                assert((x + y)[i] == y[i - x.len()]);
            }
        }
    }
}

// ---------------------------------------------------------------------------
// Response lines
// ---------------------------------------------------------------------------

/// `OK` or `OK <msg>`, then a newline.
pub open spec fn ok_line(msg: Seq<char>) -> Seq<char> {
    (if msg.len() == 0 {
        "OK"@
    } else {
        "OK"@.push(' ') + msg
    }).push('\n')
}

/// `ERR <code> <msg>`, then a newline.
pub open spec fn err_line(code: u32, msg: Seq<char>) -> Seq<char> {
    ("ERR"@.push(' ') + decimal(code as nat)).push(' ').add(msg).push('\n')
}

/// `D <data>`, then a newline.
pub open spec fn data_line(data: Seq<char>) -> Seq<char> {
    "D"@.push(' ').add(data).push('\n')
}

/// Writes `OK [msg]` to `w`.
pub fn write_ok(w: &mut String, msg: &str)
    ensures
        final(w)@ == old(w)@ + ok_line(msg@),
{
    w.append("OK");
    if !msg.is_empty() {
        string_push(w, ' ');
        w.append(msg);
    }
    string_push(w, '\n');
    proof {
        assert(final(w)@ =~= old(w)@ + ok_line(msg@));
    }
}

/// Writes `ERR <code> <msg>` to `w`.
pub fn write_err(w: &mut String, code: u32, msg: &str)
    ensures
        final(w)@ == old(w)@ + err_line(code, msg@),
{
    w.append("ERR");
    string_push(w, ' ');
    push_decimal(w, code);
    string_push(w, ' ');
    w.append(msg);
    string_push(w, '\n');
    proof {
        assert(final(w)@ =~= old(w)@ + err_line(code, msg@));
    }
}

/// Writes `D <data>` to `w`.
pub fn write_data(w: &mut String, data: &str)
    ensures
        final(w)@ == old(w)@ + data_line(data@),
{
    w.append("D");
    string_push(w, ' ');
    w.append(data);
    string_push(w, '\n');
    proof {
        assert(final(w)@ =~= old(w)@ + data_line(data@));
    }
}


// ---------------------------------------------------------------------------
// Splitting a command line
// ---------------------------------------------------------------------------

/// The first word of `s` and the remainder after the first whitespace
/// character, with leading whitespace removed.
pub open spec fn spec_split_first_word(s: Seq<char>) -> (Seq<char>, Seq<char>) {
    let p = first_in(s, CharClass::Space);
    if p < s.len() {
        (s.take(p), trim_start(s.skip(p + 1)))
    } else {
        (s, Seq::empty())
    }
}

/// Splits a trimmed line into its first word and the remainder.
fn split_first_word(s: &str) -> (r: (&str, &str))
    ensures
        (r.0@, r.1@) == spec_split_first_word(s@),
{
    let v = chars_of(s);
    let pos = find_first(&v, CharClass::Space);
    proof {
        lemma_first_in(s@, CharClass::Space);
    }
    if pos < v.len() {
        let word = s.substring_char(0, pos);
        let rest = trim_start_str(s.substring_char(pos + 1, v.len()));
        proof {
            assert(s@.subrange(0, pos as int) =~= s@.take(pos as int));
            assert(s@.subrange(pos + 1, v.len() as int) =~= s@.skip(pos + 1));
        }
        (word, rest)
    } else {
        let rest = s.substring_char(v.len(), v.len());
        proof {
            assert(rest@ =~= Seq::<char>::empty());
        }
        (s, rest)
    }
}

// ---------------------------------------------------------------------------
// OPTION arguments
// ---------------------------------------------------------------------------

pub open spec fn none_if_empty(v: Seq<char>) -> Option<Seq<char>> {
    if v.len() == 0 {
        None
    } else {
        Some(v)
    }
}

/// `key=value`, `key value` or a bare `key`; in the `key=value` form the value
/// is kept as it stands, in the `key value` form it is trimmed.
pub open spec fn spec_parse_option(a: Seq<char>) -> SpecCommand {
    let eq = first_in(a, CharClass::Exactly('='));
    let sp = first_in(a, CharClass::Space);
    if eq < a.len() {
        SpecCommand::Option(trim(a.take(eq)), none_if_empty(a.skip(eq + 1)))
    } else if sp < a.len() {
        SpecCommand::Option(trim(a.take(sp)), none_if_empty(trim(a.skip(sp + 1))))
    } else {
        SpecCommand::Option(a, None)
    }
}

/// Parses the argument to an `OPTION` command into `Command::Option(key,
/// value)`.
///
/// Accepts `key=value`, `key value`, and bare `key` forms.
fn parse_option(arg: &str) -> (c: Command)
    ensures
        c@ == spec_parse_option(arg@),
{
    let v = chars_of(arg);
    let n = v.len();
    let eq = find_first(&v, CharClass::Exactly('='));
    proof {
        lemma_first_in(arg@, CharClass::Exactly('='));
        lemma_first_in(arg@, CharClass::Space);
    }
    if eq < n {
        let key = trim_str(arg.substring_char(0, eq)).to_string();
        let rest = arg.substring_char(eq + 1, n);
        let value = if rest.is_empty() {
            None
        } else {
            Some(rest.to_string())
        };
        proof {
            assert(arg@.subrange(0, eq as int) =~= arg@.take(eq as int));
            assert(arg@.subrange(eq + 1, n as int) =~= arg@.skip(eq + 1));
        }
        Command::Option(key, value)
    } else {
        let sp = find_first(&v, CharClass::Space);
        if sp < n {
            let key = trim_str(arg.substring_char(0, sp)).to_string();
            let rest = trim_str(arg.substring_char(sp + 1, n));
            let value = if rest.is_empty() {
                None
            } else {
                Some(rest.to_string())
            };
            proof {
                assert(arg@.subrange(0, sp as int) =~= arg@.take(sp as int));
                assert(arg@.subrange(sp + 1, n as int) =~= arg@.skip(sp + 1));
            }
            Command::Option(key, value)
        } else {
            Command::Option(arg.to_string(), None)
        }
    }
}

// ---------------------------------------------------------------------------
// SETTIMEOUT argument
// ---------------------------------------------------------------------------

pub open spec fn is_digit(c: char) -> bool {
    '0' <= c && c <= '9'
}

/// Value of a sequence of decimal digits.
pub open spec fn digits_value(s: Seq<char>) -> nat
    decreases s.len(),
{
    if s.len() == 0 {
        0
    } else {
        digits_value(s.drop_last()) * 10 + ((s.last() as u32) - 48) as nat
    }
}

/// `s` without a leading `+`.
pub open spec fn unsigned_part(s: Seq<char>) -> Seq<char> {
    if s.len() > 0 && s[0] == '+' {
        s.drop_first()
    } else {
        s
    }
}

pub open spec fn all_digits(s: Seq<char>) -> bool {
    forall|i: int| 0 <= i < s.len() ==> is_digit(#[trigger] s[i])
}

/// `str::parse::<u32>`: an optional `+`, then one or more ASCII digits whose
/// value fits in a `u32`.
pub open spec fn spec_parse_u32(s: Seq<char>) -> Option<u32> {
    let d = unsigned_part(s);
    if d.len() > 0 && all_digits(d) && digits_value(d) <= u32::MAX {
        Some(digits_value(d) as u32)
    } else {
        None
    }
}

proof fn lemma_digits_value_monotone(s: Seq<char>, i: int, j: int)
    requires
        0 <= i <= j <= s.len(),
        forall|k: int| 0 <= k < s.len() ==> is_digit(#[trigger] s[k]),
    ensures
        digits_value(s.take(i)) <= digits_value(s.take(j)),
    decreases j - i,
{
    if i < j {
        lemma_digits_value_monotone(s, i, j - 1);
        assert(s.take(j).drop_last() =~= s.take(j - 1));
        assert(s.take(j).last() == s[j - 1]);
    }
}

/// Parses a `u32` as `str::parse` does (`None` where it returns an error).
fn parse_u32(s: &str) -> (r: Option<u32>)
    ensures
        r == spec_parse_u32(s@),
{
    let v = chars_of(s);
    let n = v.len();
    let start: usize = if n > 0 && v[0] == '+' {
        1
    } else {
        0
    };
    let ghost d = unsigned_part(s@);
    proof {
        assert(d =~= s@.skip(start as int));
    }
    if start == n {
        return None;
    }
    let mut value: u64 = 0;
    let mut i: usize = start;
    while i < n
        invariant
            v@ == s@,
            n == v.len(),
            start <= i <= n,
            d =~= s@.skip(start as int),
            d == unsigned_part(s@),
            forall|k: int| 0 <= k < i - start ==> is_digit(#[trigger] d[k]),
            value == digits_value(d.take(i - start)),
            value <= u32::MAX,
        decreases n - i,
    {
        let c = v[i];
        if !(c >= '0' && c <= '9') {
            proof {
                assert(d[i - start] == v@[i as int]);
                assert(!is_digit(d[i - start]));
            }
            return None;
        }
        let dig: u64 = ((c as u32) - 48) as u64;
        proof {
            assert(d.take(i - start + 1).drop_last() =~= d.take(i - start));
            assert(d.take(i - start + 1).last() == d[i - start]);
        }
        value = value * 10 + dig;
        if value > 0xffff_ffff {
            proof {
                if all_digits(d) {
                    lemma_digits_value_monotone(d, i - start + 1, d.len() as int);
                    assert(d.take(d.len() as int) =~= d);
                }
            }
            return None;
        }
        i = i + 1;
    }
    proof {
        assert(d.take(n - start) =~= d);
    }
    Some(value as u32)
}


// ---------------------------------------------------------------------------
// Commands
// ---------------------------------------------------------------------------

/// What `parse_command` makes of a line: the first word, compared without
/// regard to ASCII case, selects the command; the rest of the line is its
/// argument.
pub open spec fn spec_parse_command(line: Seq<char>) -> SpecCommand {
    let (kw, rest) = spec_split_first_word(line);
    let up = ascii_upper(kw);
    if up == "SETDESC"@ {
        SpecCommand::SetDesc(spec_percent_decode(rest))
    } else if up == "SETPROMPT"@ {
        SpecCommand::SetPrompt(spec_percent_decode(rest))
    } else if up == "SETTITLE"@ {
        SpecCommand::SetTitle(spec_percent_decode(rest))
    } else if up == "SETOK"@ {
        SpecCommand::SetOk(spec_percent_decode(rest))
    } else if up == "SETCANCEL"@ {
        SpecCommand::SetCancel(spec_percent_decode(rest))
    } else if up == "SETNOTOK"@ {
        SpecCommand::SetNotOk(spec_percent_decode(rest))
    } else if up == "SETERROR"@ {
        SpecCommand::SetError(spec_percent_decode(rest))
    } else if up == "SETTIMEOUT"@ {
        SpecCommand::SetTimeout(
            match spec_parse_u32(rest) {
                Some(t) => t,
                None => 0,
            },
        )
    } else if up == "SETKEYINFO"@ {
        SpecCommand::SetKeyInfo(spec_percent_decode(rest))
    } else if up == "SETREPEAT"@ {
        SpecCommand::SetRepeat(spec_percent_decode(rest))
    } else if up == "SETREPEATERROR"@ {
        SpecCommand::SetRepeatError(spec_percent_decode(rest))
    } else if up == "SETQUALITYBAR"@ {
        SpecCommand::SetQualityBar(
            if rest.len() == 0 {
                None
            } else {
                Some(spec_percent_decode(rest))
            },
        )
    } else if up == "SETQUALITYBAR_TT"@ {
        SpecCommand::SetQualityBarTooltip(spec_percent_decode(rest))
    } else if up == "GETPIN"@ {
        SpecCommand::GetPin
    } else if up == "CONFIRM"@ {
        SpecCommand::Confirm { one_button: contains_seq(rest, "--one-button"@) }
    } else if up == "MESSAGE"@ {
        SpecCommand::Message
    } else if up == "GETINFO"@ {
        SpecCommand::GetInfo(rest)
    } else if up == "OPTION"@ {
        spec_parse_option(rest)
    } else if up == "RESET"@ {
        SpecCommand::Reset
    } else if up == "BYE"@ {
        SpecCommand::Bye
    } else if up == "NOP"@ {
        SpecCommand::Nop
    } else {
        SpecCommand::Unknown(kw)
    }
}

/// Parses a single Assuan command line into a `Command`.
pub fn parse_command(line: &str) -> (c: Command)
    ensures
        c@ == spec_parse_command(line@),
{
    let (keyword, rest) = split_first_word(line);
    let kw = chars_of(keyword);
    let up = CaseFold::Upper;
    if folded_is(&kw, up, "SETDESC") {
        Command::SetDesc(percent_decode(rest))
    } else if folded_is(&kw, up, "SETPROMPT") {
        Command::SetPrompt(percent_decode(rest))
    } else if folded_is(&kw, up, "SETTITLE") {
        Command::SetTitle(percent_decode(rest))
    } else if folded_is(&kw, up, "SETOK") {
        Command::SetOk(percent_decode(rest))
    } else if folded_is(&kw, up, "SETCANCEL") {
        Command::SetCancel(percent_decode(rest))
    } else if folded_is(&kw, up, "SETNOTOK") {
        Command::SetNotOk(percent_decode(rest))
    } else if folded_is(&kw, up, "SETERROR") {
        Command::SetError(percent_decode(rest))
    } else if folded_is(&kw, up, "SETTIMEOUT") {
        Command::SetTimeout(
            match parse_u32(rest) {
                Some(t) => t,
                None => 0,
            },
        )
    } else if folded_is(&kw, up, "SETKEYINFO") {
        Command::SetKeyInfo(percent_decode(rest))
    } else if folded_is(&kw, up, "SETREPEAT") {
        Command::SetRepeat(percent_decode(rest))
    } else if folded_is(&kw, up, "SETREPEATERROR") {
        Command::SetRepeatError(percent_decode(rest))
    } else if folded_is(&kw, up, "SETQUALITYBAR") {
        if rest.is_empty() {
            Command::SetQualityBar(None)
        } else {
            Command::SetQualityBar(Some(percent_decode(rest)))
        }
    } else if folded_is(&kw, up, "SETQUALITYBAR_TT") {
        Command::SetQualityBarTooltip(percent_decode(rest))
    } else if folded_is(&kw, up, "GETPIN") {
        Command::GetPin
    } else if folded_is(&kw, up, "CONFIRM") {
        Command::Confirm { one_button: contains_lit(rest, "--one-button") }
    } else if folded_is(&kw, up, "MESSAGE") {
        Command::Message
    } else if folded_is(&kw, up, "GETINFO") {
        Command::GetInfo(rest.to_string())
    } else if folded_is(&kw, up, "OPTION") {
        parse_option(rest)
    } else if folded_is(&kw, up, "RESET") {
        Command::Reset
    } else if folded_is(&kw, up, "BYE") {
        Command::Bye
    } else if folded_is(&kw, up, "NOP") {
        Command::Nop
    } else {
        Command::Unknown(keyword.to_string())
    }
}


// ---------------------------------------------------------------------------
// Applying commands to the session state
// ---------------------------------------------------------------------------

/// The first character of an optional text, if there is one.
pub open spec fn first_char(v: Option<Seq<char>>) -> Option<char> {
    match v {
        Some(s) => if s.len() > 0 {
            Some(s[0])
        } else {
            None
        },
        None => None,
    }
}

/// The session state after `OPTION key [value]`; keys it does not know leave
/// the state unchanged.
pub open spec fn spec_apply_option(
    st: StateView,
    key: Seq<char>,
    value: Option<Seq<char>>,
) -> StateView {
    if key == "ttyname"@ {
        StateView { ttyname: value, ..st }
    } else if key == "ttytype"@ {
        StateView { ttytype: value, ..st }
    } else if key == "lc-ctype"@ {
        StateView { lc_ctype: value, ..st }
    } else if key == "lc-messages"@ {
        StateView { lc_messages: value, ..st }
    } else if key == "display"@ {
        StateView { display: value, ..st }
    } else if key == "grab"@ {
        StateView { grab: true, ..st }
    } else if key == "no-grab"@ {
        StateView { grab: false, ..st }
    } else if key == "invisible-char"@ {
        StateView { invisible_char: first_char(value), ..st }
    } else if key == "formatted-passphrase"@ {
        StateView { formatted_passphrase: true, ..st }
    } else {
        st
    }
}

/// Applies a key-value option from an `OPTION` command to `state`.
///
/// Unknown option keys are silently ignored per the Assuan spec.
fn apply_option(state: &mut PinentryState, key: &str, value: Option<String>)
    ensures
        final(state)@ == spec_apply_option(old(state)@, key@, value.deep_view()),
{
    if str_is(key, "ttyname") {
        state.ttyname = value;
    } else if str_is(key, "ttytype") {
        state.ttytype = value;
    } else if str_is(key, "lc-ctype") {
        state.lc_ctype = value;
    } else if str_is(key, "lc-messages") {
        state.lc_messages = value;
    } else if str_is(key, "display") {
        state.display = value;
    } else if str_is(key, "grab") {
        state.grab = true;
    } else if str_is(key, "no-grab") {
        state.grab = false;
    } else if str_is(key, "invisible-char") {
        state.invisible_char = match value {
            Some(s) => {
                let v = chars_of(s.as_str());
                if v.len() > 0 {
                    Some(v[0])
                } else {
                    None
                }
            },
            None => None,
        };
    } else if str_is(key, "formatted-passphrase") {
        state.formatted_passphrase = true;
    }
}

/// `-` where a session field is unset.
pub open spec fn or_dash(v: Option<Seq<char>>) -> Seq<char> {
    match v {
        Some(s) => s,
        None => "-"@,
    }
}

/// The response to `GETINFO <info>` (the query compared without regard to
/// ASCII case); `version` and `pid` are the program's own.
pub open spec fn spec_getinfo(st: StateView, info: Seq<char>, version: Seq<char>, pid: u32) -> Seq<
    char,
> {
    let q = ascii_lower(info);
    if q == "version"@ {
        data_line(version) + ok_line(""@)
    } else if q == "pid"@ {
        data_line(decimal(pid as nat)) + ok_line(""@)
    } else if q == "flavor"@ {
        data_line("cadenza"@) + ok_line(""@)
    } else if q == "ttyinfo"@ {
        data_line(
            or_dash(st.ttyname).push(' ') + or_dash(st.ttytype).push(' ') + or_dash(
                st.lc_ctype,
            ).push(' ') + or_dash(st.lc_messages),
        ) + ok_line(""@)
    } else {
        err_line(ERR_UNKNOWN_IPC_COMMAND, "unknown getinfo query"@)
    }
}

fn append_or_dash(out: &mut String, v: &Option<String>)
    ensures
        final(out)@ == old(out)@ + or_dash(v.deep_view()),
{
    match v {
        Some(s) => out.append(s.as_str()),
        None => out.append("-"),
    }
}

/// Handles a `GETINFO` command, writing the response to `out`.
fn dispatch_getinfo(out: &mut String, state: &PinentryState, info: &str, version: &str, pid: u32)
    ensures
        final(out)@ == old(out)@ + spec_getinfo(state@, info@, version@, pid),
{
    let q = chars_of(info);
    let low = CaseFold::Lower;
    if folded_is(&q, low, "version") {
        write_data(out, version);
        write_ok(out, "");
    } else if folded_is(&q, low, "pid") {
        let mut digits = String::new();
        push_decimal(&mut digits, pid);
        write_data(out, digits.as_str());
        write_ok(out, "");
    } else if folded_is(&q, low, "flavor") {
        write_data(out, "cadenza");
        write_ok(out, "");
    } else if folded_is(&q, low, "ttyinfo") {
        let mut line = String::new();
        append_or_dash(&mut line, &state.ttyname);
        string_push(&mut line, ' ');
        append_or_dash(&mut line, &state.ttytype);
        string_push(&mut line, ' ');
        append_or_dash(&mut line, &state.lc_ctype);
        string_push(&mut line, ' ');
        append_or_dash(&mut line, &state.lc_messages);
        write_data(out, line.as_str());
        write_ok(out, "");
    } else {
        write_err(out, ERR_UNKNOWN_IPC_COMMAND, "unknown getinfo query");
    }
    proof {
        assert(final(out)@ =~= old(out)@ + spec_getinfo(state@, info@, version@, pid));
    }
}

/// One command carried out: the new session state, the response text and
/// whether the connection closes.
pub open spec fn spec_run_command(
    st: StateView,
    cmd: SpecCommand,
    version: Seq<char>,
    pid: u32,
) -> (StateView, Seq<char>, bool) {
    let ok = ok_line(""@);
    let not_yet = err_line(ERR_NOT_IMPLEMENTED, "Not yet implemented"@);
    match cmd {
        SpecCommand::SetDesc(s) => (StateView { desc: Some(s), ..st }, ok, false),
        SpecCommand::SetPrompt(s) => (StateView { prompt: Some(s), ..st }, ok, false),
        SpecCommand::SetTitle(s) => (StateView { title: Some(s), ..st }, ok, false),
        SpecCommand::SetOk(s) => (StateView { ok_label: Some(s), ..st }, ok, false),
        SpecCommand::SetCancel(s) => (StateView { cancel_label: Some(s), ..st }, ok, false),
        SpecCommand::SetNotOk(s) => (StateView { notok_label: Some(s), ..st }, ok, false),
        SpecCommand::SetError(s) => (StateView { error: Some(s), ..st }, ok, false),
        SpecCommand::SetTimeout(t) => (StateView { timeout: Some(t), ..st }, ok, false),
        SpecCommand::SetKeyInfo(s) => (StateView { keyinfo: Some(s), ..st }, ok, false),
        SpecCommand::SetRepeat(s) => (StateView { repeat_prompt: Some(s), ..st }, ok, false),
        SpecCommand::SetRepeatError(s) => (StateView { repeat_error: Some(s), ..st }, ok, false),
        SpecCommand::SetQualityBar(l) => (
            StateView {
                quality_bar: Some(
                    match l {
                        Some(x) => x,
                        None => Seq::empty(),
                    },
                ),
                ..st
            },
            ok,
            false,
        ),
        SpecCommand::SetQualityBarTooltip(s) => (
            StateView { quality_bar_tt: Some(s), ..st },
            ok,
            false,
        ),
        SpecCommand::GetPin => (st.reset(), not_yet, false),
        SpecCommand::Confirm { .. } => (st.reset(), not_yet, false),
        SpecCommand::Message => (st.reset(), not_yet, false),
        SpecCommand::GetInfo(info) => (st, spec_getinfo(st, info, version, pid), false),
        SpecCommand::Option(key, value) => (spec_apply_option(st, key, value), ok, false),
        SpecCommand::Reset => (st.reset(), ok, false),
        SpecCommand::Bye => (st, ok_line("closing connection"@), true),
        SpecCommand::Nop => (st, ok, false),
        SpecCommand::Unknown(c) => (
            st,
            err_line(ERR_UNKNOWN_IPC_COMMAND, "unknown command '"@ + c + "'"@),
            false,
        ),
    }
}

/// Whether a (trimmed) line is skipped: blank lines and `#` comments.
pub open spec fn is_skipped(t: Seq<char>) -> bool {
    t.len() == 0 || t[0] == '#'
}

/// One line read by the server loop: the line is trimmed, blank lines and
/// comments are skipped, anything else is parsed and carried out.
pub open spec fn spec_server_step(
    st: StateView,
    line: Seq<char>,
    version: Seq<char>,
    pid: u32,
) -> (StateView, Seq<char>, bool) {
    let t = trim(line);
    if is_skipped(t) {
        (st, Seq::empty(), false)
    } else {
        spec_run_command(st, spec_parse_command(t), version, pid)
    }
}

/// Carries out one line received by the Assuan server: updates `state` and
/// returns the response text to write and whether the connection closes
/// (after `BYE`).
pub fn server_step(state: &mut PinentryState, line: &str, version: &str, pid: u32) -> (r: (
    String,
    bool,
))
    ensures
        (final(state)@, r.0@, r.1) == spec_server_step(old(state)@, line@, version@, pid),
{
    let mut out = String::new();
    let t = trim_str(line);
    let tv = chars_of(t);
    if tv.len() == 0 || tv[0] == '#' {
        return (out, false);
    }
    let close = match parse_command(t) {
        Command::SetDesc(s) => {
            state.desc = Some(s);
            write_ok(&mut out, "");
            false
        },
        Command::SetPrompt(s) => {
            state.prompt = Some(s);
            write_ok(&mut out, "");
            false
        },
        Command::SetTitle(s) => {
            state.title = Some(s);
            write_ok(&mut out, "");
            false
        },
        Command::SetOk(s) => {
            state.ok_label = Some(s);
            write_ok(&mut out, "");
            false
        },
        Command::SetCancel(s) => {
            state.cancel_label = Some(s);
            write_ok(&mut out, "");
            false
        },
        Command::SetNotOk(s) => {
            state.notok_label = Some(s);
            write_ok(&mut out, "");
            false
        },
        Command::SetError(s) => {
            state.error = Some(s);
            write_ok(&mut out, "");
            false
        },
        Command::SetTimeout(secs) => {
            state.timeout = Some(secs);
            write_ok(&mut out, "");
            false
        },
        Command::SetKeyInfo(s) => {
            state.keyinfo = Some(s);
            write_ok(&mut out, "");
            false
        },
        Command::SetRepeat(s) => {
            state.repeat_prompt = Some(s);
            write_ok(&mut out, "");
            false
        },
        Command::SetRepeatError(s) => {
            state.repeat_error = Some(s);
            write_ok(&mut out, "");
            false
        },
        Command::SetQualityBar(label) => {
            // empty string signals "show with default label"
            state.quality_bar = Some(
                match label {
                    Some(l) => l,
                    None => String::new(),
                },
            );
            write_ok(&mut out, "");
            false
        },
        Command::SetQualityBarTooltip(s) => {
            state.quality_bar_tt = Some(s);
            write_ok(&mut out, "");
            false
        },
        Command::GetPin => {
            write_err(&mut out, ERR_NOT_IMPLEMENTED, "Not yet implemented");
            state.reset_per_request();
            false
        },
        Command::Confirm { one_button: _ } => {
            write_err(&mut out, ERR_NOT_IMPLEMENTED, "Not yet implemented");
            state.reset_per_request();
            false
        },
        Command::Message => {
            write_err(&mut out, ERR_NOT_IMPLEMENTED, "Not yet implemented");
            state.reset_per_request();
            false
        },
        Command::GetInfo(info) => {
            dispatch_getinfo(&mut out, state, info.as_str(), version, pid);
            false
        },
        Command::Option(key, value) => {
            apply_option(state, key.as_str(), value);
            write_ok(&mut out, "");
            false
        },
        Command::Reset => {
            state.reset_per_request();
            write_ok(&mut out, "");
            false
        },
        Command::Bye => {
            write_ok(&mut out, "closing connection");
            true
        },
        Command::Nop => {
            write_ok(&mut out, "");
            false
        },
        Command::Unknown(cmd) => {
            let mut msg = String::new();
            msg.append("unknown command '");
            msg.append(cmd.as_str());
            msg.append("'");
            write_err(&mut out, ERR_UNKNOWN_IPC_COMMAND, msg.as_str());
            false
        },
    };
    proof {
        assert(out@ =~= Seq::<char>::empty() + out@);
    }
    (out, close)
}


/// Only `OPTION` changes the session-scoped fields: whatever else a line
/// holds (`RESET` and the dialog commands included), they survive it.
pub proof fn law_session_survives_non_option(
    st: StateView,
    line: Seq<char>,
    version: Seq<char>,
    pid: u32,
)
    requires
        !(spec_parse_command(trim(line)) is Option),
    ensures
        spec_server_step(st, line, version, pid).0.same_session(st),
{
}

/// The connection closes exactly when the line is `BYE`; every other line
/// that is not blank or a comment is answered with a response ending in a
/// newline, and blank and comment lines are not answered.
pub proof fn law_every_command_answered(
    st: StateView,
    line: Seq<char>,
    version: Seq<char>,
    pid: u32,
)
    ensures
        spec_server_step(st, line, version, pid).2 == (!is_skipped(trim(line)) && spec_parse_command(
            trim(line),
        ) is Bye),
        is_skipped(trim(line)) ==> spec_server_step(st, line, version, pid).1.len() == 0,
        !is_skipped(trim(line)) ==> {
            let out = spec_server_step(st, line, version, pid).1;
            out.len() > 0 && out.last() == '\n'
        },
{
    let t = trim(line);
    if !is_skipped(t) {
        let out = spec_server_step(st, line, version, pid).1;
        match spec_parse_command(t) {
            SpecCommand::GetInfo(info) => {
                let q = ascii_lower(info);
                let ok = ok_line(""@);
                assert(ok.last() == '\n');
                if q == "version"@ || q == "pid"@ || q == "flavor"@ || q == "ttyinfo"@ {
                    assert(out.last() == ok.last());
                }
            },
            _ => {},
        }
    }
}

/// An `OPTION` whose key the pinentry does not know leaves the state
/// unchanged.
pub proof fn law_unknown_option_ignored(st: StateView, key: Seq<char>, value: Option<Seq<char>>)
    requires
        key != "ttyname"@,
        key != "ttytype"@,
        key != "lc-ctype"@,
        key != "lc-messages"@,
        key != "display"@,
        key != "grab"@,
        key != "no-grab"@,
        key != "invisible-char"@,
        key != "formatted-passphrase"@,
    ensures
        spec_apply_option(st, key, value) == st,
{
}

/// `RESET` and `OPTION` commute: an option set before a reset survives it,
/// and one set after it lands on the reset state the same way.
pub proof fn law_reset_option_commute(st: StateView, key: Seq<char>, value: Option<Seq<char>>)
    ensures
        spec_apply_option(st, key, value).reset() == spec_apply_option(st.reset(), key, value),
{
}

/// The keyword of a line and its argument, as `parse_command` reads them:
/// the first word in ASCII upper case, and the rest of the line.
pub open spec fn keyword_of(line: Seq<char>) -> Seq<char> {
    ascii_upper(spec_split_first_word(line).0)
}

pub open spec fn argument_of(line: Seq<char>) -> Seq<char> {
    spec_split_first_word(line).1
}

/// The length and some characters of each keyword.
proof fn reveal_keywords()
    ensures
        "SETDESC"@.len() == 7 && "SETDESC"@[0] == 'S' && "SETDESC"@[3] == 'D',
        "SETPROMPT"@.len() == 9 && "SETPROMPT"@[0] == 'S' && "SETPROMPT"@[3] == 'P',
        "SETTITLE"@.len() == 8 && "SETTITLE"@[0] == 'S' && "SETTITLE"@[3] == 'T',
        "SETOK"@.len() == 5 && "SETOK"@[0] == 'S' && "SETOK"@[3] == 'O',
        "SETCANCEL"@.len() == 9 && "SETCANCEL"@[0] == 'S' && "SETCANCEL"@[3] == 'C',
        "SETNOTOK"@.len() == 8 && "SETNOTOK"@[0] == 'S' && "SETNOTOK"@[3] == 'N',
        "SETERROR"@.len() == 8 && "SETERROR"@[0] == 'S' && "SETERROR"@[3] == 'E',
        "SETTIMEOUT"@.len() == 10 && "SETTIMEOUT"@[0] == 'S' && "SETTIMEOUT"@[3] == 'T',
        "SETKEYINFO"@.len() == 10 && "SETKEYINFO"@[0] == 'S' && "SETKEYINFO"@[3] == 'K',
        "SETREPEAT"@.len() == 9 && "SETREPEAT"@[0] == 'S' && "SETREPEAT"@[3] == 'R',
        "SETREPEATERROR"@.len() == 14 && "SETREPEATERROR"@[0] == 'S' && "SETREPEATERROR"@[3] == 'R',
        "SETQUALITYBAR"@.len() == 13 && "SETQUALITYBAR"@[0] == 'S' && "SETQUALITYBAR"@[3] == 'Q',
        "SETQUALITYBAR_TT"@.len() == 16 && "SETQUALITYBAR_TT"@[0] == 'S' && "SETQUALITYBAR_TT"@[3] == 'Q',
        "GETPIN"@.len() == 6 && "GETPIN"@[0] == 'G' && "GETPIN"@[3] == 'P',
        "CONFIRM"@.len() == 7 && "CONFIRM"@[0] == 'C' && "CONFIRM"@[3] == 'F',
        "MESSAGE"@.len() == 7 && "MESSAGE"@[0] == 'M' && "MESSAGE"@[3] == 'S',
        "GETINFO"@.len() == 7 && "GETINFO"@[0] == 'G' && "GETINFO"@[3] == 'I',
        "OPTION"@.len() == 6 && "OPTION"@[0] == 'O' && "OPTION"@[3] == 'I',
        "RESET"@.len() == 5 && "RESET"@[0] == 'R' && "RESET"@[3] == 'E',
        "BYE"@.len() == 3 && "BYE"@[0] == 'B',
        "NOP"@.len() == 3 && "NOP"@[0] == 'N',
{
    reveal_strlit("SETDESC");
    reveal_strlit("SETPROMPT");
    reveal_strlit("SETTITLE");
    reveal_strlit("SETOK");
    reveal_strlit("SETCANCEL");
    reveal_strlit("SETNOTOK");
    reveal_strlit("SETERROR");
    reveal_strlit("SETTIMEOUT");
    reveal_strlit("SETKEYINFO");
    reveal_strlit("SETREPEAT");
    reveal_strlit("SETREPEATERROR");
    reveal_strlit("SETQUALITYBAR");
    reveal_strlit("SETQUALITYBAR_TT");
    reveal_strlit("GETPIN");
    reveal_strlit("CONFIRM");
    reveal_strlit("MESSAGE");
    reveal_strlit("GETINFO");
    reveal_strlit("OPTION");
    reveal_strlit("RESET");
    reveal_strlit("BYE");
    reveal_strlit("NOP");
}

/// Every `SET*` command that carries text holds its argument percent-decoded
/// (`SETQUALITYBAR` holds no label when the argument is empty), and the other
/// keywords give the command they name, whatever the case of the keyword.
pub proof fn law_parse_command_keywords(line: Seq<char>)
    ensures
        ({
            let up = keyword_of(line);
            let d = spec_percent_decode(argument_of(line));
            let c = spec_parse_command(line);
            &&& up == "SETDESC"@ ==> c == SpecCommand::SetDesc(d)
            &&& up == "SETPROMPT"@ ==> c == SpecCommand::SetPrompt(d)
            &&& up == "SETTITLE"@ ==> c == SpecCommand::SetTitle(d)
            &&& up == "SETOK"@ ==> c == SpecCommand::SetOk(d)
            &&& up == "SETCANCEL"@ ==> c == SpecCommand::SetCancel(d)
            &&& up == "SETNOTOK"@ ==> c == SpecCommand::SetNotOk(d)
            &&& up == "SETERROR"@ ==> c == SpecCommand::SetError(d)
            &&& up == "SETKEYINFO"@ ==> c == SpecCommand::SetKeyInfo(d)
            &&& up == "SETREPEAT"@ ==> c == SpecCommand::SetRepeat(d)
            &&& up == "SETREPEATERROR"@ ==> c == SpecCommand::SetRepeatError(d)
            &&& up == "SETQUALITYBAR_TT"@ ==> c == SpecCommand::SetQualityBarTooltip(d)
            &&& up == "SETQUALITYBAR"@ && argument_of(line).len() > 0 ==> c
                == SpecCommand::SetQualityBar(Some(d))
            &&& up == "SETQUALITYBAR"@ && argument_of(line).len() == 0 ==> c
                == SpecCommand::SetQualityBar(None)
            &&& up == "GETPIN"@ ==> c == SpecCommand::GetPin
            &&& up == "MESSAGE"@ ==> c == SpecCommand::Message
            &&& up == "CONFIRM"@ ==> c is Confirm
            &&& up == "GETINFO"@ ==> c == SpecCommand::GetInfo(argument_of(line))
            &&& up == "OPTION"@ ==> c is Option
            &&& up == "RESET"@ ==> c == SpecCommand::Reset
            &&& up == "BYE"@ ==> c == SpecCommand::Bye
            &&& up == "NOP"@ ==> c == SpecCommand::Nop
        }),
{
    reveal_keywords();
    let up = keyword_of(line);
    if up.len() > 3 {
        assert(up[0] == up[0] && up[3] == up[3]);
    } else if up.len() > 0 {
        assert(up[0] == up[0]);
    }
}

proof fn lemma_keyword_line_not_skipped(t: Seq<char>)
    requires
        keyword_of(t).len() > 0,
        keyword_of(t)[0] != '#',
    ensures
        !is_skipped(t),
{
    lemma_first_in(t, CharClass::Space);
    let kw = spec_split_first_word(t).0;
    assert(kw.len() > 0);
    assert(kw[0] == t[0]);
}

/// `OK` and a newline, the response to a command that succeeds.
pub open spec fn plain_ok() -> Seq<char> {
    seq!['O', 'K', '\n']
}

proof fn lemma_plain_ok()
    ensures
        ok_line(""@) == plain_ok(),
{
    reveal_strlit("");
    reveal_strlit("OK");
    assert(ok_line(""@) =~= plain_ok());
}

/// A `SET*` line stores its decoded argument in the field it names, leaves
/// every other field as it was, and is answered `OK`.
pub proof fn law_set_command_stores_argument(
    st: StateView,
    line: Seq<char>,
    version: Seq<char>,
    pid: u32,
)
    ensures
        ({
            let t = trim(line);
            let up = keyword_of(t);
            let d = spec_percent_decode(argument_of(t));
            let r = spec_server_step(st, line, version, pid);
            let ok = plain_ok();
            &&& up == "SETDESC"@ ==> r == (StateView { desc: Some(d), ..st }, ok, false)
            &&& up == "SETPROMPT"@ ==> r == (StateView { prompt: Some(d), ..st }, ok, false)
            &&& up == "SETTITLE"@ ==> r == (StateView { title: Some(d), ..st }, ok, false)
            &&& up == "SETOK"@ ==> r == (StateView { ok_label: Some(d), ..st }, ok, false)
            &&& up == "SETCANCEL"@ ==> r == (StateView { cancel_label: Some(d), ..st }, ok, false)
            &&& up == "SETNOTOK"@ ==> r == (StateView { notok_label: Some(d), ..st }, ok, false)
            &&& up == "SETERROR"@ ==> r == (StateView { error: Some(d), ..st }, ok, false)
            &&& up == "SETKEYINFO"@ ==> r == (StateView { keyinfo: Some(d), ..st }, ok, false)
            &&& up == "SETREPEAT"@ ==> r == (StateView { repeat_prompt: Some(d), ..st }, ok, false)
            &&& up == "SETREPEATERROR"@ ==> r == (
                StateView { repeat_error: Some(d), ..st },
                ok,
                false,
            )
            &&& up == "SETQUALITYBAR_TT"@ ==> r == (
                StateView { quality_bar_tt: Some(d), ..st },
                ok,
                false,
            )
            &&& up == "SETQUALITYBAR"@ && argument_of(t).len() > 0 ==> r == (
                StateView { quality_bar: Some(d), ..st },
                ok,
                false,
            )
            &&& up == "SETQUALITYBAR"@ && argument_of(t).len() == 0 ==> r == (
                StateView { quality_bar: Some(Seq::empty()), ..st },
                ok,
                false,
            )
            &&& up == "SETTIMEOUT"@ && spec_parse_u32(argument_of(t)) is Some ==> r == (
                StateView { timeout: spec_parse_u32(argument_of(t)), ..st },
                ok,
                false,
            )
            &&& up == "SETTIMEOUT"@ && spec_parse_u32(argument_of(t)) is None ==> r == (
                StateView { timeout: Some(0), ..st },
                ok,
                false,
            )
        }),
{
    reveal_keywords();
    lemma_plain_ok();
    let t = trim(line);
    let up = keyword_of(t);
    law_parse_command_keywords(t);
    if up.len() > 0 && up[0] == 'S' {
        lemma_keyword_line_not_skipped(t);
    }
}

proof fn reveal_queries()
    ensures
        "version"@.len() == 7 && "version"@[0] == 'v',
        "pid"@.len() == 3,
        "flavor"@.len() == 6,
        "ttyinfo"@.len() == 7 && "ttyinfo"@[0] == 't',
        "-"@ == seq!['-'],
        "D"@ == seq!['D'],
{
    reveal_strlit("version");
    reveal_strlit("pid");
    reveal_strlit("flavor");
    reveal_strlit("ttyinfo");
    reveal_strlit("-");
    reveal_strlit("D");
    assert("-"@ =~= seq!['-']);
    assert("D"@ =~= seq!['D']);
}

/// `GETINFO ttyinfo` answers one data line holding the terminal name, the
/// terminal type, the `LC_CTYPE` and the `LC_MESSAGES` locale, in that order,
/// separated by spaces, with `-` for each one not set; the state is not
/// changed.
pub proof fn law_ttyinfo_field_order(
    st: StateView,
    info: Seq<char>,
    version: Seq<char>,
    pid: u32,
    x: Seq<char>,
)
    requires
        ascii_lower(info) == "ttyinfo"@,
    ensures
        ({
            let none = StateView { ttyname: None, ttytype: None, lc_ctype: None, lc_messages: None, ..st };
            let q = SpecCommand::GetInfo(info);
            let dash = seq![' ', '-'];
            let head = seq!['D', ' '];
            let tail = seq!['\n'] + plain_ok();
            &&& spec_run_command(none, q, version, pid) == (none, head + seq!['-'] + dash + dash
                + dash + tail, false)
            &&& spec_run_command(StateView { ttyname: Some(x), ..none }, q, version, pid).1 == head
                + x + dash + dash + dash + tail
            &&& spec_run_command(StateView { ttytype: Some(x), ..none }, q, version, pid).1 == head
                + seq!['-', ' '] + x + dash + dash + tail
            &&& spec_run_command(StateView { lc_ctype: Some(x), ..none }, q, version, pid).1 == head
                + seq!['-'] + dash + seq![' '] + x + dash + tail
            &&& spec_run_command(StateView { lc_messages: Some(x), ..none }, q, version, pid).1
                == head + seq!['-'] + dash + dash + seq![' '] + x + tail
        }),
{
    reveal_queries();
    lemma_plain_ok();
    let none = StateView { ttyname: None, ttytype: None, lc_ctype: None, lc_messages: None, ..st };
    let q = SpecCommand::GetInfo(info);
    let dash = seq![' ', '-'];
    let head = seq!['D', ' '];
    let tail = seq!['\n'] + plain_ok();
    assert(ascii_lower(info)[0] == 't');
    assert(spec_run_command(none, q, version, pid).1 =~= head + seq!['-'] + dash + dash + dash
        + tail);
    assert(spec_run_command(StateView { ttyname: Some(x), ..none }, q, version, pid).1 =~= head
        + x + dash + dash + dash + tail);
    assert(spec_run_command(StateView { ttytype: Some(x), ..none }, q, version, pid).1 =~= head
        + seq!['-', ' '] + x + dash + dash + tail);
    assert(spec_run_command(StateView { lc_ctype: Some(x), ..none }, q, version, pid).1 =~= head
        + seq!['-'] + dash + seq![' '] + x + dash + tail);
    assert(spec_run_command(StateView { lc_messages: Some(x), ..none }, q, version, pid).1
        =~= head + seq!['-'] + dash + dash + seq![' '] + x + tail);
}

/// The response lines: `OK`, or `OK` and the message after a space; `ERR`,
/// the code in decimal and the message, separated by spaces; `D` and the
/// data after a space; each ends with a newline.
pub proof fn law_response_lines(msg: Seq<char>, code: u32, data: Seq<char>)
    ensures
        msg.len() == 0 ==> ok_line(msg) == seq!['O', 'K', '\n'],
        msg.len() > 0 ==> ok_line(msg) == seq!['O', 'K', ' '] + msg + seq!['\n'],
        err_line(code, msg) == seq!['E', 'R', 'R', ' '] + decimal(code as nat) + seq![' '] + msg
            + seq!['\n'],
        data_line(data) == seq!['D', ' '] + data + seq!['\n'],
{
    reveal_strlit("OK");
    reveal_strlit("ERR");
    reveal_strlit("D");
    assert(ok_line(msg) =~= (if msg.len() == 0 {
        seq!['O', 'K', '\n']
    } else {
        seq!['O', 'K', ' '] + msg + seq!['\n']
    }));
    assert(err_line(code, msg) =~= seq!['E', 'R', 'R', ' '] + decimal(code as nat) + seq![' ']
        + msg + seq!['\n']);
    assert(data_line(data) =~= seq!['D', ' '] + data + seq!['\n']);
}

/// A decimal representation is a non-empty run of digits whose value is the
/// number, with no leading zero.
pub proof fn law_decimal(n: nat)
    ensures
        decimal(n).len() > 0,
        all_digits(decimal(n)),
        digits_value(decimal(n)) == n,
        decimal(n)[0] == '0' ==> n == 0,
    decreases n,
{
    if n >= 10 {
        law_decimal(n / 10);
        let p = decimal(n / 10);
        let q = decimal(n);
        assert(q == p.push(digit_char((n % 10) as int)));
        assert(q.drop_last() =~= p);
        assert(q[0] == p[0]);
        assert forall|i: int| 0 <= i < q.len() implies is_digit(#[trigger] q[i]) by {
            if i < p.len() {
                assert(q[i] == p[i]);
            }
        }
        assert(q.last() == digit_char((n % 10) as int));
        assert((digit_char((n % 10) as int) as u32) == (n % 10) + 48);
        assert(digits_value(q) == digits_value(p) * 10 + (n % 10));
        assert(n == (n / 10) * 10 + n % 10);
    } else {
        let q = decimal(n);
        assert(q =~= seq![digit_char(n as int)]);
        assert(q.drop_last() =~= Seq::<char>::empty());
        assert((digit_char(n as int) as u32) == n + 48);
        assert(q.last() == digit_char(n as int));
        assert(digits_value(Seq::<char>::empty()) == 0);
        assert(digits_value(q) == digits_value(q.drop_last()) * 10 + (((q.last() as u32) - 48) as nat));
    }
}

/// A SETTIMEOUT argument is read as the number it spells in decimal, with or
/// without a leading `+`; anything that is not such a number (empty, a
/// lone `+`, a sign `-`, any other character, a value beyond `u32`) is none.
pub proof fn law_parse_u32(n: u32, s: Seq<char>)
    ensures
        spec_parse_u32(decimal(n as nat)) == Some(n),
        spec_parse_u32(seq!['+'] + decimal(n as nat)) == Some(n),
        spec_parse_u32(Seq::empty()) is None,
        spec_parse_u32(seq!['+']) is None,
        s.len() > 0 && s[0] == '-' ==> spec_parse_u32(s) is None,
        (exists|i: int| 1 <= i < s.len() && !is_digit(#[trigger] s[i])) ==> spec_parse_u32(s)
            is None,
        spec_parse_u32(s) matches Some(v) ==> digits_value(unsigned_part(s)) == v,
{
    law_decimal(n as nat);
    let d = decimal(n as nat);
    assert(d[0] != '+');
    assert((seq!['+'] + d).drop_first() =~= d);
    assert(seq!['+'].drop_first() =~= Seq::<char>::empty());
    if exists|i: int| 1 <= i < s.len() && !is_digit(#[trigger] s[i]) {
        let i = choose|i: int| 1 <= i < s.len() && !is_digit(#[trigger] s[i]);
        if s[0] == '+' {
            assert(s.drop_first()[i - 1] == s[i]);
        }
    }
}

/// Blank lines and comments get no answer and change nothing; the dialog
/// commands (not yet available) are answered with the "not implemented"
/// error and end the request; RESET ends the request; NOP changes nothing;
/// BYE answers "closing connection" and closes; GETINFO changes nothing.
pub proof fn law_command_responses(st: StateView, line: Seq<char>, version: Seq<char>, pid: u32)
    ensures
        ({
            let t = trim(line);
            let up = keyword_of(t);
            let r = spec_server_step(st, line, version, pid);
            let not_impl = err_line(83886179, "Not yet implemented"@);
            &&& (t.len() == 0 || t[0] == '#') ==> r == (st, Seq::<char>::empty(), false)
            &&& up == "GETPIN"@ ==> r == (st.reset(), not_impl, false)
            &&& up == "CONFIRM"@ ==> r == (st.reset(), not_impl, false)
            &&& up == "MESSAGE"@ ==> r == (st.reset(), not_impl, false)
            &&& up == "RESET"@ ==> r == (st.reset(), plain_ok(), false)
            &&& up == "NOP"@ ==> r == (st, plain_ok(), false)
            &&& up == "BYE"@ ==> r == (st, ok_line("closing connection"@), true)
            &&& up == "GETINFO"@ ==> r.0 == st && !r.2
        }),
{
    reveal_keywords();
    lemma_plain_ok();
    let t = trim(line);
    let up = keyword_of(t);
    law_parse_command_keywords(t);
    if up.len() > 0 && up[0] != '#' {
        lemma_keyword_line_not_skipped(t);
    }
}

/// A line whose keyword is none the pinentry knows is answered with the
/// "unknown command" error naming the keyword as written, and changes
/// nothing.
pub proof fn law_unknown_command(st: StateView, line: Seq<char>, version: Seq<char>, pid: u32)
    requires
        ({
            let up = keyword_of(trim(line));
            &&& up.len() > 0 && up[0] != '#'
            &&& up != "SETDESC"@ && up != "SETPROMPT"@ && up != "SETTITLE"@ && up != "SETOK"@
            &&& up != "SETCANCEL"@ && up != "SETNOTOK"@ && up != "SETERROR"@
            &&& up != "SETTIMEOUT"@ && up != "SETKEYINFO"@ && up != "SETREPEAT"@
            &&& up != "SETREPEATERROR"@ && up != "SETQUALITYBAR"@ && up != "SETQUALITYBAR_TT"@
            &&& up != "GETPIN"@ && up != "CONFIRM"@ && up != "MESSAGE"@ && up != "GETINFO"@
            &&& up != "OPTION"@ && up != "RESET"@ && up != "BYE"@ && up != "NOP"@
        }),
    ensures
        spec_server_step(st, line, version, pid) == (
            st,
            err_line(
                275,
                "unknown command '"@ + spec_split_first_word(trim(line)).0 + "'"@,
            ),
            false,
        ),
{
    lemma_keyword_line_not_skipped(trim(line));
}

/// Whether `b` is an ASCII hexadecimal digit (either case).
pub open spec fn is_hex_byte(b: u8) -> bool {
    (48 <= b <= 57) || (65 <= b <= 70) || (97 <= b <= 102)
}

/// Encoding works character by character: `%` and each ASCII control
/// character become `%` and two upper-case hex digits giving its code, every
/// other character stays as it is.
pub proof fn law_percent_encode_chars(c: char, a: Seq<char>, b: Seq<char>)
    ensures
        spec_percent_encode(a + b) == spec_percent_encode(a) + spec_percent_encode(b),
        !((c as u32) == 0x25 || (c as u32) < 0x20 || (c as u32) == 0x7f) ==> spec_percent_encode(
            seq![c],
        ) == seq![c],
        ((c as u32) == 0x25 || (c as u32) < 0x20 || (c as u32) == 0x7f) ==> {
            let e = spec_percent_encode(seq![c]);
            let hi = (c as u32) / 16;
            let lo = (c as u32) % 16;
            &&& e.len() == 3
            &&& e[0] == '%'
            &&& (if hi < 10 {
                e[1] as u32 == 48 + hi
            } else {
                e[1] as u32 == 55 + hi
            })
            &&& (if lo < 10 {
                e[2] as u32 == 48 + lo
            } else {
                e[2] as u32 == 55 + lo
            })
        },
{
    lemma_encode_concat(a, b);
    assert(seq![c].drop_last() =~= Seq::<char>::empty());
    assert(seq![c].last() == c);
    assert(spec_percent_encode(Seq::<char>::empty()) == Seq::<char>::empty());
    assert(spec_percent_encode(seq![c]) =~= spec_percent_encode(Seq::<char>::empty()) + encode_char(
        c,
    ));
}

/// Decoding works on the UTF-8 bytes from left to right: `%` followed by two
/// hex digits (either case) becomes the byte they spell; a `%` not followed
/// by two hex digits and every other byte stay as they are.
pub proof fn law_percent_decode_bytes(h: u8, l: u8, b: u8, y: Seq<u8>)
    ensures
        is_hex_byte(h) && is_hex_byte(l) ==> {
            let hv = if h <= 57 {
                h - 48
            } else if h <= 70 {
                h - 55
            } else {
                h - 87
            };
            let lv = if l <= 57 {
                l - 48
            } else if l <= 70 {
                l - 55
            } else {
                l - 87
            };
            decode_bytes(seq![0x25u8, h, l] + y) == seq![(hv * 16 + lv) as u8] + decode_bytes(y)
        },
        !(is_hex_byte(h) && is_hex_byte(l)) ==> decode_bytes(seq![0x25u8, h, l] + y) == seq![
            0x25u8,
        ] + decode_bytes(seq![h, l] + y),
        decode_bytes(seq![0x25u8]) == seq![0x25u8],
        decode_bytes(seq![0x25u8, h]) == seq![0x25u8] + decode_bytes(seq![h]),
        b != 0x25 ==> decode_bytes(seq![b] + y) == seq![b] + decode_bytes(y),
        decode_bytes(Seq::empty()) == Seq::<u8>::empty(),
{
    let z = seq![0x25u8, h, l] + y;
    assert(z[0] == 0x25 && z[1] == h && z[2] == l);
    assert(z.skip(3) =~= y);
    assert(z.skip(1) =~= seq![h, l] + y);
    assert(seq![0x25u8].skip(1) =~= Seq::<u8>::empty());
    assert(decode_bytes(Seq::<u8>::empty()) == Seq::<u8>::empty());
    assert(seq![0x25u8, h].skip(1) =~= seq![h]);
    assert((seq![b] + y)[0] == b);
    assert((seq![b] + y).skip(1) =~= y);
    assert(decode_bytes(seq![0x25u8]) =~= seq![0x25u8] + decode_bytes(Seq::<u8>::empty()));
}

proof fn reveal_option_keys()
    ensures
        "ttyname"@.len() == 7 && "ttyname"@[0] == 't' && "ttyname"@[3] == 'n',
        "ttytype"@.len() == 7 && "ttytype"@[0] == 't' && "ttytype"@[3] == 't',
        "lc-ctype"@.len() == 8,
        "lc-messages"@.len() == 11,
        "display"@.len() == 7 && "display"@[0] == 'd',
        "grab"@.len() == 4,
        "no-grab"@.len() == 7 && "no-grab"@[0] == 'n',
        "invisible-char"@.len() == 14,
        "formatted-passphrase"@.len() == 20,
{
    reveal_strlit("ttyname");
    reveal_strlit("ttytype");
    reveal_strlit("lc-ctype");
    reveal_strlit("lc-messages");
    reveal_strlit("display");
    reveal_strlit("grab");
    reveal_strlit("no-grab");
    reveal_strlit("invisible-char");
    reveal_strlit("formatted-passphrase");
}

/// Each OPTION key the pinentry knows sets its own session field and leaves
/// every other field as it was: the terminal and locale keys and `display`
/// store the value (or clear the field when there is none), `grab` and
/// `no-grab` switch the grab on and off, `invisible-char` keeps the first
/// character of the value, `formatted-passphrase` switches that mode on.
pub proof fn law_known_options(st: StateView, value: Option<Seq<char>>)
    ensures
        spec_apply_option(st, "ttyname"@, value) == (StateView { ttyname: value, ..st }),
        spec_apply_option(st, "ttytype"@, value) == (StateView { ttytype: value, ..st }),
        spec_apply_option(st, "lc-ctype"@, value) == (StateView { lc_ctype: value, ..st }),
        spec_apply_option(st, "lc-messages"@, value) == (StateView { lc_messages: value, ..st }),
        spec_apply_option(st, "display"@, value) == (StateView { display: value, ..st }),
        spec_apply_option(st, "grab"@, value) == (StateView { grab: true, ..st }),
        spec_apply_option(st, "no-grab"@, value) == (StateView { grab: false, ..st }),
        spec_apply_option(st, "invisible-char"@, value) == (StateView {
            invisible_char: match value {
                Some(v) => if v.len() > 0 {
                    Some(v[0])
                } else {
                    None
                },
                None => None,
            },
            ..st
        }),
        spec_apply_option(st, "formatted-passphrase"@, value) == (StateView {
            formatted_passphrase: true,
            ..st
        }),
{
    reveal_option_keys();
}

/// `GETINFO version`, `pid` and `flavor` (in any case) answer one data line
/// with the version, the process id in decimal and `cadenza`; a query the
/// pinentry does not know is answered with the "unknown getinfo query"
/// error; the state is never changed.
pub proof fn law_getinfo_answers(st: StateView, info: Seq<char>, version: Seq<char>, pid: u32)
    ensures
        ({
            let q = ascii_lower(info);
            let r = spec_run_command(st, SpecCommand::GetInfo(info), version, pid);
            let ok = seq!['\n', 'O', 'K', '\n'];
            &&& r.0 == st && !r.2
            &&& q == "version"@ ==> r.1 == seq!['D', ' '] + version + ok
            &&& q == "pid"@ ==> r.1 == seq!['D', ' '] + decimal(pid as nat) + ok
            &&& q == "flavor"@ ==> r.1 == seq!['D', ' '] + seq!['c', 'a', 'd', 'e', 'n', 'z', 'a']
                + ok
            &&& q != "version"@ && q != "pid"@ && q != "flavor"@ && q != "ttyinfo"@ ==> r.1
                == err_line(275, "unknown getinfo query"@)
        }),
{
    reveal_queries();
    lemma_plain_ok();
    reveal_strlit("cadenza");
    let q = ascii_lower(info);
    let r = spec_run_command(st, SpecCommand::GetInfo(info), version, pid);
    let ok = seq!['\n', 'O', 'K', '\n'];
    if q.len() > 0 {
        assert(q[0] == q[0]);
    }
    if q == "version"@ {
        assert(r.1 =~= seq!['D', ' '] + version + ok);
    }
    if q == "pid"@ {
        assert(r.1 =~= seq!['D', ' '] + decimal(pid as nat) + ok);
    }
    if q == "flavor"@ {
        assert("cadenza"@ =~= seq!['c', 'a', 'd', 'e', 'n', 'z', 'a']);
        assert(r.1 =~= seq!['D', ' '] + seq!['c', 'a', 'd', 'e', 'n', 'z', 'a'] + ok);
    }
}

/// `CONFIRM` asks for a single button exactly when its argument contains
/// `--one-button` somewhere.
pub proof fn law_confirm_one_button(line: Seq<char>)
    requires
        keyword_of(line) == "CONFIRM"@,
    ensures
        spec_parse_command(line) == (SpecCommand::Confirm {
            one_button: exists|i: int|
                0 <= i && i + 12 <= argument_of(line).len() && #[trigger] argument_of(
                    line,
                ).subrange(i, i + 12) == seq!['-', '-', 'o', 'n', 'e', '-', 'b', 'u', 't', 't', 'o', 'n'],
        }),
{
    reveal_keywords();
    reveal_strlit("--one-button");
    let pat = seq!['-', '-', 'o', 'n', 'e', '-', 'b', 'u', 't', 't', 'o', 'n'];
    let arg = argument_of(line);
    assert("--one-button"@ =~= pat);
    assert(pat.len() == 12);
    law_parse_command_keywords(line);
    if contains_seq(arg, "--one-button"@) {
        let i = choose|i: int| occurs_at(arg, "--one-button"@, i);
        assert(arg.subrange(i, i + 12) == pat);
    }
    if exists|i: int| 0 <= i && i + 12 <= arg.len() && #[trigger] arg.subrange(i, i + 12) == pat {
        let i = choose|i: int| 0 <= i && i + 12 <= arg.len() && #[trigger] arg.subrange(i, i + 12) == pat;
        assert(occurs_at(arg, "--one-button"@, i));
    }
}


/// Whether the first character of `s` is still not whitespace after
/// percent-encoding: `s` is empty, or starts with an escaped character or
/// one that is not whitespace.
pub open spec fn starts_plain(s: Seq<char>) -> bool {
    s.len() > 0 ==> is_escaped(s[0]) || !is_ws(s[0])
}

/// The same of the last character of `s`.
pub open spec fn ends_plain(s: Seq<char>) -> bool {
    s.len() > 0 ==> is_escaped(s.last()) || !is_ws(s.last())
}

/// The line a client sends to set a field to the text `s`: the keyword, a
/// space and the percent-encoded text.
pub open spec fn set_line(keyword: Seq<char>, s: Seq<char>) -> Seq<char> {
    keyword + seq![' '] + spec_percent_encode(s)
}

proof fn lemma_encode_edges(s: Seq<char>)
    ensures
        s.len() == 0 ==> spec_percent_encode(s).len() == 0,
        s.len() > 0 ==> spec_percent_encode(s).len() > 0,
        s.len() > 0 && starts_plain(s) ==> !is_ws(spec_percent_encode(s)[0]),
        s.len() > 0 && ends_plain(s) ==> !is_ws(spec_percent_encode(s).last()),
{
    if s.len() > 0 {
        lemma_encode_first(s);
        let c = s[0];
        let d = s.last();
        let e = spec_percent_encode(s);
        assert(e == spec_percent_encode(s.drop_last()) + encode_char(d));
        assert(e[0] == encode_char(c)[0]);
        assert(e.last() == encode_char(d).last());
        if is_escaped(d) {
            lemma_hex_roundtrip(((d as u32) % 16) as int);
        }
    }
}

/// Whether `kw` is written as the server matches it: not empty, with no
/// whitespace and no lower-case letter.
spec fn plain_keyword(kw: Seq<char>) -> bool {
    &&& kw.len() > 0
    &&& forall|j: int| 0 <= j < kw.len() ==> !is_ws(#[trigger] kw[j]) && upper_char(kw[j]) == kw[j]
}

proof fn lemma_plain_keywords()
    ensures
        plain_keyword("SETDESC"@),
        plain_keyword("SETPROMPT"@),
        plain_keyword("SETTITLE"@),
        plain_keyword("SETOK"@),
        plain_keyword("SETCANCEL"@),
        plain_keyword("SETNOTOK"@),
        plain_keyword("SETERROR"@),
        plain_keyword("SETKEYINFO"@),
        plain_keyword("SETREPEAT"@),
        plain_keyword("SETREPEATERROR"@),
        plain_keyword("SETQUALITYBAR"@),
        plain_keyword("SETQUALITYBAR_TT"@),
{
    reveal_strlit("SETDESC");
    reveal_strlit("SETPROMPT");
    reveal_strlit("SETTITLE");
    reveal_strlit("SETOK");
    reveal_strlit("SETCANCEL");
    reveal_strlit("SETNOTOK");
    reveal_strlit("SETERROR");
    reveal_strlit("SETKEYINFO");
    reveal_strlit("SETREPEAT");
    reveal_strlit("SETREPEATERROR");
    reveal_strlit("SETQUALITYBAR");
    reveal_strlit("SETQUALITYBAR_TT");
}

/// Splitting `keyword arg` gives the keyword and the argument back.
proof fn lemma_command_line(kw: Seq<char>, arg: Seq<char>)
    requires
        plain_keyword(kw),
        arg.len() > 0 ==> !is_ws(arg[0]),
    ensures
        keyword_of(kw + seq![' '] + arg) == kw,
        argument_of(kw + seq![' '] + arg) == arg,
{
    let line = kw + seq![' '] + arg;
    let n = kw.len() as int;
    assert forall|j: int| 0 <= j < n implies !in_class(#[trigger] line[j], CharClass::Space) by {
        assert(line[j] == kw[j]);
    }
    assert(line[n] == ' ');
    lemma_first_in_unique(line, CharClass::Space, n);
    assert(line.take(n) =~= kw);
    assert(line.skip(n + 1) =~= arg);
    lemma_first_in_unique(arg, CharClass::NonSpace, 0);
    assert(arg.skip(0) =~= arg);
    assert(ascii_upper(kw) =~= kw);
}

/// The same after the line is trimmed, when the argument also ends with a
/// character that is not whitespace.
proof fn lemma_trimmed_command_line(kw: Seq<char>, arg: Seq<char>)
    requires
        plain_keyword(kw),
        arg.len() > 0 ==> !is_ws(arg[0]) && !is_ws(arg.last()),
    ensures
        keyword_of(trim(kw + seq![' '] + arg)) == kw,
        argument_of(trim(kw + seq![' '] + arg)) == arg,
{
    let line = kw + seq![' '] + arg;
    let n = kw.len() as int;
    assert(line[0] == kw[0]);
    lemma_first_in_unique(line, CharClass::NonSpace, 0);
    assert(line.skip(0) =~= line);
    if arg.len() > 0 {
        assert(line[line.len() - 1] == arg.last());
        lemma_content_end_unique(line, line.len() as int);
        assert(line.take(line.len() as int) =~= line);
        lemma_command_line(kw, arg);
    } else {
        assert(line[n - 1] == kw[n - 1]);
        assert(line[n] == ' ');
        lemma_content_end_unique(line, n);
        assert(line.take(n) =~= kw);
        assert forall|j: int| 0 <= j < n implies !in_class(#[trigger] kw[j], CharClass::Space) by {}
        lemma_first_in_unique(kw, CharClass::Space, n);
        assert(ascii_upper(kw) =~= kw);
    }
}

/// Parsing a `SET*` line whose argument is a percent-encoded text gives
/// that text back in the command the keyword names (`SETQUALITYBAR_TT`
/// included), for every text whose encoding does not start with whitespace;
/// `SETQUALITYBAR` with an empty text sets no label.
pub proof fn law_parse_set_command_roundtrip(s: Seq<char>)
    requires
        starts_plain(s),
    ensures
        spec_parse_command(set_line("SETDESC"@, s)) == SpecCommand::SetDesc(s),
        spec_parse_command(set_line("SETPROMPT"@, s)) == SpecCommand::SetPrompt(s),
        spec_parse_command(set_line("SETTITLE"@, s)) == SpecCommand::SetTitle(s),
        spec_parse_command(set_line("SETOK"@, s)) == SpecCommand::SetOk(s),
        spec_parse_command(set_line("SETCANCEL"@, s)) == SpecCommand::SetCancel(s),
        spec_parse_command(set_line("SETNOTOK"@, s)) == SpecCommand::SetNotOk(s),
        spec_parse_command(set_line("SETERROR"@, s)) == SpecCommand::SetError(s),
        spec_parse_command(set_line("SETKEYINFO"@, s)) == SpecCommand::SetKeyInfo(s),
        spec_parse_command(set_line("SETREPEAT"@, s)) == SpecCommand::SetRepeat(s),
        spec_parse_command(set_line("SETREPEATERROR"@, s)) == SpecCommand::SetRepeatError(s),
        spec_parse_command(set_line("SETQUALITYBAR_TT"@, s))
            == SpecCommand::SetQualityBarTooltip(s),
        s.len() > 0 ==> spec_parse_command(set_line("SETQUALITYBAR"@, s))
            == SpecCommand::SetQualityBar(Some(s)),
        s.len() == 0 ==> spec_parse_command(set_line("SETQUALITYBAR"@, s))
            == SpecCommand::SetQualityBar(None),
{
    let e = spec_percent_encode(s);
    lemma_encode_edges(s);
    law_percent_roundtrip(s);
    lemma_plain_keywords();
    lemma_command_line("SETDESC"@, e);
    law_parse_command_keywords(set_line("SETDESC"@, s));
    lemma_command_line("SETPROMPT"@, e);
    law_parse_command_keywords(set_line("SETPROMPT"@, s));
    lemma_command_line("SETTITLE"@, e);
    law_parse_command_keywords(set_line("SETTITLE"@, s));
    lemma_command_line("SETOK"@, e);
    law_parse_command_keywords(set_line("SETOK"@, s));
    lemma_command_line("SETCANCEL"@, e);
    law_parse_command_keywords(set_line("SETCANCEL"@, s));
    lemma_command_line("SETNOTOK"@, e);
    law_parse_command_keywords(set_line("SETNOTOK"@, s));
    lemma_command_line("SETERROR"@, e);
    law_parse_command_keywords(set_line("SETERROR"@, s));
    lemma_command_line("SETKEYINFO"@, e);
    law_parse_command_keywords(set_line("SETKEYINFO"@, s));
    lemma_command_line("SETREPEAT"@, e);
    law_parse_command_keywords(set_line("SETREPEAT"@, s));
    lemma_command_line("SETREPEATERROR"@, e);
    law_parse_command_keywords(set_line("SETREPEATERROR"@, s));
    lemma_command_line("SETQUALITYBAR_TT"@, e);
    law_parse_command_keywords(set_line("SETQUALITYBAR_TT"@, s));
    lemma_command_line("SETQUALITYBAR"@, e);
    law_parse_command_keywords(set_line("SETQUALITYBAR"@, s));
}

/// A `SET*` line whose argument is a percent-encoded text stores that text
/// in the field the keyword names (`SETERROR` the error shown with the next
/// dialog, `SETQUALITYBAR_TT` the tooltip), leaves every other field of the
/// session as it was, and is answered `OK`; this holds for every text whose
/// encoding neither starts nor ends with whitespace, which the server trims
/// from a line.
pub proof fn law_set_line_stores_text(st: StateView, s: Seq<char>, version: Seq<char>, pid: u32)
    requires
        starts_plain(s),
        ends_plain(s),
    ensures
        spec_server_step(st, set_line("SETDESC"@, s), version, pid) == (
            StateView { desc: Some(s), ..st },
            plain_ok(),
            false,
        ),
        spec_server_step(st, set_line("SETPROMPT"@, s), version, pid) == (
            StateView { prompt: Some(s), ..st },
            plain_ok(),
            false,
        ),
        spec_server_step(st, set_line("SETTITLE"@, s), version, pid) == (
            StateView { title: Some(s), ..st },
            plain_ok(),
            false,
        ),
        spec_server_step(st, set_line("SETOK"@, s), version, pid) == (
            StateView { ok_label: Some(s), ..st },
            plain_ok(),
            false,
        ),
        spec_server_step(st, set_line("SETCANCEL"@, s), version, pid) == (
            StateView { cancel_label: Some(s), ..st },
            plain_ok(),
            false,
        ),
        spec_server_step(st, set_line("SETNOTOK"@, s), version, pid) == (
            StateView { notok_label: Some(s), ..st },
            plain_ok(),
            false,
        ),
        spec_server_step(st, set_line("SETERROR"@, s), version, pid) == (
            StateView { error: Some(s), ..st },
            plain_ok(),
            false,
        ),
        spec_server_step(st, set_line("SETKEYINFO"@, s), version, pid) == (
            StateView { keyinfo: Some(s), ..st },
            plain_ok(),
            false,
        ),
        spec_server_step(st, set_line("SETREPEAT"@, s), version, pid) == (
            StateView { repeat_prompt: Some(s), ..st },
            plain_ok(),
            false,
        ),
        spec_server_step(st, set_line("SETREPEATERROR"@, s), version, pid) == (
            StateView { repeat_error: Some(s), ..st },
            plain_ok(),
            false,
        ),
        spec_server_step(st, set_line("SETQUALITYBAR"@, s), version, pid) == (
            StateView { quality_bar: Some(s), ..st },
            plain_ok(),
            false,
        ),
        spec_server_step(st, set_line("SETQUALITYBAR_TT"@, s), version, pid) == (
            StateView { quality_bar_tt: Some(s), ..st },
            plain_ok(),
            false,
        ),
{
    let e = spec_percent_encode(s);
    lemma_encode_edges(s);
    law_percent_roundtrip(s);
    lemma_plain_keywords();
    lemma_trimmed_command_line("SETDESC"@, e);
    law_set_command_stores_argument(st, set_line("SETDESC"@, s), version, pid);
    lemma_trimmed_command_line("SETPROMPT"@, e);
    law_set_command_stores_argument(st, set_line("SETPROMPT"@, s), version, pid);
    lemma_trimmed_command_line("SETTITLE"@, e);
    law_set_command_stores_argument(st, set_line("SETTITLE"@, s), version, pid);
    lemma_trimmed_command_line("SETOK"@, e);
    law_set_command_stores_argument(st, set_line("SETOK"@, s), version, pid);
    lemma_trimmed_command_line("SETCANCEL"@, e);
    law_set_command_stores_argument(st, set_line("SETCANCEL"@, s), version, pid);
    lemma_trimmed_command_line("SETNOTOK"@, e);
    law_set_command_stores_argument(st, set_line("SETNOTOK"@, s), version, pid);
    lemma_trimmed_command_line("SETERROR"@, e);
    law_set_command_stores_argument(st, set_line("SETERROR"@, s), version, pid);
    lemma_trimmed_command_line("SETKEYINFO"@, e);
    law_set_command_stores_argument(st, set_line("SETKEYINFO"@, s), version, pid);
    lemma_trimmed_command_line("SETREPEAT"@, e);
    law_set_command_stores_argument(st, set_line("SETREPEAT"@, s), version, pid);
    lemma_trimmed_command_line("SETREPEATERROR"@, e);
    law_set_command_stores_argument(st, set_line("SETREPEATERROR"@, s), version, pid);
    lemma_trimmed_command_line("SETQUALITYBAR"@, e);
    law_set_command_stores_argument(st, set_line("SETQUALITYBAR"@, s), version, pid);
    lemma_trimmed_command_line("SETQUALITYBAR_TT"@, e);
    law_set_command_stores_argument(st, set_line("SETQUALITYBAR_TT"@, s), version, pid);
}

/// On a session with no terminal fields set, `OPTION ttyname`, `ttytype`,
/// `lc-ctype` or `lc-messages` with a value, followed by `GETINFO ttyinfo`,
/// is answered with that value in the first, second, third or fourth place
/// of the data line respectively and `-` in the other three.
pub proof fn law_option_then_ttyinfo(st: StateView, version: Seq<char>, pid: u32, x: Seq<char>)
    ensures
        ({
            let none = StateView { ttyname: None, ttytype: None, lc_ctype: None, lc_messages: None, ..st };
            let q = SpecCommand::GetInfo("ttyinfo"@);
            let set = |k: Seq<char>| spec_run_command(none, SpecCommand::Option(k, Some(x)), version, pid).0;
            let dash = seq![' ', '-'];
            let head = seq!['D', ' '];
            let tail = seq!['\n'] + plain_ok();
            &&& spec_run_command(set("ttyname"@), q, version, pid).1 == head + x + dash + dash + dash
                + tail
            &&& spec_run_command(set("ttytype"@), q, version, pid).1 == head + seq!['-', ' '] + x
                + dash + dash + tail
            &&& spec_run_command(set("lc-ctype"@), q, version, pid).1 == head + seq!['-'] + dash
                + seq![' '] + x + dash + tail
            &&& spec_run_command(set("lc-messages"@), q, version, pid).1 == head + seq!['-'] + dash
                + dash + seq![' '] + x + tail
        }),
{
    let none = StateView { ttyname: None, ttytype: None, lc_ctype: None, lc_messages: None, ..st };
    reveal_queries();
    reveal_strlit("ttyinfo");
    assert(ascii_lower("ttyinfo"@) =~= "ttyinfo"@);
    law_known_options(none, Some(x));
    law_ttyinfo_field_order(st, "ttyinfo"@, version, pid, x);
}

} // verus!
