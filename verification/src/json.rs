//! The textual document format every control message travels in.
//!
//! A value is null, a boolean, a number, a string, an array, or an object
//! of key/value members.  `json_text` gives the canonical printed form of
//! a value, and the printer is proved to produce exactly that form.  The
//! parser accepts the usual grammar — whitespace, escapes, nested arrays
//! and objects up to a fixed depth — so that messages from foreign peers
//! decode even when they carry fields this core does not know.

use vstd::prelude::*;

verus! {

use crate::errors::DecodeError;

/// Nesting bound the parser enforces; deeper documents are refused.
pub const MAX_PARSE_DEPTH: u32 = 128;

/// A document value.  Numbers that are integers in range are held as
/// `Int`; any other number keeps its raw text in `Num` so it can pass
/// through unaltered.  String content is held decoded (unescaped).
#[derive(Debug)]
pub enum JsonValue {
    Null,
    Bool(bool),
    Int(i64),
    Num(String),
    Str(String),
    Arr(Vec<JsonValue>),
    Obj(Vec<(String, JsonValue)>),
}

// ---------------------------------------------------------------------
// Canonical printed form
// ---------------------------------------------------------------------
/// Hexadecimal digit for `n < 16`, lower case.
pub open spec fn spec_hex_digit(n: u8) -> u8 {
    if n < 10 {
        (0x30 + n) as u8
    } else {
        (0x57 + n) as u8
    }
}

/// Printed form of one content byte inside a string: quote and backslash
/// are escaped, control bytes become `\u00XX`, all else is literal.
pub open spec fn esc_byte(b: u8) -> Seq<u8> {
    if b == 0x22 {
        seq![0x5cu8, 0x22u8]
    } else if b == 0x5c {
        seq![0x5cu8, 0x5cu8]
    } else if b < 0x20 {
        seq![0x5cu8, 0x75u8, 0x30u8, 0x30u8, spec_hex_digit(b / 16), spec_hex_digit(b % 16)]
    } else {
        seq![b]
    }
}

/// Printed form of string content bytes.
pub open spec fn escaped_bytes(s: Seq<u8>) -> Seq<u8>
    decreases s.len(),
{
    if s.len() == 0 {
        Seq::empty()
    } else {
        escaped_bytes(s.drop_last()) + esc_byte(s.last())
    }
}

/// Printed form of a string value: quoted, escaped UTF-8 bytes.
pub open spec fn str_text(chars: Seq<char>) -> Seq<u8> {
    seq![0x22u8] + escaped_bytes(vstd::utf8::encode_utf8(chars)) + seq![0x22u8]
}

/// Decimal digits of a non-negative integer.
pub open spec fn spec_nat_text(n: int) -> Seq<u8>
    recommends
        n >= 0,
    decreases n,
{
    if n < 10 {
        seq![(0x30 + if n >= 0 { n } else { 0 }) as u8]
    } else {
        spec_nat_text(n / 10) + seq![(0x30 + n % 10) as u8]
    }
}

/// Decimal form of an integer, with a leading minus when negative.
pub open spec fn int_text(i: int) -> Seq<u8> {
    if i < 0 {
        seq![0x2du8] + spec_nat_text(-i)
    } else {
        spec_nat_text(i)
    }
}

/// Canonical printed form of a value.
pub open spec fn json_text(v: JsonValue) -> Seq<u8>
    decreases v,
{
    match v {
        JsonValue::Null => seq![0x6eu8, 0x75u8, 0x6cu8, 0x6cu8],
        JsonValue::Bool(b) => if b {
            seq![0x74u8, 0x72u8, 0x75u8, 0x65u8]
        } else {
            seq![0x66u8, 0x61u8, 0x6cu8, 0x73u8, 0x65u8]
        },
        JsonValue::Int(i) => int_text(i as int),
        JsonValue::Num(raw) => vstd::utf8::encode_utf8(raw@),
        JsonValue::Str(s) => str_text(s@),
        JsonValue::Arr(elems) => seq![0x5bu8] + arr_text(elems@) + seq![0x5du8],
        JsonValue::Obj(fields) => seq![0x7bu8] + obj_text(fields@) + seq![0x7du8],
    }
}

/// Printed form of array elements, comma separated.
pub open spec fn arr_text(s: Seq<JsonValue>) -> Seq<u8>
    decreases s,
{
    if s.len() == 0 {
        Seq::empty()
    } else if s.len() == 1 {
        json_text(s.last())
    } else {
        arr_text(s.drop_last()) + seq![0x2cu8] + json_text(s.last())
    }
}

/// Printed form of one object member.
pub open spec fn member_text(m: (String, JsonValue)) -> Seq<u8>
    decreases m,
{
    str_text(m.0@) + seq![0x3au8] + json_text(m.1)
}

/// Printed form of object members, comma separated.
pub open spec fn obj_text(s: Seq<(String, JsonValue)>) -> Seq<u8>
    decreases s,
{
    if s.len() == 0 {
        Seq::empty()
    } else if s.len() == 1 {
        member_text(s.last())
    } else {
        obj_text(s.drop_last()) + seq![0x2cu8] + member_text(s.last())
    }
}

// ---------------------------------------------------------------------
// Printer
// ---------------------------------------------------------------------
fn hex_digit(n: u8) -> (r: u8)
    requires
        n < 16,
    ensures
        r == spec_hex_digit(n),
{
    if n < 10 {
        0x30 + n
    } else {
        0x57 + n
    }
}

/// Append the decimal digits of `n`.
fn write_nat(n: u64, out: &mut Vec<u8>)
    ensures
        final(out)@ == old(out)@ + spec_nat_text(n as int),
    decreases n,
{
    if n < 10 {
        out.push(0x30 + n as u8);
        assert(out@ =~= old(out)@ + spec_nat_text(n as int));
    } else {
        write_nat(n / 10, out);
        out.push(0x30 + (n % 10) as u8);
        assert(out@ =~= old(out)@ + spec_nat_text(n as int));
    }
}

/// Decimal digits are digit bytes.
proof fn lemma_nat_text_digits(n: int)
    requires
        n >= 0,
    ensures
        forall|i: int|
            0 <= i < spec_nat_text(n).len() ==> 0x30 <= #[trigger] spec_nat_text(n)[i] <= 0x39,
    decreases n,
{
    if n >= 10 {
        lemma_nat_text_digits(n / 10);
        assert forall|i: int| 0 <= i < spec_nat_text(n).len() implies 0x30 <= #[trigger] spec_nat_text(
            n,
        )[i] <= 0x39 by {
            if i < spec_nat_text(n / 10).len() {
                assert(spec_nat_text(n)[i] == spec_nat_text(n / 10)[i]);
            } else {
                assert(spec_nat_text(n)[i] == (0x30 + n % 10) as u8);
            }
        }
    }
}

/// A sequence of plain ASCII bytes is valid UTF-8.
proof fn lemma_ascii_bytes_valid_utf8(s: Seq<u8>)
    requires
        forall|i: int| 0 <= i < s.len() ==> #[trigger] s[i] < 0x80,
    ensures
        vstd::utf8::valid_utf8(s),
{
    reveal_with_fuel(vstd::utf8::valid_utf8, 2);
    assert(s.subrange(0, 0) =~= Seq::<u8>::empty());
    assert(vstd::utf8::partial_valid_utf8(s, 0));
    assert forall|i: int| 0 <= i < s.len() implies #[trigger] vstd::utf8::is_leading_byte_width_1(
        s[i],
    ) by {
        let b = s[i];
        assert(b & 0x80 == 0) by (bit_vector)
            requires
                b < 0x80,
        ;
    }
    vstd::utf8::partial_valid_utf8_extend_ascii_block(s, 0, s.len() as int);
    assert(s.subrange(0, s.len() as int) =~= s);
}

/// The characters of a non-negative number's decimal text.
pub open spec fn spec_nat_chars(n: int) -> Seq<char> {
    vstd::utf8::decode_utf8(spec_nat_text(n))
}

/// The characters of a signed number's decimal text.
pub open spec fn spec_int_chars(i: int) -> Seq<char> {
    vstd::utf8::decode_utf8(int_text(i))
}

/// The decimal text of a number, as a string.
pub fn u32_to_string(n: u32) -> (r: String)
    ensures
        vstd::utf8::encode_utf8(r@) == spec_nat_text(n as int),
        r@ == spec_nat_chars(n as int),
{
    let mut bytes: Vec<u8> = Vec::new();
    write_nat(n as u64, &mut bytes);
    proof {
        lemma_nat_text_digits(n as int);
        lemma_ascii_bytes_valid_utf8(bytes@);
    }
    match bytes_to_string(bytes) {
        Some(s) => {
            proof {
                vstd::utf8::encode_utf8_decode_utf8(s@);
            }
            s
        },
        None => {
            // Digit bytes are valid UTF-8, so conversion cannot fail.
            proof {
                assert(false);
            }
            String::new()
        },
    }
}

/// Decimal integer text is plain ASCII: an optional minus sign, then
/// digits.
proof fn lemma_int_text_ascii(i: int)
    ensures
        forall|k: int| 0 <= k < int_text(i).len() ==> #[trigger] int_text(i)[k] < 0x80,
{
    if i < 0 {
        lemma_nat_text_digits(-i);
        assert forall|k: int| 0 <= k < int_text(i).len() implies #[trigger] int_text(i)[k]
            < 0x80 by {
            if k == 0 {
                assert(int_text(i)[0] == 0x2du8);
            } else {
                assert(int_text(i)[k] == spec_nat_text(-i)[k - 1]);
            }
        }
    } else {
        lemma_nat_text_digits(i);
        assert forall|k: int| 0 <= k < int_text(i).len() implies #[trigger] int_text(i)[k]
            < 0x80 by {
            assert(int_text(i)[k] == spec_nat_text(i)[k]);
        }
    }
}

/// The decimal text of a signed number, as a string.
pub fn i64_to_string(i: i64) -> (r: String)
    ensures
        vstd::utf8::encode_utf8(r@) == int_text(i as int),
        r@ == spec_int_chars(i as int),
{
    let mut bytes: Vec<u8> = Vec::new();
    write_int(i, &mut bytes);
    proof {
        lemma_int_text_ascii(i as int);
        lemma_ascii_bytes_valid_utf8(bytes@);
    }
    match bytes_to_string(bytes) {
        Some(s) => {
            proof {
                vstd::utf8::encode_utf8_decode_utf8(s@);
            }
            s
        },
        None => {
            // Sign and digit bytes are valid UTF-8, so conversion
            // cannot fail.
            proof {
                assert(false);
            }
            String::new()
        },
    }
}

/// Append the decimal form of `i`.
fn write_int(i: i64, out: &mut Vec<u8>)
    ensures
        final(out)@ == old(out)@ + int_text(i as int),
{
    if i >= 0 {
        write_nat(i as u64, out);
    } else {
        out.push(0x2d);
        let m: u64 = if i == i64::MIN {
            9223372036854775808u64
        } else {
            (-i) as u64
        };
        assert(m as int == -(i as int));
        write_nat(m, out);
        assert(out@ =~= old(out)@ + int_text(i as int));
    }
}

/// Append the escaped form of string content bytes.
fn write_escaped(bytes: &[u8], out: &mut Vec<u8>)
    ensures
        final(out)@ == old(out)@ + escaped_bytes(bytes@),
{
    let ghost base = out@;
    let mut i: usize = 0;
    while i < bytes.len()
        invariant
            i <= bytes@.len(),
            out@ == base + escaped_bytes(bytes@.subrange(0, i as int)),
        decreases bytes@.len() - i,
    {
        let b = bytes[i];
        if b == 0x22 {
            out.push(0x5c);
            out.push(0x22);
        } else if b == 0x5c {
            out.push(0x5c);
            out.push(0x5c);
        } else if b < 0x20 {
            out.push(0x5c);
            out.push(0x75);
            out.push(0x30);
            out.push(0x30);
            out.push(hex_digit(b / 16));
            out.push(hex_digit(b % 16));
        } else {
            out.push(b);
        }
        i = i + 1;
        proof {
            assert(bytes@.subrange(0, i as int).drop_last() =~= bytes@.subrange(0, i - 1));
            assert(bytes@.subrange(0, i as int).last() == bytes@[i - 1]);
            assert(out@ =~= base + escaped_bytes(bytes@.subrange(0, i as int)));
        }
    }
    assert(bytes@.subrange(0, bytes@.len() as int) =~= bytes@);
}

/// Append the printed form of a string value.
fn write_str(s: &str, out: &mut Vec<u8>)
    ensures
        final(out)@ == old(out)@ + str_text(s@),
{
    out.push(0x22);
    write_escaped(s.as_bytes(), out);
    out.push(0x22);
    assert(out@ =~= old(out)@ + str_text(s@));
}

/// Append the canonical printed form of `v`.
pub fn write_json(v: &JsonValue, out: &mut Vec<u8>)
    ensures
        final(out)@ == old(out)@ + json_text(*v),
    decreases *v,
{
    let ghost base = out@;
    match v {
        JsonValue::Null => {
            out.push(0x6e);
            out.push(0x75);
            out.push(0x6c);
            out.push(0x6c);
            assert(out@ =~= base + json_text(*v));
        },
        JsonValue::Bool(b) => {
            if *b {
                out.push(0x74);
                out.push(0x72);
                out.push(0x75);
                out.push(0x65);
            } else {
                out.push(0x66);
                out.push(0x61);
                out.push(0x6c);
                out.push(0x73);
                out.push(0x65);
            }
            assert(out@ =~= base + json_text(*v));
        },
        JsonValue::Int(i) => {
            write_int(*i, out);
        },
        JsonValue::Num(raw) => {
            write_raw(raw.as_str(), out);
        },
        JsonValue::Str(s) => {
            write_str(s.as_str(), out);
        },
        JsonValue::Arr(elems) => {
            out.push(0x5b);
            let mut i: usize = 0;
            while i < elems.len()
                invariant
                    i <= elems@.len(),
                    *v == JsonValue::Arr(*elems),
                    out@ == base + seq![0x5bu8] + arr_text(elems@.subrange(0, i as int)),
                decreases elems@.len() - i,
            {
                if i > 0 {
                    out.push(0x2c);
                }
                proof {
                    assert((*v)->Arr_0 == *elems);
                    assert(decreases_to!(*v => (*v)->Arr_0));
                    assert(decreases_to!(*elems => elems@));
                    assert(decreases_to!(elems@ => elems@[i as int]));
                    assert(decreases_to!(*v => elems@[i as int]));
                }
                write_json(&elems[i], out);
                i = i + 1;
                proof {
                    assert(elems@.subrange(0, i as int).drop_last() =~= elems@.subrange(
                        0,
                        i - 1,
                    ));
                    assert(elems@.subrange(0, i as int).last() == elems@[i - 1]);
                    assert(out@ =~= base + seq![0x5bu8] + arr_text(elems@.subrange(0, i as int)));
                }
            }
            out.push(0x5d);
            proof {
                assert(elems@.subrange(0, elems@.len() as int) =~= elems@);
                assert(out@ =~= base + json_text(*v));
            }
        },
        JsonValue::Obj(fields) => {
            out.push(0x7b);
            let mut i: usize = 0;
            while i < fields.len()
                invariant
                    i <= fields@.len(),
                    *v == JsonValue::Obj(*fields),
                    out@ == base + seq![0x7bu8] + obj_text(fields@.subrange(0, i as int)),
                decreases fields@.len() - i,
            {
                if i > 0 {
                    out.push(0x2c);
                }
                write_str(fields[i].0.as_str(), out);
                out.push(0x3a);
                proof {
                    assert((*v)->Obj_0 == *fields);
                    assert(decreases_to!(*v => (*v)->Obj_0));
                    assert(decreases_to!(*fields => fields@));
                    assert(decreases_to!(fields@ => fields@[i as int]));
                    assert(decreases_to!(fields@[i as int] => fields@[i as int].1));
                    assert(decreases_to!(*v => fields@[i as int].1));
                }
                write_json(&fields[i].1, out);
                i = i + 1;
                proof {
                    assert(fields@.subrange(0, i as int).drop_last() =~= fields@.subrange(
                        0,
                        i - 1,
                    ));
                    assert(fields@.subrange(0, i as int).last() == fields@[i - 1]);
                    assert(member_text(fields@[i - 1]) == str_text(fields@[i - 1].0@) + seq![
                        0x3au8,
                    ] + json_text(fields@[i - 1].1));
                    assert(out@ =~= base + seq![0x7bu8] + obj_text(fields@.subrange(0, i as int)));
                }
            }
            out.push(0x7d);
            proof {
                assert(fields@.subrange(0, fields@.len() as int) =~= fields@);
                assert(out@ =~= base + json_text(*v));
            }
        },
    }
}

/// Append the bytes of a stored piece of text verbatim, as the printed
/// form of a `Num` demands.
fn write_raw(raw: &str, out: &mut Vec<u8>)
    ensures
        final(out)@ == old(out)@ + vstd::utf8::encode_utf8(raw@),
{
    let bytes = raw.as_bytes_vec();
    let mut i: usize = 0;
    while i < bytes.len()
        invariant
            i <= bytes@.len(),
            bytes@ == vstd::utf8::encode_utf8(raw@),
            out@ == old(out)@ + bytes@.subrange(0, i as int),
        decreases bytes@.len() - i,
    {
        out.push(bytes[i]);
        i = i + 1;
        assert(out@ =~= old(out)@ + bytes@.subrange(0, i as int));
    }
    assert(bytes@.subrange(0, bytes@.len() as int) =~= bytes@);
}

/// The canonical printed bytes of `v`.
pub fn json_to_bytes(v: &JsonValue) -> (r: Vec<u8>)
    ensures
        r@ == json_text(*v),
{
    let mut out: Vec<u8> = Vec::new();
    write_json(v, &mut out);
    out
}

// ---------------------------------------------------------------------
// Parser
// ---------------------------------------------------------------------
/// Relies on `String::from_utf8`: it succeeds exactly on valid UTF-8
/// input, and the returned string holds those very bytes.
#[verifier::external_body]
pub(crate) fn bytes_to_string(b: Vec<u8>) -> (r: Option<String>)
    ensures
        r is Some <==> vstd::utf8::valid_utf8(b@),
        r matches Some(s) ==> vstd::utf8::encode_utf8(s@) == b@,
{
    String::from_utf8(b).ok()
}

fn skip_ws(b: &Vec<u8>, pos: usize) -> (r: usize)
    requires
        pos <= b@.len(),
    ensures
        pos <= r <= b@.len(),
        r as int == spec_ws_end(b@, pos as int),
{
    let mut p = pos;
    while p < b.len() && (b[p] == 0x20 || b[p] == 0x09 || b[p] == 0x0a || b[p] == 0x0d)
        invariant
            pos <= p <= b@.len(),
            spec_ws_end(b@, pos as int) == spec_ws_end(b@, p as int),
        decreases b@.len() - p,
    {
        proof {
            assert(spec_ws_run(b@, p as int) == 1 + spec_ws_run(b@, p + 1));
        }
        p = p + 1;
    }
    proof {
        assert(spec_ws_run(b@, p as int) == 0);
    }
    p
}

fn hex_val(c: u8) -> (r: Option<u8>)
    ensures
        r == spec_hex_val(c),
        r matches Some(v) ==> v < 16,
{
    if 0x30 <= c && c <= 0x39 {
        Some(c - 0x30)
    } else if 0x61 <= c && c <= 0x66 {
        Some(c - 0x61 + 10)
    } else if 0x41 <= c && c <= 0x46 {
        Some(c - 0x41 + 10)
    } else {
        None
    }
}

/// Parse a quoted string starting at the opening quote.  Escapes are
/// decoded; a code-point escape in the surrogate range is refused, as is
/// content that is not valid UTF-8 once unescaped.
fn parse_string(b: &Vec<u8>, pos: usize) -> (r: Result<(String, usize), DecodeError>)
    requires
        pos < b@.len(),
    ensures
        match spec_parse_string(b@, pos as int) {
            Ok((chars, next)) => r matches Ok((s, nx)) && s@ == chars && nx as int == next,
            Err(e) => r == Err::<(String, usize), DecodeError>(e),
        },
        r matches Ok((s, nx)) ==> pos < nx <= b@.len(),
{
    let n = b.len();
    let mut content: Vec<u8> = Vec::new();
    let mut p = pos + 1;
    loop
        invariant
            pos < p <= n,
            n == b@.len(),
            spec_str_tail(b@, pos + 1, Seq::empty()) == spec_str_tail(b@, p as int, content@),
        decreases b@.len() - p,
    {
        if p >= b.len() {
            return Err(DecodeError::Syntax);
        }
        let c = b[p];
        if c == 0x22 {
            proof {
                assert(spec_str_tail(b@, p as int, content@) == Ok::<(Seq<u8>, int), DecodeError>(
                    (content@, p + 1),
                ));
            }
            match bytes_to_string(content) {
                Some(s) => {
                    proof {
                        vstd::utf8::encode_utf8_decode_utf8(s@);
                    }
                    return Ok((s, p + 1));
                },
                None => {
                    return Err(DecodeError::InvalidString);
                },
            }
        } else if c == 0x5c {
            if p + 1 >= b.len() {
                return Err(DecodeError::Syntax);
            }
            let e = b[p + 1];
            if e == 0x22 {
                proof {
                    assert(spec_str_tail(b@, p as int, content@) == spec_str_tail(
                        b@,
                        p + 2,
                        content@.push(0x22u8),
                    ));
                }
                content.push(0x22);
                p = p + 2;
            } else if e == 0x5c {
                proof {
                    assert(spec_str_tail(b@, p as int, content@) == spec_str_tail(
                        b@,
                        p + 2,
                        content@.push(0x5cu8),
                    ));
                }
                content.push(0x5c);
                p = p + 2;
            } else if e == 0x2f {
                proof {
                    assert(spec_str_tail(b@, p as int, content@) == spec_str_tail(
                        b@,
                        p + 2,
                        content@.push(0x2fu8),
                    ));
                }
                content.push(0x2f);
                p = p + 2;
            } else if e == 0x62 {
                proof {
                    assert(spec_str_tail(b@, p as int, content@) == spec_str_tail(
                        b@,
                        p + 2,
                        content@.push(0x08u8),
                    ));
                }
                content.push(0x08);
                p = p + 2;
            } else if e == 0x66 {
                proof {
                    assert(spec_str_tail(b@, p as int, content@) == spec_str_tail(
                        b@,
                        p + 2,
                        content@.push(0x0cu8),
                    ));
                }
                content.push(0x0c);
                p = p + 2;
            } else if e == 0x6e {
                proof {
                    assert(spec_str_tail(b@, p as int, content@) == spec_str_tail(
                        b@,
                        p + 2,
                        content@.push(0x0au8),
                    ));
                }
                content.push(0x0a);
                p = p + 2;
            } else if e == 0x72 {
                proof {
                    assert(spec_str_tail(b@, p as int, content@) == spec_str_tail(
                        b@,
                        p + 2,
                        content@.push(0x0du8),
                    ));
                }
                content.push(0x0d);
                p = p + 2;
            } else if e == 0x74 {
                proof {
                    assert(spec_str_tail(b@, p as int, content@) == spec_str_tail(
                        b@,
                        p + 2,
                        content@.push(0x09u8),
                    ));
                }
                content.push(0x09);
                p = p + 2;
            } else if e == 0x75 {
                if b.len() - (p + 2) < 4 {
                    return Err(DecodeError::Syntax);
                }
                let h1 = hex_val(b[p + 2]);
                let h2 = hex_val(b[p + 3]);
                let h3 = hex_val(b[p + 4]);
                let h4 = hex_val(b[p + 5]);
                match (h1, h2, h3, h4) {
                    (Some(d1), Some(d2), Some(d3), Some(d4)) => {
                        let code: u32 = (d1 as u32) * 4096 + (d2 as u32) * 256 + (d3 as u32) * 16
                            + (d4 as u32);
                        if 0xd800 <= code && code <= 0xdfff {
                            return Err(DecodeError::Syntax);
                        }
                        proof {
                            assert(spec_str_tail(b@, p as int, content@) == spec_str_tail(
                                b@,
                                p + 6,
                                content@ + spec_unicode_utf8(code as int),
                            ));
                        }
                        let ghost pre = content@;
                        if code < 0x80 {
                            content.push(code as u8);
                        } else if code < 0x800 {
                            content.push((0xc0 + code / 64) as u8);
                            content.push((0x80 + code % 64) as u8);
                        } else {
                            content.push((0xe0 + code / 4096) as u8);
                            content.push((0x80 + (code / 64) % 64) as u8);
                            content.push((0x80 + code % 64) as u8);
                        }
                        proof {
                            assert(content@ =~= pre + spec_unicode_utf8(code as int));
                        }
                        p = p + 6;
                    },
                    _ => {
                        return Err(DecodeError::Syntax);
                    },
                }
            } else {
                return Err(DecodeError::Syntax);
            }
        } else if c < 0x20 {
            return Err(DecodeError::Syntax);
        } else {
            proof {
                assert(spec_str_tail(b@, p as int, content@) == spec_str_tail(
                    b@,
                    p + 1,
                    content@.push(c),
                ));
            }
            content.push(c);
            p = p + 1;
        }
    }
}

fn scan_digits(b: &Vec<u8>, pos: usize) -> (r: usize)
    requires
        pos <= b@.len(),
    ensures
        pos <= r <= b@.len(),
        r as int == spec_digits_end(b@, pos as int),
        forall|j: int| pos <= j < r ==> 0x30 <= #[trigger] b@[j] <= 0x39,
{
    let mut p = pos;
    while p < b.len() && 0x30 <= b[p] && b[p] <= 0x39
        invariant
            pos <= p <= b@.len(),
            spec_digits_end(b@, pos as int) == spec_digits_end(b@, p as int),
            forall|j: int| pos <= j < p ==> 0x30 <= #[trigger] b@[j] <= 0x39,
        decreases b@.len() - p,
    {
        proof {
            assert(spec_digit_run(b@, p as int) == 1 + spec_digit_run(b@, p + 1));
        }
        p = p + 1;
    }
    proof {
        assert(spec_digit_run(b@, p as int) == 0);
    }
    p
}

proof fn lemma_pow10_pos(n: nat)
    ensures
        spec_pow10(n) >= 1,
    decreases n,
{
    if n > 0 {
        lemma_pow10_pos((n - 1) as nat);
    }
}

proof fn lemma_pow10_mono(a: nat, c: nat)
    requires
        a <= c,
    ensures
        1 <= spec_pow10(a) <= spec_pow10(c),
    decreases c,
{
    lemma_pow10_pos(a);
    if c > a {
        lemma_pow10_mono(a, (c - 1) as nat);
    }
}

proof fn lemma_pow10_vals()
    ensures
        spec_pow10(17) == 100000000000000000,
        spec_pow10(18) == 1000000000000000000,
{
    reveal_with_fuel(spec_pow10, 19);
}

/// The value of a run of digits is bounded by ten to its length.
proof fn lemma_dec_val_bound(b: Seq<u8>, s: int, e: int)
    requires
        s <= e,
        forall|j: int| s <= j < e ==> 0x30 <= #[trigger] b[j] <= 0x39,
    ensures
        0 <= spec_dec_val(b, s, e) < spec_pow10((e - s) as nat),
    decreases e - s,
{
    if e > s {
        lemma_dec_val_bound(b, s, e - 1);
        let prev = spec_dec_val(b, s, e - 1);
        let pw = spec_pow10((e - s - 1) as nat);
        let d = b[e - 1] - 0x30;
        assert(spec_pow10((e - s) as nat) == 10 * pw);
        assert(prev * 10 + d < 10 * pw) by (nonlinear_arith)
            requires
                0 <= prev < pw,
                0 <= d <= 9,
        ;
    } else {
        lemma_pow10_pos(0);
    }
}

/// Parse a number token.  An integer of at most eighteen digits becomes
/// `Int`, exactly in range; any other number keeps its raw text as
/// `Num`.
fn parse_number(b: &Vec<u8>, pos: usize) -> (r: Result<(JsonValue, usize), DecodeError>)
    requires
        pos < b@.len(),
    ensures
        match spec_parse_number(b@, pos as int) {
            Ok((j, next)) => r matches Ok((v, nx)) && jv_model(v) == j && nx as int == next,
            Err(e) => r == Err::<(JsonValue, usize), DecodeError>(e),
        },
        r matches Ok((v, nx)) ==> pos < nx <= b@.len(),
{
    let n = b.len();
    let negative = b[pos] == 0x2d;
    let ds: usize = if negative {
        pos + 1
    } else {
        pos
    };
    let de = scan_digits(b, ds);
    if de == ds {
        return Err(DecodeError::Syntax);
    }
    let mut integral = true;
    let mut p = de;
    if p < n && b[p] == 0x2e {
        let fe = scan_digits(b, p + 1);
        if fe == p + 1 {
            return Err(DecodeError::Syntax);
        }
        integral = false;
        p = fe;
    }
    if p < n && (b[p] == 0x65 || b[p] == 0x45) {
        let mut es = p + 1;
        if es < n && (b[es] == 0x2b || b[es] == 0x2d) {
            es = es + 1;
        }
        let ee = scan_digits(b, es);
        if ee == es {
            return Err(DecodeError::Syntax);
        }
        integral = false;
        p = ee;
    }
    if integral && de - ds <= 18 {
        let mut acc: u64 = 0;
        let mut i = ds;
        while i < de
            invariant
                ds <= i <= de,
                de <= b@.len(),
                de - ds <= 18,
                forall|j: int| ds <= j < de ==> 0x30 <= #[trigger] b@[j] <= 0x39,
                acc as int == spec_dec_val(b@, ds as int, i as int),
            decreases de - i,
        {
            proof {
                lemma_dec_val_bound(b@, ds as int, i as int);
                lemma_pow10_mono(((i - ds)) as nat, 17);
                lemma_pow10_vals();
            }
            let d = b[i];
            acc = acc * 10 + ((d - 0x30) as u64);
            i = i + 1;
        }
        proof {
            lemma_dec_val_bound(b@, ds as int, de as int);
            lemma_pow10_mono(((de - ds)) as nat, 18);
            lemma_pow10_vals();
        }
        if negative {
            return Ok((JsonValue::Int(-(acc as i64)), p));
        } else {
            return Ok((JsonValue::Int(acc as i64), p));
        }
    }
    let mut token: Vec<u8> = Vec::new();
    let mut i = pos;
    while i < p
        invariant
            pos <= i <= p,
            p <= b@.len(),
            token@ == b@.subrange(pos as int, i as int),
        decreases p - i,
    {
        token.push(b[i]);
        i = i + 1;
        proof {
            assert(token@ =~= b@.subrange(pos as int, i as int));
        }
    }
    match bytes_to_string(token) {
        Some(s) => {
            proof {
                vstd::utf8::encode_utf8_decode_utf8(s@);
            }
            Ok((JsonValue::Num(s), p))
        },
        None => Err(DecodeError::Syntax),
    }
}

/// Parse one value starting at `pos`, leading whitespace allowed.
pub fn parse_value(b: &Vec<u8>, pos: usize, depth: u32) -> (r: Result<
    (JsonValue, usize),
    DecodeError,
>)
    requires
        pos <= b@.len(),
    ensures
        match spec_parse_value(b@, pos as int, depth as nat) {
            Ok((j, next)) => r matches Ok((v, nx)) && jv_model(v) == j && nx as int == next,
            Err(e) => r == Err::<(JsonValue, usize), DecodeError>(e),
        },
        r matches Ok((v, next)) ==> pos < next <= b@.len(),
    decreases depth, 1int,
{
    proof {
        assert(clamp_pos(b@, pos as int) == pos as int);
    }
    let p = skip_ws(b, pos);
    if p >= b.len() {
        return Err(DecodeError::Syntax);
    }
    let c = b[p];
    if c == 0x7b {
        if depth == 0 {
            return Err(DecodeError::TooDeep);
        }
        parse_object(b, p + 1, depth)
    } else if c == 0x5b {
        if depth == 0 {
            return Err(DecodeError::TooDeep);
        }
        parse_array(b, p + 1, depth)
    } else if c == 0x22 {
        match parse_string(b, p) {
            Ok((s, next)) => Ok((JsonValue::Str(s), next)),
            Err(e) => Err(e),
        }
    } else if c == 0x74 {
        if b.len() - p >= 4 && b[p + 1] == 0x72 && b[p + 2] == 0x75 && b[p + 3] == 0x65 {
            Ok((JsonValue::Bool(true), p + 4))
        } else {
            Err(DecodeError::Syntax)
        }
    } else if c == 0x66 {
        if b.len() - p >= 5 && b[p + 1] == 0x61 && b[p + 2] == 0x6c && b[p + 3] == 0x73 && b[p + 4]
            == 0x65 {
            Ok((JsonValue::Bool(false), p + 5))
        } else {
            Err(DecodeError::Syntax)
        }
    } else if c == 0x6e {
        if b.len() - p >= 4 && b[p + 1] == 0x75 && b[p + 2] == 0x6c && b[p + 3] == 0x6c {
            Ok((JsonValue::Null, p + 4))
        } else {
            Err(DecodeError::Syntax)
        }
    } else if c == 0x2d || (0x30 <= c && c <= 0x39) {
        parse_number(b, p)
    } else {
        Err(DecodeError::Syntax)
    }
}

/// Parse array elements after the opening bracket.
fn parse_array(b: &Vec<u8>, pos: usize, depth: u32) -> (r: Result<(JsonValue, usize), DecodeError>)
    requires
        pos <= b@.len(),
        depth >= 1,
    ensures
        match spec_parse_array(b@, pos as int, depth as nat) {
            Ok((j, next)) => r matches Ok((v, nx)) && jv_model(v) == j && nx as int == next,
            Err(e) => r == Err::<(JsonValue, usize), DecodeError>(e),
        },
        r matches Ok((v, next)) ==> pos < next <= b@.len(),
    decreases depth, 0int,
{
    let mut elems: Vec<JsonValue> = Vec::new();
    proof {
        assert(clamp_pos(b@, pos as int) == pos as int);
    }
    let first = skip_ws(b, pos);
    if first < b.len() && b[first] == 0x5d {
        proof {
            assert(jv_models(elems@) =~= Seq::<Json>::empty());
        }
        return Ok((JsonValue::Arr(elems), first + 1));
    }
    let mut p = first;
    proof {
        assert(jv_models(elems@) =~= Seq::<Json>::empty());
    }
    loop
        invariant
            pos <= p <= b@.len(),
            depth >= 1,
            spec_parse_array(b@, pos as int, depth as nat) == spec_arr_tail(
                b@,
                p as int,
                jv_models(elems@),
                depth as nat,
            ),
        decreases b@.len() - p,
    {
        proof {
            assert(clamp_pos(b@, p as int) == p as int);
        }
        match parse_value(b, p, depth - 1) {
            Err(e) => {
                return Err(e);
            },
            Ok((v, q)) => {
                let ghost pre = elems@;
                elems.push(v);
                proof {
                    assert(elems@.drop_last() =~= pre);
                    assert(jv_models(elems@) == jv_models(pre).push(jv_model(v)));
                }
                let q2 = skip_ws(b, q);
                if q2 < b.len() && b[q2] == 0x2c {
                    p = q2 + 1;
                } else if q2 < b.len() && b[q2] == 0x5d {
                    return Ok((JsonValue::Arr(elems), q2 + 1));
                } else {
                    return Err(DecodeError::Syntax);
                }
            },
        }
    }
}

/// Parse object members after the opening brace.
fn parse_object(b: &Vec<u8>, pos: usize, depth: u32) -> (r: Result<(JsonValue, usize), DecodeError>)
    requires
        pos <= b@.len(),
        depth >= 1,
    ensures
        match spec_parse_object(b@, pos as int, depth as nat) {
            Ok((j, next)) => r matches Ok((v, nx)) && jv_model(v) == j && nx as int == next,
            Err(e) => r == Err::<(JsonValue, usize), DecodeError>(e),
        },
        r matches Ok((v, next)) ==> pos < next <= b@.len(),
    decreases depth, 0int,
{
    let mut fields: Vec<(String, JsonValue)> = Vec::new();
    proof {
        assert(clamp_pos(b@, pos as int) == pos as int);
    }
    let first = skip_ws(b, pos);
    if first < b.len() && b[first] == 0x7d {
        proof {
            assert(jv_fields_model(fields@) =~= Seq::<(Seq<char>, Json)>::empty());
        }
        return Ok((JsonValue::Obj(fields), first + 1));
    }
    let mut p = first;
    proof {
        assert(jv_fields_model(fields@) =~= Seq::<(Seq<char>, Json)>::empty());
    }
    loop
        invariant
            pos <= p <= b@.len(),
            depth >= 1,
            spec_parse_object(b@, pos as int, depth as nat) == spec_obj_tail(
                b@,
                p as int,
                jv_fields_model(fields@),
                depth as nat,
            ),
        decreases b@.len() - p,
    {
        proof {
            assert(clamp_pos(b@, p as int) == p as int);
        }
        let k = skip_ws(b, p);
        if !(k < b.len() && b[k] == 0x22) {
            return Err(DecodeError::Syntax);
        }
        match parse_string(b, k) {
            Err(e) => {
                return Err(e);
            },
            Ok((key, q)) => {
                let q2 = skip_ws(b, q);
                if !(q2 < b.len() && b[q2] == 0x3a) {
                    return Err(DecodeError::Syntax);
                }
                match parse_value(b, q2 + 1, depth - 1) {
                    Err(e) => {
                        return Err(e);
                    },
                    Ok((v, w)) => {
                        let ghost pre = fields@;
                        let ghost keyc = key@;
                        fields.push((key, v));
                        proof {
                            assert(fields@.drop_last() =~= pre);
                            assert(jv_fields_model(fields@) == jv_fields_model(pre).push(
                                (keyc, jv_model(v)),
                            ));
                        }
                        let w2 = skip_ws(b, w);
                        if w2 < b.len() && b[w2] == 0x2c {
                            p = w2 + 1;
                        } else if w2 < b.len() && b[w2] == 0x7d {
                            return Ok((JsonValue::Obj(fields), w2 + 1));
                        } else {
                            return Err(DecodeError::Syntax);
                        }
                    },
                }
            },
        }
    }
}

/// Parse a whole document: one value and nothing but trailing
/// whitespace.  The result denotes exactly what the grammar assigns to
/// the bytes, error for error.
pub fn json_parse(b: &Vec<u8>) -> (r: Result<JsonValue, DecodeError>)
    ensures
        match spec_json_parse(b@) {
            Ok(j) => r matches Ok(v) && jv_model(v) == j,
            Err(e) => r == Err::<JsonValue, DecodeError>(e),
        },
{
    match parse_value(b, 0, MAX_PARSE_DEPTH) {
        Ok((v, next)) => {
            let q = skip_ws(b, next);
            if q == b.len() {
                Ok(v)
            } else {
                Err(DecodeError::Syntax)
            }
        },
        Err(e) => Err(e),
    }
}

// ---------------------------------------------------------------------
// Object access, equality, deep copy
// ---------------------------------------------------------------------
/// Exact string comparison.
pub fn str_eq(a: &str, b: &str) -> (r: bool)
    ensures
        r == (a@ == b@),
{
    let ab = a.as_bytes();
    let bb = b.as_bytes();
    if ab.len() != bb.len() {
        return false;
    }
    let mut i: usize = 0;
    while i < ab.len()
        invariant
            i <= ab@.len(),
            ab@.len() == bb@.len(),
            ab@ == vstd::utf8::encode_utf8(a@),
            bb@ == vstd::utf8::encode_utf8(b@),
            forall|j: int| 0 <= j < i ==> ab@[j] == bb@[j],
        decreases ab@.len() - i,
    {
        if ab[i] != bb[i] {
            return false;
        }
        i = i + 1;
    }
    proof {
        assert(ab@ =~= bb@);
        vstd::utf8::encode_utf8_decode_utf8(a@);
        vstd::utf8::encode_utf8_decode_utf8(b@);
    }
    true
}

/// First value bound to `key`, searching members front to back.
pub open spec fn spec_obj_lookup(fields: Seq<(String, JsonValue)>, key: Seq<char>) -> Option<
    JsonValue,
>
    decreases fields.len(),
{
    if fields.len() == 0 {
        None
    } else if fields[0].0@ == key {
        Some(fields[0].1)
    } else {
        spec_obj_lookup(fields.drop_first(), key)
    }
}

/// Find the first member named `key`.
pub fn obj_lookup<'a>(fields: &'a Vec<(String, JsonValue)>, key: &str) -> (r: Option<
    &'a JsonValue,
>)
    ensures
        match r {
            Some(v) => spec_obj_lookup(fields@, key@) == Some(*v),
            None => spec_obj_lookup(fields@, key@) is None,
        },
{
    proof {
        assert(fields@.skip(0) =~= fields@);
    }
    let mut i: usize = 0;
    while i < fields.len()
        invariant
            i <= fields@.len(),
            spec_obj_lookup(fields@, key@) == spec_obj_lookup(fields@.skip(i as int), key@),
        decreases fields@.len() - i,
    {
        if str_eq(fields[i].0.as_str(), key) {
            proof {
                assert(fields@.skip(i as int)[0] == fields@[i as int]);
            }
            return Some(&fields[i].1);
        }
        i = i + 1;
        proof {
            assert(fields@.skip(i - 1).drop_first() =~= fields@.skip(i as int));
            assert(fields@.skip(i - 1)[0] == fields@[i - 1]);
        }
    }
    proof {
        assert(fields@.skip(fields@.len() as int).len() == 0);
    }
    None
}

/// Removing one member whose key differs from `key` leaves the first
/// match for `key` where it was.
proof fn lemma_lookup_remove(fields: Seq<(String, JsonValue)>, i: int, key: Seq<char>)
    requires
        0 <= i < fields.len(),
        fields[i].0@ != key,
    ensures
        spec_obj_lookup(fields.remove(i), key) == spec_obj_lookup(fields, key),
    decreases fields.len(),
{
    if i == 0 {
        assert(fields.remove(0) =~= fields.drop_first());
    } else {
        assert(fields.remove(i)[0] == fields[0]);
        if fields[0].0@ != key {
            lemma_lookup_remove(fields.drop_first(), i - 1, key);
            assert(fields.remove(i).drop_first() =~= fields.drop_first().remove(i - 1));
        } else {
            assert(fields.remove(i).len() > 0);
        }
    }
}

/// Remove and return the first member named `key`.  Extracting by move
/// keeps the value itself, so what the caller gets is exactly what the
/// object held; members under any other key keep their bindings.
pub fn obj_take(fields: &mut Vec<(String, JsonValue)>, key: &str) -> (r: Option<JsonValue>)
    ensures
        match r {
            Some(v) => spec_obj_lookup(old(fields)@, key@) == Some(v),
            None => spec_obj_lookup(old(fields)@, key@) is None && final(fields)@ == old(fields)@,
        },
        forall|k: Seq<char>|
            k != key@ ==> #[trigger] spec_obj_lookup(final(fields)@, k) == spec_obj_lookup(
                old(fields)@,
                k,
            ),
{
    proof {
        assert(fields@.skip(0) =~= fields@);
    }
    let mut i: usize = 0;
    while i < fields.len()
        invariant
            i <= fields@.len(),
            fields@ == old(fields)@,
            spec_obj_lookup(old(fields)@, key@) == spec_obj_lookup(fields@.skip(i as int), key@),
            forall|j: int| 0 <= j < i ==> fields@[j].0@ != key@,
        decreases fields@.len() - i,
    {
        if str_eq(fields[i].0.as_str(), key) {
            proof {
                assert(fields@.skip(i as int)[0] == fields@[i as int]);
            }
            let ghost pre = fields@;
            let pair = fields.remove(i);
            proof {
                assert forall|k: Seq<char>| k != key@ implies #[trigger] spec_obj_lookup(
                    fields@,
                    k,
                ) == spec_obj_lookup(pre, k) by {
                    lemma_lookup_remove(pre, i as int, k);
                }
            }
            return Some(pair.1);
        }
        i = i + 1;
        proof {
            assert(fields@.skip(i - 1).drop_first() =~= fields@.skip(i as int));
            assert(fields@.skip(i - 1)[0] == fields@[i - 1]);
        }
    }
    proof {
        assert(fields@.skip(fields@.len() as int).len() == 0);
    }
    None
}


// ---------------------------------------------------------------------
// The parsed document's mathematical model
// ---------------------------------------------------------------------
/// A document value as mathematics: what a `JsonValue` denotes.
pub enum Json {
    Null,
    Bool(bool),
    Int(i64),
    Num(Seq<char>),
    Str(Seq<char>),
    Arr(Seq<Json>),
    Obj(Seq<(Seq<char>, Json)>),
}

/// What a value denotes.
pub open spec fn jv_model(v: JsonValue) -> Json
    decreases v,
{
    match v {
        JsonValue::Null => Json::Null,
        JsonValue::Bool(b) => Json::Bool(b),
        JsonValue::Int(i) => Json::Int(i),
        JsonValue::Num(s) => Json::Num(s@),
        JsonValue::Str(s) => Json::Str(s@),
        JsonValue::Arr(elems) => Json::Arr(jv_models(elems@)),
        JsonValue::Obj(fields) => Json::Obj(jv_fields_model(fields@)),
    }
}

/// What a sequence of values denotes, elementwise.
pub open spec fn jv_models(s: Seq<JsonValue>) -> Seq<Json>
    decreases s,
{
    if s.len() == 0 {
        Seq::empty()
    } else {
        jv_models(s.drop_last()).push(jv_model(s.last()))
    }
}

/// What object members denote, elementwise.
pub open spec fn jv_fields_model(s: Seq<(String, JsonValue)>) -> Seq<(Seq<char>, Json)>
    decreases s,
{
    if s.len() == 0 {
        Seq::empty()
    } else {
        jv_fields_model(s.drop_last()).push((s.last().0@, jv_model(s.last().1)))
    }
}

/// The member denotations are pointwise.
pub proof fn lemma_jv_fields_model_index(s: Seq<(String, JsonValue)>)
    ensures
        jv_fields_model(s).len() == s.len(),
        forall|i: int| 0 <= i < s.len() ==> #[trigger] jv_fields_model(s)[i] == (
            s[i].0@,
            jv_model(s[i].1),
        ),
    decreases s.len(),
{
    if s.len() > 0 {
        lemma_jv_fields_model_index(s.drop_last());
    }
}


// ---------------------------------------------------------------------
// The grammar, as mathematics: what the parser accepts and yields
// ---------------------------------------------------------------------
/// A position clamped into the document.
pub open spec fn clamp_pos(b: Seq<u8>, p: int) -> int {
    if p < 0 {
        0
    } else if p > b.len() {
        b.len() as int
    } else {
        p
    }
}

/// Whitespace bytes between tokens.
pub open spec fn spec_is_ws(c: u8) -> bool {
    c == 0x20 || c == 0x09 || c == 0x0a || c == 0x0d
}

/// How many whitespace bytes run from `p`.
pub open spec fn spec_ws_run(b: Seq<u8>, p: int) -> nat
    decreases b.len() - p,
{
    if 0 <= p < b.len() && spec_is_ws(b[p]) {
        1 + spec_ws_run(b, p + 1)
    } else {
        0
    }
}

/// The first non-whitespace position at or after `p`.
pub open spec fn spec_ws_end(b: Seq<u8>, p: int) -> int {
    p + spec_ws_run(b, p)
}

/// How many decimal digits run from `p`.
pub open spec fn spec_digit_run(b: Seq<u8>, p: int) -> nat
    decreases b.len() - p,
{
    if 0 <= p < b.len() && 0x30 <= b[p] <= 0x39 {
        1 + spec_digit_run(b, p + 1)
    } else {
        0
    }
}

/// The first non-digit position at or after `p`.
pub open spec fn spec_digits_end(b: Seq<u8>, p: int) -> int {
    p + spec_digit_run(b, p)
}

/// The value of a hexadecimal digit byte.
pub open spec fn spec_hex_val(c: u8) -> Option<u8> {
    if 0x30 <= c <= 0x39 {
        Option::Some((c - 0x30) as u8)
    } else if 0x61 <= c <= 0x66 {
        Option::Some((c - 0x61 + 10) as u8)
    } else if 0x41 <= c <= 0x46 {
        Option::Some((c - 0x41 + 10) as u8)
    } else {
        Option::None
    }
}

/// The bytes an escaped code point contributes.
pub open spec fn spec_unicode_utf8(code: int) -> Seq<u8> {
    if code < 0x80 {
        seq![code as u8]
    } else if code < 0x800 {
        seq![(0xc0 + code / 64) as u8, (0x80 + code % 64) as u8]
    } else {
        seq![(0xe0 + code / 4096) as u8, (0x80 + (code / 64) % 64) as u8, (0x80 + code % 64) as u8]
    }
}

/// String content from `p` (just past the opening quote): the unescaped
/// bytes and the position past the closing quote.
pub open spec fn spec_str_tail(b: Seq<u8>, p: int, acc: Seq<u8>) -> Result<
    (Seq<u8>, int),
    DecodeError,
>
    decreases b.len() - p,
{
    let n = b.len() as int;
    if p < 0 || p >= n {
        Err(DecodeError::Syntax)
    } else {
        let c = b[p];
        if c == 0x22 {
            Ok((acc, p + 1))
        } else if c == 0x5c {
            if p + 1 >= n {
                Err(DecodeError::Syntax)
            } else {
                let e = b[p + 1];
                if e == 0x22 {
                    spec_str_tail(b, p + 2, acc.push(0x22))
                } else if e == 0x5c {
                    spec_str_tail(b, p + 2, acc.push(0x5c))
                } else if e == 0x2f {
                    spec_str_tail(b, p + 2, acc.push(0x2f))
                } else if e == 0x62 {
                    spec_str_tail(b, p + 2, acc.push(0x08))
                } else if e == 0x66 {
                    spec_str_tail(b, p + 2, acc.push(0x0c))
                } else if e == 0x6e {
                    spec_str_tail(b, p + 2, acc.push(0x0a))
                } else if e == 0x72 {
                    spec_str_tail(b, p + 2, acc.push(0x0d))
                } else if e == 0x74 {
                    spec_str_tail(b, p + 2, acc.push(0x09))
                } else if e == 0x75 {
                    if n - (p + 2) < 4 {
                        Err(DecodeError::Syntax)
                    } else {
                        match (
                            spec_hex_val(b[p + 2]),
                            spec_hex_val(b[p + 3]),
                            spec_hex_val(b[p + 4]),
                            spec_hex_val(b[p + 5]),
                        ) {
                            (
                                Option::Some(d1),
                                Option::Some(d2),
                                Option::Some(d3),
                                Option::Some(d4),
                            ) => {
                                let code = d1 * 4096 + d2 * 256 + d3 * 16 + d4;
                                if 0xd800 <= code && code <= 0xdfff {
                                    Err(DecodeError::Syntax)
                                } else {
                                    spec_str_tail(b, p + 6, acc + spec_unicode_utf8(code as int))
                                }
                            },
                            _ => Err(DecodeError::Syntax),
                        }
                    }
                } else {
                    Err(DecodeError::Syntax)
                }
            }
        } else if c < 0x20 {
            Err(DecodeError::Syntax)
        } else {
            spec_str_tail(b, p + 1, acc.push(c))
        }
    }
}

/// A quoted string starting at the opening quote: its characters and the
/// position past the closing quote.
pub open spec fn spec_parse_string(b: Seq<u8>, pos: int) -> Result<(Seq<char>, int), DecodeError> {
    match spec_str_tail(b, pos + 1, Seq::empty()) {
        Ok((content, next)) => if vstd::utf8::valid_utf8(content) {
            Ok((vstd::utf8::decode_utf8(content), next))
        } else {
            Err(DecodeError::InvalidString)
        },
        Err(e) => Err(e),
    }
}

/// The value of the digits in `b[s..e]`.
pub open spec fn spec_dec_val(b: Seq<u8>, s: int, e: int) -> int
    decreases e - s,
{
    if e <= s {
        0
    } else {
        spec_dec_val(b, s, e - 1) * 10 + (b[e - 1] - 0x30)
    }
}

/// Powers of ten.
pub open spec fn spec_pow10(n: nat) -> int
    decreases n,
{
    if n == 0 {
        1
    } else {
        10 * spec_pow10((n - 1) as nat)
    }
}

/// A number token starting at `pos` (a minus sign or a digit): an
/// in-range integer becomes `Int`; any other number keeps its text.
pub open spec fn spec_parse_number(b: Seq<u8>, pos: int) -> Result<(Json, int), DecodeError> {
    let n = b.len() as int;
    let neg = 0 <= pos < n && b[pos] == 0x2d;
    let ds = if neg {
        pos + 1
    } else {
        pos
    };
    let de = spec_digits_end(b, ds);
    if de == ds {
        Err(DecodeError::Syntax)
    } else {
        let has_frac = de < n && b[de] == 0x2e;
        if has_frac && spec_digits_end(b, de + 1) == de + 1 {
            Err(DecodeError::Syntax)
        } else {
            let p1 = if has_frac {
                spec_digits_end(b, de + 1)
            } else {
                de
            };
            let has_exp = p1 < n && (b[p1] == 0x65 || b[p1] == 0x45);
            if has_exp {
                let es0 = p1 + 1;
                let es = if es0 < n && (b[es0] == 0x2b || b[es0] == 0x2d) {
                    es0 + 1
                } else {
                    es0
                };
                let ee = spec_digits_end(b, es);
                if ee == es {
                    Err(DecodeError::Syntax)
                } else {
                    spec_number_token(b, pos, ee, false, neg, ds, de)
                }
            } else {
                spec_number_token(b, pos, p1, !has_frac, neg, ds, de)
            }
        }
    }
}

/// The token's value: an integer of at most eighteen digits is exact in
/// the machine range; everything else keeps its raw text.
pub open spec fn spec_number_token(
    b: Seq<u8>,
    pos: int,
    p: int,
    integral: bool,
    neg: bool,
    ds: int,
    de: int,
) -> Result<(Json, int), DecodeError> {
    if integral && de - ds <= 18 {
        let m = spec_dec_val(b, ds, de);
        Ok(
            (
                Json::Int(
                    if neg {
                        (-m) as i64
                    } else {
                        m as i64
                    },
                ),
                p,
            ),
        )
    } else {
        let tok = b.subrange(pos, p);
        if vstd::utf8::valid_utf8(tok) {
            Ok((Json::Num(vstd::utf8::decode_utf8(tok)), p))
        } else {
            Err(DecodeError::Syntax)
        }
    }
}

/// One value starting at `pos`, leading whitespace allowed.
pub open spec fn spec_parse_value(b: Seq<u8>, pos: int, fuel: nat) -> Result<
    (Json, int),
    DecodeError,
>
    decreases fuel, 1int, 0int,
{
    let n = b.len() as int;
    let p = spec_ws_end(b, clamp_pos(b, pos));
    if p >= n {
        Err(DecodeError::Syntax)
    } else {
        let c = b[p];
        if c == 0x7b {
            if fuel == 0 {
                Err(DecodeError::TooDeep)
            } else {
                spec_parse_object(b, p + 1, fuel)
            }
        } else if c == 0x5b {
            if fuel == 0 {
                Err(DecodeError::TooDeep)
            } else {
                spec_parse_array(b, p + 1, fuel)
            }
        } else if c == 0x22 {
            match spec_parse_string(b, p) {
                Ok((chars, next)) => Ok((Json::Str(chars), next)),
                Err(e) => Err(e),
            }
        } else if c == 0x74 {
            if n - p >= 4 && b[p + 1] == 0x72 && b[p + 2] == 0x75 && b[p + 3] == 0x65 {
                Ok((Json::Bool(true), p + 4))
            } else {
                Err(DecodeError::Syntax)
            }
        } else if c == 0x66 {
            if n - p >= 5 && b[p + 1] == 0x61 && b[p + 2] == 0x6c && b[p + 3] == 0x73 && b[p + 4]
                == 0x65 {
                Ok((Json::Bool(false), p + 5))
            } else {
                Err(DecodeError::Syntax)
            }
        } else if c == 0x6e {
            if n - p >= 4 && b[p + 1] == 0x75 && b[p + 2] == 0x6c && b[p + 3] == 0x6c {
                Ok((Json::Null, p + 4))
            } else {
                Err(DecodeError::Syntax)
            }
        } else if c == 0x2d || (0x30 <= c && c <= 0x39) {
            spec_parse_number(b, p)
        } else {
            Err(DecodeError::Syntax)
        }
    }
}

/// Array elements after the opening bracket.
pub open spec fn spec_parse_array(b: Seq<u8>, pos: int, fuel: nat) -> Result<
    (Json, int),
    DecodeError,
>
    decreases fuel, 0int, b.len() - clamp_pos(b, pos) + 1,
{
    let n = b.len() as int;
    let p0 = clamp_pos(b, pos);
    let first0 = spec_ws_end(b, p0);
    let first = if first0 > n {
        n
    } else {
        first0
    };
    if fuel == 0 {
        Err(DecodeError::TooDeep)
    } else if first < n && b[first] == 0x5d {
        Ok((Json::Arr(Seq::empty()), first + 1))
    } else {
        spec_arr_tail(b, first, Seq::empty(), fuel)
    }
}

/// Elements from `p`: parse one, then a comma continues or a bracket
/// closes.
pub open spec fn spec_arr_tail(b: Seq<u8>, p: int, acc: Seq<Json>, fuel: nat) -> Result<
    (Json, int),
    DecodeError,
>
    decreases fuel, 0int, b.len() - clamp_pos(b, p),
{
    let n = b.len() as int;
    let cp = clamp_pos(b, p);
    if fuel == 0 {
        Err(DecodeError::TooDeep)
    } else {
        match spec_parse_value(b, cp, (fuel - 1) as nat) {
            Err(e) => Err(e),
            Ok((j, next0)) => {
                let next = if next0 > cp {
                    next0
                } else {
                    cp + 1
                };
                let q2 = spec_ws_end(b, next);
                if q2 < n && b[q2] == 0x2c {
                    spec_arr_tail(b, q2 + 1, acc.push(j), fuel)
                } else if q2 < n && b[q2] == 0x5d {
                    Ok((Json::Arr(acc.push(j)), q2 + 1))
                } else {
                    Err(DecodeError::Syntax)
                }
            },
        }
    }
}

/// Object members after the opening brace.
pub open spec fn spec_parse_object(b: Seq<u8>, pos: int, fuel: nat) -> Result<
    (Json, int),
    DecodeError,
>
    decreases fuel, 0int, b.len() - clamp_pos(b, pos) + 1,
{
    let n = b.len() as int;
    let p0 = clamp_pos(b, pos);
    let first0 = spec_ws_end(b, p0);
    let first = if first0 > n {
        n
    } else {
        first0
    };
    if fuel == 0 {
        Err(DecodeError::TooDeep)
    } else if first < n && b[first] == 0x7d {
        Ok((Json::Obj(Seq::empty()), first + 1))
    } else {
        spec_obj_tail(b, first, Seq::empty(), fuel)
    }
}

/// Members from `p`: a quoted key, a colon, a value, then a comma
/// continues or a brace closes.
pub open spec fn spec_obj_tail(
    b: Seq<u8>,
    p: int,
    acc: Seq<(Seq<char>, Json)>,
    fuel: nat,
) -> Result<(Json, int), DecodeError>
    decreases fuel, 0int, b.len() - clamp_pos(b, p),
{
    let n = b.len() as int;
    let cp = clamp_pos(b, p);
    if fuel == 0 {
        Err(DecodeError::TooDeep)
    } else {
        let k = spec_ws_end(b, cp);
        if !(k < n && b[k] == 0x22) {
            Err(DecodeError::Syntax)
        } else {
            match spec_parse_string(b, k) {
                Err(e) => Err(e),
                Ok((key, q0)) => {
                    let q = if q0 > k {
                        q0
                    } else {
                        k + 1
                    };
                    let q2 = spec_ws_end(b, q);
                    if !(q2 < n && b[q2] == 0x3a) {
                        Err(DecodeError::Syntax)
                    } else {
                        match spec_parse_value(b, q2 + 1, (fuel - 1) as nat) {
                            Err(e) => Err(e),
                            Ok((j, w0)) => {
                                let w = if w0 > q2 + 1 {
                                    w0
                                } else {
                                    q2 + 2
                                };
                                let w2 = spec_ws_end(b, w);
                                if w2 < n && b[w2] == 0x2c {
                                    spec_obj_tail(b, w2 + 1, acc.push((key, j)), fuel)
                                } else if w2 < n && b[w2] == 0x7d {
                                    Ok((Json::Obj(acc.push((key, j))), w2 + 1))
                                } else {
                                    Err(DecodeError::Syntax)
                                }
                            },
                        }
                    }
                },
            }
        }
    }
}

/// A whole document: one value and nothing but trailing whitespace.
pub open spec fn spec_json_parse(b: Seq<u8>) -> Result<Json, DecodeError> {
    match spec_parse_value(b, 0, MAX_PARSE_DEPTH as nat) {
        Err(e) => Err(e),
        Ok((j, next)) => if spec_ws_end(b, next) == b.len() {
            Ok(j)
        } else {
            Err(DecodeError::Syntax)
        },
    }
}


/// First value bound to `key` among model members, front to back.
pub open spec fn spec_model_lookup(fields: Seq<(Seq<char>, Json)>, key: Seq<char>) -> Option<Json>
    decreases fields.len(),
{
    if fields.len() == 0 {
        Option::None
    } else if fields[0].0 == key {
        Option::Some(fields[0].1)
    } else {
        spec_model_lookup(fields.drop_first(), key)
    }
}

/// Looking a key up in an object and in the object's model agree.
pub proof fn lemma_lookup_model(fields: Seq<(String, JsonValue)>, key: Seq<char>)
    ensures
        match spec_obj_lookup(fields, key) {
            Option::Some(v) => spec_model_lookup(jv_fields_model(fields), key) == Option::Some(
                jv_model(v),
            ),
            Option::None => spec_model_lookup(jv_fields_model(fields), key) is None,
        },
    decreases fields.len(),
{
    lemma_jv_fields_model_index(fields);
    if fields.len() > 0 {
        if fields[0].0@ != key {
            lemma_lookup_model(fields.drop_first(), key);
            lemma_jv_fields_model_index(fields.drop_first());
            assert(jv_fields_model(fields.drop_first()) =~= jv_fields_model(
                fields,
            ).drop_first());
        }
    }
}

} // verus!
