//! Frame decoding and frame reassembly.
//!
//! The wire format is an ASCII line of eight comma-separated hexadecimal
//! tokens, each a 32-bit word, terminated by `\n` or `\r`. The decoder
//! turns one such line into a [`SensorData`] record; the [`Reassembler`]
//! turns an unbounded stream of read chunks into complete lines.

use vstd::prelude::*;

use crate::error::ReceiverError;
use crate::types::SensorData;

verus! {

// ---------------------------------------------------------------------------
// Hexadecimal tokens
// ---------------------------------------------------------------------------

/// Is `c` an ASCII hexadecimal digit?
pub open spec fn is_hex_digit(c: char) -> bool {
    ('0' as u32 <= c as u32 && c as u32 <= '9' as u32)
        || ('a' as u32 <= c as u32 && c as u32 <= 'f' as u32)
        || ('A' as u32 <= c as u32 && c as u32 <= 'F' as u32)
}

/// The numeric value of one hexadecimal digit (0 for a non-digit).
pub open spec fn hex_digit_val(c: char) -> nat {
    if '0' as u32 <= c as u32 && c as u32 <= '9' as u32 {
        (c as u32 - '0' as u32) as nat
    } else if 'a' as u32 <= c as u32 && c as u32 <= 'f' as u32 {
        (c as u32 - 'a' as u32 + 10) as nat
    } else if 'A' as u32 <= c as u32 && c as u32 <= 'F' as u32 {
        (c as u32 - 'A' as u32 + 10) as nat
    } else {
        0
    }
}

/// The numeric value of a string of hexadecimal digits, most significant
/// digit first.
pub open spec fn hex_value(s: Seq<char>) -> nat
    decreases s.len(),
{
    if s.len() == 0 {
        0
    } else {
        hex_value(s.drop_last()) * 16 + hex_digit_val(s.last())
    }
}

pub open spec fn all_hex_digits(s: Seq<char>) -> bool {
    forall|i: int| 0 <= i < s.len() ==> is_hex_digit(#[trigger] s[i])
}

/// A token that denotes a 32-bit word: non-empty, all hexadecimal digits,
/// and a value that fits in `u32`.
pub open spec fn valid_hex_u32(s: Seq<char>) -> bool {
    &&& s.len() >= 1
    &&& all_hex_digits(s)
    &&& hex_value(s) <= u32::MAX
}

/// Extending a digit string by one digit multiplies its value by 16 and
/// adds the new digit.
proof fn lemma_hex_prefix_step(s: Seq<char>, i: int)
    requires
        0 <= i < s.len(),
    ensures
        hex_value(s.subrange(0, i + 1)) == hex_value(s.subrange(0, i)) * 16 + hex_digit_val(s[i]),
{
    assert(s.subrange(0, i + 1).drop_last() =~= s.subrange(0, i));
    assert(s.subrange(0, i + 1).last() == s[i]);
}

/// The value of a digit string is at least the value of any of its prefixes.
proof fn lemma_hex_value_mono(s: Seq<char>, i: int)
    requires
        0 <= i <= s.len(),
    ensures
        hex_value(s) >= hex_value(s.subrange(0, i)),
    decreases s.len() - i,
{
    if i == s.len() {
        assert(s.subrange(0, i) =~= s);
    } else {
        lemma_hex_prefix_step(s, i);
        lemma_hex_value_mono(s, i + 1);
    }
}

/// Parse one hexadecimal token into the 32-bit word it denotes.
///
/// Returns `None` exactly when the token is empty, contains a character
/// that is not a hexadecimal digit, or denotes a value above `u32::MAX`.
pub fn parse_hex_u32(tok: &str) -> (r: Option<u32>)
    ensures
        r is Some <==> valid_hex_u32(tok@),
        r is Some ==> r->0 as nat == hex_value(tok@),
{
    let n = tok.unicode_len();
    if n == 0 {
        return None;
    }
    let mut acc: u32 = 0;
    let mut j: usize = 0;
    while j < n
        invariant
            j <= n,
            n as nat == tok@.len(),
            all_hex_digits(tok@.subrange(0, j as int)),
            acc as nat == hex_value(tok@.subrange(0, j as int)),
        decreases n - j,
    {
        let c = tok.get_char(j);
        let u = c as u32;
        let digit_09 = 48 <= u && u <= 57;
        let digit_af = 97 <= u && u <= 102;
        let digit_af_upper = 65 <= u && u <= 70;
        if !(digit_09 || digit_af || digit_af_upper) {
            proof {
                assert(!is_hex_digit(tok@[j as int]));
                assert(!all_hex_digits(tok@)) by {
                    assert(0 <= (j as int) && (j as int) < tok@.len());
                    assert(!is_hex_digit(tok@[j as int]));
                }
            }
            return None;
        }
        let d: u32 = if digit_09 {
            u - 48
        } else if digit_af {
            u - 97 + 10
        } else {
            u - 65 + 10
        };
        assert(d as nat == hex_digit_val(tok@[j as int]));
        if acc >= 0x1000_0000 {
            proof {
                lemma_hex_prefix_step(tok@, j as int);
                lemma_hex_value_mono(tok@, j as int + 1);
                assert(hex_value(tok@) > u32::MAX);
            }
            return None;
        }
        proof {
            lemma_hex_prefix_step(tok@, j as int);
        }
        acc = acc * 16 + d;
        j = j + 1;
    }
    assert(tok@.subrange(0, j as int) =~= tok@);
    Some(acc)
}

// ---------------------------------------------------------------------------
// Comma-separated lines
// ---------------------------------------------------------------------------

/// The index of the first comma in `s`, or `s.len()` if there is none.
pub open spec fn find_comma(s: Seq<char>) -> nat
    decreases s.len(),
{
    if s.len() == 0 {
        0
    } else if s[0] == ',' {
        0
    } else {
        1 + find_comma(s.drop_first())
    }
}

/// `find_comma` is pinned down by the usual first-occurrence properties.
proof fn lemma_find_comma_unique(s: Seq<char>, j: int)
    requires
        0 <= j <= s.len(),
        forall|i: int| 0 <= i < j ==> s[i] != ',',
        j < s.len() ==> s[j] == ',',
    ensures
        find_comma(s) == j,
    decreases s.len(),
{
    if s.len() == 0 {
    } else if s[0] == ',' {
        assert(j == 0);
    } else {
        assert(j >= 1);
        assert(forall|i: int| 0 <= i < j - 1 ==> s.drop_first()[i] != ',');
        lemma_find_comma_unique(s.drop_first(), j - 1);
    }
}

/// The segments of `s` between its commas, in order; empty segments are
/// kept, and a string without commas is one segment.
pub open spec fn comma_split(s: Seq<char>) -> Seq<Seq<char>>
    decreases s.len(),
{
    let i = find_comma(s);
    if i >= s.len() {
        seq![s]
    } else {
        seq![s.subrange(0, i as int)] + comma_split(s.subrange(i as int + 1, s.len() as int))
    }
}

/// Find the first comma of `s`, as `find_comma` does.
fn find_comma_exec(s: &str) -> (j: usize)
    ensures
        j as nat == find_comma(s@),
        j <= s@.len(),
{
    let n = s.unicode_len();
    let mut j: usize = 0;
    while j < n
        invariant
            j <= n,
            n as nat == s@.len(),
            forall|i: int| 0 <= i < j ==> s@[i] != ',',
        decreases n - j,
    {
        if s.get_char(j) == ',' {
            proof {
                lemma_find_comma_unique(s@, j as int);
            }
            return j;
        }
        j = j + 1;
    }
    proof {
        lemma_find_comma_unique(s@, j as int);
    }
    j
}

/// Split a line at its commas, as `comma_split` does.
fn split_commas(s: &str) -> (parts: Vec<String>)
    ensures
        parts@.map_values(|p: String| p@) == comma_split(s@),
{
    let mut parts: Vec<String> = Vec::new();
    let mut rem: String = s.to_owned();
    loop
        invariant
            parts@.map_values(|p: String| p@) + comma_split(rem@) == comma_split(s@),
        ensures
            parts@.map_values(|p: String| p@) == comma_split(s@),
        decreases rem@.len(),
    {
        let n = rem.as_str().unicode_len();
        let j = find_comma_exec(rem.as_str());
        if j >= n {
            let ghost old_parts = parts@;
            let ghost rem_view = rem@;
            parts.push(rem.clone());
            proof {
                assert(comma_split(rem_view) =~= seq![rem_view]);
                assert(parts@.map_values(|p: String| p@) =~= old_parts.map_values(
                    |p: String| p@,
                ) + seq![rem_view]);
                assert(parts@.map_values(|p: String| p@) =~= comma_split(s@));
            }
            return parts;
        }
        let ghost old_parts = parts@;
        let ghost rem_view = rem@;
        let head = String::from_str(rem.as_str().substring_char(0, j));
        parts.push(head);
        let tail = String::from_str(rem.as_str().substring_char(j + 1, n));
        rem = tail;
        proof {
            assert(comma_split(rem_view) == seq![rem_view.subrange(0, j as int)] + comma_split(
                rem_view.subrange(j as int + 1, rem_view.len() as int),
            ));
            assert(rem@ =~= rem_view.subrange(j as int + 1, rem_view.len() as int));
            assert(parts@.map_values(|p: String| p@) =~= old_parts.map_values(|p: String| p@)
                + seq![rem_view.subrange(0, j as int)]);
            assert(parts@.map_values(|p: String| p@) + comma_split(rem@) =~= comma_split(s@));
        }
    }
}

// ---------------------------------------------------------------------------
// The frame decoder
// ---------------------------------------------------------------------------

/// A decodable line: exactly eight comma-separated tokens, each a valid
/// 32-bit hexadecimal word.
pub open spec fn line_valid(line: Seq<char>) -> bool {
    &&& comma_split(line).len() == 8
    &&& forall|k: int| 0 <= k < 8 ==> valid_hex_u32(#[trigger] comma_split(line)[k])
}

/// The 32-bit word denoted by token `k` of the line.
pub open spec fn decoded_word(line: Seq<char>, k: int) -> nat {
    hex_value(comma_split(line)[k])
}

/// The record a valid line decodes to, given the receipt time `system_timestamp`.
pub open spec fn spec_decode(line: Seq<char>, system_timestamp: i64) -> SensorData {
    SensorData {
        timestamp: decoded_word(line, 0) as u32,
        temp: decoded_word(line, 1) as u32,
        gx: decoded_word(line, 2) as u32,
        gy: decoded_word(line, 3) as u32,
        gz: decoded_word(line, 4) as u32,
        ax: decoded_word(line, 5) as u32,
        ay: decoded_word(line, 6) as u32,
        az: decoded_word(line, 7) as u32,
        system_timestamp: system_timestamp,
    }
}

/// Decode one line of wire-format text into a record, stamping it with the
/// given receipt time.
///
/// Fails, rejecting the whole line, exactly when the line is not eight
/// comma-separated hexadecimal 32-bit tokens; nothing is partially
/// accepted.
pub fn parse_sensor_data_at(line: &str, system_timestamp: i64) -> (r: Result<
    SensorData,
    ReceiverError,
>)
    ensures
        r is Ok <==> line_valid(line@),
        r is Ok ==> r->Ok_0 == spec_decode(line@, system_timestamp),
        r is Err ==> r->Err_0 is ParseError,
{
    let parts = split_commas(line);
    if parts.len() != 8 {
        return Err(
            ReceiverError::ParseError(
                String::from_str("expected 8 comma-separated hex tokens in frame"),
            ),
        );
    }
    proof {
        assert(forall|k: int|
            0 <= k < 8 ==> #[trigger] comma_split(line@)[k] == parts@.map_values(|p: String| p@)[k]);
    }
    let timestamp = match parse_hex_u32(parts[0].as_str()) {
        Some(w) => w,
        None => {
            proof {
                assert(!valid_hex_u32(comma_split(line@)[0]));
                assert(!line_valid(line@));
            }
            return Err(ReceiverError::ParseError(String::from_str("invalid hex: timestamp")));
        },
    };
    let temp = match parse_hex_u32(parts[1].as_str()) {
        Some(w) => w,
        None => {
            proof {
                assert(!valid_hex_u32(comma_split(line@)[1]));
                assert(!line_valid(line@));
            }
            return Err(ReceiverError::ParseError(String::from_str("invalid hex: temperature")));
        },
    };
    let gx = match parse_hex_u32(parts[2].as_str()) {
        Some(w) => w,
        None => {
            proof {
                assert(!valid_hex_u32(comma_split(line@)[2]));
                assert(!line_valid(line@));
            }
            return Err(ReceiverError::ParseError(String::from_str("invalid hex: gx")));
        },
    };
    let gy = match parse_hex_u32(parts[3].as_str()) {
        Some(w) => w,
        None => {
            proof {
                assert(!valid_hex_u32(comma_split(line@)[3]));
                assert(!line_valid(line@));
            }
            return Err(ReceiverError::ParseError(String::from_str("invalid hex: gy")));
        },
    };
    let gz = match parse_hex_u32(parts[4].as_str()) {
        Some(w) => w,
        None => {
            proof {
                assert(!valid_hex_u32(comma_split(line@)[4]));
                assert(!line_valid(line@));
            }
            return Err(ReceiverError::ParseError(String::from_str("invalid hex: gz")));
        },
    };
    let ax = match parse_hex_u32(parts[5].as_str()) {
        Some(w) => w,
        None => {
            proof {
                assert(!valid_hex_u32(comma_split(line@)[5]));
                assert(!line_valid(line@));
            }
            return Err(ReceiverError::ParseError(String::from_str("invalid hex: ax")));
        },
    };
    let ay = match parse_hex_u32(parts[6].as_str()) {
        Some(w) => w,
        None => {
            proof {
                assert(!valid_hex_u32(comma_split(line@)[6]));
                assert(!line_valid(line@));
            }
            return Err(ReceiverError::ParseError(String::from_str("invalid hex: ay")));
        },
    };
    let az = match parse_hex_u32(parts[7].as_str()) {
        Some(w) => w,
        None => {
            proof {
                assert(!valid_hex_u32(comma_split(line@)[7]));
                assert(!line_valid(line@));
            }
            return Err(ReceiverError::ParseError(String::from_str("invalid hex: az")));
        },
    };
    Ok(SensorData { timestamp, temp, gx, gy, gz, ax, ay, az, system_timestamp })
}

/// Decode one line of wire-format text into a record, stamping it with
/// the wall clock as the receipt time.
///
/// Apart from the receipt time, which only the clock decides, the result
/// is exactly what [`parse_sensor_data_at`] returns for the same line.
pub fn parse_sensor_data(line: &str) -> (r: Result<SensorData, ReceiverError>)
    ensures
        r is Ok <==> line_valid(line@),
        r is Ok ==> r->Ok_0 == spec_decode(line@, r->Ok_0.system_timestamp),
        r is Err ==> r->Err_0 is ParseError,
{
    let system_timestamp = crate::clock::now_millis();
    parse_sensor_data_at(line, system_timestamp)
}

// ---------------------------------------------------------------------------
// The wire encoding, and the decode round trip
// ---------------------------------------------------------------------------

/// The hexadecimal digit character for a value below 16, upper case.
pub open spec fn hex_digit_char(d: nat) -> char {
    if d == 0 {
        '0'
    } else if d == 1 {
        '1'
    } else if d == 2 {
        '2'
    } else if d == 3 {
        '3'
    } else if d == 4 {
        '4'
    } else if d == 5 {
        '5'
    } else if d == 6 {
        '6'
    } else if d == 7 {
        '7'
    } else if d == 8 {
        '8'
    } else if d == 9 {
        '9'
    } else if d == 10 {
        'A'
    } else if d == 11 {
        'B'
    } else if d == 12 {
        'C'
    } else if d == 13 {
        'D'
    } else if d == 14 {
        'E'
    } else {
        'F'
    }
}

/// A 32-bit word rendered as eight hexadecimal digits, most significant
/// first — the wire format of one token.
pub open spec fn hex8_of(w: u32) -> Seq<char> {
    seq![
        hex_digit_char(((w >> 28) & 0xF) as nat),
        hex_digit_char(((w >> 24) & 0xF) as nat),
        hex_digit_char(((w >> 20) & 0xF) as nat),
        hex_digit_char(((w >> 16) & 0xF) as nat),
        hex_digit_char(((w >> 12) & 0xF) as nat),
        hex_digit_char(((w >> 8) & 0xF) as nat),
        hex_digit_char(((w >> 4) & 0xF) as nat),
        hex_digit_char((w & 0xF) as nat),
    ]
}

/// A sequence of 32-bit words rendered as a comma-separated line of
/// eight-digit hexadecimal tokens.
pub open spec fn encode_line(ws: Seq<u32>) -> Seq<char>
    decreases ws.len(),
{
    if ws.len() == 0 {
        Seq::empty()
    } else if ws.len() == 1 {
        hex8_of(ws[0])
    } else {
        hex8_of(ws[0]) + seq![','] + encode_line(ws.drop_first())
    }
}

proof fn lemma_hex_digit_char(d: nat)
    requires
        d < 16,
    ensures
        is_hex_digit(hex_digit_char(d)),
        hex_digit_val(hex_digit_char(d)) == d,
        hex_digit_char(d) != ',',
        !is_frame_delim(hex_digit_char(d)),
{
}

/// An eight-digit rendering is a valid token and denotes the word it was
/// built from; none of its characters is a separator.
proof fn lemma_hex8_of(w: u32)
    ensures
        hex8_of(w).len() == 8,
        valid_hex_u32(hex8_of(w)),
        hex_value(hex8_of(w)) == w,
        forall|i: int|
            0 <= i < 8 ==> #[trigger] hex8_of(w)[i] != ',' && !is_frame_delim(hex8_of(w)[i]),
{
    let s = hex8_of(w);
    assert((w >> 28) & 0xF < 16 && (w >> 24) & 0xF < 16 && (w >> 20) & 0xF < 16 && (w >> 16) & 0xF
        < 16 && (w >> 12) & 0xF < 16 && (w >> 8) & 0xF < 16 && (w >> 4) & 0xF < 16 && w & 0xF < 16)
        by (bit_vector);
    lemma_hex_digit_char(((w >> 28) & 0xF) as nat);
    lemma_hex_digit_char(((w >> 24) & 0xF) as nat);
    lemma_hex_digit_char(((w >> 20) & 0xF) as nat);
    lemma_hex_digit_char(((w >> 16) & 0xF) as nat);
    lemma_hex_digit_char(((w >> 12) & 0xF) as nat);
    lemma_hex_digit_char(((w >> 8) & 0xF) as nat);
    lemma_hex_digit_char(((w >> 4) & 0xF) as nat);
    lemma_hex_digit_char((w & 0xF) as nat);
    assert forall|i: int| 0 <= i < 8 implies is_hex_digit(#[trigger] s[i]) by {
    }
    // The value of the rendering, built up one digit at a time.
    assert(hex_value(s.subrange(0, 0)) == 0);
    lemma_hex_prefix_step(s, 0);
    lemma_hex_prefix_step(s, 1);
    lemma_hex_prefix_step(s, 2);
    lemma_hex_prefix_step(s, 3);
    lemma_hex_prefix_step(s, 4);
    lemma_hex_prefix_step(s, 5);
    lemma_hex_prefix_step(s, 6);
    lemma_hex_prefix_step(s, 7);
    assert(s.subrange(0, 8) =~= s);
    // Each prefix of the rendering denotes a right-shift of the word.
    assert((w >> 28) & 0xF == (w >> 28)) by (bit_vector);
    assert((w >> 28) * 16 + ((w >> 24) & 0xF) == (w >> 24)) by (bit_vector);
    assert((w >> 24) * 16 + ((w >> 20) & 0xF) == (w >> 20)) by (bit_vector);
    assert((w >> 20) * 16 + ((w >> 16) & 0xF) == (w >> 16)) by (bit_vector);
    assert((w >> 16) * 16 + ((w >> 12) & 0xF) == (w >> 12)) by (bit_vector);
    assert((w >> 12) * 16 + ((w >> 8) & 0xF) == (w >> 8)) by (bit_vector);
    assert((w >> 8) * 16 + ((w >> 4) & 0xF) == (w >> 4)) by (bit_vector);
    assert((w >> 4) * 16 + (w & 0xF) == w) by (bit_vector);
}

/// Splitting an encoded line at its commas recovers the renderings of the
/// words, one token each.
proof fn lemma_encode_line_split(ws: Seq<u32>)
    requires
        ws.len() >= 1,
    ensures
        comma_split(encode_line(ws)) =~= ws.map_values(|w: u32| hex8_of(w)),
    decreases ws.len(),
{
    let s = encode_line(ws);
    lemma_hex8_of(ws[0]);
    if ws.len() == 1 {
        lemma_find_comma_unique(s, 8);
        assert(comma_split(s) =~= seq![s]);
        assert(ws.map_values(|w: u32| hex8_of(w)) =~= seq![hex8_of(ws[0])]);
    } else {
        assert(s == hex8_of(ws[0]) + seq![','] + encode_line(ws.drop_first()));
        assert(s[8] == ',');
        assert(forall|i: int| 0 <= i < 8 ==> s[i] == hex8_of(ws[0])[i]);
        lemma_find_comma_unique(s, 8);
        assert(s.subrange(0, 8) =~= hex8_of(ws[0]));
        assert(s.subrange(9, s.len() as int) =~= encode_line(ws.drop_first()));
        lemma_encode_line_split(ws.drop_first());
        assert(ws.map_values(|w: u32| hex8_of(w)) =~= seq![hex8_of(ws[0])]
            + ws.drop_first().map_values(|w: u32| hex8_of(w)));
    }
}

/// Round trip: a line built from eight 32-bit words, each rendered as
/// eight hexadecimal digits, is a valid frame and decodes back to exactly
/// those words. The float channels are carried as bit patterns, so the
/// round trip preserves every bit — sign, NaN payloads and negative zero
/// included — for any receipt time `ts`.
pub proof fn lemma_round_trip(ws: Seq<u32>, ts: i64)
    requires
        ws.len() == 8,
    ensures
        line_valid(encode_line(ws)),
        spec_decode(encode_line(ws), ts) == (SensorData {
            timestamp: ws[0],
            temp: ws[1],
            gx: ws[2],
            gy: ws[3],
            gz: ws[4],
            ax: ws[5],
            ay: ws[6],
            az: ws[7],
            system_timestamp: ts,
        }),
{
    let line = encode_line(ws);
    lemma_encode_line_split(ws);
    assert forall|k: int| 0 <= k < 8 implies valid_hex_u32(#[trigger] comma_split(line)[k])
        && hex_value(comma_split(line)[k]) == ws[k] by {
        lemma_hex8_of(ws[k]);
        assert(comma_split(line)[k] == hex8_of(ws[k]));
    }
}

// ---------------------------------------------------------------------------
// Frame reassembly
// ---------------------------------------------------------------------------

/// Is `c` a frame terminator? Both `\n` and `\r` end a frame.
pub open spec fn is_frame_delim(c: char) -> bool {
    c == '\n' || c == '\r'
}

/// The index of the first frame terminator in `s`, or `s.len()` if none.
pub open spec fn find_delim(s: Seq<char>) -> nat
    decreases s.len(),
{
    if s.len() == 0 {
        0
    } else if is_frame_delim(s[0]) {
        0
    } else {
        1 + find_delim(s.drop_first())
    }
}

/// The complete frames delivered by a stream prefix `s`: the non-empty
/// segments of `s` that are followed by a terminator. Terminators are
/// consumed, and an empty segment (as between `\r` and `\n` of a CRLF
/// pair) yields no frame.
pub open spec fn frames_of(s: Seq<char>) -> Seq<Seq<char>>
    decreases s.len(),
{
    let i = find_delim(s);
    if i >= s.len() {
        Seq::empty()
    } else {
        let rest = frames_of(s.subrange(i as int + 1, s.len() as int));
        if i == 0 {
            rest
        } else {
            seq![s.subrange(0, i as int)] + rest
        }
    }
}

/// The unterminated suffix of a stream prefix `s`: what follows its last
/// terminator, or all of `s` if it has none.
pub open spec fn rest_of(s: Seq<char>) -> Seq<char>
    decreases s.len(),
{
    let i = find_delim(s);
    if i >= s.len() {
        s
    } else {
        rest_of(s.subrange(i as int + 1, s.len() as int))
    }
}

proof fn lemma_find_delim_le(s: Seq<char>)
    ensures
        find_delim(s) <= s.len(),
    decreases s.len(),
{
    if s.len() > 0 && !is_frame_delim(s[0]) {
        lemma_find_delim_le(s.drop_first());
    }
}

/// Nothing before the first terminator is a terminator.
proof fn lemma_find_delim_first(s: Seq<char>)
    ensures
        forall|j: int| 0 <= j < find_delim(s) ==> !is_frame_delim(#[trigger] s[j]),
    decreases s.len(),
{
    lemma_find_delim_le(s);
    if s.len() > 0 && !is_frame_delim(s[0]) {
        lemma_find_delim_le(s.drop_first());
        lemma_find_delim_first(s.drop_first());
        assert forall|j: int| 0 <= j < find_delim(s) implies !is_frame_delim(#[trigger] s[j]) by {
            if j > 0 {
                assert(s.drop_first()[j - 1] == s[j]);
            }
        }
    }
}

/// Every delivered frame is non-empty and holds no terminator: the
/// terminators themselves are consumed, and an empty segment — as between
/// the two halves of a CRLF pair — never becomes a frame.
pub proof fn lemma_frames_clean(s: Seq<char>)
    ensures
        forall|k: int| 0 <= k < frames_of(s).len() ==> #[trigger] frames_of(s)[k].len() > 0,
        forall|k: int, j: int|
            0 <= k < frames_of(s).len() && 0 <= j < frames_of(s)[k].len() ==> !is_frame_delim(
                #[trigger] frames_of(s)[k][j],
            ),
    decreases s.len(),
{
    lemma_find_delim_le(s);
    lemma_find_delim_first(s);
    let i = find_delim(s);
    if i < s.len() {
        let head = s.subrange(0, i as int);
        let rest = frames_of(s.subrange(i as int + 1, s.len() as int));
        lemma_frames_clean(s.subrange(i as int + 1, s.len() as int));
        if i > 0 {
            assert forall|k: int| 0 <= k < frames_of(s).len() implies #[trigger] frames_of(s)[k].len()
                > 0 by {
                if k > 0 {
                    assert(frames_of(s)[k] == rest[k - 1]);
                }
            }
            assert forall|k: int, j: int|
                0 <= k < frames_of(s).len() && 0 <= j < frames_of(s)[k].len() implies !is_frame_delim(
                #[trigger] frames_of(s)[k][j],
            ) by {
                if k == 0 {
                    assert(frames_of(s)[0] == head);
                    assert(head[j] == s[j]);
                } else {
                    assert(frames_of(s)[k] == rest[k - 1]);
                }
            }
        }
    }
}

/// `find_delim` is pinned down by the usual first-occurrence properties.
proof fn lemma_find_delim_unique(s: Seq<char>, j: int)
    requires
        0 <= j <= s.len(),
        forall|i: int| 0 <= i < j ==> !is_frame_delim(s[i]),
        j < s.len() ==> is_frame_delim(s[j]),
    ensures
        find_delim(s) == j,
    decreases s.len(),
{
    if s.len() == 0 {
    } else if is_frame_delim(s[0]) {
        assert(j == 0);
    } else {
        assert(j >= 1);
        assert(forall|i: int| 0 <= i < j - 1 ==> !is_frame_delim(s.drop_first()[i]));
        lemma_find_delim_unique(s.drop_first(), j - 1);
    }
}

/// The first terminator of a concatenation: in `a` where `a` has one,
/// otherwise past `a` at the first terminator of `b`.
proof fn lemma_find_delim_concat(a: Seq<char>, b: Seq<char>)
    ensures
        find_delim(a) < a.len() ==> find_delim(a + b) == find_delim(a),
        find_delim(a) >= a.len() ==> find_delim(a + b) == a.len() + find_delim(b),
    decreases a.len(),
{
    lemma_find_delim_le(a);
    if a.len() == 0 {
        assert(a + b =~= b);
    } else if is_frame_delim(a[0]) {
        assert((a + b)[0] == a[0]);
    } else {
        assert((a + b)[0] == a[0]);
        assert((a + b).drop_first() =~= a.drop_first() + b);
        lemma_find_delim_concat(a.drop_first(), b);
    }
}

/// Appending more input never changes the frames already delivered: the
/// frames of `a + b` are the frames of `a` followed by the frames that the
/// carried-over suffix of `a` forms together with `b`.
pub proof fn lemma_stream_concat(a: Seq<char>, b: Seq<char>)
    ensures
        frames_of(a + b) == frames_of(a) + frames_of(rest_of(a) + b),
        rest_of(a + b) == rest_of(rest_of(a) + b),
    decreases a.len(),
{
    lemma_find_delim_le(a);
    lemma_find_delim_concat(a, b);
    let i = find_delim(a);
    if i >= a.len() {
        assert(rest_of(a) == a);
        assert(frames_of(a) + frames_of(a + b) =~= frames_of(a + b));
    } else {
        let a2 = a.subrange(i as int + 1, a.len() as int);
        assert((a + b).subrange(i as int + 1, (a + b).len() as int) =~= a2 + b);
        assert((a + b).subrange(0, i as int) =~= a.subrange(0, i as int));
        lemma_stream_concat(a2, b);
        if i > 0 {
            assert(seq![a.subrange(0, i as int)] + (frames_of(a2) + frames_of(rest_of(a2) + b))
                =~= (seq![a.subrange(0, i as int)] + frames_of(a2)) + frames_of(
                rest_of(a2) + b,
            ));
        }
    }
}

/// Reassembly is split-invariant: feeding a stream in two chunks, cut at
/// any point `k`, delivers exactly the frames of feeding it whole, with
/// the same carried-over suffix — no frame duplicated, dropped, or
/// reordered.
pub proof fn lemma_reassembly_split(s: Seq<char>, k: int)
    requires
        0 <= k <= s.len(),
    ensures
        frames_of(s.subrange(0, k)) + frames_of(
            rest_of(s.subrange(0, k)) + s.subrange(k, s.len() as int),
        ) == frames_of(s),
        rest_of(rest_of(s.subrange(0, k)) + s.subrange(k, s.len() as int)) == rest_of(s),
{
    assert(s.subrange(0, k) + s.subrange(k, s.len() as int) =~= s);
    lemma_stream_concat(s.subrange(0, k), s.subrange(k, s.len() as int));
}

/// Find the first frame terminator of `s`, as `find_delim` does.
fn find_delim_exec(s: &str) -> (j: usize)
    ensures
        j as nat == find_delim(s@),
        j <= s@.len(),
{
    let n = s.unicode_len();
    let mut j: usize = 0;
    while j < n
        invariant
            j <= n,
            n as nat == s@.len(),
            forall|i: int| 0 <= i < j ==> !is_frame_delim(s@[i]),
        decreases n - j,
    {
        let c = s.get_char(j);
        if c == '\n' || c == '\r' {
            proof {
                lemma_find_delim_unique(s@, j as int);
            }
            return j;
        }
        j = j + 1;
    }
    proof {
        lemma_find_delim_unique(s@, j as int);
    }
    j
}

/// Per-source carry-over storage for a frame that spans multiple reads.
///
/// The buffer always holds exactly the unterminated suffix of the stream
/// seen so far: no complete frame is left undelivered, and no character is
/// delivered twice. A new source must start from a fresh (or `reset`)
/// reassembler, so that unrelated streams are never stitched together.
pub struct Reassembler {
    /// The unterminated suffix of the stream seen so far.
    pub buffer: String,
}

impl Reassembler {
    /// The buffer holds no terminator: it is a (possibly empty) partial frame.
    pub open spec fn well_formed(&self) -> bool {
        find_delim(self.buffer@) >= self.buffer@.len()
    }

    /// An empty reassembler for a newly opened source.
    pub fn new() -> (r: Self)
        ensures
            r.buffer@ == Seq::<char>::empty(),
            r.well_formed(),
    {
        Reassembler { buffer: String::new() }
    }

    /// Discard any carried-over partial frame, for reuse with a new source.
    pub fn reset(&mut self)
        ensures
            final(self).buffer@ == Seq::<char>::empty(),
            final(self).well_formed(),
    {
        self.buffer = String::new();
    }

    /// Consume one chunk of freshly read input and return the newly
    /// completed frames, in order; a trailing partial frame is retained
    /// for the next call. A chunk without a terminator (or an empty
    /// chunk) returns nothing and only grows the buffer.
    #[verifier::loop_isolation(false)]
    pub fn push_chunk(&mut self, chunk: &str) -> (frames: Vec<String>)
        ensures
            frames@.map_values(|f: String| f@) == frames_of(old(self).buffer@ + chunk@),
            final(self).buffer@ == rest_of(old(self).buffer@ + chunk@),
            final(self).well_formed(),
    {
        self.buffer.append(chunk);
        let ghost combined = self.buffer@;
        let mut frames: Vec<String> = Vec::new();
        loop
            invariant
                frames@.map_values(|f: String| f@) + frames_of(self.buffer@) == frames_of(
                    combined,
                ),
                rest_of(self.buffer@) == rest_of(combined),
            decreases self.buffer@.len(),
        {
            let n = self.buffer.as_str().unicode_len();
            let j = find_delim_exec(self.buffer.as_str());
            if j >= n {
                proof {
                    assert(frames_of(self.buffer@) =~= Seq::<Seq<char>>::empty());
                    assert(rest_of(self.buffer@) == self.buffer@);
                    assert(frames@.map_values(|f: String| f@) + Seq::<Seq<char>>::empty()
                        =~= frames@.map_values(|f: String| f@));
                }
                return frames;
            }
            let ghost b_old = self.buffer@;
            let ghost frames_old = frames@;
            if j > 0 {
                let head = String::from_str(self.buffer.as_str().substring_char(0, j));
                frames.push(head);
            }
            let tail = String::from_str(self.buffer.as_str().substring_char(j + 1, n));
            self.buffer = tail;
            proof {
                let tail_view = b_old.subrange(j as int + 1, b_old.len() as int);
                assert(self.buffer@ =~= tail_view);
                if j > 0 {
                    assert(frames_of(b_old) == seq![b_old.subrange(0, j as int)] + frames_of(
                        tail_view,
                    ));
                    assert(frames@.map_values(|f: String| f@) =~= frames_old.map_values(
                        |f: String| f@,
                    ) + seq![b_old.subrange(0, j as int)]);
                    assert(frames@.map_values(|f: String| f@) + frames_of(self.buffer@)
                        =~= frames_old.map_values(|f: String| f@) + frames_of(b_old));
                } else {
                    assert(frames_of(b_old) == frames_of(tail_view));
                }
            }
        }
    }
}

} // verus!
