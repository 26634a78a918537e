//! The record type and the configuration enumerations.

use vstd::prelude::*;

verus! {

/// One decoded sensor sample.
///
/// The seven float channels of the wire format are carried as their raw
/// IEEE-754 bit patterns: the wire encoding is a bit-reinterpretation, so
/// holding the 32-bit words keeps sign, NaN payloads and negative zero
/// exactly, and the decoder's contract can speak of plain integers. A
/// consumer that wants the numeric value applies `f32::from_bits`.
#[derive(Debug, Clone, Copy, PartialEq, Eq, Structural)]
pub struct SensorData {
    /// Sequence counter from the device (wraps at 2^32; not wall-clock).
    pub timestamp: u32,
    /// Temperature channel, as an IEEE-754 bit pattern.
    pub temp: u32,
    /// Gyroscope X-axis, as an IEEE-754 bit pattern.
    pub gx: u32,
    /// Gyroscope Y-axis, as an IEEE-754 bit pattern.
    pub gy: u32,
    /// Gyroscope Z-axis, as an IEEE-754 bit pattern.
    pub gz: u32,
    /// Accelerometer X-axis, as an IEEE-754 bit pattern.
    pub ax: u32,
    /// Accelerometer Y-axis, as an IEEE-754 bit pattern.
    pub ay: u32,
    /// Accelerometer Z-axis, as an IEEE-754 bit pattern.
    pub az: u32,
    /// Wall-clock receipt time, milliseconds since the epoch, stamped by
    /// the decoder when the frame was decoded.
    pub system_timestamp: i64,
}

/// Is `c` an ASCII upper-case letter?
pub open spec fn is_ascii_upper(c: char) -> bool {
    'A' as u32 <= c as u32 && c as u32 <= 'Z' as u32
}

/// Do `a` and `b` agree up to ASCII case?
pub open spec fn eq_char_ci(a: char, b: char) -> bool {
    ||| a == b
    ||| (is_ascii_upper(a) && b as u32 == a as u32 + 32)
    ||| (is_ascii_upper(b) && a as u32 == b as u32 + 32)
}

/// Do the strings agree character by character, up to ASCII case?
pub open spec fn eq_str_ci(a: Seq<char>, b: Seq<char>) -> bool {
    a.len() == b.len() && forall|i: int| 0 <= i < a.len() ==> eq_char_ci(#[trigger] a[i], b[i])
}

/// Compare two strings for equality up to ASCII case.
fn eq_ignore_ascii_case_kw(s: &str, kw: &str) -> (r: bool)
    ensures
        r == eq_str_ci(s@, kw@),
{
    let n = s.unicode_len();
    let m = kw.unicode_len();
    if n != m {
        return false;
    }
    let mut i: usize = 0;
    while i < n
        invariant
            i <= n,
            n as nat == s@.len(),
            n as nat == kw@.len(),
            forall|j: int| 0 <= j < i ==> eq_char_ci(#[trigger] s@[j], kw@[j]),
        decreases n - i,
    {
        let a = s.get_char(i) as u32;
        let b = kw.get_char(i) as u32;
        let same = a == b || (65 <= a && a <= 90 && b == a + 32) || (65 <= b && b <= 90 && a == b
            + 32);
        if !same {
            proof {
                assert(!eq_char_ci(s@[i as int], kw@[i as int]));
            }
            return false;
        }
        i = i + 1;
    }
    true
}

/// The wire format the source expects.
#[derive(Debug, Clone, Copy, PartialEq, Eq, Structural)]
pub enum DataFormat {
    /// Detect the format from the stream.
    Auto,
    /// Text lines of comma-separated hexadecimal tokens.
    Text,
    /// Framed binary records.
    Binary,
}

impl Default for DataFormat {
    /// The format used when none is named: detection.
    fn default() -> (r: Self)
        ensures
            r is Auto,
    {
        DataFormat::Auto
    }
}

impl DataFormat {
    /// Read a format name, ignoring ASCII case. Succeeds exactly on
    /// `auto`, `text` and `binary`; anything else is reported back.
    pub fn from_str(s: &str) -> (r: Result<DataFormat, String>)
        ensures
            r is Ok <==> (eq_str_ci(s@, "auto"@) || eq_str_ci(s@, "text"@) || eq_str_ci(
                s@,
                "binary"@,
            )),
            eq_str_ci(s@, "auto"@) ==> r == Ok::<DataFormat, String>(DataFormat::Auto),
            eq_str_ci(s@, "text"@) ==> r == Ok::<DataFormat, String>(DataFormat::Text),
            eq_str_ci(s@, "binary"@) ==> r == Ok::<DataFormat, String>(DataFormat::Binary),
            r is Err ==> r->Err_0@ == "unknown data format: "@ + s@,
    {
        proof {
            reveal_strlit("auto");
            reveal_strlit("text");
            reveal_strlit("binary");
            if eq_str_ci(s@, "auto"@) && eq_str_ci(s@, "text"@) {
                assert(eq_char_ci(s@[0], "auto"@[0]));
                assert(eq_char_ci(s@[0], "text"@[0]));
                assert(false);
            }
        }
        if eq_ignore_ascii_case_kw(s, "auto") {
            Ok(DataFormat::Auto)
        } else if eq_ignore_ascii_case_kw(s, "text") {
            Ok(DataFormat::Text)
        } else if eq_ignore_ascii_case_kw(s, "binary") {
            Ok(DataFormat::Binary)
        } else {
            let mut m = String::from_str("unknown data format: ");
            m.append(s);
            Err(m)
        }
    }
}

/// The compression codec the columnar writer is configured with.
#[derive(Debug, Clone, Copy, PartialEq, Eq, Structural)]
pub enum CompressionType {
    /// No compression.
    Uncompressed,
    Snappy,
    Gzip,
    Lz4,
    Zstd,
}

impl CompressionType {
    /// Read a codec name, ignoring ASCII case. Succeeds exactly on
    /// `none`, `snappy`, `gzip`, `lz4` and `zstd`; anything else is
    /// reported back.
    pub fn from_str(s: &str) -> (r: Result<CompressionType, String>)
        ensures
            r is Ok <==> (eq_str_ci(s@, "none"@) || eq_str_ci(s@, "snappy"@) || eq_str_ci(
                s@,
                "gzip"@,
            ) || eq_str_ci(s@, "lz4"@) || eq_str_ci(s@, "zstd"@)),
            eq_str_ci(s@, "none"@) ==> r == Ok::<CompressionType, String>(CompressionType::Uncompressed),
            eq_str_ci(s@, "snappy"@) ==> r == Ok::<CompressionType, String>(
                CompressionType::Snappy,
            ),
            eq_str_ci(s@, "gzip"@) ==> r == Ok::<CompressionType, String>(CompressionType::Gzip),
            eq_str_ci(s@, "lz4"@) ==> r == Ok::<CompressionType, String>(CompressionType::Lz4),
            eq_str_ci(s@, "zstd"@) ==> r == Ok::<CompressionType, String>(CompressionType::Zstd),
            r is Err ==> r->Err_0@ == "unknown compression type: "@ + s@,
    {
        proof {
            reveal_strlit("none");
            reveal_strlit("snappy");
            reveal_strlit("gzip");
            reveal_strlit("lz4");
            reveal_strlit("zstd");
            if eq_str_ci(s@, "none"@) && eq_str_ci(s@, "gzip"@) {
                assert(eq_char_ci(s@[0], "none"@[0]));
                assert(eq_char_ci(s@[0], "gzip"@[0]));
                assert(false);
            }
            if eq_str_ci(s@, "none"@) && eq_str_ci(s@, "zstd"@) {
                assert(eq_char_ci(s@[0], "none"@[0]));
                assert(eq_char_ci(s@[0], "zstd"@[0]));
                assert(false);
            }
            if eq_str_ci(s@, "gzip"@) && eq_str_ci(s@, "zstd"@) {
                assert(eq_char_ci(s@[0], "gzip"@[0]));
                assert(eq_char_ci(s@[0], "zstd"@[0]));
                assert(false);
            }
        }
        if eq_ignore_ascii_case_kw(s, "none") {
            Ok(CompressionType::Uncompressed)
        } else if eq_ignore_ascii_case_kw(s, "snappy") {
            Ok(CompressionType::Snappy)
        } else if eq_ignore_ascii_case_kw(s, "gzip") {
            Ok(CompressionType::Gzip)
        } else if eq_ignore_ascii_case_kw(s, "lz4") {
            Ok(CompressionType::Lz4)
        } else if eq_ignore_ascii_case_kw(s, "zstd") {
            Ok(CompressionType::Zstd)
        } else {
            let mut m = String::from_str("unknown compression type: ");
            m.append(s);
            Err(m)
        }
    }
}

} // verus!
