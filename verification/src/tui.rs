//! The lines that the terminal front end prints about a download.
//!
//! The functions here build the text; printing it is the caller's part.

use vstd::prelude::*;
use crate::text::append_decimal;
use crate::text::append_str;
use crate::text::decimal;
use crate::text::digit_char;
use crate::text::digit_of;
use crate::text::string_of;

verus! {

/// Bytes in a kilobyte, a megabyte and a gigabyte, as sizes are shown.
pub const KB: u64 = 1024;

pub const MB: u64 = 1048576;

pub const GB: u64 = 1073741824;

/// `bytes / unit` in hundredths, rounded to the nearest hundredth and, of
/// two that are equally near, to the even one.
pub open spec fn hundredths(bytes: u64, unit: u64) -> nat {
    let scaled = bytes as nat * 100;
    let q = scaled / (unit as nat);
    let r = scaled % (unit as nat);
    if 2 * r > unit || (2 * r == unit && q % 2 == 1) {
        q + 1
    } else {
        q
    }
}

/// A number of hundredths with two decimals, such as `1.00`.
pub open spec fn two_decimals(h: nat) -> Seq<char> {
    decimal(h / 100) + "."@ + seq![digit_char((h % 100 / 10) as int), digit_char((h % 10) as int)]
}

/// A size for a reader: in gigabytes, megabytes or kilobytes with two
/// decimals from the first full unit on, in bytes below.
pub open spec fn format_size_spec(bytes: u64) -> Seq<char> {
    if bytes >= GB {
        two_decimals(hundredths(bytes, GB)) + " GB"@
    } else if bytes >= MB {
        two_decimals(hundredths(bytes, MB)) + " MB"@
    } else if bytes >= KB {
        two_decimals(hundredths(bytes, KB)) + " KB"@
    } else {
        decimal(bytes as nat) + " B"@
    }
}

/// The text of a size that may be unknown.
pub open spec fn size_text(size: Option<u64>) -> Seq<char> {
    match size {
        Some(bytes) => format_size_spec(bytes),
        None => "unknown size"@,
    }
}

/// Appends `bytes / unit` with two decimals to `out`.
fn append_two_decimals(out: &mut Vec<char>, bytes: u64, unit: u64)
    requires
        unit > 0,
    ensures
        final(out)@ == old(out)@ + two_decimals(hundredths(bytes, unit)),
{
    let scaled: u128 = bytes as u128 * 100;
    let q: u128 = scaled / (unit as u128);
    let r: u128 = scaled % (unit as u128);
    let h: u128 = if 2 * r > unit as u128 || (2 * r == unit as u128 && q % 2 == 1) {
        q + 1
    } else {
        q
    };
    let ghost start = out@;
    append_decimal(out, (h / 100) as u64);
    append_str(out, ".");
    out.push(digit_of((h % 100 / 10) as u8));
    out.push(digit_of((h % 10) as u8));
    proof {
        let digits = seq![
            digit_char((h % 100 / 10) as int),
            digit_char((h % 10) as int),
        ];
        assert(out@ =~= start + (decimal((h / 100) as nat) + "."@ + digits));
    }
}

/// A size for a reader, such as `500 B`, `1.00 KB` or `2.50 GB`.
pub fn format_size(bytes: u64) -> (text: String)
    ensures
        text@ == format_size_spec(bytes),
{
    let mut out: Vec<char> = Vec::new();
    if bytes >= GB {
        append_two_decimals(&mut out, bytes, GB);
        append_str(&mut out, " GB");
    } else if bytes >= MB {
        append_two_decimals(&mut out, bytes, MB);
        append_str(&mut out, " MB");
    } else if bytes >= KB {
        append_two_decimals(&mut out, bytes, KB);
        append_str(&mut out, " KB");
    } else {
        append_decimal(&mut out, bytes);
        append_str(&mut out, " B");
    }
    proof {
        assert(out@.subrange(0, out@.len() as int) =~= out@);
    }
    string_of(&out, 0, out.len())
}

/// The line printed when a download starts.
pub fn print_download_start(filename: &str, size: Option<u64>) -> (line: String)
    ensures
        line@ == "📥 Starting: "@ + filename@ + " ("@ + size_text(size) + ")"@,
{
    let mut out: Vec<char> = Vec::new();
    append_str(&mut out, "📥 Starting: ");
    append_str(&mut out, filename);
    append_str(&mut out, " (");
    match size {
        Some(bytes) => {
            let text = format_size(bytes);
            append_str(&mut out, text.as_str());
        },
        None => {
            append_str(&mut out, "unknown size");
        },
    }
    append_str(&mut out, ")");
    proof {
        assert(out@.subrange(0, out@.len() as int) =~= out@);
    }
    string_of(&out, 0, out.len())
}

/// The line printed when a download is complete.
pub fn print_download_complete(filename: &str, duration_secs: u64) -> (line: String)
    ensures
        line@ == "✅ Complete: "@ + filename@ + " in "@ + decimal(duration_secs as nat) + "s"@,
{
    let mut out: Vec<char> = Vec::new();
    append_str(&mut out, "✅ Complete: ");
    append_str(&mut out, filename);
    append_str(&mut out, " in ");
    append_decimal(&mut out, duration_secs);
    append_str(&mut out, "s");
    proof {
        assert(out@.subrange(0, out@.len() as int) =~= out@);
    }
    string_of(&out, 0, out.len())
}

/// The line printed when a download has failed.
pub fn print_download_error(filename: &str, error: &str) -> (line: String)
    ensures
        line@ == "❌ Failed: "@ + filename@ + " - "@ + error@,
{
    let mut out: Vec<char> = Vec::new();
    append_str(&mut out, "❌ Failed: ");
    append_str(&mut out, filename);
    append_str(&mut out, " - ");
    append_str(&mut out, error);
    proof {
        assert(out@.subrange(0, out@.len() as int) =~= out@);
    }
    string_of(&out, 0, out.len())
}

} // verus!
