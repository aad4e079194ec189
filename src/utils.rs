//! Text utilities: durations, sizes, file names and extensions.

use vstd::prelude::*;
use vstd::string::*;

use crate::text::{decimal, decimal_text, opt_view, push_char, str_eq};

verus! {

/// `a` and `b` joined into one string.
fn concat2(a: String, b: &str) -> (r: String)
    ensures
        r@ == a@ + b@,
{
    a.concat(b)
}

/// A whole number of seconds as text: seconds below a minute, then minutes
/// and seconds, hours and minutes, or days and hours, leaving out a zero
/// second part.
pub open spec fn duration_text(s: int) -> Seq<char> {
    if s < 60 {
        decimal(s) + "s"@
    } else if s < 3600 {
        if s % 60 == 0 {
            decimal(s / 60) + "m"@
        } else {
            decimal(s / 60) + "m "@ + decimal(s % 60) + "s"@
        }
    } else if s < 86400 {
        if (s % 3600) / 60 == 0 {
            decimal(s / 3600) + "h"@
        } else {
            decimal(s / 3600) + "h "@ + decimal((s % 3600) / 60) + "m"@
        }
    } else {
        if (s % 86400) / 3600 == 0 {
            decimal(s / 86400) + "d"@
        } else {
            decimal(s / 86400) + "d "@ + decimal((s % 86400) / 3600) + "h"@
        }
    }
}

/// Formats a duration given in whole seconds.
pub fn format_duration(total_seconds: i64) -> (r: String)
    ensures
        r@ == duration_text(total_seconds as int),
{
    if total_seconds < 60 {
        return concat2(decimal_text(total_seconds as i128), "s");
    }
    let s = total_seconds as u64;
    if s < 3600 {
        let minutes = s / 60;
        let seconds = s % 60;
        if seconds == 0 {
            concat2(decimal_text(minutes as i128), "m")
        } else {
            let a = concat2(decimal_text(minutes as i128), "m ");
            concat2(concat2(a, decimal_text(seconds as i128).as_str()), "s")
        }
    } else if s < 86400 {
        let hours = s / 3600;
        let minutes = (s % 3600) / 60;
        if minutes == 0 {
            concat2(decimal_text(hours as i128), "h")
        } else {
            let a = concat2(decimal_text(hours as i128), "h ");
            concat2(concat2(a, decimal_text(minutes as i128).as_str()), "m")
        }
    } else {
        let days = s / 86400;
        let hours = (s % 86400) / 3600;
        if hours == 0 {
            concat2(decimal_text(days as i128), "d")
        } else {
            let a = concat2(decimal_text(days as i128), "d ");
            concat2(concat2(a, decimal_text(hours as i128).as_str()), "h")
        }
    }
}

/// How long ago `timestamp` was at `now` (both in microseconds), as text.
/// Whole seconds count, rounded toward zero.
pub open spec fn relative_text(now: i64, timestamp: i64) -> Seq<char> {
    let d = now - timestamp;
    if d <= -1_000_000 {
        "in the future"@
    } else if d < 60_000_000 {
        "just now"@
    } else {
        duration_text(d / 1_000_000) + " ago"@
    }
}

/// How long ago `timestamp` was at `now`, both in microseconds since the epoch.
pub fn relative_time_at(now: i64, timestamp: i64) -> (r: String)
    ensures
        r@ == relative_text(now, timestamp),
{
    let d: i128 = now as i128 - timestamp as i128;
    if d <= -1_000_000 {
        String::from_str("in the future")
    } else if d < 60_000_000 {
        String::from_str("just now")
    } else {
        let secs = (d as u128 / 1_000_000) as i64;
        concat2(format_duration(secs), " ago")
    }
}

/// How long ago `timestamp` (microseconds since the epoch) was, as text.
pub fn format_relative_time(timestamp: i64) -> (r: String)
    ensures
        exists|now: i64| r@ == relative_text(now, timestamp),
{
    let now = crate::clock::now_micros();
    let r = relative_time_at(now, timestamp);
    assert(r@ == relative_text(now, timestamp));
    r
}

/// The first `n` characters of `s`, or all of them when there are fewer.
pub open spec fn first_chars(s: Seq<char>, n: int) -> Seq<char> {
    if n < s.len() {
        s.take(n)
    } else {
        s
    }
}

/// `s` when its UTF-8 length is at most `max_len` bytes; otherwise its first
/// characters, ending in "..." when `max_len` leaves room for it.
pub open spec fn truncated(s: &str, max_len: usize) -> Seq<char> {
    if s.len() <= max_len {
        s@
    } else if max_len <= 3 {
        first_chars(s@, max_len as int)
    } else {
        first_chars(s@, max_len - 3) + "..."@
    }
}

/// Truncates `s` to `max_len`, adding an ellipsis when needed.
pub fn truncate_string(s: &str, max_len: usize) -> (r: String)
    ensures
        r@ == truncated(s, max_len),
{
    let n = s.unicode_len();
    if s.len() <= max_len {
        String::from_str(s)
    } else if max_len <= 3 {
        let k = if max_len < n { max_len } else { n };
        let r = String::from_str(s.substring_char(0, k));
        assert(s@.subrange(0, n as int) =~= s@);
        assert(r@ =~= first_chars(s@, max_len as int));
        r
    } else {
        let k = if max_len - 3 < n { max_len - 3 } else { n };
        let t = String::from_str(s.substring_char(0, k));
        assert(s@.subrange(0, n as int) =~= s@);
        assert(t@ =~= first_chars(s@, max_len - 3));
        concat2(t, "...")
    }
}

/// The extension of a path: the part of its file name after the last '.',
/// if it has one.
pub uninterp spec fn path_extension(p: Seq<char>) -> Option<Seq<char>>;

/// The text in lower case.
pub uninterp spec fn lower_of(s: Seq<char>) -> Seq<char>;

/// Relies on std::path::Path::extension: the extension of the path's file name, if any.
#[verifier::external_body]
pub(crate) fn extension_of(path: &str) -> (r: Option<String>)
    ensures
        opt_view(r) == path_extension(path@),
{
    std::path::Path::new(path).extension().map(|e| e.to_string_lossy().into_owned())
}

/// Relies on str::to_lowercase: the lower-case form of the text.
#[verifier::external_body]
fn lowercase(s: &str) -> (r: String)
    ensures
        r@ == lower_of(s@),
{
    s.to_lowercase()
}

/// The lower-case extension of `path`, if it has one.
pub fn get_extension(path: &str) -> (r: Option<String>)
    ensures
        opt_view(r) == match path_extension(path@) {
            Some(e) => Some(lower_of(e)),
            None => None,
        },
{
    match extension_of(path) {
        Some(e) => Some(lowercase(e.as_str())),
        None => None,
    }
}

/// The extensions of text files.
pub open spec fn text_extension(e: Seq<char>) -> bool {
    e == "rs"@ || e == "txt"@ || e == "md"@ || e == "json"@ || e == "toml"@ || e == "yaml"@ || e == "yml"@ || e
        == "py"@ || e == "js"@ || e == "ts"@ || e == "html"@ || e == "css"@ || e == "xml"@ || e == "csv"@ || e
        == "sh"@ || e == "bash"@ || e == "zsh"@ || e == "go"@ || e == "java"@ || e == "c"@ || e == "cpp"@ || e
        == "h"@ || e == "hpp"@ || e == "rb"@ || e == "php"@ || e == "swift"@ || e == "kt"@ || e == "scala"@ || e
        == "sql"@
}

/// Whether `ext` is the extension of a text file.
pub fn is_text_extension(ext: &str) -> (r: bool)
    ensures
        r == text_extension(ext@),
{
    str_eq(ext, "rs") || str_eq(ext, "txt") || str_eq(ext, "md") || str_eq(ext, "json") || str_eq(ext, "toml")
        || str_eq(ext, "yaml") || str_eq(ext, "yml") || str_eq(ext, "py") || str_eq(ext, "js") || str_eq(ext, "ts")
        || str_eq(ext, "html") || str_eq(ext, "css") || str_eq(ext, "xml") || str_eq(ext, "csv") || str_eq(ext, "sh")
        || str_eq(ext, "bash") || str_eq(ext, "zsh") || str_eq(ext, "go") || str_eq(ext, "java") || str_eq(ext, "c")
        || str_eq(ext, "cpp") || str_eq(ext, "h") || str_eq(ext, "hpp") || str_eq(ext, "rb") || str_eq(ext, "php")
        || str_eq(ext, "swift") || str_eq(ext, "kt") || str_eq(ext, "scala") || str_eq(ext, "sql")
}

/// Whether `path` names a text file, judged by its lower-case extension.
pub fn is_text_file(path: &str) -> (r: bool)
    ensures
        r == match path_extension(path@) {
            Some(e) => text_extension(lower_of(e)),
            None => false,
        },
{
    match get_extension(path) {
        Some(e) => is_text_extension(e.as_str()),
        None => false,
    }
}

/// `n / unit` in hundredths, rounded to nearest with ties to even.
pub open spec fn rounded_hundredths(n: nat, unit: nat) -> nat
    recommends
        unit > 0,
{
    let q = (n * 100) / unit;
    let r = (n * 100) % unit;
    if 2 * r > unit || (2 * r == unit && q % 2 == 1) {
        q + 1
    } else {
        q
    }
}

/// A number of hundredths as text with two decimals.
pub open spec fn hundredths_text(h: nat) -> Seq<char> {
    decimal((h / 100) as int) + "."@ + (if h % 100 < 10 { "0"@ } else { Seq::empty() }) + decimal((h % 100) as int)
}

/// A byte count in the largest unit of 1024 that it reaches, with two decimals.
pub open spec fn bytes_text(b: nat) -> Seq<char> {
    if b >= 1073741824 {
        hundredths_text(rounded_hundredths(b, 1073741824)) + " GB"@
    } else if b >= 1048576 {
        hundredths_text(rounded_hundredths(b, 1048576)) + " MB"@
    } else if b >= 1024 {
        hundredths_text(rounded_hundredths(b, 1024)) + " KB"@
    } else {
        decimal(b as int) + " B"@
    }
}

fn scaled_text(bytes: u64, unit: u64) -> (r: String)
    requires
        unit > 0,
    ensures
        r@ == hundredths_text(rounded_hundredths(bytes as nat, unit as nat)),
{
    let scaled: u128 = bytes as u128 * 100;
    let q = scaled / unit as u128;
    let rem = scaled % unit as u128;
    assert(rem < unit);
    assert(q <= scaled) by (nonlinear_arith)
        requires
            unit > 0,
            q == scaled as int / unit as int,
            scaled >= 0,
    ;
    let h: u128 = if 2 * rem > unit as u128 || (2 * rem == unit as u128 && q % 2 == 1) { q + 1 } else { q };
    let whole = h / 100;
    let frac = h % 100;
    let a = concat2(decimal_text(whole as i128), ".");
    let a = if frac < 10 { concat2(a, "0") } else { a };
    concat2(a, decimal_text(frac as i128).as_str())
}

/// Formats a byte count in B, KB, MB or GB.
pub fn format_bytes(bytes: u64) -> (r: String)
    ensures
        r@ == bytes_text(bytes as nat),
{
    if bytes >= 1073741824 {
        concat2(scaled_text(bytes, 1073741824), " GB")
    } else if bytes >= 1048576 {
        concat2(scaled_text(bytes, 1048576), " MB")
    } else if bytes >= 1024 {
        concat2(scaled_text(bytes, 1024), " KB")
    } else {
        concat2(decimal_text(bytes as i128), " B")
    }
}

/// Whether a character is alphanumeric in Unicode.
pub uninterp spec fn alphanumeric(c: char) -> bool;

/// Relies on char::is_alphanumeric: whether the character is alphabetic or numeric.
#[verifier::external_body]
fn is_alphanumeric(c: char) -> (r: bool)
    ensures
        r == alphanumeric(c),
{
    c.is_alphanumeric()
}

/// The character kept in a file name: itself when alphanumeric or one of
/// '-', '_', '.', else '_'.
pub open spec fn filename_char(c: char) -> char {
    if alphanumeric(c) || c == '-' || c == '_' || c == '.' {
        c
    } else {
        '_'
    }
}

/// Replaces every character unfit for a file name with '_'.
pub fn sanitize_filename(name: &str) -> (r: String)
    ensures
        r@ == name@.map_values(|c: char| filename_char(c)),
{
    let n = name.unicode_len();
    let mut out = String::new();
    let mut i: usize = 0;
    while i < n
        invariant
            n == name@.len(),
            i <= n,
            out@ == name@.take(i as int).map_values(|c: char| filename_char(c)),
        decreases n - i,
    {
        let c = name.get_char(i);
        let k = if is_alphanumeric(c) || c == '-' || c == '_' || c == '.' { c } else { '_' };
        push_char(&mut out, k);
        assert(name@.take(i + 1).map_values(|c: char| filename_char(c)) =~= name@.take(i as int).map_values(
            |c: char| filename_char(c),
        ).push(filename_char(c)));
        i = i + 1;
    }
    assert(name@.take(n as int) =~= name@);
    out
}

} // verus!
