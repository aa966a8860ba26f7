//! Texts for sizes and ages, icons, and reading the answer to a choice of
//! results.

use crate::evaluate::pattern_view;
use crate::text::{
    byte_len, chars_of, lemma_utf8_len_take, lowercase_of, same_chars, same_text, to_lowercase,
    trim, trim_of, utf8_len, utf8_width,
};
use vstd::prelude::*;
use vstd::string::StringExecFns;

verus! {

/// The character of a decimal digit.
pub open spec fn digit_char(d: nat) -> char {
    if d == 0 {
        '0'
    } else if d == 1 {
        '1'
    } else if d == 2 {
        '2'
    } else if d == 3 {
        '3'
    } else if d == 4 {
        '4'
    } else if d == 5 {
        '5'
    } else if d == 6 {
        '6'
    } else if d == 7 {
        '7'
    } else if d == 8 {
        '8'
    } else {
        '9'
    }
}

/// The decimal digits of a number, without leading zeros.
pub open spec fn decimal_digits(n: nat) -> Seq<char>
    decreases n,
{
    if n < 10 {
        seq![digit_char(n)]
    } else {
        decimal_digits(n / 10).push(digit_char(n % 10))
    }
}

/// The text of an age of `secs` seconds, in the largest of seconds, minutes,
/// hours and days that it fills, rounded down.
pub open spec fn time_ago_text(secs: nat) -> Seq<char> {
    if secs < 60 {
        decimal_digits(secs) + "s ago"@
    } else if secs < 3600 {
        decimal_digits(secs / 60) + "m ago"@
    } else if secs < 86400 {
        decimal_digits(secs / 3600) + "h ago"@
    } else {
        decimal_digits(secs / 86400) + "d ago"@
    }
}

/// The unit in which a size is shown: 0 for bytes, then KB, MB and GB, the
/// largest that the size fills.
pub open spec fn size_unit(bytes: nat) -> nat {
    if bytes < 1024 {
        0
    } else if bytes < 1024 * 1024 {
        1
    } else if bytes < 1024 * 1024 * 1024 {
        2
    } else {
        3
    }
}

/// The number of bytes in a unit.
pub open spec fn unit_bytes(unit: nat) -> nat {
    if unit == 0 {
        1
    } else if unit == 1 {
        1024
    } else if unit == 2 {
        1024 * 1024
    } else {
        1024 * 1024 * 1024
    }
}

/// The name of a unit.
pub open spec fn unit_name(unit: nat) -> Seq<char> {
    if unit == 0 {
        "B"@
    } else if unit == 1 {
        "KB"@
    } else if unit == 2 {
        "MB"@
    } else {
        "GB"@
    }
}

/// `value` in whole units, rounded to the nearest and, where two are equally
/// near, to the even one.
pub open spec fn nearest_even(value: nat, unit: nat) -> nat {
    let whole = value / unit;
    let rest = value % unit;
    if 2 * rest > unit || (2 * rest == unit && whole % 2 == 1) {
        whole + 1
    } else {
        whole
    }
}

/// The first count that takes more than 53 bits.
pub const EXACT_LIMIT: u64 = 0x20_0000_0000_0000;

/// The step between the counts that a double-precision number can hold near
/// `bytes`: 1 below [`EXACT_LIMIT`], doubled for every further bit.
pub open spec fn rounding_unit(bytes: nat) -> nat
    decreases bytes,
{
    if bytes < EXACT_LIMIT {
        1
    } else {
        2 * rounding_unit(bytes / 2)
    }
}

/// The size that is shown for `bytes`: sizes are measured in double
/// precision, so a count of more than 53 bits stands for the nearest count
/// that such a number holds.
pub open spec fn shown_bytes(bytes: nat) -> nat {
    nearest_even(bytes, rounding_unit(bytes)) * rounding_unit(bytes)
}

/// A size in tenths of a unit, rounded to the nearest tenth and, where two
/// are equally near, to the even one.
pub open spec fn rounded_tenths(bytes: nat, unit: nat) -> nat {
    nearest_even(shown_bytes(bytes) * 10, unit_bytes(unit))
}

/// The text of a size: bytes as a whole number, larger units with one decimal.
pub open spec fn size_text(bytes: nat) -> Seq<char> {
    let unit = size_unit(bytes);
    if unit == 0 {
        decimal_digits(bytes) + unit_name(0)
    } else {
        let tenths = rounded_tenths(bytes, unit);
        decimal_digits(tenths / 10) + seq!['.'] + decimal_digits(tenths % 10) + unit_name(unit)
    }
}

/// The text of one decimal digit.
fn digit_text(d: u64) -> (r: &'static str)
    requires
        d < 10,
    ensures
        r@ == seq![digit_char(d as nat)],
{
    proof {
        reveal_strlit("0");
        reveal_strlit("1");
        reveal_strlit("2");
        reveal_strlit("3");
        reveal_strlit("4");
        reveal_strlit("5");
        reveal_strlit("6");
        reveal_strlit("7");
        reveal_strlit("8");
        reveal_strlit("9");
    }
    let r = if d == 0 {
        "0"
    } else if d == 1 {
        "1"
    } else if d == 2 {
        "2"
    } else if d == 3 {
        "3"
    } else if d == 4 {
        "4"
    } else if d == 5 {
        "5"
    } else if d == 6 {
        "6"
    } else if d == 7 {
        "7"
    } else if d == 8 {
        "8"
    } else {
        "9"
    };
    r
}

/// The decimal digits of `n`.
pub fn decimal_string(n: u64) -> (r: String)
    ensures
        r@ == decimal_digits(n as nat),
    decreases n,
{
    if n < 10 {
        digit_text(n).to_owned()
    } else {
        let mut text = decimal_string(n / 10);
        text.append(digit_text(n % 10));
        text
    }
}

/// The text of an age of `secs` seconds, such as `5m ago`.
pub fn format_time_ago(secs: u64) -> (r: String)
    ensures
        r@ == time_ago_text(secs as nat),
{
    if secs < 60 {
        let mut text = decimal_string(secs);
        text.append("s ago");
        text
    } else if secs < 3600 {
        let mut text = decimal_string(secs / 60);
        text.append("m ago");
        text
    } else if secs < 86400 {
        let mut text = decimal_string(secs / 3600);
        text.append("h ago");
        text
    } else {
        let mut text = decimal_string(secs / 86400);
        text.append("d ago");
        text
    }
}

/// `value` in whole units, rounded to the nearest and, where two are equally
/// near, to the even one.
pub fn round_to_nearest_even(value: u128, unit: u128) -> (r: u128)
    requires
        0 < unit,
        unit <= u64::MAX,
        value < u128::MAX,
    ensures
        r == nearest_even(value as nat, unit as nat),
{
    let whole = value / unit;
    let rest = value % unit;
    if 2 * rest > unit || (2 * rest == unit && whole % 2 == 1) {
        whole + 1
    } else {
        whole
    }
}

/// The step between the counts that a double-precision number can hold near
/// `bytes`.
pub fn rounding_unit_of(bytes: u64) -> (unit: u64)
    ensures
        unit == rounding_unit(bytes as nat),
        1 <= unit <= 4096,
{
    let mut unit: u64 = 1;
    let mut rest: u64 = bytes;
    while rest >= EXACT_LIMIT
        invariant
            1 <= unit <= 4096,
            rest * unit <= bytes,
            unit * rounding_unit(rest as nat) == rounding_unit(bytes as nat),
        decreases rest,
    {
        proof {
            let half = (rest / 2) as nat;
            assert(unit * 2 <= 4096 && (rest / 2) * (unit * 2) <= bytes) by (nonlinear_arith)
                requires
                    rest >= 0x20_0000_0000_0000,
                    rest * unit <= bytes,
                    bytes <= 0xffff_ffff_ffff_ffff,
                    1 <= unit,
            ;
            assert((unit * 2) * rounding_unit(half) == unit * (2 * rounding_unit(half)))
                by (nonlinear_arith);
        }
        rest = rest / 2;
        unit = unit * 2;
    }
    assert(rounding_unit(rest as nat) == 1);
    unit
}

/// The text of a size of `bytes` bytes, such as `1.5KB`.
pub fn format_size(bytes: u64) -> (r: String)
    ensures
        r@ == size_text(bytes as nat),
{
    if bytes < 1024 {
        let mut text = decimal_string(bytes);
        text.append("B");
        return text;
    }
    let (unit, name): (u64, &'static str) = if bytes < 1024 * 1024 {
        (1024, "KB")
    } else if bytes < 1024 * 1024 * 1024 {
        (1024 * 1024, "MB")
    } else {
        (1024 * 1024 * 1024, "GB")
    };
    let step = rounding_unit_of(bytes);
    let steps = round_to_nearest_even(bytes as u128, step as u128);
    assert(steps * step <= 0x1_0000_0000_0000_1000) by (nonlinear_arith)
        requires
            steps <= bytes / step + 1,
            1 <= step <= 4096,
            bytes <= 0xffff_ffff_ffff_ffff,
    ;
    let shown: u128 = steps * step as u128;
    let tenths = round_to_nearest_even(shown * 10, unit as u128);
    assert(tenths <= shown * 10);
    let mut text = decimal_string((tenths / 10) as u64);
    text.append(".");
    text.append(decimal_string((tenths % 10) as u64).as_str());
    text.append(name);
    proof {
        reveal_strlit(".");
    }
    text
}

/// A decimal digit.
pub open spec fn is_digit(c: char) -> bool {
    '0' <= c <= '9'
}

/// The value of a decimal digit.
pub open spec fn digit_value(c: char) -> nat {
    (c as u32 - '0' as u32) as nat
}

/// Every character is a decimal digit.
pub open spec fn all_digits(s: Seq<char>) -> bool {
    forall|i: int| 0 <= i < s.len() ==> is_digit(#[trigger] s[i])
}

/// The number that a sequence of decimal digits writes.
pub open spec fn digits_value(s: Seq<char>) -> nat
    decreases s.len(),
{
    if s.len() == 0 {
        0
    } else {
        digits_value(s.drop_last()) * 10 + digit_value(s.last())
    }
}

/// The number that a text writes: decimal digits, at least one, with nothing
/// but a plus sign before them, and no more than fits the machine's word.
pub open spec fn written_number(s: Seq<char>) -> Option<usize> {
    let digits = if s.len() > 0 && s[0] == '+' {
        s.skip(1)
    } else {
        s
    };
    digits_number(digits)
}

/// The number that decimal digits write, where there is at least one digit
/// and the number fits the machine's word.
pub open spec fn digits_number(digits: Seq<char>) -> Option<usize> {
    if digits.len() > 0 && all_digits(digits) && digits_value(digits) <= usize::MAX {
        Some(digits_value(digits) as usize)
    } else {
        None
    }
}

/// A longer sequence of digits writes no smaller number than its beginning.
proof fn lemma_digits_value_grows(s: Seq<char>, k: int)
    requires
        0 <= k <= s.len(),
    ensures
        digits_value(s.take(k)) <= digits_value(s),
    decreases s.len() - k,
{
    if k < s.len() {
        lemma_digits_value_grows(s, k + 1);
        assert(s.take(k + 1).drop_last() =~= s.take(k));
    } else {
        assert(s.take(k) =~= s);
    }
}

/// Reads a number as `written_number` says.
pub fn parse_number(text: &Vec<char>) -> (r: Option<usize>)
    ensures
        r == written_number(text@),
{
    let start: usize = if text.len() > 0 && text[0] == '+' {
        1
    } else {
        0
    };
    let ghost digits = text@.skip(start as int);
    assert(text@.skip(0) =~= text@);
    if start == text.len() {
        return None;
    }
    let mut value: usize = 0;
    let mut i: usize = start;
    while i < text.len()
        invariant
            start <= i <= text.len(),
            digits == text@.skip(start as int),
            written_number(text@) == digits_number(digits),
            all_digits(digits.take(i - start)),
            value == digits_value(digits.take(i - start)),
        decreases text.len() - i,
    {
        let c = text[i];
        let ghost done = digits.take(i - start);
        let ghost next = digits.take(i - start + 1);
        proof {
            assert(next.drop_last() =~= done);
            lemma_digits_value_grows(digits, i - start + 1);
        }
        if c < '0' || c > '9' {
            return None;
        }
        let d = (c as u32 - '0' as u32) as usize;
        if value > (usize::MAX - d) / 10 {
            return None;
        }
        value = value * 10 + d;
        assert(all_digits(next));
        i += 1;
    }
    assert(digits.take(i - start) =~= digits);
    Some(value)
}

/// What the answer to a choice among results means.
#[derive(Clone, Copy, Debug, PartialEq, Eq, Structural)]
pub enum Selection {
    /// The choice is given up.
    Quit,
    /// The result at this index is chosen.
    Pick(usize),
    /// The answer is neither.
    Invalid,
}

/// What an answer means for a choice among `count` results: after trimming
/// and lowercasing, `q`, `quit` and `exit` give the choice up, and a number
/// from 1 to `count` chooses the result of that number.
pub open spec fn selection_for(input: Seq<char>, count: nat) -> Selection {
    let answer = lowercase_of(trim_of(input));
    if answer == "q"@ || answer == "quit"@ || answer == "exit"@ {
        Selection::Quit
    } else {
        match written_number(answer) {
            Some(number) => if 1 <= number <= count {
                Selection::Pick((number - 1) as usize)
            } else {
                Selection::Invalid
            },
            None => Selection::Invalid,
        }
    }
}

/// Reads the answer to a choice among `count` results.
pub fn interpret_selection(input: &str, count: usize) -> (r: Selection)
    ensures
        r == selection_for(input@, count as nat),
{
    let answer = chars_of(to_lowercase(trim(input)).as_str());
    if same_chars(&answer, &chars_of("q")) || same_chars(
        &answer,
        &chars_of("quit"),
    ) || same_chars(&answer, &chars_of("exit")) {
        return Selection::Quit;
    }
    match parse_number(&answer) {
        Some(number) => if 1 <= number && number <= count {
            Selection::Pick(number - 1)
        } else {
            Selection::Invalid
        },
        None => Selection::Invalid,
    }
}

/// A line longer than this many bytes is shown shortened.
pub const PREVIEW_LIMIT: usize = 100;

/// A shortened line keeps at most this many bytes of the line.
pub const PREVIEW_KEPT: usize = 97;

/// Of the content matches of one result, this many are shown.
pub const MATCHES_SHOWN: usize = 3;

/// The number of leading characters of `line` that take no more than
/// `budget` bytes together.
pub open spec fn fitting_chars(line: Seq<char>, budget: nat) -> nat
    decreases line.len(),
{
    if line.len() == 0 || utf8_len(line.take(1)) > budget {
        0
    } else {
        1 + fitting_chars(line.drop_first(), (budget - utf8_len(line.take(1))) as nat)
    }
}

/// The text shown for a line: the line itself where it is short, else its
/// longest beginning of whole characters within the bytes kept, and three
/// dots.
pub open spec fn preview_text(line: Seq<char>) -> Seq<char> {
    if utf8_len(line) > PREVIEW_LIMIT {
        line.take(fitting_chars(line, PREVIEW_KEPT as nat) as int) + "..."@
    } else {
        line
    }
}

/// The characters that fit the budget are the first `k` where those take no
/// more than the budget and one more would take more.
proof fn lemma_fitting_chars(line: Seq<char>, budget: nat, k: int)
    requires
        0 <= k <= line.len(),
        utf8_len(line.take(k)) <= budget,
        k < line.len() ==> utf8_len(line.take(k + 1)) > budget,
    ensures
        fitting_chars(line, budget) == k,
    decreases line.len(),
{
    if line.len() > 0 && k > 0 {
        let rest = line.drop_first();
        let first = utf8_len(line.take(1));
        crate::text::lemma_encode_utf8_concat(line.take(1), rest.take(k - 1));
        assert(line.take(1) + rest.take(k - 1) =~= line.take(k));
        if k < line.len() {
            crate::text::lemma_encode_utf8_concat(line.take(1), rest.take(k));
            assert(line.take(1) + rest.take(k) =~= line.take(k + 1));
        }
        lemma_fitting_chars(rest, (budget - first) as nat, k - 1);
    }
}

/// The text shown for a line of a content match.
pub fn preview_line(line: &str) -> (r: String)
    ensures
        r@ == preview_text(line@),
{
    if byte_len(line) <= PREVIEW_LIMIT {
        return line.to_owned();
    }
    let chars = chars_of(line);
    let mut k: usize = 0;
    let mut used: usize = 0;
    while k < chars.len()
        invariant
            chars@ == line@,
            k <= chars.len(),
            used == utf8_len(chars@.take(k as int)),
            used <= PREVIEW_KEPT,
        ensures
            k < chars.len() ==> utf8_len(chars@.take(k + 1)) > PREVIEW_KEPT,
        decreases chars.len() - k,
    {
        let width = utf8_width(chars[k]);
        proof {
            lemma_utf8_len_take(chars@, k as int);
        }
        if used + width > PREVIEW_KEPT {
            break ;
        }
        used += width;
        k += 1;
    }
    proof {
        lemma_fitting_chars(line@, PREVIEW_KEPT as nat, k as int);
    }
    let mut text = line.substring_char(0, k).to_owned();
    text.append("...");
    text
}

/// How many of `total` content matches are shown, and how many are only
/// counted.
pub fn matches_shown(total: usize) -> (r: (usize, usize))
    ensures
        r.0 == if total < MATCHES_SHOWN {
            total
        } else {
            MATCHES_SHOWN
        },
        r.0 + r.1 == total,
{
    if total < MATCHES_SHOWN {
        (total, 0)
    } else {
        (MATCHES_SHOWN, total - MATCHES_SHOWN)
    }
}

/// The icon of a file with the given extension.
pub open spec fn extension_icon(extension: Seq<char>) -> Seq<char> {
    if extension == "rs"@ {
        "🦀"@
    }     else if extension == "js"@ || extension == "ts"@ {
        "📜"@
    }     else if extension == "py"@ {
        "🐍"@
    }     else if extension == "java"@ {
        "☕"@
    }     else if extension == "cpp"@ || extension == "cxx"@ || extension == "cc"@ {
        "💠"@
    }     else if extension == "c"@ {
        "🔵"@
    }     else if extension == "h"@ || extension == "hpp"@ {
        "📘"@
    }     else if extension == "go"@ {
        "🐹"@
    }     else if extension == "rb"@ {
        "💎"@
    }     else if extension == "php"@ {
        "🐘"@
    }     else if extension == "sh"@ || extension == "bash"@ {
        "🐚"@
    }     else if extension == "swift"@ {
        "🍎"@
    }     else if extension == "kt"@ || extension == "kts"@ {
        "🤖"@
    }     else if extension == "cs"@ {
        "🎯"@
    }     else if extension == "json"@ {
        "📋"@
    }     else if extension == "yaml"@ || extension == "yml"@ {
        "⚙️"@
    }     else if extension == "toml"@ {
        "🛠️"@
    }     else if extension == "ini"@ {
        "📑"@
    }     else if extension == "csv"@ {
        "📊"@
    }     else if extension == "xml"@ {
        "🗂️"@
    }     else if extension == "md"@ {
        "📝"@
    }     else if extension == "txt"@ {
        "📄"@
    }     else if extension == "html"@ || extension == "htm"@ {
        "🌐"@
    }     else if extension == "css"@ {
        "🎨"@
    }     else if extension == "pdf"@ {
        "📕"@
    }     else if extension == "png"@ || extension == "jpg"@ || extension == "jpeg"@ || extension == "gif"@ || extension == "bmp"@ || extension == "svg"@ {
        "🖼️"@
    }     else if extension == "ico"@ {
        "🔖"@
    }     else if extension == "mp4"@ || extension == "mkv"@ || extension == "avi"@ || extension == "mov"@ || extension == "webm"@ {
        "🎬"@
    }     else if extension == "mp3"@ || extension == "wav"@ || extension == "flac"@ || extension == "ogg"@ || extension == "m4a"@ {
        "🎵"@
    }     else if extension == "zip"@ || extension == "tar"@ || extension == "gz"@ || extension == "bz2"@ || extension == "xz"@ || extension == "7z"@ {
        "📦"@
    }     else if extension == "exe"@ || extension == "bin"@ || extension == "dll"@ {
        "⚙️"@
    }     else if extension == "lock"@ {
        "🔒"@
    }     else if extension == "log"@ {
        "📜"@
    } else {
        "📄"@
    }
}

/// The icon shown for a result: one for directories, one by extension for
/// files, and the icon of a plain file where the extension is unknown or
/// missing.
pub open spec fn icon_of(is_dir: bool, extension: Option<Seq<char>>) -> Seq<char> {
    if is_dir {
        "📁"@
    } else {
        match extension {
            Some(e) => extension_icon(e),
            None => "📄"@,
        }
    }
}

/// The icon shown for a result that is a directory or a file with the given
/// extension.
pub fn get_file_icon(is_dir: bool, extension: Option<&str>) -> (r: &'static str)
    ensures
        r@ == icon_of(is_dir, pattern_view(extension)),
{
    if is_dir {
        return "📁";
    }
    let e = match extension {
        Some(e) => e,
        None => {
            return "📄";
        },
    };
    if same_text(e, "rs") {
        "🦀"
    }     else if same_text(e, "js") || same_text(e, "ts") {
        "📜"
    }     else if same_text(e, "py") {
        "🐍"
    }     else if same_text(e, "java") {
        "☕"
    }     else if same_text(e, "cpp") || same_text(e, "cxx") || same_text(e, "cc") {
        "💠"
    }     else if same_text(e, "c") {
        "🔵"
    }     else if same_text(e, "h") || same_text(e, "hpp") {
        "📘"
    }     else if same_text(e, "go") {
        "🐹"
    }     else if same_text(e, "rb") {
        "💎"
    }     else if same_text(e, "php") {
        "🐘"
    }     else if same_text(e, "sh") || same_text(e, "bash") {
        "🐚"
    }     else if same_text(e, "swift") {
        "🍎"
    }     else if same_text(e, "kt") || same_text(e, "kts") {
        "🤖"
    }     else if same_text(e, "cs") {
        "🎯"
    }     else if same_text(e, "json") {
        "📋"
    }     else if same_text(e, "yaml") || same_text(e, "yml") {
        "⚙️"
    }     else if same_text(e, "toml") {
        "🛠️"
    }     else if same_text(e, "ini") {
        "📑"
    }     else if same_text(e, "csv") {
        "📊"
    }     else if same_text(e, "xml") {
        "🗂️"
    }     else if same_text(e, "md") {
        "📝"
    }     else if same_text(e, "txt") {
        "📄"
    }     else if same_text(e, "html") || same_text(e, "htm") {
        "🌐"
    }     else if same_text(e, "css") {
        "🎨"
    }     else if same_text(e, "pdf") {
        "📕"
    }     else if same_text(e, "png") || same_text(e, "jpg") || same_text(e, "jpeg") || same_text(e, "gif") || same_text(e, "bmp") || same_text(e, "svg") {
        "🖼️"
    }     else if same_text(e, "ico") {
        "🔖"
    }     else if same_text(e, "mp4") || same_text(e, "mkv") || same_text(e, "avi") || same_text(e, "mov") || same_text(e, "webm") {
        "🎬"
    }     else if same_text(e, "mp3") || same_text(e, "wav") || same_text(e, "flac") || same_text(e, "ogg") || same_text(e, "m4a") {
        "🎵"
    }     else if same_text(e, "zip") || same_text(e, "tar") || same_text(e, "gz") || same_text(e, "bz2") || same_text(e, "xz") || same_text(e, "7z") {
        "📦"
    }     else if same_text(e, "exe") || same_text(e, "bin") || same_text(e, "dll") {
        "⚙️"
    }     else if same_text(e, "lock") {
        "🔒"
    }     else if same_text(e, "log") {
        "📜"
    } else {
        "📄"
    }
}

} // verus!
