//! Crash reports: exception names, the report text shown to the user, and
//! the UTF-16 text handed to the message box.
use vstd::prelude::*;
use crate::numfmt::{all_digits, dec, dec_padded, digits, digits_value, hex_padded, lemma_dec_is_digits, lemma_dec_value, u64_digits, u64_to_dec, zero_pad};
use crate::text::{ascii_lower, char_ascii_lower, str_chars, string_from_chars, trim_whitespace, trim_ws};

verus! {

broadcast use vstd::string::group_string_axioms;

/// The command-line flag that starts the crash-report dialog process.
pub open spec fn crash_report_flag() -> Seq<char> {
    "--crash-report"@
}

/// `--crash-report`.
pub fn crash_report_flag_text() -> (r: &'static str)
    ensures
        r@ == crash_report_flag(),
{
    "--crash-report"
}

/// Whether the command line asks for the crash-report dialog: exactly
/// the program, the flag and the report file.
pub fn wants_crash_dialog(args: &Vec<String>) -> (b: bool)
    ensures
        b == (args@.len() == 3 && args@[1]@ == crash_report_flag()),
{
    if args.len() != 3 {
        return false;
    }
    let a = str_chars(args[1].as_str());
    let f = str_chars("--crash-report");
    if a.len() != f.len() {
        return false;
    }
    let r = crate::text::chars_starts_with(a.as_slice(), f.as_slice());
    proof {
        assert(a@.take(a@.len() as int) =~= a@);
    }
    r
}

// ---------------------------------------------------------------------------
// Exception names
// ---------------------------------------------------------------------------

/// Readable name of a Windows exception code (`NTSTATUS`).
pub open spec fn exception_name(code: u32) -> Seq<char> {
    if code == 0xC0000005 {
        "ACCESS_VIOLATION (read/write/execute of invalid memory)"@
    } else if code == 0xC000001D {
        "ILLEGAL_INSTRUCTION"@
    } else if code == 0xC0000025 {
        "NONCONTINUABLE_EXCEPTION"@
    } else if code == 0xC0000094 {
        "INT_DIVIDE_BY_ZERO"@
    } else if code == 0xC0000096 {
        "PRIVILEGED_INSTRUCTION"@
    } else if code == 0xC00000FD {
        "STACK_OVERFLOW"@
    } else if code == 0xC0000409 {
        "STACK_BUFFER_OVERRUN (__fastfail / FAILFAST)"@
    } else if code == 0xC000041D {
        "UNHANDLED_EXCEPTION_IN_CALLBACK"@
    } else if code == 0xC0000420 {
        "ASSERTION_FAILURE"@
    } else if code == 0xC0000374 {
        "HEAP_CORRUPTION"@
    } else if code == 0xC00000E5 {
        "IN_PAGE_ERROR (paged out / disk failure)"@
    } else if code == 0xC000001C {
        "INVALID_DISPOSITION"@
    } else if code == 0xC0000093 {
        "FLOAT_INVALID_OPERATION"@
    } else if code == 0xC0000092 {
        "FLOAT_DIVIDE_BY_ZERO"@
    } else if code == 0xC000008C {
        "ARRAY_BOUNDS_EXCEEDED"@
    } else if code == 0xC0000095 {
        "INT_OVERFLOW"@
    } else if code == 0xE06D7363 {
        "C++ EH exception (thrown via throw)"@
    } else if code == 0xE0434352 {
        "CLR managed exception"@
    } else {
        "(unknown — see https://learn.microsoft.com/en-us/openspecs/windows_protocols/ms-erref)"@
    }
}

/// Readable name of a Windows exception code.
pub fn exception_code_to_string(code: u32) -> (r: &'static str)
    ensures
        r@ == exception_name(code),
{
    match code {
        0xC0000005 => "ACCESS_VIOLATION (read/write/execute of invalid memory)",
        0xC000001D => "ILLEGAL_INSTRUCTION",
        0xC0000025 => "NONCONTINUABLE_EXCEPTION",
        0xC0000094 => "INT_DIVIDE_BY_ZERO",
        0xC0000096 => "PRIVILEGED_INSTRUCTION",
        0xC00000FD => "STACK_OVERFLOW",
        0xC0000409 => "STACK_BUFFER_OVERRUN (__fastfail / FAILFAST)",
        0xC000041D => "UNHANDLED_EXCEPTION_IN_CALLBACK",
        0xC0000420 => "ASSERTION_FAILURE",
        0xC0000374 => "HEAP_CORRUPTION",
        0xC00000E5 => "IN_PAGE_ERROR (paged out / disk failure)",
        0xC000001C => "INVALID_DISPOSITION",
        0xC0000093 => "FLOAT_INVALID_OPERATION",
        0xC0000092 => "FLOAT_DIVIDE_BY_ZERO",
        0xC000008C => "ARRAY_BOUNDS_EXCEEDED",
        0xC0000095 => "INT_OVERFLOW",
        0xE06D7363 => "C++ EH exception (thrown via throw)",
        0xE0434352 => "CLR managed exception",
        _ => "(unknown — see https://learn.microsoft.com/en-us/openspecs/windows_protocols/ms-erref)",
    }
}

// ---------------------------------------------------------------------------
// Report text
// ---------------------------------------------------------------------------

pub open spec fn rule() -> Seq<char> {
    "============================================\n"@
}

/// Two-digit zero-padded decimal.
pub open spec fn pad2(n: nat) -> Seq<char> {
    zero_pad(dec(n), 2)
}

/// The time line of a report, from seconds since the Unix epoch (absent
/// when the clock is before the epoch).
pub open spec fn timestamp_text(secs: Option<u64>) -> Seq<char> {
    match secs {
        None => "<unknown time>"@,
        Some(s) => {
            let rem = (s % 86400) as nat;
            dec(s as nat) + " (≈ "@ + dec((s / 86400) as nat) + "d "@ + pad2(rem / 3600) + ":"@
                + pad2((rem % 3600) / 60) + ":"@ + pad2(rem % 60) + " UTC since Unix epoch)"@
        },
    }
}

/// The stack-trace section of a report.
pub open spec fn trace_section(bt: Option<Seq<char>>) -> Seq<char> {
    match bt {
        None => "<no stack trace captured>\n"@,
        Some(b) => if trim_ws(b).len() == 0 {
            "<empty stack trace>\n"@
        } else if b.last() == '\n' {
            b
        } else {
            b + "\n"@
        },
    }
}

/// The whole report shown to the user.
pub open spec fn crash_report(
    kind: Seq<char>,
    version: Seq<char>,
    os: Seq<char>,
    timestamp: Seq<char>,
    detail: Seq<char>,
    bt: Option<Seq<char>>,
) -> Seq<char> {
    "FlatUI has encountered a fatal error and needs to close.\n"@
        + "We're sorry for the inconvenience. Details below.\n\n"@ + rule() + " ERROR DETAILS\n"@
        + rule() + "Error type:   "@ + kind + "\n"@ + "App version:  "@ + version + "\n"@
        + "Target OS:    "@ + os + "\n"@ + "Timestamp:    "@ + timestamp + "\n"@ + "\n"@ + detail
        + "\n\n"@ + rule() + " STACK TRACE\n"@ + rule() + trace_section(bt) + "\n"@ + rule()
        + " HOW TO REPORT THIS\n"@ + rule()
        + "Please open an issue and paste the entire contents of this dialog:\n"@
        + "  https://github.com/nend-x/FlatUI/issues\n\n"@
        + "If you can reproduce the crash, note the steps you took\n"@
        + "right before this dialog appeared.\n"@
}

pub open spec fn opt_str_view(o: Option<&str>) -> Option<Seq<char>> {
    match o {
        Some(s) => Some(s@),
        None => None,
    }
}

fn timestamp_string(secs: Option<u64>) -> (r: String)
    ensures
        r@ == timestamp_text(secs),
{
    match secs {
        None => "<unknown time>".to_owned(),
        Some(s) => {
            let days = s / 86400;
            let rem = s % 86400;
            let h = rem / 3600;
            let m = (rem % 3600) / 60;
            let sec = rem % 60;
            let mut r = String::new();
            crate::text::append_chars(&mut r, u64_to_dec(s).as_slice());
            r.append(" (≈ ");
            crate::text::append_chars(&mut r, u64_to_dec(days).as_slice());
            r.append("d ");
            crate::text::append_chars(&mut r, dec_padded(h, 2).as_slice());
            r.append(":");
            crate::text::append_chars(&mut r, dec_padded(m, 2).as_slice());
            r.append(":");
            crate::text::append_chars(&mut r, dec_padded(sec, 2).as_slice());
            r.append(" UTC since Unix epoch)");
            proof {
                assert(r@ =~= timestamp_text(secs));
            }
            r
        },
    }
}

fn trace_section_string(bt: Option<&str>) -> (r: String)
    ensures
        r@ == trace_section(opt_str_view(bt)),
{
    match bt {
        None => "<no stack trace captured>\n".to_owned(),
        Some(b) => {
            let t = trim_whitespace(b);
            if t.as_str().is_empty() {
                "<empty stack trace>\n".to_owned()
            } else {
                let c = str_chars(b);
                let mut r = b.to_owned();
                if c[c.len() - 1] != '\n' {
                    r.append("\n");
                }
                r
            }
        },
    }
}

/// The report text for a crash of some kind, with its detail and stack
/// trace, at the given time.
pub fn crash_report_text(
    kind: &str,
    detail: &str,
    backtrace: Option<&str>,
    unix_secs: Option<u64>,
    version: &str,
    os: &str,
) -> (r: String)
    ensures
        r@ == crash_report(
            kind@,
            version@,
            os@,
            timestamp_text(unix_secs),
            detail@,
            opt_str_view(backtrace),
        ),
{
    let ts = timestamp_string(unix_secs);
    let trace = trace_section_string(backtrace);
    let rule = "============================================\n";
    let mut s = String::new();
    s.append("FlatUI has encountered a fatal error and needs to close.\n");
    s.append("We're sorry for the inconvenience. Details below.\n\n");
    s.append(rule);
    s.append(" ERROR DETAILS\n");
    s.append(rule);
    s.append("Error type:   ");
    s.append(kind);
    s.append("\n");
    s.append("App version:  ");
    s.append(version);
    s.append("\n");
    s.append("Target OS:    ");
    s.append(os);
    s.append("\n");
    s.append("Timestamp:    ");
    s.append(ts.as_str());
    s.append("\n");
    s.append("\n");
    s.append(detail);
    s.append("\n\n");
    s.append(rule);
    s.append(" STACK TRACE\n");
    s.append(rule);
    s.append(trace.as_str());
    s.append("\n");
    s.append(rule);
    s.append(" HOW TO REPORT THIS\n");
    s.append(rule);
    s.append("Please open an issue and paste the entire contents of this dialog:\n");
    s.append("  https://github.com/nend-x/FlatUI/issues\n\n");
    s.append("If you can reproduce the crash, note the steps you took\n");
    s.append("right before this dialog appeared.\n");
    proof {
        assert(s@ =~= crash_report(
            kind@,
            version@,
            os@,
            timestamp_text(unix_secs),
            detail@,
            opt_str_view(backtrace),
        ));
    }
    s
}

/// std `SystemTime::now()` measured from `UNIX_EPOCH`, in whole seconds;
/// `None` when the clock is before the epoch.
#[verifier::external_body]
fn unix_time_secs() -> Option<u64> {
    match std::time::SystemTime::now().duration_since(std::time::UNIX_EPOCH) {
        Ok(d) => Some(d.as_secs()),
        Err(_) => None,
    }
}

/// The report text for a crash happening now.
pub fn format_crash_info(kind: &str, detail: &str, backtrace: Option<&str>, version: &str, os: &str) -> (r: String)
    ensures
        exists|secs: Option<u64>|
            r@ == #[trigger] crash_report(
                kind@,
                version@,
                os@,
                timestamp_text(secs),
                detail@,
                opt_str_view(backtrace),
            ),
{
    let secs = unix_time_secs();
    crash_report_text(kind, detail, backtrace, secs, version, os)
}

// ---------------------------------------------------------------------------
// Details of a crash
// ---------------------------------------------------------------------------

/// Lower-case hexadecimal digits (as `{:x}` prints them).
pub open spec fn hex_lower(n: nat) -> Seq<char> {
    digits(n, 16).map_values(|c: char| ascii_lower(c))
}

/// The detail block of a native exception: whether the exception pointers
/// were there, and the record's code and faulting address when it was.
pub open spec fn exception_detail(pointers: bool, record: Option<(u32, u64)>) -> Seq<char> {
    if !pointers {
        "EXCEPTION_POINTERS was null (no debug info available)"@
    } else {
        match record {
            None => "Exception record was null"@,
            Some((code, addr)) => "Exception code:    0x"@ + zero_pad(digits(code as nat, 16), 8)
                + "\nException name:    "@ + exception_name(code) + "\nFaulting address:  0x"@
                + "0x"@ + hex_lower(addr as nat),
        }
    }
}

fn hex_lower_string(n: u64) -> (r: Vec<char>)
    ensures
        r@ == hex_lower(n as nat),
{
    let d = u64_digits(n, 16);
    let mut out: Vec<char> = Vec::new();
    let mut i: usize = 0;
    while i < d.len()
        invariant
            i <= d@.len(),
            d@ == digits(n as nat, 16),
            out@ == d@.take(i as int).map_values(|c: char| ascii_lower(c)),
        decreases d@.len() - i,
    {
        out.push(char_ascii_lower(d[i]));
        proof {
            assert(d@.take(i + 1).map_values(|c: char| ascii_lower(c)) =~= d@.take(
                i as int,
            ).map_values(|c: char| ascii_lower(c)).push(ascii_lower(d@[i as int])));
        }
        i += 1;
    }
    proof {
        assert(d@.take(d@.len() as int) =~= d@);
    }
    out
}

/// Detail block of a native exception.
pub fn native_exception_detail(pointers: bool, record: Option<(u32, u64)>) -> (r: String)
    ensures
        r@ == exception_detail(pointers, record),
{
    if !pointers {
        return "EXCEPTION_POINTERS was null (no debug info available)".to_owned();
    }
    match record {
        None => "Exception record was null".to_owned(),
        Some((code, addr)) => {
            let mut r = String::new();
            r.append("Exception code:    0x");
            crate::text::append_chars(&mut r, hex_padded(code as u64, 8).as_slice());
            r.append("\nException name:    ");
            r.append(exception_code_to_string(code));
            r.append("\nFaulting address:  0x");
            r.append("0x");
            crate::text::append_chars(&mut r, hex_lower_string(addr).as_slice());
            proof {
                assert(r@ =~= exception_detail(pointers, record));
            }
            r
        },
    }
}

/// One captured stack frame: `  #NN: 0x` and the 16-digit address.
pub open spec fn frame_line(i: nat, addr: u64) -> Seq<char> {
    "  #"@ + zero_pad(dec(i), 2) + ": 0x"@ + zero_pad(digits(addr as nat, 16), 16)
}

/// The first `n` frame lines, one per line.
pub open spec fn frame_lines(frames: Seq<u64>, n: nat) -> Seq<char>
    decreases n,
{
    if n == 0 {
        Seq::empty()
    } else if n == 1 {
        frame_line(0, frames[0])
    } else {
        frame_lines(frames, (n - 1) as nat) + "\n"@ + frame_line((n - 1) as nat, frames[n - 1])
    }
}

/// The stack trace of a native exception from its raw frame addresses.
pub open spec fn frames_text(frames: Seq<u64>) -> Seq<char> {
    if frames.len() == 0 {
        "<no stack frames captured>"@
    } else {
        frame_lines(frames, frames.len())
    }
}

/// Stack trace text from raw frame addresses.
pub fn stack_frames_text(frames: &[u64]) -> (r: String)
    ensures
        r@ == frames_text(frames@),
{
    if frames.len() == 0 {
        return "<no stack frames captured>".to_owned();
    }
    let mut r = String::new();
    let mut i: usize = 0;
    while i < frames.len()
        invariant
            i <= frames@.len(),
            r@ == frame_lines(frames@, i as nat),
        decreases frames@.len() - i,
    {
        if i > 0 {
            r.append("\n");
        }
        r.append("  #");
        crate::text::append_chars(&mut r, dec_padded(i as u64, 2).as_slice());
        r.append(": 0x");
        crate::text::append_chars(&mut r, hex_padded(frames[i], 16).as_slice());
        proof {
            assert(r@ =~= frame_lines(frames@, (i + 1) as nat));
        }
        i += 1;
    }
    r
}

/// The detail block of a Rust panic.
pub open spec fn panic_text(message: Option<Seq<char>>, location: Option<(Seq<char>, u32, u32)>) -> Seq<char> {
    "Panic message: "@ + (match message {
        Some(m) => m,
        None => "<non-string panic payload>"@,
    }) + "\nLocation:       "@ + match location {
        Some((file, line, col)) => file + ":"@ + dec(line as nat) + ":"@ + dec(col as nat),
        None => "<unknown location>"@,
    }
}

/// Detail block of a panic: its message (when the payload is text) and
/// where it happened.
pub fn panic_detail(message: Option<&str>, location: Option<(&str, u32, u32)>) -> (r: String)
    ensures
        r@ == panic_text(
            opt_str_view(message),
            match location {
                Some((f, l, c)) => Some((f@, l, c)),
                None => None,
            },
        ),
{
    let mut r = String::new();
    r.append("Panic message: ");
    match message {
        Some(m) => r.append(m),
        None => r.append("<non-string panic payload>"),
    }
    r.append("\nLocation:       ");
    match location {
        Some((file, line, col)) => {
            r.append(file);
            r.append(":");
            crate::text::append_chars(&mut r, u64_to_dec(line as u64).as_slice());
            r.append(":");
            crate::text::append_chars(&mut r, u64_to_dec(col as u64).as_slice());
        },
        None => r.append("<unknown location>"),
    }
    proof {
        assert(r@ =~= panic_text(
            opt_str_view(message),
            match location {
                Some((f, l, c)) => Some((f@, l, c)),
                None => None,
            },
        ));
    }
    r
}

/// Name of the temporary report file written at a crash.
pub fn crash_file_name(unix_millis: u64) -> (r: String)
    ensures
        r@ == "flatui-crash-"@ + dec(unix_millis as nat) + ".txt"@,
{
    let mut r = String::new();
    r.append("flatui-crash-");
    crate::text::append_chars(&mut r, u64_to_dec(unix_millis).as_slice());
    r.append(".txt");
    r
}

/// Text shown when the report file cannot be read.
pub fn unreadable_report_message(path: &str, error: &str) -> (r: String)
    ensures
        r@ == "FlatUI crashed, but the crash report could not be read:\n  "@ + path@ + "\n  "@
            + error@,
{
    let mut r = String::new();
    r.append("FlatUI crashed, but the crash report could not be read:\n  ");
    r.append(path);
    r.append("\n  ");
    r.append(error);
    r
}

// ---------------------------------------------------------------------------
// UTF-16 for the message box
// ---------------------------------------------------------------------------

/// UTF-16 code units of one character.
pub open spec fn utf16_units(c: char) -> Seq<u16> {
    let u = c as u32;
    if u < 0x10000 {
        seq![u as u16]
    } else {
        seq![(0xD800 + ((u - 0x10000) / 0x400)) as u16, (0xDC00 + ((u - 0x10000) % 0x400)) as u16]
    }
}

/// UTF-16 encoding of a text (std `str::encode_utf16`).
pub open spec fn utf16(s: Seq<char>) -> Seq<u16>
    decreases s.len(),
{
    if s.len() == 0 {
        Seq::empty()
    } else {
        utf16(s.drop_last()) + utf16_units(s.last())
    }
}

/// NUL-terminated UTF-16 text, as Win32 wide-string arguments take it.
pub fn to_wide(s: &str) -> (r: Vec<u16>)
    ensures
        r@ == utf16(s@).push(0),
{
    let v = str_chars(s);
    let mut out: Vec<u16> = Vec::new();
    let mut i: usize = 0;
    while i < v.len()
        invariant
            i <= v@.len(),
            out@ == utf16(v@.take(i as int)),
        decreases v@.len() - i,
    {
        let c = v[i];
        let u = c as u32;
        if u < 0x10000 {
            out.push(u as u16);
        } else {
            out.push((0xD800 + (u - 0x10000) / 0x400) as u16);
            out.push((0xDC00 + (u - 0x10000) % 0x400) as u16);
        }
        proof {
            assert(v@.take(i + 1).drop_last() =~= v@.take(i as int));
            assert(out@ =~= utf16(v@.take(i + 1)));
        }
        i += 1;
    }
    proof {
        assert(v@.take(v@.len() as int) =~= v@);
    }
    out.push(0);
    out
}

/// A two-digit field reads back as its number: two ASCII digits whose
/// value is `n`.
pub proof fn law_pad2_reads_back(n: nat)
    requires
        n < 100,
    ensures
        pad2(n).len() == 2,
        all_digits(pad2(n)),
        digits_value(pad2(n)) == n,
{
    lemma_dec_value(n);
    lemma_dec_is_digits(n);
    if n < 10 {
        let c = dec(n)[0];
        assert(dec(n) =~= seq![c]);
        assert(seq![c].drop_last() =~= Seq::<char>::empty());
        assert(digits_value(seq![c]) == digits_value(Seq::<char>::empty()) * 10 + crate::numfmt::digit_value(c));
        let z = Seq::new(1, |_i: int| '0');
        assert(pad2(n) == z + dec(n));
        assert(pad2(n) =~= seq!['0', c]);
        assert(seq!['0', c].drop_last() =~= seq!['0']);
        assert(seq!['0'].drop_last() =~= Seq::<char>::empty());
        assert(seq!['0'].last() == '0');
        assert(seq!['0', c].last() == c);
        assert(digits_value(seq!['0']) == 0);
        assert(digits_value(seq!['0', c]) == digits_value(seq!['0']) * 10 + crate::numfmt::digit_value(c));
        assert(crate::numfmt::is_digit(c));
    } else {
        assert(n / 10 < 10);
        assert(dec(n) == dec(n / 10).push(crate::numfmt::digit_char((n % 10) as int)));
        lemma_dec_is_digits(n / 10);
        assert(dec(n / 10).len() == 1);
        assert(pad2(n) == dec(n));
    }
}

proof fn lemma_day_split(secs: int, days: int, h: int, m: int, s: int)
    requires
        0 <= days,
        0 <= h < 24,
        0 <= m < 60,
        0 <= s < 60,
        secs == days * 86400 + h * 3600 + m * 60 + s,
    ensures
        secs / 86400 == days,
        secs % 86400 == h * 3600 + m * 60 + s,
        (secs % 86400) / 3600 == h,
        ((secs % 86400) % 3600) / 60 == m,
        (secs % 86400) % 60 == s,
{
    let rem = h * 3600 + m * 60 + s;
    vstd::arithmetic::div_mod::lemma_fundamental_div_mod_converse(secs, 86400, days, rem);
    vstd::arithmetic::div_mod::lemma_fundamental_div_mod_converse(rem, 3600, h, m * 60 + s);
    vstd::arithmetic::div_mod::lemma_fundamental_div_mod_converse(m * 60 + s, 60, m, s);
    vstd::arithmetic::div_mod::lemma_fundamental_div_mod_converse(rem, 60, h * 60 + m, s);
}

/// The time in a report is the split of the seconds since the epoch into
/// days and a time of day: for `secs` = `days`·86400 + `h`·3600 + `m`·60 +
/// `s` with `h` < 24, `m` < 60, `s` < 60, the report shows the seconds,
/// `days`, then `h`:`m`:`s` in two-digit fields.
pub proof fn law_timestamp_splits_seconds(secs: u64, days: nat, h: nat, m: nat, s: nat)
    requires
        h < 24,
        m < 60,
        s < 60,
        secs == days * 86400 + h * 3600 + m * 60 + s,
    ensures
        timestamp_text(Some(secs)) == dec(secs as nat) + " (≈ "@ + dec(days) + "d "@ + pad2(h) + ":"@
            + pad2(m) + ":"@ + pad2(s) + " UTC since Unix epoch)"@,
{
    lemma_day_split(secs as int, days as int, h as int, m as int, s as int);
    let rem = (secs % 86400) as nat;
    assert(secs / 86400 == days);
    assert(rem / 3600 == h);
    assert((rem % 3600) / 60 == m);
    assert(rem % 60 == s);
}

} // verus!
