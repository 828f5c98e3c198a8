use flatui_lib::crash::{
    crash_file_name, crash_report_flag_text, crash_report_text, exception_code_to_string,
    format_crash_info, native_exception_detail, panic_detail, stack_frames_text, to_wide,
    unreadable_report_message, wants_crash_dialog,
};

#[test]
fn exception_names() {
    assert_eq!(
        exception_code_to_string(0xC0000005),
        "ACCESS_VIOLATION (read/write/execute of invalid memory)"
    );
    assert_eq!(exception_code_to_string(0xC00000FD), "STACK_OVERFLOW");
    assert_eq!(exception_code_to_string(0xE0434352), "CLR managed exception");
    assert_eq!(
        exception_code_to_string(0x1234),
        "(unknown — see https://learn.microsoft.com/en-us/openspecs/windows_protocols/ms-erref)"
    );
}

#[test]
fn crash_dialog_command_line() {
    assert_eq!(crash_report_flag_text(), "--crash-report");
    let args = |v: &[&str]| v.iter().map(|s| s.to_string()).collect::<Vec<_>>();
    assert!(wants_crash_dialog(&args(&["flatui.exe", "--crash-report", "C:\\t\\r.txt"])));
    assert!(!wants_crash_dialog(&args(&["flatui.exe", "--crash-report"])));
    assert!(!wants_crash_dialog(&args(&["flatui.exe", "-rs", "x"])));
}

#[test]
fn report_text_layout() {
    let r = crash_report_text("Rust panic", "boom", Some("frame 1\nframe 2"), Some(90061), "0.2.3", "windows");
    let rule = "============================================\n";
    let expected = [
        "FlatUI has encountered a fatal error and needs to close.\n",
        "We're sorry for the inconvenience. Details below.\n\n",
        rule,
        " ERROR DETAILS\n",
        rule,
        "Error type:   Rust panic\n",
        "App version:  0.2.3\n",
        "Target OS:    windows\n",
        "Timestamp:    90061 (≈ 1d 01:01:01 UTC since Unix epoch)\n",
        "\n",
        "boom\n\n",
        rule,
        " STACK TRACE\n",
        rule,
        "frame 1\nframe 2\n",
        "\n",
        rule,
        " HOW TO REPORT THIS\n",
        rule,
        "Please open an issue and paste the entire contents of this dialog:\n",
        "  https://github.com/nend-x/FlatUI/issues\n\n",
        "If you can reproduce the crash, note the steps you took\n",
        "right before this dialog appeared.\n",
    ]
    .concat();
    assert_eq!(r, expected);
}

#[test]
fn report_trace_section_variants() {
    let none = crash_report_text("k", "d", None, None, "v", "o");
    assert!(none.contains("Timestamp:    <unknown time>\n"));
    assert!(none.contains("<no stack trace captured>\n\n"));
    let blank = crash_report_text("k", "d", Some(" \n\t"), None, "v", "o");
    assert!(blank.contains("<empty stack trace>\n\n"));
    let nl = crash_report_text("k", "d", Some("a\n"), None, "v", "o");
    assert!(nl.contains("STACK TRACE\n============================================\na\n\n"));
}

#[test]
fn report_now_has_a_timestamp() {
    let r = format_crash_info("Rust panic", "x", None, "0.2.3", "windows");
    assert!(r.contains("UTC since Unix epoch)"));
    assert!(!r.contains("<unknown time>"));
}

#[test]
fn native_exception_details() {
    assert_eq!(
        native_exception_detail(false, None),
        "EXCEPTION_POINTERS was null (no debug info available)"
    );
    assert_eq!(native_exception_detail(true, None), "Exception record was null");
    assert_eq!(
        native_exception_detail(true, Some((0xC0000094, 0x7ff6_1a2b))),
        "Exception code:    0xC0000094\nException name:    INT_DIVIDE_BY_ZERO\nFaulting address:  0x0x7ff61a2b"
    );
}

#[test]
fn stack_frames() {
    assert_eq!(stack_frames_text(&[]), "<no stack frames captured>");
    assert_eq!(
        stack_frames_text(&[0x1234, 0xDEADBEEF]),
        "  #00: 0x0000000000001234\n  #01: 0x00000000DEADBEEF"
    );
}

#[test]
fn panic_details() {
    assert_eq!(
        panic_detail(Some("index out of bounds"), Some(("src/lib.rs", 12, 5))),
        "Panic message: index out of bounds\nLocation:       src/lib.rs:12:5"
    );
    assert_eq!(
        panic_detail(None, None),
        "Panic message: <non-string panic payload>\nLocation:       <unknown location>"
    );
}

#[test]
fn report_file_and_fallback_message() {
    assert_eq!(crash_file_name(1700000000123), "flatui-crash-1700000000123.txt");
    assert_eq!(
        unreadable_report_message("C:\\t\\r.txt", "not found"),
        "FlatUI crashed, but the crash report could not be read:\n  C:\\t\\r.txt\n  not found"
    );
}

#[test]
fn wide_strings_are_utf16_with_nul() {
    assert_eq!(to_wide("Ab"), vec![0x41, 0x62, 0]);
    assert_eq!(to_wide(""), vec![0]);
    assert_eq!(to_wide("é😀"), vec![0xE9, 0xD83D, 0xDE00, 0]);
    let s = "FlatUI Crashed — 😀";
    let mut expected: Vec<u16> = s.encode_utf16().collect();
    expected.push(0);
    assert_eq!(to_wide(s), expected);
}
