use boykernel::text::{error, info, print_panic_info_serial, PanicLocation};

#[test]
fn concatenates() {
    assert_eq!(boykernel::text::concat("boot", "loader"), "bootloader");
    assert_eq!(boykernel::text::concat("", "x"), "x");
    assert_eq!(boykernel::text::concat("", ""), "");
}

#[test]
fn info_and_error_lines() {
    assert_eq!(info("Kernel successfully jumped to!"), "[INFO] Kernel successfully jumped to!\n");
    assert_eq!(error("Panic occurred: "), "[ERROR] Panic occurred: \n");
}

#[test]
fn panic_report_with_location_and_message() {
    let loc = PanicLocation { file: "src/main.rs", line: 120, column: 9 };
    assert_eq!(
        print_panic_info_serial(Some(loc), Some("boom")),
        "=== PANIC ===\nLocation: src/main.rs:120:9\nMessage: boom\n=============\n\n\n"
    );
}

#[test]
fn panic_report_without_details() {
    assert_eq!(
        print_panic_info_serial(None, None),
        "=== PANIC ===\nLocation: <unknown>\nMessage: <none>\n=============\n\n\n"
    );
}

#[test]
fn panic_report_line_zero() {
    let loc = PanicLocation { file: "a.rs", line: 0, column: 4294967295 };
    assert_eq!(
        print_panic_info_serial(Some(loc), None),
        "=== PANIC ===\nLocation: a.rs:0:4294967295\nMessage: <none>\n=============\n\n\n"
    );
}
