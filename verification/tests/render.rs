//! Summary-line rendering and decimal formatting.

use bibtex_core::render::{summary_line, u32_to_dec};
use bibtex_core::severity::Severity;

#[test]
fn decimal_digits() {
    assert_eq!(u32_to_dec(0), b"0".to_vec());
    assert_eq!(u32_to_dec(7), b"7".to_vec());
    assert_eq!(u32_to_dec(10), b"10".to_vec());
    assert_eq!(u32_to_dec(4253), b"4253".to_vec());
    assert_eq!(u32_to_dec(u32::MAX), b"4294967295".to_vec());
}

#[test]
fn summary_lines() {
    assert_eq!(summary_line(Severity::Spotless), b"".to_vec());
    assert_eq!(
        summary_line(Severity::WarningIssued(1)),
        b"(There was 1 warning)\n".to_vec()
    );
    assert_eq!(
        summary_line(Severity::WarningIssued(3)),
        b"(There were 3 warnings)\n".to_vec()
    );
    assert_eq!(
        summary_line(Severity::ErrorIssued(1)),
        b"(There was 1 error message)\n".to_vec()
    );
    assert_eq!(
        summary_line(Severity::ErrorIssued(12)),
        b"(There were 12 error messages)\n".to_vec()
    );
    assert_eq!(
        summary_line(Severity::FatalError),
        b"(That was a fatal error)\n".to_vec()
    );
}
