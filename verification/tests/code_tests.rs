//! References to places in source code, in both of their forms.

use provola::aggregate;
use provola::code::CodeLine;
use provola::code::CodeReference;

#[test]
fn code_reference_has_path_and_line() {
    let cr = CodeReference::new("/foo/bar.rs", 32);
    assert_eq!(CodeLine(32), cr.line)
}

#[test]
fn code_reference_can_be_displayed() {
    let cr = CodeReference::new("/foo/bar.rs", 32);
    assert_eq!("[/foo/bar.rs:32]", cr.to_string())
}

#[test]
fn code_code_reference_has_path_and_line() {
    let cr = aggregate::CodeReference {
        path: String::from("/foo/bar.rs"),
        line: 32,
    };
    assert_eq!(32, cr.line)
}

#[test]
fn code_code_reference_can_be_displayed() {
    let cr = aggregate::CodeReference {
        path: String::from("/foo/bar.rs"),
        line: 32,
    };
    assert_eq!("/foo/bar.rs:32", cr.to_string())
}
