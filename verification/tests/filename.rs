use x3x::filename::validate_filename;
use x3x::X3xError;

#[test]
fn plain_local_names_are_accepted() {
    for name in ["input", "plain.bin", "message.bin", "key.bin", "a", "CONSOLE", "COM0", "COM10", "nul-file", "é.txt"] {
        assert_eq!(validate_filename(name), Ok(()), "{name}");
    }
}

#[test]
fn separators_colons_and_trailing_dots_or_spaces_are_refused() {
    for name in [
        "folder/input", "folder\\input", "bad:key", "bad:name", "trailing.", "trailing ", ".", "..",
        "a*b", "a?b", "a\"b", "a<b", "a>b", "a|b", "a\u{1}b", "tab\tname", "line\nfeed", "\u{0}", "del\u{7f}",
    ] {
        assert_eq!(
            validate_filename(name),
            Err(X3xError::NonPortableFilename),
            "{name}"
        );
    }
}

#[test]
fn windows_device_names_are_refused_in_any_case_and_with_extensions() {
    for name in ["NUL", "COM1", "con", "Prn.txt", "aux.tar.gz", "clock$", "CONIN$", "conout$.x", "lpt9", "Com5.log"] {
        assert_eq!(
            validate_filename(name),
            Err(X3xError::ReservedDeviceName),
            "{name}"
        );
    }
}

#[test]
fn the_empty_name_is_not_a_local_file() {
    assert_eq!(validate_filename(""), Err(X3xError::NotLocalFilename));
}
#[test]
fn nonportable_names_with_wide_characters_are_refused_before_the_probe() {
    assert_eq!(x3x::filename::validate_filename("a€/x"), Err(x3x::X3xError::NonPortableFilename));
    assert_eq!(x3x::filename::validate_filename("a€.tx."), Err(x3x::X3xError::NonPortableFilename));
}
