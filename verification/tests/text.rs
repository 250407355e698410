use dir_notes::decimal::{i32_to_decimal, u64_to_decimal};
use dir_notes::{get_notes_path, NoteError};

#[test]
fn notes_path_joins_home_and_file_name() {
    assert_eq!(get_notes_path("/home/user"), "/home/user/.notes.json");
    assert_eq!(get_notes_path("/root"), "/root/.notes.json");
}

#[test]
fn notes_path_adds_no_second_separator() {
    assert_eq!(get_notes_path("/home/user/"), "/home/user/.notes.json");
    assert_eq!(get_notes_path("/"), "/.notes.json");
}

#[test]
fn notes_path_of_an_empty_home_is_the_file_name() {
    assert_eq!(get_notes_path(""), ".notes.json");
}

#[test]
fn notes_path_agrees_with_path_join() {
    for home in ["/home/user", "/home/user/", "/", "", "relative/dir", "/h\u{e9}/\u{4e2d}"] {
        let joined = std::path::PathBuf::from(home).join(".notes.json");
        assert_eq!(get_notes_path(home), joined.to_string_lossy().to_string());
    }
}

#[test]
fn decimal_of_small_numbers() {
    assert_eq!(u64_to_decimal(0), "0");
    assert_eq!(u64_to_decimal(7), "7");
    assert_eq!(u64_to_decimal(9), "9");
    assert_eq!(u64_to_decimal(10), "10");
    assert_eq!(u64_to_decimal(1234567890), "1234567890");
    assert_eq!(u64_to_decimal(u64::MAX), "18446744073709551615");
}

#[test]
fn decimal_of_signed_numbers() {
    assert_eq!(i32_to_decimal(0), "0");
    assert_eq!(i32_to_decimal(1), "1");
    assert_eq!(i32_to_decimal(-1), "-1");
    assert_eq!(i32_to_decimal(42), "42");
    assert_eq!(i32_to_decimal(-100), "-100");
    assert_eq!(i32_to_decimal(i32::MAX), "2147483647");
    assert_eq!(i32_to_decimal(i32::MIN), "-2147483648");
}

#[test]
fn decimal_agrees_with_std_formatting() {
    let mut n: i32 = -1_000_003;
    while n < 1_000_000 {
        assert_eq!(i32_to_decimal(n), format!("{}", n));
        n += 7919;
    }
    for n in -200..200 {
        assert_eq!(i32_to_decimal(n), format!("{}", n));
    }
}

#[test]
fn error_messages() {
    assert_eq!(NoteError::ContextNotFound.message(), "No notes found");
    assert_eq!(NoteError::NoteNotFound { id: 7 }.message(), "Note with id 7 not found");
    assert_eq!(NoteError::NoteNotFound { id: -12 }.message(), "Note with id -12 not found");
    assert_eq!(
        NoteError::Environment { detail: "Could not get cwd".to_string() }.message(),
        "Could not get cwd"
    );
}
