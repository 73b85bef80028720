use std::io;

use expectrl::{Error, Interval};

#[test]
fn each_error_has_its_message() {
    assert_eq!(
        Error::CommandParsing.to_string(),
        "Can't parse a command string, please check it out"
    );
    assert_eq!(Error::RegexParsing.to_string(), "Can't parse a regex expression");
    assert_eq!(Error::ExpectTimeout.to_string(), "Reached a timeout for expect type of command");
    assert_eq!(Error::Eof.to_string(), "EOF was reached; the read may successed later");
    assert_eq!(Error::Other("boom".to_string()).to_string(), "Error boom");
}

#[test]
fn an_error_from_outside_is_printed_behind_its_kind() {
    let inside = io::Error::new(io::ErrorKind::Other, "pipe is gone");
    assert_eq!(Error::IO(inside).to_string(), "IO error pipe is gone");
    let errno = ptyprocess::errno::Errno::EIO;
    assert_eq!(Error::Nix(errno).to_string(), format!("Nix error {}", errno));
}

#[test]
fn describe_puts_the_detail_behind_the_kind() {
    let inside = io::Error::new(io::ErrorKind::Other, "ignored");
    assert_eq!(Error::IO(inside).describe("detail"), "IO error detail");
    assert_eq!(Error::Nix(ptyprocess::errno::Errno::EIO).describe("detail"), "Nix error detail");
    assert_eq!(Error::Eof.describe("detail"), "EOF was reached; the read may successed later");
    assert_eq!(Error::Other("m".to_string()).describe("detail"), "Error m");
}

#[test]
fn errors_convert_into_the_library_error() {
    let from_io: Error = io::Error::new(io::ErrorKind::NotFound, "x").into();
    assert!(matches!(from_io, Error::IO(e) if e.kind() == io::ErrorKind::NotFound));
    let from_errno: Error = ptyprocess::errno::Errno::EBADF.into();
    assert!(matches!(from_errno, Error::Nix(ptyprocess::errno::Errno::EBADF)));
    let from_text: Error = String::from("text").into();
    assert!(matches!(from_text, Error::Other(m) if m == "text"));
}

#[test]
fn intervals_compare_by_their_length() {
    assert_eq!(Interval::from_millis(10000), Interval::new(10, 0));
    assert_eq!(Interval::from_millis(50), Interval::new(0, 50_000_000));
    assert_eq!(Interval::from_millis(1999), Interval::new(1, 999_000_000));
    assert_eq!(Interval::from_millis(0), Interval::new(0, 0));
    assert!(Interval::new(1, 0).longer_than(&Interval::new(0, 999_999_999)));
    assert!(!Interval::new(1, 0).longer_than(&Interval::new(1, 0)));
    assert!(Interval::new(1, 1).longer_than(&Interval::new(1, 0)));
    assert!(!Interval::new(0, 5).longer_than(&Interval::new(1, 0)));
    // nanoseconds beyond a second count as seconds
    assert!(Interval::new(0, 2_000_000_000).longer_than(&Interval::new(1, 999_999_999)));
    assert!(Interval::new(u64::MAX, u32::MAX).longer_than(&Interval::new(u64::MAX, 0)));
}
