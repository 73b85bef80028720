//! The control codes of ASCII and the bytes that a terminal sends for them.

use vstd::prelude::*;
use vstd::string::StringSliceAdditionalSpecFns;
use vstd::std_specs::convert::{FromSpecImpl, TryFromSpecImpl};

verus! {

/// A control code of ASCII.
#[derive(Debug, Clone, Copy, PartialEq, Eq, Structural)]
pub enum ControlCode {
    /// NUL, byte 0x00.
    Null,
    /// SOH, byte 0x01.
    StartOfHeading,
    /// STX, byte 0x02.
    StartOfText,
    /// ETX, byte 0x03.
    EndOfText,
    /// EOT, byte 0x04.
    EndOfTransmission,
    /// ENQ, byte 0x05.
    Enquiry,
    /// ACK, byte 0x06.
    Acknowledge,
    /// BEL, byte 0x07.
    Bell,
    /// BS, byte 0x08.
    Backspace,
    /// HT, byte 0x09.
    HorizontalTabulation,
    /// LF, byte 0x0A.
    LineFeed,
    /// VT, byte 0x0B.
    VerticalTabulation,
    /// FF, byte 0x0C.
    FormFeed,
    /// CR, byte 0x0D.
    CarriageReturn,
    /// SO, byte 0x0E.
    ShiftOut,
    /// SI, byte 0x0F.
    ShiftIn,
    /// DLE, byte 0x10.
    DataLinkEscape,
    /// DC1, byte 0x11.
    DeviceControl1,
    /// DC2, byte 0x12.
    DeviceControl2,
    /// DC3, byte 0x13.
    DeviceControl3,
    /// DC4, byte 0x14.
    DeviceControl4,
    /// NAK, byte 0x15.
    NegativeAcknowledge,
    /// SYN, byte 0x16.
    SynchronousIdle,
    /// ETB, byte 0x17.
    EndOfTransmissionBlock,
    /// CAN, byte 0x18.
    Cancel,
    /// EM, byte 0x19.
    EndOfMedium,
    /// SUB, byte 0x1A.
    Substitute,
    /// ESC, byte 0x1B.
    Escape,
    /// FS, byte 0x1C.
    FileSeparator,
    /// GS, byte 0x1D.
    GroupSeparator,
    /// RS, byte 0x1E.
    RecordSeparator,
    /// US, byte 0x1F.
    UnitSeparator,
    /// DEL, byte 0x7F.
    Delete,
}

/// The byte of the letter behind which a control code hides: `@` for NUL.
pub const CARET_BASE: u8 = 0x40;

/// `^`, which stands before the letter in the written form of a control code.
pub const CARET: u8 = 0x5E;

/// Whether the byte is one of the letters `A` to `_`, which name the control
/// codes 0x01 to 0x1F.
pub open spec fn is_control_letter(byte: int) -> bool {
    0x41 <= byte <= 0x5F
}

impl ControlCode {
    /// The byte that the terminal sends for the code.
    pub open spec fn code(self) -> u8 {
        match self {
            ControlCode::Null => 0,
            ControlCode::StartOfHeading => 1,
            ControlCode::StartOfText => 2,
            ControlCode::EndOfText => 3,
            ControlCode::EndOfTransmission => 4,
            ControlCode::Enquiry => 5,
            ControlCode::Acknowledge => 6,
            ControlCode::Bell => 7,
            ControlCode::Backspace => 8,
            ControlCode::HorizontalTabulation => 9,
            ControlCode::LineFeed => 10,
            ControlCode::VerticalTabulation => 11,
            ControlCode::FormFeed => 12,
            ControlCode::CarriageReturn => 13,
            ControlCode::ShiftOut => 14,
            ControlCode::ShiftIn => 15,
            ControlCode::DataLinkEscape => 16,
            ControlCode::DeviceControl1 => 17,
            ControlCode::DeviceControl2 => 18,
            ControlCode::DeviceControl3 => 19,
            ControlCode::DeviceControl4 => 20,
            ControlCode::NegativeAcknowledge => 21,
            ControlCode::SynchronousIdle => 22,
            ControlCode::EndOfTransmissionBlock => 23,
            ControlCode::Cancel => 24,
            ControlCode::EndOfMedium => 25,
            ControlCode::Substitute => 26,
            ControlCode::Escape => 27,
            ControlCode::FileSeparator => 28,
            ControlCode::GroupSeparator => 29,
            ControlCode::RecordSeparator => 30,
            ControlCode::UnitSeparator => 31,
            ControlCode::Delete => 127,
        }
    }

    /// The control code that `byte` is, if it is one.
    pub open spec fn of_byte(byte: u8) -> Option<ControlCode> {
        match byte {
            0 => Some(ControlCode::Null),
            1 => Some(ControlCode::StartOfHeading),
            2 => Some(ControlCode::StartOfText),
            3 => Some(ControlCode::EndOfText),
            4 => Some(ControlCode::EndOfTransmission),
            5 => Some(ControlCode::Enquiry),
            6 => Some(ControlCode::Acknowledge),
            7 => Some(ControlCode::Bell),
            8 => Some(ControlCode::Backspace),
            9 => Some(ControlCode::HorizontalTabulation),
            10 => Some(ControlCode::LineFeed),
            11 => Some(ControlCode::VerticalTabulation),
            12 => Some(ControlCode::FormFeed),
            13 => Some(ControlCode::CarriageReturn),
            14 => Some(ControlCode::ShiftOut),
            15 => Some(ControlCode::ShiftIn),
            16 => Some(ControlCode::DataLinkEscape),
            17 => Some(ControlCode::DeviceControl1),
            18 => Some(ControlCode::DeviceControl2),
            19 => Some(ControlCode::DeviceControl3),
            20 => Some(ControlCode::DeviceControl4),
            21 => Some(ControlCode::NegativeAcknowledge),
            22 => Some(ControlCode::SynchronousIdle),
            23 => Some(ControlCode::EndOfTransmissionBlock),
            24 => Some(ControlCode::Cancel),
            25 => Some(ControlCode::EndOfMedium),
            26 => Some(ControlCode::Substitute),
            27 => Some(ControlCode::Escape),
            28 => Some(ControlCode::FileSeparator),
            29 => Some(ControlCode::GroupSeparator),
            30 => Some(ControlCode::RecordSeparator),
            31 => Some(ControlCode::UnitSeparator),
            127 => Some(ControlCode::Delete),
            _ => None,
        }
    }

    /// Every control code is found again from its byte.
    pub proof fn code_round_trip(self)
        ensures
            ControlCode::of_byte(self.code()) == Some(self),
            self.code() <= 0x1F || self.code() == 0x7F,
    {
    }

    /// Every byte up to 0x1F, and 0x7F, is the byte of a control code, and no
    /// other byte is.
    pub proof fn of_byte_is_total(byte: u8)
        ensures
            (byte <= 0x1F || byte == 0x7F) <==> ControlCode::of_byte(byte) is Some,
            ControlCode::of_byte(byte) matches Some(code) ==> code.code() == byte,
    {
    }

    /// The byte that the terminal sends for the code.
    pub fn to_byte(self) -> (byte: u8)
        ensures
            byte == self.code(),
    {
        match self {
            ControlCode::Null => 0,
            ControlCode::StartOfHeading => 1,
            ControlCode::StartOfText => 2,
            ControlCode::EndOfText => 3,
            ControlCode::EndOfTransmission => 4,
            ControlCode::Enquiry => 5,
            ControlCode::Acknowledge => 6,
            ControlCode::Bell => 7,
            ControlCode::Backspace => 8,
            ControlCode::HorizontalTabulation => 9,
            ControlCode::LineFeed => 10,
            ControlCode::VerticalTabulation => 11,
            ControlCode::FormFeed => 12,
            ControlCode::CarriageReturn => 13,
            ControlCode::ShiftOut => 14,
            ControlCode::ShiftIn => 15,
            ControlCode::DataLinkEscape => 16,
            ControlCode::DeviceControl1 => 17,
            ControlCode::DeviceControl2 => 18,
            ControlCode::DeviceControl3 => 19,
            ControlCode::DeviceControl4 => 20,
            ControlCode::NegativeAcknowledge => 21,
            ControlCode::SynchronousIdle => 22,
            ControlCode::EndOfTransmissionBlock => 23,
            ControlCode::Cancel => 24,
            ControlCode::EndOfMedium => 25,
            ControlCode::Substitute => 26,
            ControlCode::Escape => 27,
            ControlCode::FileSeparator => 28,
            ControlCode::GroupSeparator => 29,
            ControlCode::RecordSeparator => 30,
            ControlCode::UnitSeparator => 31,
            ControlCode::Delete => 127,
        }
    }

    /// The control code that `byte` is, if it is one.
    pub fn from_byte(byte: u8) -> (code: Option<ControlCode>)
        ensures
            code == ControlCode::of_byte(byte),
    {
        match byte {
            0 => Some(ControlCode::Null),
            1 => Some(ControlCode::StartOfHeading),
            2 => Some(ControlCode::StartOfText),
            3 => Some(ControlCode::EndOfText),
            4 => Some(ControlCode::EndOfTransmission),
            5 => Some(ControlCode::Enquiry),
            6 => Some(ControlCode::Acknowledge),
            7 => Some(ControlCode::Bell),
            8 => Some(ControlCode::Backspace),
            9 => Some(ControlCode::HorizontalTabulation),
            10 => Some(ControlCode::LineFeed),
            11 => Some(ControlCode::VerticalTabulation),
            12 => Some(ControlCode::FormFeed),
            13 => Some(ControlCode::CarriageReturn),
            14 => Some(ControlCode::ShiftOut),
            15 => Some(ControlCode::ShiftIn),
            16 => Some(ControlCode::DataLinkEscape),
            17 => Some(ControlCode::DeviceControl1),
            18 => Some(ControlCode::DeviceControl2),
            19 => Some(ControlCode::DeviceControl3),
            20 => Some(ControlCode::DeviceControl4),
            21 => Some(ControlCode::NegativeAcknowledge),
            22 => Some(ControlCode::SynchronousIdle),
            23 => Some(ControlCode::EndOfTransmissionBlock),
            24 => Some(ControlCode::Cancel),
            25 => Some(ControlCode::EndOfMedium),
            26 => Some(ControlCode::Substitute),
            27 => Some(ControlCode::Escape),
            28 => Some(ControlCode::FileSeparator),
            29 => Some(ControlCode::GroupSeparator),
            30 => Some(ControlCode::RecordSeparator),
            31 => Some(ControlCode::UnitSeparator),
            127 => Some(ControlCode::Delete),
            _ => None,
        }
    }

    /// The control code that a letter names: `A` to `_` name the codes 0x01
    /// to 0x1F, so `C` is what Ctrl-C sends.
    pub open spec fn of_letter(letter: char) -> Result<ControlCode, ()> {
        if is_control_letter(letter as u32 as int) {
            match ControlCode::of_byte((letter as u32 - 0x40) as u8) {
                Some(code) => Ok(code),
                None => Err(()),
            }
        } else {
            Err(())
        }
    }

    /// The control code that the two bytes `^X` name: the one that the
    /// letter `X` names.
    pub open spec fn of_caret(text: Seq<u8>) -> Result<ControlCode, ()> {
        if text.len() == 2 && text[0] == CARET && is_control_letter(text[1] as int) {
            match ControlCode::of_byte((text[1] - 0x40) as u8) {
                Some(code) => Ok(code),
                None => Err(()),
            }
        } else {
            Err(())
        }
    }

    /// A letter from `A` to `_` names the control code whose byte is 0x40
    /// less, and nothing else names one.
    pub proof fn letter_names_code(letter: char)
        ensures
            ControlCode::of_letter(letter) is Ok <==> is_control_letter(letter as u32 as int),
            ControlCode::of_letter(letter) matches Ok(code) ==> code.code() == letter as u32 - 0x40,
    {
        if is_control_letter(letter as u32 as int) {
            ControlCode::of_byte_is_total((letter as u32 - 0x40) as u8);
        }
    }

    /// The written form `^X` names what the letter `X` names.
    pub proof fn caret_names_letter(text: Seq<u8>)
        ensures
            ControlCode::of_caret(text) is Ok <==> text.len() == 2 && text[0] == CARET
                && is_control_letter(text[1] as int),
            ControlCode::of_caret(text) matches Ok(code) ==> code.code() == text[1] - 0x40,
    {
        if text.len() == 2 && text[0] == CARET && is_control_letter(text[1] as int) {
            ControlCode::of_byte_is_total((text[1] - 0x40) as u8);
        }
    }
}

impl From<ControlCode> for u8 {
    fn from(code: ControlCode) -> (byte: u8) {
        code.to_byte()
    }
}

impl FromSpecImpl<ControlCode> for u8 {
    open spec fn obeys_from_spec() -> bool {
        true
    }

    open spec fn from_spec(code: ControlCode) -> u8 {
        code.code()
    }
}

impl TryFrom<char> for ControlCode {
    type Error = ();

    fn try_from(letter: char) -> (r: Result<ControlCode, ()>) {
        let point = letter as u32;
        if 0x41 <= point && point <= 0x5F {
            match ControlCode::from_byte((point - 0x40) as u8) {
                Some(code) => Ok(code),
                None => Err(()),
            }
        } else {
            Err(())
        }
    }
}

impl TryFromSpecImpl<char> for ControlCode {
    open spec fn obeys_try_from_spec() -> bool {
        true
    }

    open spec fn try_from_spec(letter: char) -> Result<ControlCode, ()> {
        ControlCode::of_letter(letter)
    }
}

impl TryFrom<&str> for ControlCode {
    type Error = ();

    fn try_from(text: &str) -> (r: Result<ControlCode, ()>) {
        let bytes = text.as_bytes();
        if bytes.len() == 2 && bytes[0] == CARET && 0x41 <= bytes[1] && bytes[1] <= 0x5F {
            match ControlCode::from_byte(bytes[1] - CARET_BASE) {
                Some(code) => Ok(code),
                None => Err(()),
            }
        } else {
            Err(())
        }
    }
}

impl TryFromSpecImpl<&str> for ControlCode {
    open spec fn obeys_try_from_spec() -> bool {
        true
    }

    open spec fn try_from_spec(text: &str) -> Result<ControlCode, ()> {
        ControlCode::of_caret(text.spec_bytes())
    }
}

/// What can name a control code: the code itself, a letter, or the written
/// form `^X`.
pub trait ToControl: Sized {
    /// The control code that is named, if any.
    spec fn named(self) -> Result<ControlCode, ()>;

    /// The control code that is named, if any.
    fn to_control(self) -> (r: Result<ControlCode, ()>)
        ensures
            r == self.named(),
    ;
}

impl ToControl for ControlCode {
    open spec fn named(self) -> Result<ControlCode, ()> {
        Ok(self)
    }

    fn to_control(self) -> (r: Result<ControlCode, ()>) {
        Ok(self)
    }
}

impl ToControl for char {
    open spec fn named(self) -> Result<ControlCode, ()> {
        ControlCode::of_letter(self)
    }

    fn to_control(self) -> (r: Result<ControlCode, ()>) {
        ControlCode::try_from(self)
    }
}

impl ToControl for &str {
    open spec fn named(self) -> Result<ControlCode, ()> {
        ControlCode::of_caret(self.spec_bytes())
    }

    fn to_control(self) -> (r: Result<ControlCode, ()>) {
        ControlCode::try_from(self)
    }
}

} // verus!
