use expectrl::{ControlCode, ToControl};

const ALL: [ControlCode; 33] = [
    ControlCode::Null,
    ControlCode::StartOfHeading,
    ControlCode::StartOfText,
    ControlCode::EndOfText,
    ControlCode::EndOfTransmission,
    ControlCode::Enquiry,
    ControlCode::Acknowledge,
    ControlCode::Bell,
    ControlCode::Backspace,
    ControlCode::HorizontalTabulation,
    ControlCode::LineFeed,
    ControlCode::VerticalTabulation,
    ControlCode::FormFeed,
    ControlCode::CarriageReturn,
    ControlCode::ShiftOut,
    ControlCode::ShiftIn,
    ControlCode::DataLinkEscape,
    ControlCode::DeviceControl1,
    ControlCode::DeviceControl2,
    ControlCode::DeviceControl3,
    ControlCode::DeviceControl4,
    ControlCode::NegativeAcknowledge,
    ControlCode::SynchronousIdle,
    ControlCode::EndOfTransmissionBlock,
    ControlCode::Cancel,
    ControlCode::EndOfMedium,
    ControlCode::Substitute,
    ControlCode::Escape,
    ControlCode::FileSeparator,
    ControlCode::GroupSeparator,
    ControlCode::RecordSeparator,
    ControlCode::UnitSeparator,
    ControlCode::Delete,
];

#[test]
fn the_codes_are_the_bytes_up_to_0x1f_and_0x7f() {
    for (i, code) in ALL.iter().enumerate() {
        let byte = if i < 32 { i as u8 } else { 0x7F };
        assert_eq!(code.to_byte(), byte);
        assert_eq!(u8::from(*code), byte);
        assert_eq!(ControlCode::from_byte(byte), Some(*code));
    }
}

#[test]
fn no_other_byte_is_a_control_code() {
    for byte in 0x20..=0xFFu8 {
        if byte != 0x7F {
            assert_eq!(ControlCode::from_byte(byte), None);
        }
    }
}

#[test]
fn end_of_text_is_byte_three() {
    assert_eq!(ControlCode::EndOfText.to_byte(), 0x03);
    assert_eq!(ControlCode::Escape.to_byte(), 0x1B);
    assert_eq!(ControlCode::GroupSeparator.to_byte(), 0x1D);
}

#[test]
fn a_letter_names_the_code_0x40_below_it() {
    assert_eq!(ControlCode::try_from('C'), Ok(ControlCode::EndOfText));
    assert_eq!(ControlCode::try_from(']'), Ok(ControlCode::GroupSeparator));
    for letter in 'A'..='_' {
        let code = ControlCode::try_from(letter).unwrap();
        assert_eq!(code.to_byte(), letter as u8 - 0x40);
        assert_eq!(letter.to_control(), Ok(code));
    }
}

#[test]
fn nothing_else_names_a_code() {
    assert_eq!(ControlCode::try_from('@'), Err(()));
    assert_eq!(ControlCode::try_from('`'), Err(()));
    assert_eq!(ControlCode::try_from('c'), Err(()));
    assert_eq!(ControlCode::try_from('?'), Err(()));
    assert_eq!(ControlCode::try_from('é'), Err(()));
    assert_eq!(ControlCode::try_from('\u{141}'), Err(()));
}

#[test]
fn the_written_form_names_what_its_letter_names() {
    assert_eq!(ControlCode::try_from("^C"), Ok(ControlCode::EndOfText));
    assert_eq!(ControlCode::try_from("^]"), Ok(ControlCode::GroupSeparator));
    assert_eq!("^[".to_control(), Ok(ControlCode::Escape));
    for letter in 'A'..='_' {
        let text = format!("^{}", letter);
        assert_eq!(ControlCode::try_from(text.as_str()), ControlCode::try_from(letter));
    }
}

#[test]
fn other_texts_name_no_code() {
    for text in ["", "^", "C", "^c", "^@", "^CC", "C^", "^^C", "^é"] {
        assert_eq!(ControlCode::try_from(text), Err(()));
    }
}

#[test]
fn a_code_names_itself() {
    assert_eq!(ControlCode::Bell.to_control(), Ok(ControlCode::Bell));
}
