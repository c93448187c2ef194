use systemd_units::{UnitError, UnitState, PAYLOAD_OFFSET};

#[test]
fn decodes_each_state_by_its_first_letter() {
    assert_eq!(UnitState::new("[Str(\"static\")]"), Ok(UnitState::Static));
    assert_eq!(UnitState::new("[Str(\"disabled\")]"), Ok(UnitState::Disabled));
    assert_eq!(UnitState::new("[Str(\"enabled\")]"), Ok(UnitState::Enabled));
    assert_eq!(UnitState::new("[Str(\"indirect\")]"), Ok(UnitState::Indirect));
    assert_eq!(UnitState::new("[Str(\"linked\")]"), Ok(UnitState::Linked));
    assert_eq!(UnitState::new("[Str(\"masked\")]"), Ok(UnitState::Masked));
    assert_eq!(UnitState::new("[Str(\"bad\")]"), Ok(UnitState::Bad));
    assert_eq!(UnitState::new("[Str(\"generated\")]"), Ok(UnitState::Generated));
    assert_eq!(UnitState::new("[Str(\"transient\")]"), Ok(UnitState::Transient));
}

#[test]
fn the_payload_starts_behind_six_characters() {
    assert_eq!(PAYLOAD_OFFSET, 6);
    assert_eq!(UnitState::new("012345e"), Ok(UnitState::Enabled));
    assert_eq!(UnitState::new("e12345s"), Ok(UnitState::Static));
    assert_eq!(UnitState::new("01234e6"), Err(UnitError::UnrecognizedUnitState));
    assert_eq!(UnitState::new("0123456e"), Err(UnitError::UnrecognizedUnitState));
}

#[test]
fn only_the_first_letter_of_the_payload_counts() {
    assert_eq!(UnitState::new("[Str(\"enabled-runtime\")]"), Ok(UnitState::Enabled));
    assert_eq!(UnitState::new("[Str(\"linked-runtime\")]"), Ok(UnitState::Linked));
    assert_eq!(UnitState::new("[Str(\"masked-runtime\")]"), Ok(UnitState::Masked));
    assert_eq!(UnitState::new("[Str(\"e"), Ok(UnitState::Enabled));
    assert_eq!(UnitState::new("[Str(\"sx"), Ok(UnitState::Static));
}

#[test]
fn rejects_a_message_that_is_too_short() {
    assert_eq!(UnitState::new(""), Err(UnitError::UnrecognizedUnitState));
    assert_eq!(UnitState::new("e"), Err(UnitError::UnrecognizedUnitState));
    assert_eq!(UnitState::new("[Str(\""), Err(UnitError::UnrecognizedUnitState));
    assert_eq!(UnitState::new("enable"), Err(UnitError::UnrecognizedUnitState));
}

#[test]
fn rejects_an_empty_payload() {
    assert_eq!(UnitState::new("[Str(\"\")]"), Err(UnitError::UnrecognizedUnitState));
}

#[test]
fn rejects_another_first_letter() {
    assert_eq!(UnitState::new("[Str(\"alias\")]"), Err(UnitError::UnrecognizedUnitState));
    assert_eq!(UnitState::new("[Str(\"unknown\")]"), Err(UnitError::UnrecognizedUnitState));
    assert_eq!(UnitState::new("[Str(\"Enabled\")]"), Err(UnitError::UnrecognizedUnitState));
    assert_eq!(UnitState::new("[Str(\" enabled\")]"), Err(UnitError::UnrecognizedUnitState));
    assert_eq!(UnitState::new("[Str(\"énabled\")]"), Err(UnitError::UnrecognizedUnitState));
}

#[test]
fn the_offset_counts_characters_and_not_bytes() {
    assert_eq!(UnitState::new("ééééééd"), Ok(UnitState::Disabled));
    assert_eq!(UnitState::new("日本語日本語m"), Ok(UnitState::Masked));
    assert_eq!(UnitState::new("éééd"), Err(UnitError::UnrecognizedUnitState));
}

#[test]
fn decodes_as_the_seventh_character_tells() {
    let letters = [
        ('s', Some(UnitState::Static)),
        ('d', Some(UnitState::Disabled)),
        ('e', Some(UnitState::Enabled)),
        ('i', Some(UnitState::Indirect)),
        ('l', Some(UnitState::Linked)),
        ('m', Some(UnitState::Masked)),
        ('b', Some(UnitState::Bad)),
        ('g', Some(UnitState::Generated)),
        ('t', Some(UnitState::Transient)),
        ('a', None),
        ('c', None),
        ('S', None),
        ('"', None),
        ('0', None),
        (' ', None),
    ];
    for (letter, expected) in letters {
        let message = format!("[Str(\"{}rest\")]", letter);
        let first = message.chars().skip(6).take_while(|c| *c != '"').next();
        assert_eq!(first.is_some(), letter != '"');
        match expected {
            Some(state) => assert_eq!(UnitState::new(&message), Ok(state)),
            None => assert_eq!(UnitState::new(&message), Err(UnitError::UnrecognizedUnitState)),
        }
    }
}

#[test]
fn decodes_every_short_message_by_its_seventh_character() {
    let letters = ['s', 'd', 'e', 'i', 'l', 'm', 'b', 'g', 't', 'x', '"', '[', 'é', 'S'];
    let mut messages = vec![String::new()];
    for length in 1..=8 {
        for (turn, letter) in letters.iter().enumerate() {
            let mut message = String::new();
            for place in 0..length {
                let other = letters[(turn + place) % letters.len()];
                message.push(if place == 6 { *letter } else { other });
            }
            messages.push(message);
        }
    }
    assert_eq!(messages.len(), 113);
    for message in &messages {
        let expected = match message.chars().skip(6).take_while(|c| *c != '"').next() {
            Some('s') => Ok(UnitState::Static),
            Some('d') => Ok(UnitState::Disabled),
            Some('e') => Ok(UnitState::Enabled),
            Some('i') => Ok(UnitState::Indirect),
            Some('l') => Ok(UnitState::Linked),
            Some('m') => Ok(UnitState::Masked),
            Some('b') => Ok(UnitState::Bad),
            Some('g') => Ok(UnitState::Generated),
            Some('t') => Ok(UnitState::Transient),
            _ => Err(UnitError::UnrecognizedUnitState),
        };
        assert_eq!(UnitState::new(message), expected, "for the message {:?}", message);
    }
}
