use sysmon_event::decimal::{decimal_string, parse_u8};
use sysmon_event::{
    ErrorKind, ParseError, RequiredAttribute, RequiredField, RequiredSection, SysmonEventId,
};

const NAMED: [(u8, &str); 24] = [
    (SysmonEventId::PROCESS_CREATE, "Process Create"),
    (SysmonEventId::FILE_CREATE_TIME, "File creation time changed"),
    (SysmonEventId::NETWORK_CONNECT, "Network connection detected"),
    (SysmonEventId::PROCESS_TERMINATE, "Process terminated"),
    (SysmonEventId::DRIVER_LOAD, "Driver loaded"),
    (SysmonEventId::IMAGE_LOAD, "Image loaded"),
    (SysmonEventId::CREATE_REMOTE_THREAD, "CreateRemoteThread detected"),
    (SysmonEventId::RAW_ACCESS_READ, "RawAccessRead detected"),
    (SysmonEventId::PROCESS_ACCESS, "Process accessed"),
    (SysmonEventId::FILE_CREATE, "File created"),
    (SysmonEventId::REGISTRY_EVENT_ADD_DELETE, "Registry object added or deleted"),
    (SysmonEventId::REGISTRY_EVENT_SET, "Registry value set"),
    (SysmonEventId::REGISTRY_EVENT_RENAME, "Registry object renamed"),
    (SysmonEventId::FILE_CREATE_STREAM_HASH, "File stream created"),
    (SysmonEventId::PIPE_EVENT_CREATE, "Pipe Created"),
    (SysmonEventId::PIPE_EVENT_CONNECT, "Pipe Connected"),
    (SysmonEventId::WMI_EVENT_FILTER, "WmiEventFilter activity detected"),
    (SysmonEventId::WMI_EVENT_CONSUMER, "WmiEventConsumer activity detected"),
    (SysmonEventId::WMI_EVENT_CONSUMER_FILTER, "WmiEventConsumerToFilter activity detected"),
    (SysmonEventId::DNS_QUERY, "Dns query"),
    (SysmonEventId::FILE_DELETE, "File Delete archived"),
    (SysmonEventId::CLIPBOARD_CHANGE, "Clipboard changed"),
    (SysmonEventId::PROCESS_TAMPERING, "Process Tampering"),
    (SysmonEventId::FILE_DELETE_DETECTED, "File Delete logged"),
];

fn identity(code: u8) -> SysmonEventId {
    SysmonEventId::new(code).expect("a code that is not zero")
}

#[test]
fn named_codes_have_their_numbers() {
    let codes: Vec<u8> = NAMED.iter().map(|(code, _)| *code).collect();
    assert_eq!(
        codes,
        vec![1, 2, 3, 5, 6, 7, 8, 9, 10, 11, 12, 13, 14, 15, 17, 18, 19, 20, 21, 22, 23, 24, 25, 26]
    );
}

#[test]
fn named_codes_have_their_labels() {
    for (code, label) in NAMED {
        assert_eq!(identity(code).label(), label);
        assert_eq!(identity(code).to_string(), format!("{} {}", code, label));
    }
}

#[test]
fn display_is_total() {
    for code in 1..=255u8 {
        let id = identity(code);
        let label = id.label();
        assert!(!label.is_empty());
        assert_eq!(id.to_string(), format!("{} {}", code, label));
        let named = NAMED.iter().any(|(known, _)| *known == code);
        assert_eq!(label == "Unknown event", !named);
    }
}

#[test]
fn display_of_network_connect() {
    assert_eq!(identity(3).to_string(), "3 Network connection detected");
}

#[test]
fn display_of_codes_without_a_name() {
    assert_eq!(identity(4).to_string(), "4 Unknown event");
    assert_eq!(identity(16).to_string(), "16 Unknown event");
    assert_eq!(identity(27).to_string(), "27 Unknown event");
    assert_eq!(identity(200).to_string(), "200 Unknown event");
    assert_eq!(identity(255).to_string(), "255 Unknown event");
}

#[test]
fn named_constants_round_trip() {
    for (code, _) in NAMED {
        let parsed = SysmonEventId::from_str(&code.to_string());
        assert!(parsed == Ok(identity(code)));
        assert_eq!(parsed.ok().map(|id| id.code()), Some(code));
    }
}

#[test]
fn every_code_round_trips() {
    for code in 1..=255u8 {
        let parsed = SysmonEventId::from_str(&decimal_string(code));
        assert!(parsed == Ok(identity(code)));
    }
}

#[test]
fn zero_is_refused() {
    assert_eq!(SysmonEventId::from_str("0").err(), Some(ParseError::ZeroNotAllowed));
    assert_eq!(SysmonEventId::from_str("00").err(), Some(ParseError::ZeroNotAllowed));
    assert_eq!(SysmonEventId::from_str("+0").err(), Some(ParseError::ZeroNotAllowed));
}

#[test]
fn out_of_range_is_not_a_number() {
    assert_eq!(SysmonEventId::from_str("256").err(), Some(ParseError::NotANumber));
    assert_eq!(SysmonEventId::from_str("-1").err(), Some(ParseError::NotANumber));
    assert_eq!(SysmonEventId::from_str("abc").err(), Some(ParseError::NotANumber));
}

#[test]
fn other_texts_that_are_no_numbers() {
    for text in ["", "+", "-", "-0", " 3", "3 ", "3\n", "1.0", "0x10", "1e2", "++1", "1+", "٣", "１", "1000", "99999999999999999999"] {
        assert_eq!(SysmonEventId::from_str(text).err(), Some(ParseError::NotANumber), "{:?}", text);
    }
}

#[test]
fn numerals_with_a_sign_or_leading_zeros() {
    assert!(SysmonEventId::from_str("+5") == Ok(identity(5)));
    assert!(SysmonEventId::from_str("007") == Ok(identity(7)));
    assert!(SysmonEventId::from_str("0000000000000000000255") == Ok(identity(255)));
    assert!(SysmonEventId::from_str("255") == Ok(identity(255)));
    assert!(SysmonEventId::from_str("1") == Ok(identity(1)));
}

#[test]
fn zero_is_no_code() {
    assert!(SysmonEventId::new(0).is_none());
    for code in 1..=255u8 {
        assert_eq!(SysmonEventId::new(code).map(|id| id.code()), Some(code));
    }
}

#[test]
fn identities_are_equal_by_code() {
    for a in 1..=255u8 {
        for b in 1..=255u8 {
            assert_eq!(identity(a) == identity(b), a == b);
        }
    }
    assert!(identity(4) != identity(16));
}

#[test]
fn unknown_code_round_trips_through_display() {
    let parsed = SysmonEventId::from_str("200").ok().expect("200 is a code");
    assert_eq!(parsed.code(), 200);
    assert_eq!(parsed.label(), "Unknown event");
    assert_eq!(parsed.to_string(), "200 Unknown event");
}

#[test]
fn decimal_string_agrees_with_std() {
    for n in 0..=255u8 {
        assert_eq!(decimal_string(n), n.to_string());
    }
}

#[test]
fn parse_u8_agrees_with_std() {
    let alphabet = ['+', '-', '0', '1', '2', '5', '6', '9', ' ', 'a', '٣'];
    let mut texts: Vec<String> = vec![String::new()];
    let mut last: Vec<String> = vec![String::new()];
    for _ in 0..4 {
        let mut next = Vec::new();
        for text in &last {
            for c in alphabet {
                let mut longer = text.clone();
                longer.push(c);
                next.push(longer);
            }
        }
        texts.extend(next.iter().cloned());
        last = next;
    }
    assert_eq!(texts.len(), 1 + 11 + 121 + 1331 + 14641);
    for text in &texts {
        assert_eq!(parse_u8(text), text.parse::<u8>().ok(), "{:?}", text);
    }
    for n in 0..=1000u32 {
        let text = n.to_string();
        assert_eq!(parse_u8(&text), text.parse::<u8>().ok());
        let signed = format!("+{}", n);
        assert_eq!(parse_u8(&signed), signed.parse::<u8>().ok());
    }
}

#[test]
fn failures_fall_into_their_kinds() {
    assert_eq!(ParseError::NotANumber.kind(), ErrorKind::InvalidIdentity);
    assert_eq!(ParseError::ZeroNotAllowed.kind(), ErrorKind::InvalidIdentity);
    assert_eq!(ParseError::MalformedDocument.kind(), ErrorKind::MalformedDocument);
    assert_eq!(ParseError::MissingSection(RequiredSection::System).kind(), ErrorKind::MissingSection);
    assert_eq!(ParseError::MissingField(RequiredField::EventId).kind(), ErrorKind::MissingField);
    assert_eq!(ParseError::MissingAttribute(RequiredAttribute::Name).kind(), ErrorKind::MissingAttribute);
}

#[test]
fn failures_name_their_subject() {
    assert_eq!(ParseError::MissingSection(RequiredSection::System).subject(), Some("System"));
    assert_eq!(ParseError::MissingSection(RequiredSection::EventData).subject(), Some("EventData"));
    assert_eq!(ParseError::MissingField(RequiredField::EventIdText).subject(), Some("EventID text"));
    assert_eq!(ParseError::MissingField(RequiredField::EventId).subject(), Some("EventID"));
    assert_eq!(ParseError::MissingField(RequiredField::TimeCreated).subject(), Some("TimeCreated"));
    assert_eq!(ParseError::MissingField(RequiredField::DataText).subject(), Some("Data text"));
    assert_eq!(ParseError::MissingAttribute(RequiredAttribute::SystemTime).subject(), Some("SystemTime"));
    assert_eq!(ParseError::MissingAttribute(RequiredAttribute::Name).subject(), Some("Name"));
    assert_eq!(ParseError::MalformedDocument.subject(), None);
    assert_eq!(ParseError::NotANumber.subject(), None);
    assert_eq!(ParseError::ZeroNotAllowed.subject(), None);
    assert_eq!(RequiredSection::System.name(), "System");
    assert_eq!(RequiredField::DataText.name(), "Data text");
    assert_eq!(RequiredAttribute::SystemTime.name(), "SystemTime");
}
