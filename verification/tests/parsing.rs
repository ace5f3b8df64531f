use sysmon_event::{
    ParseError, RequiredAttribute, RequiredField, RequiredSection, SysmonEvent, Timestamp,
};

const EXAMPLE: &str = r#"<Event>
  <System>
    <EventID>3</EventID>
    <TimeCreated SystemTime="2023-01-01T12:00:00+00:00"/>
    <Computer>host.example</Computer>
  </System>
  <EventData>
    <Data Name="SourceIp">10.0.0.1</Data>
    <Data Name="DestinationIp">10.0.0.2</Data>
  </EventData>
</Event>"#;

const NOON: Timestamp =
    Timestamp { unix_seconds: 1_672_574_400, subsec_nanos: 0, utc_offset_seconds: 0 };

fn document(system: &str, event_data: &str) -> String {
    format!("<Event><System>{}</System><EventData>{}</EventData></Event>", system, event_data)
}

fn read(xml: &str) -> SysmonEvent {
    match SysmonEvent::from_xml(xml) {
        Ok(event) => event,
        Err(error) => panic!("refused with {:?}: {}", error, xml),
    }
}

fn fault(xml: &str) -> ParseError {
    match SysmonEvent::from_xml(xml) {
        Ok(_) => panic!("accepted: {}", xml),
        Err(error) => error,
    }
}

const GOOD_SYSTEM: &str =
    r#"<EventID>1</EventID><TimeCreated SystemTime="2023-01-01T12:00:00+00:00"/>"#;

#[test]
fn happy_path() {
    let event = read(EXAMPLE);
    assert_eq!(event.event_id.code(), 3);
    assert_eq!(event.event_id.to_string(), "3 Network connection detected");
    assert_eq!(event.time_created, NOON);
    assert_eq!(event.event_data.len(), 2);
    assert_eq!(event.event_data.get("SourceIp").map(String::as_str), Some("10.0.0.1"));
    assert_eq!(event.event_data.get("DestinationIp").map(String::as_str), Some("10.0.0.2"));
    assert_eq!(event.event_data.get("Computer"), None);
}

#[test]
fn timestamp_matches_chrono() {
    let event = read(EXAMPLE);
    let expected = chrono::DateTime::parse_from_rfc3339("2023-01-01T12:00:00+00:00").unwrap();
    assert_eq!(event.time_created.unix_seconds, expected.timestamp());
    assert_eq!(event.time_created.subsec_nanos, expected.timestamp_subsec_nanos());
    assert_eq!(event.time_created.utc_offset_seconds, expected.offset().local_minus_utc());
}

#[test]
fn offset_is_kept() {
    let xml = document(
        r#"<EventID>1</EventID><TimeCreated SystemTime="2023-01-01T14:00:00.123456789+02:00"/>"#,
        "",
    );
    let event = read(&xml);
    assert_eq!(
        event.time_created,
        Timestamp {
            unix_seconds: 1_672_574_400,
            subsec_nanos: 123_456_789,
            utc_offset_seconds: 7200,
        }
    );
    assert!(event.time_created != NOON);
    let west = document(
        r#"<EventID>1</EventID><TimeCreated SystemTime="2023-01-01T04:00:00-08:00"/>"#,
        "",
    );
    assert_eq!(
        read(&west).time_created,
        Timestamp { unix_seconds: 1_672_574_400, subsec_nanos: 0, utc_offset_seconds: -28_800 }
    );
    let zulu = document(
        r#"<EventID>1</EventID><TimeCreated SystemTime="2023-01-01T12:00:00Z"/>"#,
        "",
    );
    assert_eq!(read(&zulu).time_created, NOON);
}

#[test]
fn malformed_document() {
    assert_eq!(fault(""), ParseError::MalformedDocument);
    assert_eq!(fault("not markup"), ParseError::MalformedDocument);
    assert_eq!(fault("<Event><System></Event>"), ParseError::MalformedDocument);
    assert_eq!(fault("<Event>"), ParseError::MalformedDocument);
    assert_eq!(fault("<Event a='1' a='2'/>"), ParseError::MalformedDocument);
    assert_eq!(fault(&EXAMPLE[..EXAMPLE.len() - 1]), ParseError::MalformedDocument);
}

#[test]
fn missing_system_section() {
    let xml = "<Event><EventData><Data Name=\"X\">1</Data></EventData></Event>";
    assert_eq!(fault(xml), ParseError::MissingSection(RequiredSection::System));
    assert_eq!(fault("<Event/>"), ParseError::MissingSection(RequiredSection::System));
    assert_eq!(fault("<System/>"), ParseError::MissingSection(RequiredSection::System));
}

#[test]
fn missing_event_data_section() {
    let xml = format!("<Event><System>{}</System></Event>", GOOD_SYSTEM);
    assert_eq!(fault(&xml), ParseError::MissingSection(RequiredSection::EventData));
    assert_eq!(
        fault("<Event><System/></Event>"),
        ParseError::MissingSection(RequiredSection::EventData)
    );
}

#[test]
fn sections_are_children_of_the_root() {
    let nested = format!(
        "<Event><Wrapper><System>{}</System><EventData/></Wrapper></Event>",
        GOOD_SYSTEM
    );
    assert_eq!(fault(&nested), ParseError::MissingSection(RequiredSection::System));
    let data_nested = format!(
        "<Event><System>{}<EventData/></System></Event>",
        GOOD_SYSTEM
    );
    assert_eq!(fault(&data_nested), ParseError::MissingSection(RequiredSection::EventData));
}

#[test]
fn sections_in_either_order() {
    let xml = format!(
        "<Event><EventData><Data Name=\"A\">b</Data></EventData><System>{}</System></Event>",
        GOOD_SYSTEM
    );
    let event = read(&xml);
    assert_eq!(event.event_id.code(), 1);
    assert_eq!(event.event_data.get("A").map(String::as_str), Some("b"));
}

#[test]
fn only_the_first_section_of_a_name_counts() {
    let xml = format!(
        "<Event><System>{}</System><System><EventID>9</EventID><TimeCreated/></System>\
         <EventData><Data Name=\"A\">first</Data></EventData>\
         <EventData><Data>second</Data></EventData></Event>",
        GOOD_SYSTEM
    );
    let event = read(&xml);
    assert_eq!(event.event_id.code(), 1);
    assert_eq!(event.event_data.len(), 1);
    assert_eq!(event.event_data.get("A").map(String::as_str), Some("first"));
}

#[test]
fn duplicate_event_id_last_wins() {
    let xml = document(
        r#"<EventID>3</EventID><EventID>7</EventID><TimeCreated SystemTime="2023-01-01T12:00:00+00:00"/>"#,
        "",
    );
    assert_eq!(read(&xml).event_id.code(), 7);
}

#[test]
fn duplicate_time_created_last_wins() {
    let xml = document(
        r#"<TimeCreated SystemTime="2001-01-01T00:00:00+00:00"/><EventID>3</EventID><TimeCreated SystemTime="2023-01-01T12:00:00+00:00"/>"#,
        "",
    );
    assert_eq!(read(&xml).time_created, NOON);
}

#[test]
fn unreadable_occurrence_does_not_undo_a_read_one() {
    let xml = document(
        r#"<EventID>3</EventID><EventID>abc</EventID><EventID>0</EventID><EventID>256</EventID>
           <TimeCreated SystemTime="2023-01-01T12:00:00+00:00"/><TimeCreated SystemTime="yesterday"/>"#,
        "",
    );
    let event = read(&xml);
    assert_eq!(event.event_id.code(), 3);
    assert_eq!(event.time_created, NOON);
}

#[test]
fn unreadable_occurrence_before_a_read_one() {
    let xml = document(
        r#"<EventID>abc</EventID><EventID>5</EventID>
           <TimeCreated SystemTime=""/><TimeCreated SystemTime="2023-01-01T12:00:00+00:00"/>"#,
        "",
    );
    let event = read(&xml);
    assert_eq!(event.event_id.code(), 5);
    assert_eq!(event.time_created, NOON);
}

#[test]
fn duplicate_data_name_last_wins() {
    let xml = document(
        GOOD_SYSTEM,
        r#"<Data Name="X">earlier</Data><Data Name="Y">other</Data><Data Name="X">later</Data>"#,
    );
    let event = read(&xml);
    assert_eq!(event.event_data.len(), 2);
    assert_eq!(event.event_data.get("X").map(String::as_str), Some("later"));
    assert_eq!(event.event_data.get("Y").map(String::as_str), Some("other"));
}

#[test]
fn unknown_event_id_value() {
    let xml = document(
        r#"<EventID>200</EventID><TimeCreated SystemTime="2023-01-01T12:00:00+00:00"/>"#,
        "",
    );
    let event = read(&xml);
    assert_eq!(event.event_id.code(), 200);
    assert_eq!(event.event_id.to_string(), "200 Unknown event");
    assert!(event.event_data.is_empty());
}

#[test]
fn parsing_twice_gives_equal_events() {
    let first = read(EXAMPLE);
    let second = read(EXAMPLE);
    assert!(first == second);
    assert!(first.event_id == second.event_id);
    assert_eq!(first.time_created, second.time_created);
    assert!(first.event_data == second.event_data);
    assert_eq!(first.event_data.len(), second.event_data.len());
    for field in first.event_data.fields() {
        assert_eq!(second.event_data.get(&field.name), Some(&field.value));
    }
    assert_eq!(fault("<Event/>"), fault("<Event/>"));
}

#[test]
fn events_that_differ_are_not_equal() {
    let base = read(EXAMPLE);
    assert!(base != read(&EXAMPLE.replace("<EventID>3", "<EventID>4")));
    assert!(base != read(&EXAMPLE.replace("12:00:00+00:00", "13:00:00+01:00")));
    assert!(base != read(&EXAMPLE.replace("10.0.0.2", "10.0.0.3")));
    assert!(base != read(&EXAMPLE.replace("DestinationIp", "DestinationPort")));
    assert!(base != read(&EXAMPLE.replace("<Data Name=\"SourceIp\">10.0.0.1</Data>", "")));
    let swapped = EXAMPLE
        .replace("SourceIp\">10.0.0.1", "TEMP")
        .replace("DestinationIp\">10.0.0.2", "SourceIp\">10.0.0.1")
        .replace("TEMP", "DestinationIp\">10.0.0.2");
    assert!(swapped != EXAMPLE);
    assert!(base == read(&swapped));
    assert!(base.clone() == base);
}

#[test]
fn event_id_without_text() {
    let xml = document(
        r#"<EventID/><TimeCreated SystemTime="2023-01-01T12:00:00+00:00"/>"#,
        "",
    );
    assert_eq!(fault(&xml), ParseError::MissingField(RequiredField::EventIdText));
    let empty = document(
        r#"<EventID>3</EventID><EventID></EventID><TimeCreated SystemTime="2023-01-01T12:00:00+00:00"/>"#,
        "",
    );
    assert_eq!(fault(&empty), ParseError::MissingField(RequiredField::EventIdText));
    let comment_first = document(
        r#"<EventID><!-- code -->3</EventID><TimeCreated SystemTime="2023-01-01T12:00:00+00:00"/>"#,
        "",
    );
    assert_eq!(fault(&comment_first), ParseError::MissingField(RequiredField::EventIdText));
}

#[test]
fn time_created_without_system_time() {
    let xml = document(r#"<EventID>3</EventID><TimeCreated/>"#, "");
    assert_eq!(fault(&xml), ParseError::MissingAttribute(RequiredAttribute::SystemTime));
    let other = document(r#"<EventID>3</EventID><TimeCreated Time="2023-01-01T12:00:00Z"/>"#, "");
    assert_eq!(fault(&other), ParseError::MissingAttribute(RequiredAttribute::SystemTime));
}

#[test]
fn no_readable_event_id() {
    let none = document(r#"<TimeCreated SystemTime="2023-01-01T12:00:00+00:00"/>"#, "");
    assert_eq!(fault(&none), ParseError::MissingField(RequiredField::EventId));
    for text in ["abc", "0", "256", "-1", " 3 "] {
        let xml = document(
            &format!(
                r#"<EventID>{}</EventID><TimeCreated SystemTime="2023-01-01T12:00:00+00:00"/>"#,
                text
            ),
            "",
        );
        assert_eq!(fault(&xml), ParseError::MissingField(RequiredField::EventId), "{:?}", text);
    }
}

#[test]
fn no_readable_time_created() {
    let none = document("<EventID>3</EventID>", "");
    assert_eq!(fault(&none), ParseError::MissingField(RequiredField::TimeCreated));
    for text in ["", "2023-01-01", "2023-01-01T12:00:00", "2023-13-01T12:00:00Z", "noon"] {
        let xml = document(
            &format!(r#"<EventID>3</EventID><TimeCreated SystemTime="{}"/>"#, text),
            "",
        );
        assert_eq!(fault(&xml), ParseError::MissingField(RequiredField::TimeCreated), "{:?}", text);
    }
}

#[test]
fn data_without_name() {
    let xml = document(GOOD_SYSTEM, r#"<Data Name="A">a</Data><Data>b</Data>"#);
    assert_eq!(fault(&xml), ParseError::MissingAttribute(RequiredAttribute::Name));
}

#[test]
fn data_without_text() {
    let xml = document(GOOD_SYSTEM, r#"<Data Name="A"/>"#);
    assert_eq!(fault(&xml), ParseError::MissingField(RequiredField::DataText));
    let empty = document(GOOD_SYSTEM, r#"<Data Name="A"></Data>"#);
    assert_eq!(fault(&empty), ParseError::MissingField(RequiredField::DataText));
    let neither = document(GOOD_SYSTEM, r#"<Data/>"#);
    assert_eq!(fault(&neither), ParseError::MissingAttribute(RequiredAttribute::Name));
}

#[test]
fn faults_come_in_the_order_of_the_reading() {
    assert_eq!(fault("<Event/>"), ParseError::MissingSection(RequiredSection::System));
    let bad_everywhere = "<Event><System><EventID/><TimeCreated/></System></Event>";
    assert_eq!(fault(bad_everywhere), ParseError::MissingSection(RequiredSection::EventData));
    let both = document("<TimeCreated/><EventID/>", "<Data/>");
    assert_eq!(fault(&both), ParseError::MissingAttribute(RequiredAttribute::SystemTime));
    let reversed = document("<EventID/><TimeCreated/>", "<Data/>");
    assert_eq!(fault(&reversed), ParseError::MissingField(RequiredField::EventIdText));
    let nothing = document("", "<Data/>");
    assert_eq!(fault(&nothing), ParseError::MissingField(RequiredField::EventId));
    let no_time = document("<EventID>3</EventID>", "<Data/>");
    assert_eq!(fault(&no_time), ParseError::MissingField(RequiredField::TimeCreated));
    let data = document(GOOD_SYSTEM, r#"<Data Name="A"/><Data/>"#);
    assert_eq!(fault(&data), ParseError::MissingField(RequiredField::DataText));
}

#[test]
fn other_elements_are_ignored() {
    let xml = document(
        r#"<Provider Name="Microsoft-Windows-Sysmon"/><EventID>1</EventID><Version>5</Version>
           <TimeCreated SystemTime="2023-01-01T12:00:00+00:00"/><Execution ProcessID="4" ThreadID="8"/>
           <eventid>9</eventid>"#,
        r#"<Data Name="A">a</Data><Binary>00</Binary><data Name="B">b</data><!-- note -->"#,
    );
    let event = read(&xml);
    assert_eq!(event.event_id.code(), 1);
    assert_eq!(event.event_data.len(), 1);
    assert_eq!(event.event_data.get("A").map(String::as_str), Some("a"));
    assert!(!event.event_data.contains_key("B"));
}

#[test]
fn names_are_taken_without_their_namespace() {
    let xml = r#"<?xml version="1.0" encoding="utf-8"?>
<Event xmlns="http://schemas.microsoft.com/win/2004/08/events/event">
  <System>
    <EventID>22</EventID>
    <TimeCreated SystemTime="2023-01-01T12:00:00.000000000Z"/>
  </System>
  <EventData>
    <Data Name="QueryName">example.org</Data>
  </EventData>
</Event>"#;
    let event = read(xml);
    assert_eq!(event.event_id.to_string(), "22 Dns query");
    assert_eq!(event.time_created, NOON);
    assert_eq!(event.event_data.get("QueryName").map(String::as_str), Some("example.org"));
}

#[test]
fn texts_are_kept_as_written() {
    let xml = document(
        GOOD_SYSTEM,
        "<Data Name=\"CommandLine\"> cmd.exe /c &quot;echo &lt;hi&gt;&quot; </Data>\
         <Data Name=\"Ünïcode\">π ≈ 3</Data><Data Name=\"\">unnamed</Data>\
         <Data Name=\"Mixed\">before<b/>after</Data>",
    );
    let event = read(&xml);
    assert_eq!(
        event.event_data.get("CommandLine").map(String::as_str),
        Some(" cmd.exe /c \"echo <hi>\" ")
    );
    assert_eq!(event.event_data.get("Ünïcode").map(String::as_str), Some("π ≈ 3"));
    assert_eq!(event.event_data.get("").map(String::as_str), Some("unnamed"));
    assert_eq!(event.event_data.get("Mixed").map(String::as_str), Some("before"));
    assert_eq!(event.event_data.len(), 4);
}

#[test]
fn many_fields() {
    let mut data = String::new();
    for i in 0..300 {
        data.push_str(&format!("<Data Name=\"F{}\">{}</Data>", i % 150, i));
    }
    let event = read(&document(GOOD_SYSTEM, &data));
    assert_eq!(event.event_data.len(), 150);
    for i in 0..150 {
        let expected = (i + 150).to_string();
        assert_eq!(event.event_data.get(&format!("F{}", i)), Some(&expected));
    }
}
