//! The failures of parsing, each naming what was wrong with the input.

use vstd::prelude::*;

verus! {

/// A top-level section that every event must carry.
#[derive(Clone, Copy, Debug, PartialEq, Eq, Structural)]
pub enum RequiredSection {
    /// The metadata section.
    System,
    /// The data-field section.
    EventData,
}

/// A leaf value that every event must carry.
#[derive(Clone, Copy, Debug, PartialEq, Eq, Structural)]
pub enum RequiredField {
    /// The text inside an `EventID` element.
    EventIdText,
    /// An event code that could be read.
    EventId,
    /// A creation time that could be read.
    TimeCreated,
    /// The text inside a `Data` element.
    DataText,
}

/// An attribute that an element must carry.
#[derive(Clone, Copy, Debug, PartialEq, Eq, Structural)]
pub enum RequiredAttribute {
    /// The `SystemTime` attribute of a `TimeCreated` element.
    SystemTime,
    /// The `Name` attribute of a `Data` element.
    Name,
}

/// Why a text was not accepted as an event code or as an event.
#[derive(Clone, Copy, Debug, PartialEq, Eq, Structural)]
pub enum ParseError {
    /// The text is not a decimal numeral of an unsigned 8-bit integer.
    NotANumber,
    /// The numeral is zero, which is no event code.
    ZeroNotAllowed,
    /// The input is not well-formed markup.
    MalformedDocument,
    /// The root element lacks a required section.
    MissingSection(RequiredSection),
    /// A required value is absent, or no occurrence of it could be read.
    MissingField(RequiredField),
    /// An element lacks a required attribute.
    MissingAttribute(RequiredAttribute),
}

/// The broad classes into which the failures fall.
#[derive(Clone, Copy, Debug, PartialEq, Eq, Structural)]
pub enum ErrorKind {
    MalformedDocument,
    MissingSection,
    MissingField,
    MissingAttribute,
    InvalidIdentity,
}

impl RequiredSection {
    /// The element name of the section.
    pub open spec fn name_spec(self) -> Seq<char> {
        match self {
            RequiredSection::System => "System"@,
            RequiredSection::EventData => "EventData"@,
        }
    }

    /// The element name of the section.
    pub fn name(self) -> (name: &'static str)
        ensures
            name@ == self.name_spec(),
    {
        match self {
            RequiredSection::System => "System",
            RequiredSection::EventData => "EventData",
        }
    }
}

impl RequiredField {
    /// How the value is called in a report.
    pub open spec fn name_spec(self) -> Seq<char> {
        match self {
            RequiredField::EventIdText => "EventID text"@,
            RequiredField::EventId => "EventID"@,
            RequiredField::TimeCreated => "TimeCreated"@,
            RequiredField::DataText => "Data text"@,
        }
    }

    /// How the value is called in a report.
    pub fn name(self) -> (name: &'static str)
        ensures
            name@ == self.name_spec(),
    {
        match self {
            RequiredField::EventIdText => "EventID text",
            RequiredField::EventId => "EventID",
            RequiredField::TimeCreated => "TimeCreated",
            RequiredField::DataText => "Data text",
        }
    }
}

impl RequiredAttribute {
    /// The name of the attribute.
    pub open spec fn name_spec(self) -> Seq<char> {
        match self {
            RequiredAttribute::SystemTime => "SystemTime"@,
            RequiredAttribute::Name => "Name"@,
        }
    }

    /// The name of the attribute.
    pub fn name(self) -> (name: &'static str)
        ensures
            name@ == self.name_spec(),
    {
        match self {
            RequiredAttribute::SystemTime => "SystemTime",
            RequiredAttribute::Name => "Name",
        }
    }
}

impl ParseError {
    /// The class of the failure.
    pub open spec fn kind_spec(self) -> ErrorKind {
        match self {
            ParseError::NotANumber => ErrorKind::InvalidIdentity,
            ParseError::ZeroNotAllowed => ErrorKind::InvalidIdentity,
            ParseError::MalformedDocument => ErrorKind::MalformedDocument,
            ParseError::MissingSection(_) => ErrorKind::MissingSection,
            ParseError::MissingField(_) => ErrorKind::MissingField,
            ParseError::MissingAttribute(_) => ErrorKind::MissingAttribute,
        }
    }

    /// The class of the failure.
    pub fn kind(&self) -> (kind: ErrorKind)
        ensures
            kind == self.kind_spec(),
    {
        match self {
            ParseError::NotANumber => ErrorKind::InvalidIdentity,
            ParseError::ZeroNotAllowed => ErrorKind::InvalidIdentity,
            ParseError::MalformedDocument => ErrorKind::MalformedDocument,
            ParseError::MissingSection(_) => ErrorKind::MissingSection,
            ParseError::MissingField(_) => ErrorKind::MissingField,
            ParseError::MissingAttribute(_) => ErrorKind::MissingAttribute,
        }
    }

    /// The name of the section, value or attribute that the failure is about.
    pub open spec fn subject_spec(self) -> Option<Seq<char>> {
        match self {
            ParseError::MissingSection(section) => Some(section.name_spec()),
            ParseError::MissingField(field) => Some(field.name_spec()),
            ParseError::MissingAttribute(attribute) => Some(attribute.name_spec()),
            _ => None,
        }
    }

    /// The name of the section, value or attribute that the failure is about,
    /// where it is about one.
    pub fn subject(&self) -> (subject: Option<&'static str>)
        ensures
            match subject {
                Some(name) => self.subject_spec() == Some(name@),
                None => self.subject_spec() is None,
            },
    {
        match self {
            ParseError::MissingSection(section) => Some(section.name()),
            ParseError::MissingField(field) => Some(field.name()),
            ParseError::MissingAttribute(attribute) => Some(attribute.name()),
            _ => None,
        }
    }
}

} // verus!
