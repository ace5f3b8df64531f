//! Parsing of Windows system-monitoring audit events from their XML form
//! into a typed, queryable record.
//!
//! [`SysmonEvent::from_xml`] reads one event from the text of one document.
//! What it reads is stated over the nodes of the document in [`event`]; what
//! follows from that for every document is proved in [`laws`].

pub mod decimal;
pub mod error;
pub mod event;
pub mod event_id;
pub mod field_map;
pub mod laws;
pub mod text;
pub mod timestamp;
pub mod xml;

pub use crate::error::{ErrorKind, ParseError, RequiredAttribute, RequiredField, RequiredSection};
pub use crate::event::{Metadata, SysmonEvent};
pub use crate::event_id::SysmonEventId;
pub use crate::field_map::{DataField, FieldMap};
pub use crate::timestamp::Timestamp;
pub use crate::xml::{XmlAttribute, XmlDocument, XmlNode};
