//! Events and how they are read from a document.

use vstd::prelude::*;
use crate::error::{ParseError, RequiredAttribute, RequiredField, RequiredSection};
use crate::event_id::{code_of_text, SysmonEventId};
use crate::field_map::FieldMap;
use crate::text::str_eq;
use crate::timestamp::{parse_rfc3339, rfc3339_timestamp, Timestamp};
use crate::xml::{
    attribute_value, markup_document, DocumentModel, NodeModel, XmlDocument, XmlNode,
};

verus! {

/// One recorded event: what kind of activity it is, when it was recorded,
/// and the fields that describe it.
///
/// Which fields there are depends on the kind of event; they are kept as
/// they stand in the document, under any name.
pub struct SysmonEvent {
    pub event_id: SysmonEventId,
    pub time_created: Timestamp,
    pub event_data: FieldMap,
}

/// What an event holds.
pub struct EventModel {
    pub event_id: u8,
    pub time_created: Timestamp,
    pub event_data: Map<Seq<char>, Seq<char>>,
}

impl View for SysmonEvent {
    type V = EventModel;

    open spec fn view(&self) -> EventModel {
        EventModel {
            event_id: self.event_id@,
            time_created: self.time_created,
            event_data: self.event_data@,
        }
    }
}

/// What has been read of an event's metadata so far.
#[derive(Clone, Copy)]
pub struct Metadata {
    pub event_id: Option<SysmonEventId>,
    pub time_created: Option<Timestamp>,
}

/// What a `Metadata` holds.
pub struct MetadataModel {
    pub event_id: Option<u8>,
    pub time_created: Option<Timestamp>,
}

impl View for Metadata {
    type V = MetadataModel;

    open spec fn view(&self) -> MetadataModel {
        MetadataModel {
            event_id: match self.event_id {
                Some(id) => Some(id@),
                None => None,
            },
            time_created: self.time_created,
        }
    }
}

/// The outcome of reading metadata, as what it holds.
pub open spec fn metadata_outcome(outcome: Result<Metadata, ParseError>) -> Result<
    MetadataModel,
    ParseError,
> {
    match outcome {
        Ok(metadata) => Ok(metadata@),
        Err(error) => Err(error),
    }
}

/// The outcome of reading an event, as what it holds.
pub open spec fn event_outcome(outcome: Result<SysmonEvent, ParseError>) -> Result<
    EventModel,
    ParseError,
> {
    match outcome {
        Ok(event) => Ok(event@),
        Err(error) => Err(error),
    }
}

/// The outcome of reading fields, as what they hold.
pub open spec fn fields_outcome(outcome: Result<FieldMap, ParseError>) -> Result<
    Map<Seq<char>, Seq<char>>,
    ParseError,
> {
    match outcome {
        Ok(fields) => Ok(fields@),
        Err(error) => Err(error),
    }
}

/// The characters of a text that may be absent.
pub open spec fn text_of(text: Option<&str>) -> Option<Seq<char>> {
    match text {
        Some(text) => Some(text@),
        None => None,
    }
}

impl MetadataModel {
    /// Nothing read yet.
    pub open spec fn empty() -> MetadataModel {
        MetadataModel { event_id: None, time_created: None }
    }

    /// The metadata after an `EventID` element with the given text.
    ///
    /// An element without text is a fault. A text that denotes a code
    /// replaces the code read before; any other text changes nothing.
    pub open spec fn with_event_id_text(self, text: Option<Seq<char>>) -> Result<
        MetadataModel,
        ParseError,
    > {
        match text {
            None => Err(ParseError::MissingField(RequiredField::EventIdText)),
            Some(text) => match code_of_text(text) {
                Ok(code) => Ok(MetadataModel { event_id: Some(code), ..self }),
                Err(_) => Ok(self),
            },
        }
    }

    /// The metadata after a creation time was looked for: a time that was
    /// read replaces the one read before; none changes nothing.
    pub open spec fn with_parsed_time(self, parsed: Option<Timestamp>) -> MetadataModel {
        match parsed {
            Some(time) => MetadataModel { time_created: Some(time), ..self },
            None => self,
        }
    }

    /// The metadata after a `TimeCreated` element with the given
    /// `SystemTime` attribute. An element without the attribute is a fault.
    pub open spec fn with_system_time(self, system_time: Option<Seq<char>>) -> Result<
        MetadataModel,
        ParseError,
    > {
        match system_time {
            None => Err(ParseError::MissingAttribute(RequiredAttribute::SystemTime)),
            Some(text) => Ok(self.with_parsed_time(rfc3339_timestamp(text))),
        }
    }

    /// The metadata after one more child of the metadata section. Children
    /// other than `EventID` and `TimeCreated` change nothing.
    pub open spec fn observe(self, child: NodeModel) -> Result<MetadataModel, ParseError> {
        if child.name == "EventID"@ {
            self.with_event_id_text(child.text)
        } else if child.name == "TimeCreated"@ {
            self.with_system_time(attribute_value(child.attributes, "SystemTime"@))
        } else {
            Ok(self)
        }
    }

    /// The code and the creation time, once both have been read. Metadata
    /// without a code, or else without a creation time, is incomplete.
    pub open spec fn complete(self) -> Result<(u8, Timestamp), ParseError> {
        match self.event_id {
            None => Err(ParseError::MissingField(RequiredField::EventId)),
            Some(event_id) => match self.time_created {
                None => Err(ParseError::MissingField(RequiredField::TimeCreated)),
                Some(time_created) => Ok((event_id, time_created)),
            },
        }
    }
}

/// The metadata read from the children of the metadata section, taken in
/// document order. The first fault ends the reading.
pub open spec fn scan_metadata(children: Seq<NodeModel>) -> Result<MetadataModel, ParseError>
    decreases children.len(),
{
    if children.len() == 0 {
        Ok(MetadataModel::empty())
    } else {
        match scan_metadata(children.drop_last()) {
            Ok(seen) => seen.observe(children.last()),
            Err(error) => Err(error),
        }
    }
}

/// The fields after one more child of the data section.
///
/// A `Data` element puts its text under the name that its `Name` attribute
/// gives; without the attribute, or else without text, it is a fault.
/// Other children change nothing.
pub open spec fn observe_data(fields: Map<Seq<char>, Seq<char>>, child: NodeModel) -> Result<
    Map<Seq<char>, Seq<char>>,
    ParseError,
> {
    if child.name == "Data"@ {
        match attribute_value(child.attributes, "Name"@) {
            None => Err(ParseError::MissingAttribute(RequiredAttribute::Name)),
            Some(name) => match child.text {
                None => Err(ParseError::MissingField(RequiredField::DataText)),
                Some(text) => Ok(fields.insert(name, text)),
            },
        }
    } else {
        Ok(fields)
    }
}

/// The fields read from the children of the data section, taken in
/// document order. The first fault ends the reading.
pub open spec fn scan_data(children: Seq<NodeModel>) -> Result<
    Map<Seq<char>, Seq<char>>,
    ParseError,
>
    decreases children.len(),
{
    if children.len() == 0 {
        Ok(Map::empty())
    } else {
        match scan_data(children.drop_last()) {
            Ok(fields) => observe_data(fields, children.last()),
            Err(error) => Err(error),
        }
    }
}

/// The event that a document holds, or what is wrong with the document.
///
/// The metadata section is the first child of the root element named
/// `System`, the data section the first named `EventData`. The metadata is
/// read first and must be complete, then the fields are read; whatever
/// goes wrong first is the outcome.
pub open spec fn event_of_document(doc: DocumentModel) -> Result<EventModel, ParseError> {
    match doc.first_child_named(doc.root, "System"@) {
        None => Err(ParseError::MissingSection(RequiredSection::System)),
        Some(system) => match doc.first_child_named(doc.root, "EventData"@) {
            None => Err(ParseError::MissingSection(RequiredSection::EventData)),
            Some(data) => match scan_metadata(doc.children_of(system)) {
                Err(error) => Err(error),
                Ok(metadata) => match metadata.complete() {
                    Err(error) => Err(error),
                    Ok((event_id, time_created)) => match scan_data(doc.children_of(data)) {
                        Err(error) => Err(error),
                        Ok(event_data) => Ok(EventModel { event_id, time_created, event_data }),
                    },
                },
            },
        },
    }
}

/// The event that a text holds, or what is wrong with the text.
pub open spec fn event_of_markup(text: Seq<char>) -> Result<EventModel, ParseError> {
    match markup_document(text) {
        None => Err(ParseError::MalformedDocument),
        Some(doc) => event_of_document(doc),
    }
}

/// Once the reading of metadata has met a fault, further children do not
/// change the outcome.
pub proof fn lemma_scan_metadata_fault(
    nodes: Seq<NodeModel>,
    wanted: spec_fn(NodeModel) -> bool,
    upto: int,
)
    requires
        0 <= upto <= nodes.len(),
        scan_metadata(nodes.subrange(0, upto).filter(wanted)) is Err,
    ensures
        scan_metadata(nodes.filter(wanted)) == scan_metadata(
            nodes.subrange(0, upto).filter(wanted),
        ),
    decreases nodes.len(),
{
    if upto == nodes.len() {
        assert(nodes.subrange(0, upto) =~= nodes);
    } else {
        let front = nodes.drop_last();
        assert(front.subrange(0, upto) =~= nodes.subrange(0, upto));
        lemma_scan_metadata_fault(front, wanted, upto);
        reveal(Seq::filter);
        if wanted(nodes.last()) {
            assert(nodes.filter(wanted).drop_last() =~= front.filter(wanted));
        }
    }
}

/// Once the reading of fields has met a fault, further children do not
/// change the outcome.
pub proof fn lemma_scan_data_fault(
    nodes: Seq<NodeModel>,
    wanted: spec_fn(NodeModel) -> bool,
    upto: int,
)
    requires
        0 <= upto <= nodes.len(),
        scan_data(nodes.subrange(0, upto).filter(wanted)) is Err,
    ensures
        scan_data(nodes.filter(wanted)) == scan_data(nodes.subrange(0, upto).filter(wanted)),
    decreases nodes.len(),
{
    if upto == nodes.len() {
        assert(nodes.subrange(0, upto) =~= nodes);
    } else {
        let front = nodes.drop_last();
        assert(front.subrange(0, upto) =~= nodes.subrange(0, upto));
        lemma_scan_data_fault(front, wanted, upto);
        reveal(Seq::filter);
        if wanted(nodes.last()) {
            assert(nodes.filter(wanted).drop_last() =~= front.filter(wanted));
        }
    }
}

/// Taking one more node into a list changes what a filter keeps of it by
/// that node or not at all.
proof fn lemma_filter_step(nodes: Seq<NodeModel>, wanted: spec_fn(NodeModel) -> bool, at: int)
    requires
        0 <= at < nodes.len(),
    ensures
        wanted(nodes[at]) ==> nodes.subrange(0, at + 1).filter(wanted) == nodes.subrange(
            0,
            at,
        ).filter(wanted).push(nodes[at]),
        !wanted(nodes[at]) ==> nodes.subrange(0, at + 1).filter(wanted) == nodes.subrange(
            0,
            at,
        ).filter(wanted),
{
    reveal(Seq::filter);
    assert(nodes.subrange(0, at + 1).drop_last() =~= nodes.subrange(0, at));
}

impl Metadata {
    /// Nothing read yet.
    pub fn new() -> (metadata: Metadata)
        ensures
            metadata@ == MetadataModel::empty(),
    {
        Metadata { event_id: None, time_created: None }
    }

    /// Takes in an `EventID` element with the given text.
    pub fn with_event_id_text(self, text: Option<&str>) -> (outcome: Result<Metadata, ParseError>)
        ensures
            metadata_outcome(outcome) == self@.with_event_id_text(text_of(text)),
    {
        match text {
            None => Err(ParseError::MissingField(RequiredField::EventIdText)),
            Some(text) => match SysmonEventId::from_str(text) {
                Ok(id) => Ok(Metadata { event_id: Some(id), time_created: self.time_created }),
                Err(_) => Ok(self),
            },
        }
    }

    /// Takes in what reading a creation time gave.
    pub fn with_parsed_time(self, parsed: Option<Timestamp>) -> (metadata: Metadata)
        ensures
            metadata@ == self@.with_parsed_time(parsed),
    {
        match parsed {
            Some(time) => Metadata { event_id: self.event_id, time_created: Some(time) },
            None => self,
        }
    }

    /// Takes in a `TimeCreated` element with the given `SystemTime`
    /// attribute, which is read as an RFC 3339 timestamp.
    pub fn with_system_time(self, system_time: Option<&str>) -> (outcome: Result<
        Metadata,
        ParseError,
    >)
        ensures
            metadata_outcome(outcome) == self@.with_system_time(text_of(system_time)),
    {
        match system_time {
            None => Err(ParseError::MissingAttribute(RequiredAttribute::SystemTime)),
            Some(text) => Ok(self.with_parsed_time(parse_rfc3339(text))),
        }
    }

    /// Takes in one child of the metadata section.
    pub fn observe(self, child: &XmlNode) -> (outcome: Result<Metadata, ParseError>)
        ensures
            metadata_outcome(outcome) == self@.observe(child@),
    {
        if str_eq(child.name.as_str(), "EventID") {
            match &child.text {
                Some(text) => self.with_event_id_text(Some(text.as_str())),
                None => self.with_event_id_text(None),
            }
        } else if str_eq(child.name.as_str(), "TimeCreated") {
            match child.attribute("SystemTime") {
                Some(value) => self.with_system_time(Some(value.as_str())),
                None => self.with_system_time(None),
            }
        } else {
            Ok(self)
        }
    }

    /// The code and the creation time, once both have been read.
    pub fn complete(self) -> (outcome: Result<(SysmonEventId, Timestamp), ParseError>)
        ensures
            match outcome {
                Ok((event_id, time_created)) => self@.complete() == Ok::<
                    (u8, Timestamp),
                    ParseError,
                >((event_id@, time_created)),
                Err(error) => self@.complete() == Err::<(u8, Timestamp), ParseError>(error),
            },
    {
        match self.event_id {
            None => Err(ParseError::MissingField(RequiredField::EventId)),
            Some(event_id) => match self.time_created {
                None => Err(ParseError::MissingField(RequiredField::TimeCreated)),
                Some(time_created) => Ok((event_id, time_created)),
            },
        }
    }
}

/// Takes one child of the data section into the fields. On a fault the
/// fields stay as they were.
pub fn record_data(fields: &mut FieldMap, child: &XmlNode) -> (outcome: Result<(), ParseError>)
    ensures
        match outcome {
            Ok(_) => observe_data(old(fields)@, child@) == Ok::<
                Map<Seq<char>, Seq<char>>,
                ParseError,
            >(final(fields)@),
            Err(error) => observe_data(old(fields)@, child@) == Err::<
                Map<Seq<char>, Seq<char>>,
                ParseError,
            >(error) && final(fields)@ == old(fields)@,
        },
{
    if str_eq(child.name.as_str(), "Data") {
        match child.attribute("Name") {
            None => Err(ParseError::MissingAttribute(RequiredAttribute::Name)),
            Some(name) => match &child.text {
                None => Err(ParseError::MissingField(RequiredField::DataText)),
                Some(text) => {
                    fields.insert(name.clone(), text.clone());
                    Ok(())
                },
            },
        }
    } else {
        Ok(())
    }
}

impl XmlDocument {
    /// Reads the metadata from the children of the node at `section`.
    pub fn scan_metadata(&self, section: usize) -> (outcome: Result<Metadata, ParseError>)
        ensures
            metadata_outcome(outcome) == scan_metadata(self@.children_of(section as int)),
    {
        let ghost nodes = self@.nodes;
        let ghost wanted = |node: NodeModel| node.parent == Some(section as int);
        let mut seen = Metadata::new();
        let mut at: usize = 0;
        proof {
            reveal(Seq::filter);
        }
        while at < self.nodes.len()
            invariant
                at <= self.nodes@.len(),
                nodes == self@.nodes,
                wanted == |node: NodeModel| node.parent == Some(section as int),
                scan_metadata(nodes.subrange(0, at as int).filter(wanted)) == Ok::<
                    MetadataModel,
                    ParseError,
                >(seen@),
            decreases self.nodes@.len() - at,
        {
            let child = &self.nodes[at];
            proof {
                lemma_filter_step(nodes, wanted, at as int);
                assert(nodes[at as int] == child@);
            }
            if child.parent == Some(section) {
                let ghost taken = nodes.subrange(0, at + 1).filter(wanted);
                assert(taken.drop_last() =~= nodes.subrange(0, at as int).filter(wanted));
                match seen.observe(child) {
                    Ok(next) => {
                        seen = next;
                    },
                    Err(error) => {
                        proof {
                            lemma_scan_metadata_fault(nodes, wanted, at + 1);
                        }
                        return Err(error);
                    },
                }
            }
            at += 1;
        }
        assert(nodes.subrange(0, at as int) =~= nodes);
        Ok(seen)
    }

    /// Reads the fields from the children of the node at `section`.
    pub fn scan_data(&self, section: usize) -> (outcome: Result<FieldMap, ParseError>)
        ensures
            fields_outcome(outcome) == scan_data(self@.children_of(section as int)),
    {
        let ghost nodes = self@.nodes;
        let ghost wanted = |node: NodeModel| node.parent == Some(section as int);
        let mut fields = FieldMap::new();
        let mut at: usize = 0;
        proof {
            reveal(Seq::filter);
        }
        while at < self.nodes.len()
            invariant
                at <= self.nodes@.len(),
                nodes == self@.nodes,
                wanted == |node: NodeModel| node.parent == Some(section as int),
                scan_data(nodes.subrange(0, at as int).filter(wanted)) == Ok::<
                    Map<Seq<char>, Seq<char>>,
                    ParseError,
                >(fields@),
            decreases self.nodes@.len() - at,
        {
            let child = &self.nodes[at];
            proof {
                lemma_filter_step(nodes, wanted, at as int);
                assert(nodes[at as int] == child@);
            }
            if child.parent == Some(section) {
                let ghost taken = nodes.subrange(0, at + 1).filter(wanted);
                assert(taken.drop_last() =~= nodes.subrange(0, at as int).filter(wanted));
                match record_data(&mut fields, child) {
                    Ok(_) => {},
                    Err(error) => {
                        proof {
                            lemma_scan_data_fault(nodes, wanted, at + 1);
                        }
                        return Err(error);
                    },
                }
            }
            at += 1;
        }
        assert(nodes.subrange(0, at as int) =~= nodes);
        Ok(fields)
    }
}

impl SysmonEvent {
    /// Reads the event that a document holds.
    pub fn from_document(doc: &XmlDocument) -> (outcome: Result<SysmonEvent, ParseError>)
        ensures
            event_outcome(outcome) == event_of_document(doc@),
    {
        let system = match doc.first_child_named(doc.root, "System") {
            Some(at) => at,
            None => {
                return Err(ParseError::MissingSection(RequiredSection::System));
            },
        };
        let event_data = match doc.first_child_named(doc.root, "EventData") {
            Some(at) => at,
            None => {
                return Err(ParseError::MissingSection(RequiredSection::EventData));
            },
        };
        let metadata = match doc.scan_metadata(system) {
            Ok(metadata) => metadata,
            Err(error) => {
                return Err(error);
            },
        };
        let (event_id, time_created) = match metadata.complete() {
            Ok(both) => both,
            Err(error) => {
                return Err(error);
            },
        };
        match doc.scan_data(event_data) {
            Ok(event_data) => Ok(SysmonEvent { event_id, time_created, event_data }),
            Err(error) => Err(error),
        }
    }

    /// Reads one event from the text of its XML document.
    ///
    /// The outcome is the event or the first thing found wrong; nothing is
    /// kept of a document that has a fault.
    pub fn from_xml(xml: &str) -> (outcome: Result<SysmonEvent, ParseError>)
        ensures
            event_outcome(outcome) == event_of_markup(xml@),
    {
        match XmlDocument::parse(xml) {
            Ok(doc) => SysmonEvent::from_document(&doc),
            Err(error) => Err(error),
        }
    }
}

impl Clone for SysmonEvent {
    fn clone(&self) -> (copy: SysmonEvent)
        ensures
            copy@ == self@,
    {
        SysmonEvent {
            event_id: self.event_id,
            time_created: self.time_created,
            event_data: self.event_data.clone(),
        }
    }
}

/// Two events are equal when they agree in code, in creation time with its
/// offset, and in every field.
impl PartialEq for SysmonEvent {
    fn eq(&self, other: &SysmonEvent) -> (same: bool) {
        self.event_id.code() == other.event_id.code() && self.time_created == other.time_created
            && self.event_data == other.event_data
    }
}

impl Eq for SysmonEvent {

}

impl vstd::std_specs::cmp::PartialEqSpecImpl for SysmonEvent {
    open spec fn obeys_eq_spec() -> bool {
        true
    }

    open spec fn eq_spec(&self, other: &SysmonEvent) -> bool {
        self@ == other@
    }
}

} // verus!
