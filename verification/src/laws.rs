//! What holds of every document: which fault is reported, which occurrence
//! of a repeated value counts, and that reading is repeatable.

use vstd::prelude::*;
use vstd::std_specs::cmp::PartialEqSpec;
use crate::error::{ErrorKind, ParseError, RequiredAttribute, RequiredField, RequiredSection};
use crate::event::{
    event_of_document, event_of_markup, event_outcome, scan_data, scan_metadata, EventModel,
    MetadataModel, SysmonEvent,
};
use crate::event_id::code_of_text;
use crate::timestamp::{rfc3339_timestamp, Timestamp};
use crate::xml::{
    attribute_value, lemma_child_named_from, markup_document, DocumentModel, NodeModel,
};

verus! {

/// The fault that a child of the metadata section makes, if it makes one:
/// an `EventID` element without text, or a `TimeCreated` element without a
/// `SystemTime` attribute.
pub open spec fn metadata_fault(child: NodeModel) -> Option<ParseError> {
    if child.name == "EventID"@ {
        if child.text is None {
            Some(ParseError::MissingField(RequiredField::EventIdText))
        } else {
            None
        }
    } else if child.name == "TimeCreated"@ {
        if attribute_value(child.attributes, "SystemTime"@) is None {
            Some(ParseError::MissingAttribute(RequiredAttribute::SystemTime))
        } else {
            None
        }
    } else {
        None
    }
}

/// The code that a child of the metadata section gives, if it gives one:
/// the code that the text of an `EventID` element denotes.
pub open spec fn code_given(child: NodeModel) -> Option<u8> {
    if child.name == "EventID"@ && child.text is Some {
        match code_of_text(child.text->0) {
            Ok(code) => Some(code),
            Err(_) => None,
        }
    } else {
        None
    }
}

/// The creation time that a child of the metadata section gives, if it
/// gives one: the timestamp that the `SystemTime` attribute of a
/// `TimeCreated` element holds.
pub open spec fn time_given(child: NodeModel) -> Option<Timestamp> {
    if child.name == "TimeCreated"@ {
        match attribute_value(child.attributes, "SystemTime"@) {
            Some(text) => rfc3339_timestamp(text),
            None => None,
        }
    } else {
        None
    }
}

/// The fault that a child of the data section makes, if it makes one: a
/// `Data` element without a `Name` attribute, or else without text.
pub open spec fn data_fault(child: NodeModel) -> Option<ParseError> {
    if child.name == "Data"@ {
        if attribute_value(child.attributes, "Name"@) is None {
            Some(ParseError::MissingAttribute(RequiredAttribute::Name))
        } else if child.text is None {
            Some(ParseError::MissingField(RequiredField::DataText))
        } else {
            None
        }
    } else {
        None
    }
}

/// Whether the child is a `Data` element that gives a field named `name`.
pub open spec fn gives_field(child: NodeModel, name: Seq<char>) -> bool {
    &&& child.name == "Data"@
    &&& attribute_value(child.attributes, "Name"@) == Some(name)
    &&& child.text is Some
}

/// Whether the child at `at` is the first that makes a fault in the
/// metadata section, and `error` is that fault.
pub open spec fn is_first_metadata_fault(
    children: Seq<NodeModel>,
    at: int,
    error: ParseError,
) -> bool {
    &&& 0 <= at < children.len()
    &&& metadata_fault(children[at]) == Some(error)
    &&& forall|before: int|
        0 <= before < at ==> #[trigger] metadata_fault(children[before]) is None
}

/// Whether the child at `at` is the last that gives a code, and gives
/// `code`.
pub open spec fn is_last_code(children: Seq<NodeModel>, at: int, code: u8) -> bool {
    &&& 0 <= at < children.len()
    &&& code_given(children[at]) == Some(code)
    &&& forall|later: int|
        at < later < children.len() ==> #[trigger] code_given(children[later]) is None
}

/// Whether the child at `at` is the last that gives a creation time, and
/// gives `time`.
pub open spec fn is_last_time(children: Seq<NodeModel>, at: int, time: Timestamp) -> bool {
    &&& 0 <= at < children.len()
    &&& time_given(children[at]) == Some(time)
    &&& forall|later: int|
        at < later < children.len() ==> #[trigger] time_given(children[later]) is None
}

/// Whether the child at `at` is the first that makes a fault in the data
/// section, and `error` is that fault.
pub open spec fn is_first_data_fault(children: Seq<NodeModel>, at: int, error: ParseError) -> bool {
    &&& 0 <= at < children.len()
    &&& data_fault(children[at]) == Some(error)
    &&& forall|before: int| 0 <= before < at ==> #[trigger] data_fault(children[before]) is None
}

/// Whether the child at `at` is the last that gives a field named `name`,
/// and gives it the text `text`.
pub open spec fn is_last_field(
    children: Seq<NodeModel>,
    at: int,
    name: Seq<char>,
    text: Seq<char>,
) -> bool {
    &&& 0 <= at < children.len()
    &&& gives_field(children[at], name)
    &&& children[at].text == Some(text)
    &&& forall|later: int|
        at < later < children.len() ==> !#[trigger] gives_field(children[later], name)
}

/// Where reading the metadata fails, it fails with the fault of the first
/// child that makes one.
pub proof fn lemma_first_metadata_fault_is_reported(children: Seq<NodeModel>)
    requires
        scan_metadata(children) is Err,
    ensures
        exists|at: int| is_first_metadata_fault(children, at, scan_metadata(children)->Err_0),
    decreases children.len(),
{
    let error = scan_metadata(children)->Err_0;
    let front = children.drop_last();
    if scan_metadata(front) is Err {
        lemma_first_metadata_fault_is_reported(front);
        let at = choose|at: int| is_first_metadata_fault(front, at, error);
        assert forall|before: int| 0 <= before < at implies #[trigger] metadata_fault(
            children[before],
        ) is None by {
            assert(metadata_fault(front[before]) is None);
        }
        assert(is_first_metadata_fault(children, at, error));
    } else {
        lemma_metadata_read(front);
        let at = children.len() - 1;
        assert forall|before: int| 0 <= before < at implies #[trigger] metadata_fault(
            children[before],
        ) is None by {
            assert(metadata_fault(front[before]) is None);
        }
        assert(is_first_metadata_fault(children, at, error));
    }
}

/// Where reading the metadata succeeds, no child made a fault; the code is
/// the one given by the last child that gives a code, and the creation
/// time the one given by the last child that gives a time. Neither is
/// there only where no child gives one.
pub proof fn lemma_metadata_read(children: Seq<NodeModel>)
    requires
        scan_metadata(children) is Ok,
    ensures
        forall|at: int|
            0 <= at < children.len() ==> #[trigger] metadata_fault(children[at]) is None,
        match scan_metadata(children)->Ok_0.event_id {
            Some(code) => exists|at: int| is_last_code(children, at, code),
            None => forall|at: int|
                0 <= at < children.len() ==> #[trigger] code_given(children[at]) is None,
        },
        match scan_metadata(children)->Ok_0.time_created {
            Some(time) => exists|at: int| is_last_time(children, at, time),
            None => forall|at: int|
                0 <= at < children.len() ==> #[trigger] time_given(children[at]) is None,
        },
    decreases children.len(),
{
    if children.len() > 0 {
        let front = children.drop_last();
        let last = children.last();
        let end = children.len() - 1;
        assert("EventID"@ != "TimeCreated"@) by {
            reveal_strlit("EventID");
            reveal_strlit("TimeCreated");
            assert("EventID"@.len() == 7 && "TimeCreated"@.len() == 11);
        }
        lemma_metadata_read(front);
        let before = scan_metadata(front)->Ok_0;
        let after = scan_metadata(children)->Ok_0;
        assert forall|at: int| 0 <= at < children.len() implies #[trigger] metadata_fault(
            children[at],
        ) is None by {
            if at < end {
                assert(metadata_fault(front[at]) is None);
            }
        }
        if code_given(last) is Some {
            assert(is_last_code(children, end, after.event_id->0));
        } else {
            assert(after.event_id == before.event_id);
            match before.event_id {
                Some(code) => {
                    let at = choose|at: int| is_last_code(front, at, code);
                    assert forall|later: int|
                        at < later < children.len() implies #[trigger] code_given(
                        children[later],
                    ) is None by {
                        if later < end {
                            assert(code_given(front[later]) is None);
                        }
                    }
                    assert(is_last_code(children, at, code));
                },
                None => {
                    assert forall|at: int| 0 <= at < children.len() implies #[trigger] code_given(
                        children[at],
                    ) is None by {
                        if at < end {
                            assert(code_given(front[at]) is None);
                        }
                    }
                },
            }
        }
        if time_given(last) is Some {
            assert(is_last_time(children, end, after.time_created->0));
        } else {
            assert(after.time_created == before.time_created);
            match before.time_created {
                Some(time) => {
                    let at = choose|at: int| is_last_time(front, at, time);
                    assert forall|later: int|
                        at < later < children.len() implies #[trigger] time_given(
                        children[later],
                    ) is None by {
                        if later < end {
                            assert(time_given(front[later]) is None);
                        }
                    }
                    assert(is_last_time(children, at, time));
                },
                None => {
                    assert forall|at: int| 0 <= at < children.len() implies #[trigger] time_given(
                        children[at],
                    ) is None by {
                        if at < end {
                            assert(time_given(front[at]) is None);
                        }
                    }
                },
            }
        }
    }
}

/// Where reading the fields fails, it fails with the fault of the first
/// child that makes one.
pub proof fn lemma_first_data_fault_is_reported(children: Seq<NodeModel>)
    requires
        scan_data(children) is Err,
    ensures
        exists|at: int| is_first_data_fault(children, at, scan_data(children)->Err_0),
    decreases children.len(),
{
    let error = scan_data(children)->Err_0;
    let front = children.drop_last();
    if scan_data(front) is Err {
        lemma_first_data_fault_is_reported(front);
        let at = choose|at: int| is_first_data_fault(front, at, error);
        assert forall|before: int| 0 <= before < at implies #[trigger] data_fault(
            children[before],
        ) is None by {
            assert(data_fault(front[before]) is None);
        }
        assert(is_first_data_fault(children, at, error));
    } else {
        lemma_fields_read(front);
        let at = children.len() - 1;
        assert forall|before: int| 0 <= before < at implies #[trigger] data_fault(
            children[before],
        ) is None by {
            assert(data_fault(front[before]) is None);
        }
        assert(is_first_data_fault(children, at, error));
    }
}

/// Where reading the fields succeeds, no child made a fault; every name
/// that a `Data` element gives is held, and under every name that is held
/// stands the text of the last element that gives it.
pub proof fn lemma_fields_read(children: Seq<NodeModel>)
    requires
        scan_data(children) is Ok,
    ensures
        forall|at: int| 0 <= at < children.len() ==> #[trigger] data_fault(children[at]) is None,
        scan_data(children)->Ok_0.dom().finite(),
        forall|at: int, name: Seq<char>|
            0 <= at < children.len() && #[trigger] gives_field(children[at], name)
                ==> scan_data(children)->Ok_0.contains_key(name),
        forall|name: Seq<char>| #[trigger]
            scan_data(children)->Ok_0.contains_key(name) ==> exists|at: int|
                is_last_field(children, at, name, scan_data(children)->Ok_0[name]),
    decreases children.len(),
{
    if children.len() > 0 {
        let front = children.drop_last();
        let last = children.last();
        let end = children.len() - 1;
        lemma_fields_read(front);
        let before = scan_data(front)->Ok_0;
        let after = scan_data(children)->Ok_0;
        assert forall|at: int| 0 <= at < children.len() implies #[trigger] data_fault(
            children[at],
        ) is None by {
            if at < end {
                assert(data_fault(front[at]) is None);
            }
        }
        assert forall|at: int, name: Seq<char>|
            0 <= at < children.len() && #[trigger] gives_field(
                children[at],
                name,
            ) implies after.contains_key(name) by {
            if at < end {
                assert(gives_field(front[at], name));
            }
        }
        assert forall|name: Seq<char>| #[trigger] after.contains_key(name) implies exists|at: int|
            is_last_field(children, at, name, after[name]) by {
            if gives_field(last, name) {
                assert(is_last_field(children, end, name, after[name]));
            } else {
                let at = choose|at: int| is_last_field(front, at, name, before[name]);
                assert forall|later: int|
                    at < later < children.len() implies !#[trigger] gives_field(
                    children[later],
                    name,
                ) by {
                    if later < end {
                        assert(!gives_field(front[later], name));
                    }
                }
                assert(is_last_field(children, at, name, after[name]));
            }
        }
    }
}

/// Whether the root element of `doc` has a child named `name`.
pub open spec fn has_section(doc: DocumentModel, name: Seq<char>) -> bool {
    exists|at: int|
        0 <= at < doc.nodes.len() && (#[trigger] doc.nodes[at]).is_child_named(doc.root, name)
}

/// The sections are looked for before anything is read: a document without
/// a `System` child of the root element is refused for that, whatever else
/// it holds; one with it and without an `EventData` child is refused for
/// that.
pub proof fn lemma_missing_section(doc: DocumentModel)
    ensures
        !has_section(doc, "System"@) ==> event_of_document(doc) == Err::<EventModel, ParseError>(
            ParseError::MissingSection(RequiredSection::System),
        ),
        has_section(doc, "System"@) && !has_section(doc, "EventData"@) ==> event_of_document(doc)
            == Err::<EventModel, ParseError>(
            ParseError::MissingSection(RequiredSection::EventData),
        ),
{
    lemma_child_named_from(doc, doc.root, "System"@, 0);
    lemma_child_named_from(doc, doc.root, "EventData"@, 0);
    if doc.first_child_named(doc.root, "System"@) is Some {
        let system = doc.first_child_named(doc.root, "System"@)->0;
        assert(doc.nodes[system].is_child_named(doc.root, "System"@));
    }
    if doc.first_child_named(doc.root, "EventData"@) is Some {
        let data = doc.first_child_named(doc.root, "EventData"@)->0;
        assert(doc.nodes[data].is_child_named(doc.root, "EventData"@));
    }
}

/// What reading the two sections came to, for a document that has both.
proof fn lemma_faults_within_sections(doc: DocumentModel)
    requires
        event_of_document(doc) is Err,
        doc.first_child_named(doc.root, "System"@) is Some,
        doc.first_child_named(doc.root, "EventData"@) is Some,
    ensures
        ({
            let kind = event_of_document(doc)->Err_0.kind_spec();
            kind == ErrorKind::MissingField || kind == ErrorKind::MissingAttribute
        }),
{
    let system = doc.children_of(doc.first_child_named(doc.root, "System"@)->0);
    let data = doc.children_of(doc.first_child_named(doc.root, "EventData"@)->0);
    if scan_metadata(system) is Err {
        lemma_first_metadata_fault_is_reported(system);
    } else if scan_metadata(system)->Ok_0.complete() is Ok {
        lemma_first_data_fault_is_reported(data);
    }
}

/// A document is refused only for something that is missing in it: a
/// section, a value or an attribute. It is refused for a missing section
/// only where the root element has no child of that name.
pub proof fn lemma_document_faults(doc: DocumentModel)
    requires
        event_of_document(doc) is Err,
    ensures
        ({
            let kind = event_of_document(doc)->Err_0.kind_spec();
            kind == ErrorKind::MissingSection || kind == ErrorKind::MissingField || kind
                == ErrorKind::MissingAttribute
        }),
        forall|section: RequiredSection|
            event_of_document(doc) == Err::<EventModel, ParseError>(
                ParseError::MissingSection(section),
            ) ==> !has_section(doc, #[trigger] section.name_spec()),
{
    lemma_missing_section(doc);
    if has_section(doc, "System"@) && has_section(doc, "EventData"@) {
        lemma_child_named_from(doc, doc.root, "System"@, 0);
        lemma_child_named_from(doc, doc.root, "EventData"@, 0);
        lemma_faults_within_sections(doc);
    }
}

/// A text is refused as malformed exactly where it is no well-formed
/// markup.
pub proof fn lemma_malformed_means_no_document(text: Seq<char>)
    ensures
        event_of_markup(text) == Err::<EventModel, ParseError>(ParseError::MalformedDocument)
            <==> markup_document(text) is None,
{
    if markup_document(text) is Some {
        let doc = markup_document(text)->0;
        if event_of_document(doc) is Err {
            lemma_document_faults(doc);
        }
    }
}

/// Every event that is read is whole: the document has both sections, the
/// code is from 1 to 255 and is the one given by the last child of the
/// metadata section that gives one, the creation time likewise, and the
/// fields are those read from the data section.
pub proof fn lemma_event_is_whole(doc: DocumentModel)
    requires
        event_of_document(doc) is Ok,
    ensures
        doc.first_child_named(doc.root, "System"@) is Some,
        doc.first_child_named(doc.root, "EventData"@) is Some,
        1 <= event_of_document(doc)->Ok_0.event_id <= 255,
        ({
            let event = event_of_document(doc)->Ok_0;
            let system = doc.children_of(doc.first_child_named(doc.root, "System"@)->0);
            let data = doc.children_of(doc.first_child_named(doc.root, "EventData"@)->0);
            &&& exists|at: int| is_last_code(system, at, event.event_id)
            &&& exists|at: int| is_last_time(system, at, event.time_created)
            &&& scan_data(data) == Ok::<Map<Seq<char>, Seq<char>>, ParseError>(event.event_data)
            &&& event.event_data.dom().finite()
        }),
{
    let event = event_of_document(doc)->Ok_0;
    let system = doc.children_of(doc.first_child_named(doc.root, "System"@)->0);
    let data = doc.children_of(doc.first_child_named(doc.root, "EventData"@)->0);
    let metadata = scan_metadata(system)->Ok_0;
    assert(metadata.complete() == Ok::<(u8, Timestamp), ParseError>(
        (event.event_id, event.time_created),
    ));
    assert(metadata.event_id == Some(event.event_id));
    assert(metadata.time_created == Some(event.time_created));
    lemma_metadata_read(system);
    lemma_fields_read(data);
    let at = choose|at: int| is_last_code(system, at, event.event_id);
    assert(code_given(system[at]) == Some(event.event_id));
}

/// Reading the same text twice gives the same outcome: the same fault, or
/// events that agree in code, creation time and every field, and so are
/// equal.
pub proof fn lemma_reading_is_repeatable(
    text: Seq<char>,
    first: Result<SysmonEvent, ParseError>,
    second: Result<SysmonEvent, ParseError>,
)
    requires
        event_outcome(first) == event_of_markup(text),
        event_outcome(second) == event_of_markup(text),
    ensures
        first is Ok <==> second is Ok,
        first is Err ==> first->Err_0 == second->Err_0,
        first is Ok ==> {
            &&& first->Ok_0.event_id@ == second->Ok_0.event_id@
            &&& first->Ok_0.time_created == second->Ok_0.time_created
            &&& first->Ok_0.event_data@ == second->Ok_0.event_data@
            &&& first->Ok_0.eq_spec(&second->Ok_0)
        },
{
}

} // verus!
