//! A parsed markup document, held as the list of its nodes.

use vstd::prelude::*;
use crate::error::ParseError;
use crate::text::str_eq;

verus! {

/// An attribute of an element.
#[derive(Debug)]
pub struct XmlAttribute {
    /// The name without its namespace prefix.
    pub name: String,
    pub value: String,
}

/// A node of a document: an element, a text, a comment, a processing
/// instruction or the document itself.
#[derive(Debug)]
pub struct XmlNode {
    /// The place in the document's list of the node that this one lies
    /// directly inside. The document itself lies inside nothing.
    pub parent: Option<usize>,
    /// The element name without its namespace prefix; empty for a node
    /// that is no element.
    pub name: String,
    /// For an element whose first child is a text, that text; for a text
    /// or a comment, its own text.
    pub text: Option<String>,
    /// The attributes of an element in the order in which they are written.
    pub attributes: Vec<XmlAttribute>,
}

/// A document: all its nodes in the order in which they begin in the text,
/// and the place of its root element among them.
///
/// The children of a node are the nodes that name it as their parent, in
/// the order of the list.
#[derive(Debug)]
pub struct XmlDocument {
    pub nodes: Vec<XmlNode>,
    pub root: usize,
}

/// What an attribute holds.
pub struct AttributeModel {
    pub name: Seq<char>,
    pub value: Seq<char>,
}

/// What a node holds.
pub struct NodeModel {
    pub parent: Option<int>,
    pub name: Seq<char>,
    pub text: Option<Seq<char>>,
    pub attributes: Seq<AttributeModel>,
}

/// What a document holds.
pub struct DocumentModel {
    pub nodes: Seq<NodeModel>,
    pub root: int,
}

impl View for XmlAttribute {
    type V = AttributeModel;

    open spec fn view(&self) -> AttributeModel {
        AttributeModel { name: self.name@, value: self.value@ }
    }
}

impl View for XmlNode {
    type V = NodeModel;

    open spec fn view(&self) -> NodeModel {
        NodeModel {
            parent: match self.parent {
                Some(parent) => Some(parent as int),
                None => None,
            },
            name: self.name@,
            text: match self.text {
                Some(text) => Some(text@),
                None => None,
            },
            attributes: self.attributes@.map_values(|attribute: XmlAttribute| attribute@),
        }
    }
}

impl View for XmlDocument {
    type V = DocumentModel;

    open spec fn view(&self) -> DocumentModel {
        DocumentModel {
            nodes: self.nodes@.map_values(|node: XmlNode| node@),
            root: self.root as int,
        }
    }
}

/// The value of the first of `attributes` that is named `name`.
pub open spec fn attribute_value(attributes: Seq<AttributeModel>, name: Seq<char>) -> Option<
    Seq<char>,
>
    decreases attributes.len(),
{
    if attributes.len() == 0 {
        None
    } else if attributes[0].name == name {
        Some(attributes[0].value)
    } else {
        attribute_value(attributes.drop_first(), name)
    }
}

impl NodeModel {
    /// Whether the node lies directly inside the node at `parent` and is
    /// named `name`.
    pub open spec fn is_child_named(self, parent: int, name: Seq<char>) -> bool {
        self.parent == Some(parent) && self.name == name
    }
}

impl DocumentModel {
    /// The children of the node at `parent`, in document order.
    pub open spec fn children_of(self, parent: int) -> Seq<NodeModel> {
        self.nodes.filter(|node: NodeModel| node.parent == Some(parent))
    }

    /// The place of the first child of the node at `parent` that is named
    /// `name` and stands at `from` or later.
    pub open spec fn child_named_from(self, parent: int, name: Seq<char>, from: int) -> Option<int>
        decreases self.nodes.len() - from,
    {
        if from < 0 || from >= self.nodes.len() {
            None
        } else if self.nodes[from].is_child_named(parent, name) {
            Some(from)
        } else {
            self.child_named_from(parent, name, from + 1)
        }
    }

    /// The place of the first child of the node at `parent` that is named
    /// `name`.
    pub open spec fn first_child_named(self, parent: int, name: Seq<char>) -> Option<int> {
        self.child_named_from(parent, name, 0)
    }
}

/// The search for a child finds a child of that parent and name, and none
/// of that parent and name stands between `from` and it; it finds nothing
/// only where there is none from `from` on.
pub proof fn lemma_child_named_from(doc: DocumentModel, parent: int, name: Seq<char>, from: int)
    requires
        0 <= from,
    ensures
        match doc.child_named_from(parent, name, from) {
            Some(at) => {
                &&& from <= at < doc.nodes.len()
                &&& doc.nodes[at].is_child_named(parent, name)
                &&& forall|i: int|
                    from <= i < at ==> !(#[trigger] doc.nodes[i]).is_child_named(parent, name)
            },
            None => forall|i: int|
                from <= i < doc.nodes.len() ==> !(#[trigger] doc.nodes[i]).is_child_named(
                    parent,
                    name,
                ),
        },
    decreases doc.nodes.len() - from,
{
    if from < doc.nodes.len() && !doc.nodes[from].is_child_named(parent, name) {
        lemma_child_named_from(doc, parent, name, from + 1);
    }
}

/// The failure of `roxmltree::Document::parse`, carried as it is; nothing
/// is read from it.
#[verifier::external_type_specification]
#[verifier::external_body]
pub struct ExMarkupError(roxmltree::Error);

/// What `roxmltree::Document::parse` makes of `text`: the nodes of the tree
/// it builds and the place of the root element, or `None` where it refuses
/// the text.
pub uninterp spec fn markup_document(text: Seq<char>) -> Option<DocumentModel>;

/// Calls `roxmltree::Document::parse` and copies the tree out node by
/// node: for each node, in the order of `Document::descendants`, the id of
/// `Node::parent`, the local name of `Node::tag_name`, `Node::text`, and of
/// each of `Node::attributes` the local name and the value; and the id of
/// `Document::root_element`. An id is the node's place in that order.
///
/// Assumed, not proved: the outcome depends on the text alone, so it is the
/// outcome that `markup_document` names.
#[verifier::external_body]
fn parse_markup(xml: &str) -> (parsed: Result<XmlDocument, roxmltree::Error>)
    ensures
        markup_document(xml@) == match parsed {
            Ok(document) => Some(document@),
            Err(_) => None,
        },
{
    let tree = roxmltree::Document::parse(xml)?;
    let nodes = tree.descendants().map(|node| XmlNode {
        parent: node.parent().map(|parent| parent.id().get_usize()),
        name: node.tag_name().name().into(),
        text: node.text().map(String::from),
        attributes: node.attributes().map(|attribute| XmlAttribute {
            name: attribute.name().into(),
            value: attribute.value().into(),
        }).collect(),
    }).collect();
    Ok(XmlDocument { nodes, root: tree.root_element().id().get_usize() })
}

impl XmlNode {
    /// The value of the first attribute named `name`.
    pub fn attribute(&self, name: &str) -> (value: Option<&String>)
        ensures
            match value {
                Some(value) => attribute_value(self@.attributes, name@) == Some(value@),
                None => attribute_value(self@.attributes, name@) is None,
            },
    {
        let ghost all = self@.attributes;
        assert(all.subrange(0, all.len() as int) =~= all);
        let mut at: usize = 0;
        while at < self.attributes.len()
            invariant
                at <= self.attributes@.len(),
                all == self@.attributes,
                attribute_value(all, name@) == attribute_value(
                    all.subrange(at as int, all.len() as int),
                    name@,
                ),
            decreases self.attributes@.len() - at,
        {
            let ghost rest = all.subrange(at as int, all.len() as int);
            assert(rest[0] == self.attributes@[at as int]@);
            if str_eq(self.attributes[at].name.as_str(), name) {
                return Some(&self.attributes[at].value);
            }
            assert(rest.drop_first() =~= all.subrange(at + 1, all.len() as int));
            at += 1;
        }
        assert(all.subrange(at as int, all.len() as int).len() == 0);
        None
    }

    /// Whether the node lies directly inside the node at `parent` and is
    /// named `name`.
    pub fn is_child_named(&self, parent: usize, name: &str) -> (is: bool)
        ensures
            is == self@.is_child_named(parent as int, name@),
    {
        match self.parent {
            Some(actual) => actual == parent && str_eq(self.name.as_str(), name),
            None => false,
        }
    }
}

impl XmlDocument {
    /// Reads a document from its text. Text that is not well-formed markup
    /// is refused as malformed.
    pub fn parse(xml: &str) -> (parsed: Result<XmlDocument, ParseError>)
        ensures
            match parsed {
                Ok(document) => markup_document(xml@) == Some(document@),
                Err(error) => markup_document(xml@) is None && error
                    == ParseError::MalformedDocument,
            },
    {
        match parse_markup(xml) {
            Ok(document) => Ok(document),
            Err(_) => Err(ParseError::MalformedDocument),
        }
    }

    /// The place of the first child of the node at `parent` that is named
    /// `name`.
    pub fn first_child_named(&self, parent: usize, name: &str) -> (found: Option<usize>)
        ensures
            match found {
                Some(at) => self@.first_child_named(parent as int, name@) == Some(at as int)
                    && at < self.nodes@.len(),
                None => self@.first_child_named(parent as int, name@) is None,
            },
    {
        let mut at: usize = 0;
        while at < self.nodes.len()
            invariant
                at <= self.nodes@.len(),
                self@.first_child_named(parent as int, name@) == self@.child_named_from(
                    parent as int,
                    name@,
                    at as int,
                ),
            decreases self.nodes@.len() - at,
        {
            if self.nodes[at].is_child_named(parent, name) {
                return Some(at);
            }
            at += 1;
        }
        None
    }
}

} // verus!
