//! The data fields of an event: a mapping from field name to field text.

use vstd::prelude::*;
use crate::text::str_eq;

verus! {

/// One data field: its name and its text.
#[derive(Debug)]
pub struct DataField {
    pub name: String,
    pub value: String,
}

/// Whether no two of the fields have the same name.
pub open spec fn names_distinct(fields: Seq<DataField>) -> bool {
    forall|i: int, j: int|
        0 <= i < j < fields.len() ==> (#[trigger] fields[i]).name@ != (#[trigger] fields[j]).name@
}

/// Whether one of the fields has the name `name`.
pub open spec fn holds_name(fields: Seq<DataField>, name: Seq<char>) -> bool {
    exists|i: int| 0 <= i < fields.len() && (#[trigger] fields[i]).name@ == name
}

/// The mapping that a list of fields stands for. Where a name occurs more
/// than once, the last field of that name gives the text.
pub open spec fn fields_map(fields: Seq<DataField>) -> Map<Seq<char>, Seq<char>>
    decreases fields.len(),
{
    if fields.len() == 0 {
        Map::empty()
    } else {
        fields_map(fields.drop_last()).insert(fields.last().name@, fields.last().value@)
    }
}

/// A place in `fields` at which a field named `name` stands, where there
/// is one.
pub open spec fn place_of(fields: Seq<DataField>, name: Seq<char>) -> int {
    choose|i: int| 0 <= i < fields.len() && (#[trigger] fields[i]).name@ == name
}

/// What the mapping of a list of fields holds: the names of the list and no
/// others; and, where no name occurs twice, one entry for each field, with
/// that field's text.
pub proof fn lemma_fields_map(fields: Seq<DataField>)
    ensures
        fields_map(fields).dom().finite(),
        forall|name: Seq<char>| #[trigger]
            fields_map(fields).contains_key(name) <==> holds_name(fields, name),
        names_distinct(fields) ==> fields_map(fields).len() == fields.len(),
        names_distinct(fields) ==> forall|i: int|
            0 <= i < fields.len() ==> fields_map(fields)[(#[trigger] fields[i]).name@]
                == fields[i].value@,
    decreases fields.len(),
{
    if fields.len() > 0 {
        let front = fields.drop_last();
        let last = fields.last();
        let end = fields.len() - 1;
        lemma_fields_map(front);
        assert forall|name: Seq<char>| #[trigger]
            fields_map(fields).contains_key(name) <==> holds_name(fields, name) by {
            if holds_name(fields, name) && place_of(fields, name) < end {
                assert(front[place_of(fields, name)].name@ == name);
            }
            if fields_map(fields).contains_key(name) {
                if name == last.name@ {
                    assert(fields[end].name@ == name);
                } else {
                    assert(holds_name(front, name));
                    assert(fields[place_of(front, name)].name@ == name);
                }
            }
        }
        if names_distinct(fields) {
            assert forall|i: int, j: int| 0 <= i < j < front.len() implies (#[trigger] front[i]).name@
                != (#[trigger] front[j]).name@ by {
                assert(fields[i].name@ != fields[j].name@);
            }
            if holds_name(front, last.name@) {
                assert(fields[place_of(front, last.name@)].name@ != fields[end].name@);
            }
            assert(!fields_map(front).contains_key(last.name@));
            assert forall|i: int| 0 <= i < fields.len() implies fields_map(fields)[(
            #[trigger] fields[i]).name@] == fields[i].value@ by {
                if i < end {
                    assert(fields[i].name@ != fields[end].name@);
                    assert(front[i].name@ == fields[i].name@);
                }
            }
        }
    }
}

/// Putting a field in the place of one with the same name changes the
/// mapping as an insertion does, and leaves the names distinct.
pub proof fn lemma_fields_map_replace(fields: Seq<DataField>, at: int, field: DataField)
    requires
        names_distinct(fields),
        0 <= at < fields.len(),
        fields[at].name@ == field.name@,
    ensures
        names_distinct(fields.update(at, field)),
        fields_map(fields.update(at, field)) == fields_map(fields).insert(
            field.name@,
            field.value@,
        ),
{
    let after = fields.update(at, field);
    assert forall|i: int, j: int| 0 <= i < j < after.len() implies (#[trigger] after[i]).name@
        != (#[trigger] after[j]).name@ by {
        assert(fields[i].name@ != fields[j].name@);
    }
    lemma_fields_map(fields);
    lemma_fields_map(after);
    let expected = fields_map(fields).insert(field.name@, field.value@);
    assert forall|name: Seq<char>| fields_map(after).contains_key(name) implies #[trigger]
        expected.contains_key(name) && fields_map(after)[name] == expected[name] by {
        let i = place_of(after, name);
        assert(fields[i].name@ == name);
        if i != at {
            assert(after[i] == fields[i]);
            if i < at {
                assert(fields[i].name@ != fields[at].name@);
            } else {
                assert(fields[at].name@ != fields[i].name@);
            }
        }
    }
    assert forall|name: Seq<char>| #[trigger] expected.contains_key(name) implies fields_map(
        after,
    ).contains_key(name) by {
        if name == field.name@ {
            assert(after[at].name@ == name);
        } else {
            assert(after[place_of(fields, name)].name@ == name);
        }
    }
    assert(fields_map(after) =~= expected);
}

/// Adding a field under a new name changes the mapping as an insertion
/// does, and leaves the names distinct.
pub proof fn lemma_fields_map_push(fields: Seq<DataField>, field: DataField)
    requires
        names_distinct(fields),
        !holds_name(fields, field.name@),
    ensures
        names_distinct(fields.push(field)),
        fields_map(fields.push(field)) == fields_map(fields).insert(field.name@, field.value@),
{
    let after = fields.push(field);
    assert(after.drop_last() =~= fields);
    assert forall|i: int, j: int| 0 <= i < j < after.len() implies (#[trigger] after[i]).name@
        != (#[trigger] after[j]).name@ by {
        if j == fields.len() {
            assert(fields[i].name@ != field.name@);
        } else {
            assert(fields[i].name@ != fields[j].name@);
        }
    }
}

/// A mapping from field name to field text, each name held once.
///
/// Putting a text under a name that is already held replaces the earlier
/// text. The order in which the fields were put in carries no meaning.
///
/// The fields are kept in a list, so finding a name takes time in
/// proportion to their number; an event has a few dozen.
#[derive(Debug)]
pub struct FieldMap {
    fields: Vec<DataField>,
}

impl View for FieldMap {
    type V = Map<Seq<char>, Seq<char>>;

    closed spec fn view(&self) -> Map<Seq<char>, Seq<char>> {
        fields_map(self.fields@)
    }
}

impl FieldMap {
    #[verifier::type_invariant]
    spec fn each_name_once(self) -> bool {
        names_distinct(self.fields@)
    }

    /// The fields in the order in which they are kept.
    pub closed spec fn listing(self) -> Seq<DataField> {
        self.fields@
    }

    /// A mapping that holds nothing.
    pub fn new() -> (map: FieldMap)
        ensures
            map@ == Map::<Seq<char>, Seq<char>>::empty(),
    {
        FieldMap { fields: Vec::new() }
    }

    /// Where the field named `name` is kept, if there is one.
    fn position(&self, name: &str) -> (found: Option<usize>)
        ensures
            match found {
                Some(at) => at < self.fields@.len() && self.fields@[at as int].name@ == name@,
                None => !holds_name(self.fields@, name@),
            },
    {
        let mut at: usize = 0;
        while at < self.fields.len()
            invariant
                at <= self.fields@.len(),
                forall|i: int| 0 <= i < at ==> (#[trigger] self.fields@[i]).name@ != name@,
            decreases self.fields@.len() - at,
        {
            if str_eq(self.fields[at].name.as_str(), name) {
                return Some(at);
            }
            at += 1;
        }
        None
    }

    /// The number of fields.
    pub fn len(&self) -> (count: usize)
        ensures
            count == self@.len(),
            self@.dom().finite(),
    {
        proof {
            use_type_invariant(self);
            lemma_fields_map(self.fields@);
        }
        self.fields.len()
    }

    /// Whether the mapping holds no field.
    pub fn is_empty(&self) -> (empty: bool)
        ensures
            empty == (self@.len() == 0),
            empty == (self@ == Map::<Seq<char>, Seq<char>>::empty()),
    {
        proof {
            use_type_invariant(self);
            lemma_fields_map(self.fields@);
            if self.fields@.len() > 0 {
                assert(self@.contains_key(self.fields@[0].name@));
            } else {
                assert(self@ =~= Map::<Seq<char>, Seq<char>>::empty());
            }
        }
        self.fields.len() == 0
    }

    /// Whether a field named `name` is held.
    pub fn contains_key(&self, name: &str) -> (held: bool)
        ensures
            held == self@.contains_key(name@),
    {
        proof {
            lemma_fields_map(self.fields@);
        }
        self.position(name).is_some()
    }

    /// The text of the field named `name`, if one is held.
    pub fn get(&self, name: &str) -> (text: Option<&String>)
        ensures
            match text {
                Some(value) => self@.contains_key(name@) && self@[name@] == value@,
                None => !self@.contains_key(name@),
            },
    {
        proof {
            use_type_invariant(self);
            lemma_fields_map(self.fields@);
        }
        match self.position(name) {
            Some(at) => Some(&self.fields[at].value),
            None => None,
        }
    }

    /// Puts `value` under `name`. A text held under that name before is
    /// replaced; every other field stays as it is.
    pub fn insert(&mut self, name: String, value: String)
        ensures
            final(self)@ == old(self)@.insert(name@, value@),
    {
        // The list is taken out, changed and put back whole, so that the
        // mapping holds each name once at every step.
        let mut taken = FieldMap::new();
        core::mem::swap(self, &mut taken);
        proof {
            use_type_invariant(&taken);
        }
        let found = taken.position(name.as_str());
        let mut fields = taken.fields;
        let field = DataField { name, value };
        match found {
            Some(at) => {
                proof {
                    lemma_fields_map_replace(fields@, at as int, field);
                }
                fields.set(at, field);
            },
            None => {
                proof {
                    lemma_fields_map_push(fields@, field);
                }
                fields.push(field);
            },
        }
        *self = FieldMap { fields };
    }

    /// The fields, each name once, in no order that carries meaning.
    pub fn fields(&self) -> (fields: &Vec<DataField>)
        ensures
            fields@ == self.listing(),
            names_distinct(fields@),
            fields_map(fields@) == self@,
    {
        proof {
            use_type_invariant(self);
        }
        &self.fields
    }
}

impl Clone for DataField {
    fn clone(&self) -> (copy: DataField)
        ensures
            copy == *self,
    {
        DataField { name: self.name.clone(), value: self.value.clone() }
    }
}

impl Clone for FieldMap {
    fn clone(&self) -> (copy: FieldMap)
        ensures
            copy@ == self@,
    {
        proof {
            use_type_invariant(self);
        }
        let mut fields: Vec<DataField> = Vec::new();
        let mut at: usize = 0;
        while at < self.fields.len()
            invariant
                at <= self.fields@.len(),
                fields@ == self.fields@.subrange(0, at as int),
            decreases self.fields@.len() - at,
        {
            fields.push(self.fields[at].clone());
            at += 1;
            assert(fields@ =~= self.fields@.subrange(0, at as int));
        }
        assert(fields@ =~= self.fields@);
        FieldMap { fields }
    }
}

/// Two mappings are equal when they hold the same names with the same
/// texts, in whatever order the fields were put in.
impl PartialEq for FieldMap {
    fn eq(&self, other: &FieldMap) -> (same: bool) {
        proof {
            use_type_invariant(self);
            use_type_invariant(other);
            lemma_fields_map(self.fields@);
            lemma_fields_map(other.fields@);
        }
        if self.fields.len() != other.fields.len() {
            return false;
        }
        let mut at: usize = 0;
        while at < self.fields.len()
            invariant
                at <= self.fields@.len(),
                names_distinct(self.fields@),
                forall|i: int|
                    0 <= i < at ==> other@.contains_key((#[trigger] self.fields@[i]).name@)
                        && other@[self.fields@[i].name@] == self.fields@[i].value@,
            decreases self.fields@.len() - at,
        {
            let field = &self.fields[at];
            proof {
                lemma_fields_map(self.fields@);
                assert(self@[self.fields@[at as int].name@] == field.value@);
                assert(self@.contains_key(self.fields@[at as int].name@));
            }
            match other.get(field.name.as_str()) {
                Some(value) => {
                    if !str_eq(value.as_str(), field.value.as_str()) {
                        return false;
                    }
                },
                None => {
                    return false;
                },
            }
            at += 1;
        }
        proof {
            assert forall|name: Seq<char>| self@.contains_key(name) implies other@.contains_key(
                name,
            ) && self@[name] == other@[name] by {
                assert(other@.contains_key(self.fields@[place_of(self.fields@, name)].name@));
            }
            assert(self@.dom().subset_of(other@.dom()));
            vstd::set_lib::lemma_subset_equality(self@.dom(), other@.dom());
            assert(self@ =~= other@);
        }
        true
    }
}

impl Eq for FieldMap {

}

impl vstd::std_specs::cmp::PartialEqSpecImpl for FieldMap {
    open spec fn obeys_eq_spec() -> bool {
        true
    }

    open spec fn eq_spec(&self, other: &FieldMap) -> bool {
        self@ == other@
    }
}

} // verus!
