//! The schema intermediate representation: a tree of nodes with orthogonal
//! optional facets, as produced by reflection-based schema generators.
//!
//! The translator only reads these values; it never mutates or retains them.
//! Numeric values that may be fractional (number-facet bounds, JSON number
//! literals) are carried as their decimal text, since the translator only
//! compares them against zero and splices them into the output verbatim.
//!
//! The well-formedness invariant `wf`, required by the translation entry
//! points, pins the canonical lexicographic property order (the image of an
//! ordered map) and keeps every numeric bound in JSON decimal form;
//! `wf_check` tests it at run time for callers whose schemas come from an
//! untrusted builder.

use vstd::prelude::*;

verus! {

/// A JSON value carried by a literal, enum, default or description facet.
///
/// A number is held as its decimal rendering (for example `"0"`, `"-3.5"`,
/// `"1e10"`); the encoder checks the text against the JSON number grammar
/// before splicing it into the output.
#[derive(Debug)]
pub enum JsonValue {
    Null,
    Bool(bool),
    /// A number, as its decimal text.
    Number(String),
    String(String),
    Array(Vec<JsonValue>),
    /// An object, as a list of key/value pairs in the order they are to be
    /// emitted.
    Object(Vec<(String, JsonValue)>),
}

/// The primitive type tags a node may declare.
#[derive(Clone, Copy, Debug, PartialEq, Eq, Structural)]
pub enum InstanceType {
    Null,
    Boolean,
    Object,
    Array,
    Number,
    String,
    Integer,
}

/// The declared instance type of a node: exactly one tag, or a set of tags
/// (a union-of-primitive-types shorthand, where a `Null` member means
/// "nullable" rather than a real member type).
#[derive(Debug)]
pub enum InstanceTypes {
    Single(InstanceType),
    Multiple(Vec<InstanceType>),
}

/// The item schemas of an array node: one schema for a homogeneous array, or
/// a list of schemas for a fixed-arity tuple.
#[derive(Debug)]
pub enum Items {
    Single(Box<Schema>),
    Tuple(Vec<Schema>),
}

/// Description and default metadata of a node.
#[derive(Debug)]
pub struct Metadata {
    pub description: Option<String>,
    pub default: Option<JsonValue>,
}

/// Constraints refining a string-typed node.
#[derive(Debug)]
pub struct StringValidation {
    pub min_length: Option<u32>,
    pub max_length: Option<u32>,
    pub pattern: Option<String>,
}

/// Constraints refining a number- or integer-typed node.  Each bound is
/// carried as its decimal text.
#[derive(Debug)]
pub struct NumberValidation {
    pub multiple_of: Option<String>,
    pub minimum: Option<String>,
    pub exclusive_minimum: Option<String>,
    pub maximum: Option<String>,
    pub exclusive_maximum: Option<String>,
}

/// Constraints refining an array-typed node.
#[derive(Debug)]
pub struct ArrayValidation {
    pub items: Option<Items>,
    pub additional_items: Option<Box<Schema>>,
    pub max_items: Option<u32>,
    pub min_items: Option<u32>,
    pub unique_items: Option<bool>,
    pub contains: Option<Box<Schema>>,
}

/// Constraints refining an object-typed node.
///
/// Property keys are unique and listed in canonical (lexicographic) order,
/// as an ordered map hands them over — the `wf` invariant states this — and
/// the translator emits them in the order given here.
#[derive(Debug)]
pub struct ObjectValidation {
    pub max_properties: Option<u32>,
    pub min_properties: Option<u32>,
    pub required: Vec<String>,
    pub properties: Vec<(String, Schema)>,
    pub pattern_properties: Vec<(String, Schema)>,
    pub additional_properties: Option<Box<Schema>>,
    pub property_names: Option<Box<Schema>>,
}

/// The subschema combinators of a union node.  A node with this facet
/// present is classified as a union; combinators other than `one_of` and
/// `any_of` are unsupported.
#[derive(Debug)]
pub struct SubschemaValidation {
    pub one_of: Option<Vec<Schema>>,
    pub any_of: Option<Vec<Schema>>,
}

/// A structured schema node: a record of orthogonal optional facets.
/// Absence of a facet means "not constrained along that axis".
#[derive(Debug)]
pub struct SchemaObject {
    pub metadata: Option<Box<Metadata>>,
    pub instance_type: Option<InstanceTypes>,
    pub format: Option<String>,
    pub enum_values: Option<Vec<JsonValue>>,
    pub const_value: Option<JsonValue>,
    pub subschemas: Option<Box<SubschemaValidation>>,
    pub number: Option<Box<NumberValidation>>,
    pub string: Option<Box<StringValidation>>,
    pub array: Option<Box<ArrayValidation>>,
    pub object: Option<Box<ObjectValidation>>,
}

/// A schema IR node: trivially accept-all (`Bool(true)`), trivially
/// reject-all (`Bool(false)`), or a structured node.
#[derive(Debug)]
pub enum Schema {
    Bool(bool),
    Object(SchemaObject),
}

/// Strict lexicographic order on character sequences, by code point, a
/// proper prefix before its extensions.
pub open spec fn lex_lt(a: Seq<char>, b: Seq<char>) -> bool
    decreases a.len(),
{
    if b.len() == 0 {
        false
    } else if a.len() == 0 {
        true
    } else if (a[0] as u32) < (b[0] as u32) {
        true
    } else if (a[0] as u32) > (b[0] as u32) {
        false
    } else {
        lex_lt(a.skip(1), b.skip(1))
    }
}

/// Whether a present numeric bound is in JSON decimal form.
pub open spec fn bound_wf(t: Option<String>) -> bool {
    match t {
        Some(t) => crate::json::is_json_number(t@),
        None => true,
    }
}

impl NumberValidation {
    /// Well-formed: every present bound is a number of the JSON grammar, so
    /// that splicing it into the output yields a well-formed literal.
    pub open spec fn wf(self) -> bool {
        &&& bound_wf(self.multiple_of)
        &&& bound_wf(self.minimum)
        &&& bound_wf(self.exclusive_minimum)
        &&& bound_wf(self.maximum)
        &&& bound_wf(self.exclusive_maximum)
    }

    /// Check the well-formedness invariant.
    pub fn wf_check(&self) -> (r: bool)
        ensures
            r == self.wf(),
    {
        let a = match &self.multiple_of {
            Some(t) => crate::json::check_json_number(t.as_str()),
            None => true,
        };
        let b = match &self.minimum {
            Some(t) => crate::json::check_json_number(t.as_str()),
            None => true,
        };
        let c = match &self.exclusive_minimum {
            Some(t) => crate::json::check_json_number(t.as_str()),
            None => true,
        };
        let d = match &self.maximum {
            Some(t) => crate::json::check_json_number(t.as_str()),
            None => true,
        };
        let e = match &self.exclusive_maximum {
            Some(t) => crate::json::check_json_number(t.as_str()),
            None => true,
        };
        a && b && c && d && e
    }
}

impl ObjectValidation {
    /// Well-formed: the property keys strictly ascend in lexicographic
    /// order — the image of an ordered map, giving canonical emission order
    /// and unique keys — and every nested schema is well-formed.
    pub open spec fn wf(self) -> bool
        decreases self,
    {
        &&& forall|i: int|
            0 <= i && i + 1 < self.properties@.len() ==> lex_lt(
                (#[trigger] self.properties@[i]).0@,
                self.properties@[i + 1].0@,
            )
        &&& forall|i: int|
            0 <= i < self.properties@.len() ==> (#[trigger] self.properties@[i]).1.wf()
        &&& match self.additional_properties {
            Some(a) => a.wf(),
            None => true,
        }
    }

    /// Check the well-formedness invariant.
    pub fn wf_check(&self) -> (r: bool)
        ensures
            r == self.wf(),
        decreases *self,
    {
        let n = self.properties.len();
        for i in 0..n
            invariant
                n == self.properties@.len(),
                forall|j: int|
                    0 <= j && j + 1 < i ==> lex_lt(
                        (#[trigger] self.properties@[j]).0@,
                        self.properties@[j + 1].0@,
                    ),
        {
            if i > 0 && !str_lt(self.properties[i - 1].0.as_str(), self.properties[i].0.as_str()) {
                proof {
                    assert(!self.wf()) by {
                        if self.wf() {
                            assert(lex_lt(self.properties@[i - 1].0@, self.properties@[i as int].0@));
                        }
                    }
                }
                return false;
            }
            proof {
                assert forall|j: int| 0 <= j && j + 1 < i + 1 implies lex_lt(
                    (#[trigger] self.properties@[j]).0@,
                    self.properties@[j + 1].0@,
                ) by {
                    if j + 1 == i {
                        assert(i > 0);
                        assert(lex_lt(self.properties@[i - 1].0@, self.properties@[i as int].0@));
                    }
                }
            }
        }
        for i in 0..n
            invariant
                n == self.properties@.len(),
                forall|j: int| 0 <= j < i ==> (#[trigger] self.properties@[j]).1.wf(),
        {
            proof {
                assert(decreases_to!(*self => self.properties));
                assert(decreases_to!(self.properties => self.properties@));
                assert(decreases_to!(self.properties@ => self.properties@[i as int]));
                assert(decreases_to!(self.properties@[i as int] => self.properties@[i as int].1));
            }
            if !self.properties[i].1.wf_check() {
                proof {
                    assert(!self.wf()) by {
                        if self.wf() {
                            assert(self.properties@[i as int].1.wf());
                        }
                    }
                }
                return false;
            }
        }
        match &self.additional_properties {
            Some(a) => {
                proof {
                    assert(decreases_to!(*self => self.additional_properties));
                    assert(decreases_to!(self.additional_properties => self.additional_properties->0));
                }
                a.wf_check()
            },
            None => true,
        }
    }
}

impl ArrayValidation {
    /// Well-formed: every nested schema is well-formed.
    pub open spec fn wf(self) -> bool
        decreases self,
    {
        &&& match self.items {
            Some(Items::Single(item)) => item.wf(),
            Some(Items::Tuple(elems)) => forall|i: int|
                0 <= i < elems@.len() ==> (#[trigger] elems@[i]).wf(),
            None => true,
        }
        &&& match self.additional_items {
            Some(a) => a.wf(),
            None => true,
        }
    }

    /// Check the well-formedness invariant.
    pub fn wf_check(&self) -> (r: bool)
        ensures
            r == self.wf(),
        decreases *self,
    {
        let items_ok = match &self.items {
            Some(Items::Single(item)) => {
                proof {
                    assert(decreases_to!(*self => self.items));
                    assert(decreases_to!(self.items => self.items->0));
                    assert(decreases_to!(self.items->0 => self.items->0->Single_0));
                }
                item.wf_check()
            },
            Some(Items::Tuple(elems)) => {
                proof {
                    assert(decreases_to!(*self => self.items));
                    assert(decreases_to!(self.items => self.items->0));
                    assert(decreases_to!(self.items->0 => self.items->0->Tuple_0));
                    assert(decreases_to!(self.items->0->Tuple_0 => elems@));
                }
                schemas_wf_check(elems)
            },
            None => true,
        };
        if !items_ok {
            return false;
        }
        match &self.additional_items {
            Some(a) => {
                proof {
                    assert(decreases_to!(*self => self.additional_items));
                    assert(decreases_to!(self.additional_items => self.additional_items->0));
                }
                a.wf_check()
            },
            None => true,
        }
    }
}

impl SubschemaValidation {
    /// Well-formed: every member schema is well-formed.
    pub open spec fn wf(self) -> bool
        decreases self,
    {
        &&& match self.one_of {
            Some(v) => forall|i: int| 0 <= i < v@.len() ==> (#[trigger] v@[i]).wf(),
            None => true,
        }
        &&& match self.any_of {
            Some(v) => forall|i: int| 0 <= i < v@.len() ==> (#[trigger] v@[i]).wf(),
            None => true,
        }
    }

    /// Check the well-formedness invariant.
    pub fn wf_check(&self) -> (r: bool)
        ensures
            r == self.wf(),
        decreases *self,
    {
        let one_ok = match &self.one_of {
            Some(v) => {
                proof {
                    assert(decreases_to!(*self => self.one_of));
                    assert(decreases_to!(self.one_of => self.one_of->0));
                    assert(decreases_to!(self.one_of->0 => self.one_of->0@));
                }
                schemas_wf_check(v)
            },
            None => true,
        };
        if !one_ok {
            return false;
        }
        match &self.any_of {
            Some(v) => {
                proof {
                    assert(decreases_to!(*self => self.any_of));
                    assert(decreases_to!(self.any_of => self.any_of->0));
                    assert(decreases_to!(self.any_of->0 => self.any_of->0@));
                }
                schemas_wf_check(v)
            },
            None => true,
        }
    }
}

impl SchemaObject {
    /// Well-formed: every facet the translator reads is well-formed.
    pub open spec fn wf(self) -> bool
        decreases self,
    {
        &&& match self.number {
            Some(nv) => nv.wf(),
            None => true,
        }
        &&& match self.subschemas {
            Some(sub) => sub.wf(),
            None => true,
        }
        &&& match self.array {
            Some(av) => av.wf(),
            None => true,
        }
        &&& match self.object {
            Some(ov) => ov.wf(),
            None => true,
        }
    }

    /// Check the well-formedness invariant.
    pub fn wf_check(&self) -> (r: bool)
        ensures
            r == self.wf(),
        decreases *self,
    {
        let number_ok = match &self.number {
            Some(nv) => nv.wf_check(),
            None => true,
        };
        if !number_ok {
            return false;
        }
        let sub_ok = match &self.subschemas {
            Some(sub) => {
                proof {
                    assert(decreases_to!(*self => self.subschemas));
                    assert(decreases_to!(self.subschemas => self.subschemas->0));
                }
                sub.wf_check()
            },
            None => true,
        };
        if !sub_ok {
            return false;
        }
        let array_ok = match &self.array {
            Some(av) => {
                proof {
                    assert(decreases_to!(*self => self.array));
                    assert(decreases_to!(self.array => self.array->0));
                }
                av.wf_check()
            },
            None => true,
        };
        if !array_ok {
            return false;
        }
        match &self.object {
            Some(ov) => {
                proof {
                    assert(decreases_to!(*self => self.object));
                    assert(decreases_to!(self.object => self.object->0));
                }
                ov.wf_check()
            },
            None => true,
        }
    }
}

impl Schema {
    /// Well-formed: the node's facets satisfy their invariants — property
    /// keys in canonical order, numeric bounds in JSON decimal form —
    /// recursively.
    pub open spec fn wf(self) -> bool
        decreases self,
    {
        match self {
            Schema::Bool(_) => true,
            Schema::Object(o) => o.wf(),
        }
    }

    /// Check the well-formedness invariant, for callers that receive a
    /// schema from an untrusted builder.
    pub fn wf_check(&self) -> (r: bool)
        ensures
            r == self.wf(),
        decreases *self,
    {
        match self {
            Schema::Bool(_) => true,
            Schema::Object(o) => {
                proof {
                    assert(decreases_to!(*self => self->Object_0));
                }
                o.wf_check()
            },
        }
    }
}

/// Whether every schema of the list is well-formed.
fn schemas_wf_check(ss: &Vec<Schema>) -> (r: bool)
    ensures
        r == (forall|i: int| 0 <= i < ss@.len() ==> (#[trigger] ss@[i]).wf()),
    decreases ss@,
{
    let n = ss.len();
    for i in 0..n
        invariant
            n == ss@.len(),
            forall|j: int| 0 <= j < i ==> (#[trigger] ss@[j]).wf(),
    {
        proof {
            assert(decreases_to!(ss@ => ss@[i as int]));
        }
        if !ss[i].wf_check() {
            return false;
        }
    }
    true
}

/// Whether the first text precedes the second in lexicographic order.
fn str_lt(a: &str, b: &str) -> (r: bool)
    ensures
        r == lex_lt(a@, b@),
{
    proof {
        assert(a@.skip(0) =~= a@);
        assert(b@.skip(0) =~= b@);
    }
    str_lt_from(a, b, 0)
}

/// Whether the tails of the two texts from position `i` on compare in
/// lexicographic order.
fn str_lt_from(a: &str, b: &str, i: usize) -> (r: bool)
    requires
        i <= a@.len(),
        i <= b@.len(),
    ensures
        r == lex_lt(a@.skip(i as int), b@.skip(i as int)),
    decreases a@.len() - i,
{
    let la = a.unicode_len();
    let lb = b.unicode_len();
    if i == lb {
        false
    } else if i == la {
        true
    } else {
        let ca = a.get_char(i);
        let cb = b.get_char(i);
        proof {
            assert(a@.skip(i as int)[0] == a@[i as int]);
            assert(b@.skip(i as int)[0] == b@[i as int]);
        }
        if (ca as u32) < (cb as u32) {
            true
        } else if (ca as u32) > (cb as u32) {
            false
        } else {
            proof {
                assert(a@.skip(i as int).skip(1) =~= a@.skip(i + 1));
                assert(b@.skip(i as int).skip(1) =~= b@.skip(i + 1));
            }
            str_lt_from(a, b, i + 1)
        }
    }
}

} // verus!
