//! The union rule.  The member list is `oneOf` if present, else `anyOf`.
//! No members give the accept-any expression; one member is translated
//! directly with no union wrapper.  For two or more members, discriminant
//! inference looks for the single property key that is literal-valued in
//! every member (each member must be an object-typed node with an object
//! facet); success gives a discriminated-union expression naming that key,
//! failure a plain union.  A union node that also carries its own object
//! facet is wrapped in an intersection with that facet's translation, the
//! operand order following the configuration.

use vstd::prelude::*;

verus! {

use crate::emit::{join_with, views_of, Expr, ExprS};
use crate::json::json_string;
use crate::parsers::literal::spec_is_literal;
use crate::parsers::object::t_object_v;
use crate::parsers::schema::{lemma_t_variants_err, t_schema, t_variants};
use crate::schema::{InstanceType, InstanceTypes, ObjectValidation, Schema, SchemaObject};
use crate::{expr_matches, rendered_matches, Config, Error, ParserInner};

/// Whether the node is classified as a union: the subschemas facet is
/// present.
pub open spec fn spec_is_union(o: SchemaObject) -> bool {
    o.subschemas is Some
}

/// The object facet of a union member that has the shape discriminant
/// inference requires: an object-typed node carrying an object facet.
pub open spec fn object_shaped(s: Schema) -> Option<ObjectValidation> {
    match s {
        Schema::Object(so) => match so.instance_type {
            Some(InstanceTypes::Single(InstanceType::Object)) => match so.object {
                Some(ov) => Some(*ov),
                None => None,
            },
            _ => None,
        },
        Schema::Bool(_) => None,
    }
}

/// The keys of the properties whose schemas are literals, in declaration
/// order.
pub open spec fn literal_keys(props: Seq<(String, Schema)>) -> Seq<Seq<char>>
    decreases props.len(),
{
    if props.len() == 0 {
        Seq::<Seq<char>>::empty()
    } else {
        literal_keys(props.drop_last()) + (match props.last().1 {
            Schema::Object(so) => if spec_is_literal(so) {
                seq![props.last().0@]
            } else {
                Seq::<Seq<char>>::empty()
            },
            Schema::Bool(_) => Seq::<Seq<char>>::empty(),
        })
    }
}

/// The literal-valued property keys of one union member, in declaration
/// order; empty when the member does not have the required shape.
pub open spec fn member_literal_keys(s: Schema) -> Seq<Seq<char>> {
    match object_shaped(s) {
        Some(ov) => literal_keys(ov.properties@),
        None => Seq::<Seq<char>>::empty(),
    }
}

/// Those of the given keys that also occur in the other list, keeping their
/// order.
pub open spec fn keys_in(keys: Seq<Seq<char>>, other: Seq<Seq<char>>) -> Seq<Seq<char>>
    decreases keys.len(),
{
    if keys.len() == 0 {
        Seq::<Seq<char>>::empty()
    } else {
        keys_in(keys.drop_last(), other) + (if other.contains(keys.last()) {
            seq![keys.last()]
        } else {
            Seq::<Seq<char>>::empty()
        })
    }
}

/// The literal keys common to the first `i` union members.
pub open spec fn common_keys_upto(variants: Seq<Schema>, i: int) -> Seq<Seq<char>>
    decreases i,
{
    if i <= 1 {
        member_literal_keys(variants[0])
    } else {
        keys_in(common_keys_upto(variants, i - 1), member_literal_keys(variants[i - 1]))
    }
}

/// Whether every union member has the shape discriminant inference
/// requires.
pub open spec fn all_object_shaped(variants: Seq<Schema>) -> bool {
    forall|i: int| 0 <= i < variants.len() ==> (#[trigger] object_shaped(variants[i])) is Some
}

/// The discriminant of a union: the single property key that is
/// literal-valued in every member, when every member is an object-typed
/// node and exactly one such key is shared.
pub open spec fn discriminant_of(variants: Seq<Schema>) -> Option<Seq<char>> {
    if variants.len() > 0 && all_object_shaped(variants) {
        if common_keys_upto(variants, variants.len() as int).len() == 1 {
            Some(common_keys_upto(variants, variants.len() as int)[0])
        } else {
            None
        }
    } else {
        None
    }
}

/// The member list of a union node: `oneOf` if present, else `anyOf`.
pub open spec fn union_members(o: SchemaObject) -> Option<Seq<Schema>> {
    match o.subschemas {
        Some(sub) => match sub.one_of {
            Some(v) => Some(v@),
            None => match sub.any_of {
                Some(v) => Some(v@),
                None => None,
            },
        },
        None => None,
    }
}

/// The intersection of a union expression with the node's own object-facet
/// expression, the operand order following the configuration.
pub open spec fn intersect_text(c: Config, u: Seq<char>, and: Seq<char>) -> Seq<char> {
    if c.union_first {
        "z.intersection("@ + u + ", "@ + and + ")"@
    } else {
        "z.intersection("@ + and + ", "@ + u + ")"@
    }
}

/// The union rule.
pub open spec fn t_union(c: Config, o: SchemaObject) -> Result<ExprS, Error>
    decreases o, 8int, 0int,
{
    if o.subschemas is None {
        Err(Error::ForgotCheck("Union: parse_union requires property subschemas"))
    } else {
        match union_members(o) {
            None => Err(
                Error::Unimplemented("Union: subschemas are only supported with any_of or one_of"),
            ),
            Some(variants) => if variants.len() == 0 {
                Ok(ExprS { text: "z.any()"@, nullable: false })
            } else if variants.len() == 1 {
                t_schema(c, variants[0])
            } else {
                match t_variants(c, variants) {
                    Ok(parts) => {
                        let u = match discriminant_of(variants) {
                            Some(k) => "z.discriminatedUnion("@ + json_string(k) + ", ["@
                                + join_with(parts, ", "@) + "])"@,
                            None => "z.union(["@ + join_with(parts, ", "@) + "])"@,
                        };
                        match o.object {
                            Some(ov) => match t_object_v(c, *ov) {
                                Ok(and) => Ok(
                                    ExprS { text: intersect_text(c, u, and), nullable: false },
                                ),
                                Err(k) => Err(k),
                            },
                            None => Ok(ExprS { text: u, nullable: false }),
                        }
                    },
                    Err(k) => Err(k),
                }
            },
        }
    }
}

/// Those of the given keys that also occur in the other list.
fn filter_contained(keys: &Vec<String>, other: &Vec<String>) -> (r: Vec<String>)
    ensures
        views_of(r@) == keys_in(views_of(keys@), views_of(other@)),
{
    let ghost kv = views_of(keys@);
    let mut out: Vec<String> = Vec::new();
    let n = keys.len();
    assert(kv.take(0) =~= Seq::<Seq<char>>::empty());
    assert(views_of(out@) =~= Seq::<Seq<char>>::empty());
    assert(keys_in(kv.take(0), views_of(other@)) =~= Seq::<Seq<char>>::empty());
    for i in 0..n
        invariant
            n == keys@.len(),
            kv == views_of(keys@),
            views_of(out@) == keys_in(kv.take(i as int), views_of(other@)),
    {
        let ghost prev = views_of(out@);
        let hit = crate::emit::vec_contains_string(other, &keys[i]);
        proof {
            crate::emit::lemma_contains_views(other@, keys@[i as int]@);
        }
        if hit {
            out.push(keys[i].clone());
        }
        proof {
            assert(kv.take(i + 1).drop_last() =~= kv.take(i as int));
            assert(kv.take(i + 1).last() == keys@[i as int]@);
            if hit {
                assert(views_of(out@) =~~= prev.push(keys@[i as int]@));
            }
            assert(views_of(out@) =~~= keys_in(kv.take(i + 1), views_of(other@)));
        }
    }
    proof {
        assert(kv.take(n as int) =~= kv);
    }
    out
}

impl ParserInner {
    /// The literal-property keys of one union member, when the member has
    /// the shape discriminant inference requires.
    fn member_keys(&self, s: &Schema) -> (r: Option<Vec<String>>)
        ensures
            match (r, object_shaped(*s)) {
                (Some(keys), Some(_)) => views_of(keys@) == member_literal_keys(*s),
                (None, None) => true,
                _ => false,
            },
    {
        let ov = match s {
            Schema::Object(so) => {
                let is_object_type = match &so.instance_type {
                    Some(InstanceTypes::Single(t)) => *t == InstanceType::Object,
                    _ => false,
                };
                if is_object_type {
                    match &so.object {
                        Some(ov) => ov,
                        None => {
                            return None;
                        },
                    }
                } else {
                    return None;
                }
            },
            Schema::Bool(_) => {
                return None;
            },
        };
        let mut keys: Vec<String> = Vec::new();
        let n = ov.properties.len();
        assert(ov.properties@.take(0) =~= Seq::<(String, Schema)>::empty());
        assert(views_of(keys@) =~= Seq::<Seq<char>>::empty());
        for i in 0..n
            invariant
                n == ov.properties@.len(),
                views_of(keys@) == literal_keys(ov.properties@.take(i as int)),
        {
            let ghost prev = views_of(keys@);
            let pair = &ov.properties[i];
            let is_lit = match &pair.1 {
                Schema::Object(vo) => self.is_literal(vo),
                Schema::Bool(_) => false,
            };
            if is_lit {
                keys.push(pair.0.clone());
            }
            proof {
                assert(ov.properties@.take(i + 1).drop_last() =~= ov.properties@.take(i as int));
                assert(ov.properties@.take(i + 1).last() == ov.properties@[i as int]);
                if is_lit {
                    assert(views_of(keys@) =~~= prev.push(ov.properties@[i as int].0@));
                }
                assert(views_of(keys@) =~~= literal_keys(ov.properties@.take(i + 1)));
            }
        }
        proof {
            assert(ov.properties@.take(n as int) =~= ov.properties@);
        }
        Some(keys)
    }

    /// Check if the union has one shared literal key.
    pub fn has_discriminated(&self, variants: &Vec<Schema>) -> (r: Option<String>)
        ensures
            match (r, discriminant_of(variants@)) {
                (Some(k), Some(ks)) => k@ == ks,
                (None, None) => true,
                _ => false,
            },
    {
        let n = variants.len();
        if n == 0 {
            return None;
        }
        let mut keys = match self.member_keys(&variants[0]) {
            Some(k) => k,
            None => {
                proof {
                    assert(!all_object_shaped(variants@)) by {
                        assert(object_shaped(variants@[0]) is None);
                    }
                }
                return None;
            },
        };
        for i in 1..n
            invariant
                n == variants@.len(),
                n >= 1,
                forall|j: int| 0 <= j < i ==> (#[trigger] object_shaped(variants@[j])) is Some,
                views_of(keys@) == common_keys_upto(variants@, i as int),
        {
            match self.member_keys(&variants[i]) {
                Some(other) => {
                    keys = filter_contained(&keys, &other);
                },
                None => {
                    proof {
                        assert(!all_object_shaped(variants@)) by {
                            assert(object_shaped(variants@[i as int]) is None);
                        }
                    }
                    return None;
                },
            }
        }
        if keys.len() == 1 {
            let k = keys[0].clone();
            proof {
                assert(views_of(keys@)[0] == keys@[0]@);
            }
            Some(k)
        } else {
            None
        }
    }

    /// Check if the node is a union, so that `parse_union` applies.
    pub fn is_union(&self, object: &SchemaObject) -> (r: bool)
        ensures
            r == spec_is_union(*object),
    {
        object.subschemas.is_some()
    }

    /// Translate a union node into an expression.
    pub(crate) fn translate_union(&self, object: &SchemaObject) -> (r: Result<Expr, Error>)
        requires
            object.wf(),
        ensures
            expr_matches(r, t_union(self.config, *object)),
        decreases *object, 8int,
    {
        let sub = match &object.subschemas {
            Some(s) => s,
            None => {
                return Err(Error::ForgotCheck("Union: parse_union requires property subschemas"));
            },
        };
        let variants: &Vec<Schema> = match &sub.one_of {
            Some(v) => v,
            None => match &sub.any_of {
                Some(v) => v,
                None => {
                    return Err(
                        Error::Unimplemented(
                            "Union: subschemas are only supported with any_of or one_of",
                        ),
                    );
                },
            },
        };
        proof {
            assert(decreases_to!(*object => object.subschemas));
            assert(decreases_to!(object.subschemas => object.subschemas->0));
            let subv = object.subschemas->0;
            assert(decreases_to!(subv => subv.one_of));
            assert(decreases_to!(subv => subv.any_of));
            if subv.one_of is Some {
                assert(decreases_to!(subv.one_of => subv.one_of->0));
                assert(decreases_to!(subv.one_of->0 => subv.one_of->0@));
            } else {
                assert(decreases_to!(subv.any_of => subv.any_of->0));
                assert(decreases_to!(subv.any_of->0 => subv.any_of->0@));
            }
            assert(decreases_to!(*object => variants@));
        }
        if variants.len() == 0 {
            return Ok(Expr::plain("z.any()".to_owned()));
        }
        if variants.len() == 1 {
            proof {
                assert(decreases_to!(variants@ => variants@[0]));
            }
            return self.translate_schema(&variants[0]);
        }
        let discriminated = self.has_discriminated(variants);
        let parts = match self.translate_schemas(variants) {
            Ok(p) => p,
            Err(e) => {
                return Err(e);
            },
        };
        let joined = crate::emit::join_strings(&parts, ", ");
        let u: String = match &discriminated {
            Some(key) => {
                let mut t = "z.discriminatedUnion(".to_owned();
                let kq = crate::json::json_quote(key.as_str());
                t.append(kq.as_str());
                t.append(", [");
                t.append(joined.as_str());
                t.append("])");
                proof {
                    assert(t@ =~= "z.discriminatedUnion("@ + json_string(key@) + ", ["@ + joined@
                        + "])"@);
                }
                t
            },
            None => {
                let mut t = "z.union([".to_owned();
                t.append(joined.as_str());
                t.append("])");
                proof {
                    assert(t@ =~= "z.union(["@ + joined@ + "])"@);
                }
                t
            },
        };
        match &object.object {
            None => Ok(Expr::plain(u)),
            Some(ov) => {
                proof {
                    assert(decreases_to!(*object => object.object));
                    assert(decreases_to!(object.object => object.object->0));
                }
                match self.object_rule(&**ov) {
                    Ok(and) => {
                        let text: String = if self.config.union_first {
                            let mut t = "z.intersection(".to_owned();
                            t.append(u.as_str());
                            t.append(", ");
                            t.append(and.as_str());
                            t.append(")");
                            proof {
                                assert(t@ =~= intersect_text(self.config, u@, and@));
                            }
                            t
                        } else {
                            let mut t = "z.intersection(".to_owned();
                            t.append(and.as_str());
                            t.append(", ");
                            t.append(u.as_str());
                            t.append(")");
                            proof {
                                assert(t@ =~= intersect_text(self.config, u@, and@));
                            }
                            t
                        };
                        Ok(Expr::plain(text))
                    },
                    Err(e) => Err(e),
                }
            },
        }
    }

    /// Parse a union.
    pub fn parse_union(&self, object: &SchemaObject) -> (r: Result<String, Error>)
        requires
            object.wf(),
        ensures
            rendered_matches(r, t_union(self.config, *object)),
    {
        match self.translate_union(object) {
            Ok(e) => Ok(e.into_rendered()),
            Err(e) => Err(e),
        }
    }
}

} // verus!
