//! The object / record rule.  Each declared property is translated
//! recursively and wrapped: a property carrying a default value becomes a
//! `z.default(..)` (when the configuration emits defaults), a non-required
//! property becomes `z.optional(..)` — or `z.nullish(..)` when its
//! expression was already wrapped `nullable`.  The wrapped properties are
//! assembled into a struct literal whose spelling follows the
//! additional-properties facet: a closed object is marked strict, an
//! explicitly open one loose, an additional-properties schema becomes a
//! catch-all modifier (or a bare record when no properties are declared).
//! A closed object with no declared properties is unsupported, as are the
//! property-count, pattern-properties and property-names facets.

use vstd::prelude::*;

verus! {

use crate::emit::{contains_string, join_with, render, views_of, Expr, ExprS};
use crate::json::{encode_json_value, json_string, json_value};
use crate::parsers::schema::t_schema;
use crate::schema::{JsonValue, ObjectValidation, Schema, SchemaObject};
use crate::{text_matches, Config, Error, ParserInner};

/// The default value carried by a node's metadata, if any.
pub open spec fn default_of(s: Schema) -> Option<JsonValue> {
    match s {
        Schema::Object(so) => match so.metadata {
            Some(m) => m.default,
            None => None,
        },
        Schema::Bool(_) => None,
    }
}

/// The wrapping of one translated property expression: a default modifier,
/// an optional (or nullable-and-optional) modifier, or the expression
/// itself.
pub open spec fn t_wrapped(
    c: Config,
    s: Schema,
    e: ExprS,
    key: Seq<char>,
    required: Seq<String>,
) -> Result<Seq<char>, Error> {
    match (if c.add_default {
        default_of(s)
    } else {
        None
    }) {
        Some(d) => match json_value(d) {
            Ok(dt) => Ok("z.default("@ + render(e) + ", "@ + dt + ")"@),
            Err(k) => Err(k),
        },
        None => if !contains_string(required, key) && !c.ignore_undefined {
            if e.nullable {
                Ok("z.nullish("@ + e.text + ")"@)
            } else {
                Ok("z.optional("@ + render(e) + ")"@)
            }
        } else {
            Ok(render(e))
        },
    }
}

/// One property entry: the JSON-escaped key, a colon, and the wrapped
/// translation of the property's schema.
pub open spec fn t_entry(c: Config, key: String, s: Schema, required: Seq<String>) -> Result<
    Seq<char>,
    Error,
>
    decreases s, 13int, 0int,
{
    match t_schema(c, s) {
        Ok(e) => match t_wrapped(c, s, e, key@, required) {
            Ok(w) => Ok(json_string(key@) + ": "@ + w),
            Err(k) => Err(k),
        },
        Err(k) => Err(k),
    }
}

/// The property entries of an object node, in declaration order, or the
/// first error.
pub open spec fn t_entries(
    c: Config,
    props: Seq<(String, Schema)>,
    required: Seq<String>,
) -> Result<Seq<Seq<char>>, Error>
    decreases props, 9int, 0int,
{
    if props.len() == 0 {
        Ok(Seq::<Seq<char>>::empty())
    } else {
        match t_entries(c, props.drop_last(), required) {
            Ok(parts) => match t_entry(c, props.last().0, props.last().1, required) {
                Ok(t) => Ok(parts.push(t)),
                Err(k) => Err(k),
            },
            Err(k) => Err(k),
        }
    }
}

/// If every property before position `i` translates and the property at `i`
/// fails, the whole property list fails with that error.
proof fn lemma_t_entries_err(
    c: Config,
    props: Seq<(String, Schema)>,
    required: Seq<String>,
    i: int,
    err: Error,
)
    requires
        0 <= i < props.len(),
        t_entries(c, props.take(i), required) is Ok,
        t_entry(c, props[i].0, props[i].1, required) == Err::<Seq<char>, Error>(err),
    ensures
        t_entries(c, props, required) == Err::<Seq<Seq<char>>, Error>(err),
    decreases props.len(),
{
    if props.len() == i + 1 {
        assert(props.take(i) =~= props.drop_last());
        assert(props.last() == props[i]);
    } else {
        assert(props.drop_last().take(i) =~= props.take(i));
        assert(props.drop_last()[i] == props[i]);
        lemma_t_entries_err(c, props.drop_last(), required, i, err);
    }
}

/// The object rule on a present object facet.
pub open spec fn t_object_v(c: Config, ov: ObjectValidation) -> Result<Seq<char>, Error>
    decreases ov, 9int, 0int,
{
    if ov.min_properties is Some || ov.max_properties is Some || ov.pattern_properties@.len() != 0
        || ov.property_names is Some {
        Err(
            Error::Unimplemented(
                "Object: keys min_properties, max_properties, pattern_properties and property_names are not supported",
            ),
        )
    } else {
        match t_entries(c, ov.properties@, ov.required@) {
            Ok(entries) => {
                let has_props = ov.properties@.len() != 0;
                let inner = join_with(entries, ", "@);
                match ov.additional_properties {
                    Some(a) => match *a {
                        Schema::Bool(false) => if has_props {
                            Ok("z.strictObject({ "@ + inner + " })"@)
                        } else {
                            Err(
                                Error::Unimplemented(
                                    "Object: additional_properties are false, and there are no properties given",
                                ),
                            )
                        },
                        Schema::Bool(true) => if has_props {
                            Ok("z.looseObject({ "@ + inner + " })"@)
                        } else {
                            Ok("z.looseObject({})"@)
                        },
                        Schema::Object(_) => match t_schema(c, *a) {
                            Ok(ae) => if has_props {
                                Ok(
                                    "z.catchall(z.object({ "@ + inner + " }), "@ + render(ae)
                                        + ")"@,
                                )
                            } else {
                                Ok("z.record("@ + render(ae) + ")"@)
                            },
                            Err(k) => Err(k),
                        },
                    },
                    None => if has_props {
                        Ok("z.object({ "@ + inner + " })"@)
                    } else {
                        Ok("z.looseObject({})"@)
                    },
                }
            },
            Err(k) => Err(k),
        }
    }
}

/// The object rule: an absent facet behaves as an unconstrained one.
pub open spec fn t_object(c: Config, o: SchemaObject) -> Result<Seq<char>, Error>
    decreases o, 4int, 0int,
{
    match o.object {
        None => Ok("z.looseObject({})"@),
        Some(ov) => t_object_v(c, *ov),
    }
}

impl ParserInner {
    /// Wrap one translated property expression.
    fn wrap_property(&self, schema: &Schema, e: Expr, key: &String, required: &Vec<String>) -> (r:
        Result<String, Error>)
        ensures
            text_matches(r, t_wrapped(self.config, *schema, e@, key@, required@)),
    {
        let dflt: Option<&JsonValue> = if self.config.add_default {
            match schema {
                Schema::Object(so) => match &so.metadata {
                    Some(m) => m.default.as_ref(),
                    None => None,
                },
                Schema::Bool(_) => None,
            }
        } else {
            None
        };
        match dflt {
            Some(d) => match encode_json_value(d) {
                Ok(dt) => {
                    let mut out = "z.default(".to_owned();
                    let et = e.into_rendered();
                    out.append(et.as_str());
                    out.append(", ");
                    out.append(dt.as_str());
                    out.append(")");
                    proof {
                        assert(out@ =~= "z.default("@ + et@ + ", "@ + dt@ + ")"@);
                    }
                    Ok(out)
                },
                Err(err) => Err(err),
            },
            None => {
                if !crate::emit::vec_contains_string(required, key) && !self.config.ignore_undefined {
                    if e.nullable {
                        let mut out = "z.nullish(".to_owned();
                        out.append(e.text.as_str());
                        out.append(")");
                        proof {
                            assert(out@ =~= "z.nullish("@ + e.text@ + ")"@);
                        }
                        Ok(out)
                    } else {
                        let mut out = "z.optional(".to_owned();
                        let et = e.into_rendered();
                        out.append(et.as_str());
                        out.append(")");
                        proof {
                            assert(out@ =~= "z.optional("@ + et@ + ")"@);
                        }
                        Ok(out)
                    }
                } else {
                    Ok(e.into_rendered())
                }
            },
        }
    }

    /// The object rule on a present object facet.
    pub(crate) fn object_rule(&self, ov: &ObjectValidation) -> (r: Result<String, Error>)
        requires
            ov.wf(),
        ensures
            text_matches(r, t_object_v(self.config, *ov)),
        decreases *ov, 9int,
    {
        if ov.min_properties.is_some() || ov.max_properties.is_some()
            || ov.pattern_properties.len() > 0 || ov.property_names.is_some() {
            return Err(
                Error::Unimplemented(
                    "Object: keys min_properties, max_properties, pattern_properties and property_names are not supported",
                ),
            );
        }
        let mut entries: Vec<String> = Vec::new();
        let n = ov.properties.len();
        assert(ov.properties@.take(0) =~= Seq::<(String, Schema)>::empty());
        assert(views_of(entries@) =~= Seq::<Seq<char>>::empty());
        for i in 0..n
            invariant
                n == ov.properties@.len(),
                ov.wf(),
                !(ov.min_properties is Some),
                !(ov.max_properties is Some),
                ov.pattern_properties@.len() == 0,
                !(ov.property_names is Some),
                t_entries(self.config, ov.properties@.take(i as int), ov.required@) == Ok::<
                    Seq<Seq<char>>,
                    Error,
                >(views_of(entries@)),
        {
            proof {
                assert(decreases_to!(*ov => ov.properties));
                assert(decreases_to!(ov.properties => ov.properties@));
                assert(decreases_to!(ov.properties@ => ov.properties@[i as int]));
                assert(decreases_to!(ov.properties@[i as int] => ov.properties@[i as int].1));
            }
            let ghost prev = views_of(entries@);
            let pair = &ov.properties[i];
            let ghost gkey = ov.properties@[i as int].0;
            let ghost gschema = ov.properties@[i as int].1;
            let entry_res: Result<String, Error> = match self.translate_schema(&pair.1) {
                Ok(e) => {
                    let ghost ge = e@;
                    proof {
                        assert(t_schema(self.config, gschema) == Ok::<ExprS, Error>(ge));
                    }
                    match self.wrap_property(&pair.1, e, &pair.0, &ov.required) {
                        Ok(w) => {
                            let mut entry = crate::json::json_quote(pair.0.as_str());
                            entry.append(": ");
                            entry.append(w.as_str());
                            proof {
                                assert(t_wrapped(self.config, gschema, ge, gkey@, ov.required@)
                                    == Ok::<Seq<char>, Error>(w@));
                                assert(entry@ =~= json_string(gkey@) + ": "@ + w@);
                                assert(t_entry(self.config, gkey, gschema, ov.required@) == Ok::<
                                    Seq<char>,
                                    Error,
                                >(entry@));
                            }
                            Ok(entry)
                        },
                        Err(err) => Err(err),
                    }
                },
                Err(err) => Err(err),
            };
            proof {
                match &entry_res {
                    Ok(entry) => {
                        assert(t_entry(self.config, gkey, gschema, ov.required@) == Ok::<
                            Seq<char>,
                            Error,
                        >(entry@));
                    },
                    Err(err) => {
                        assert(t_entry(self.config, gkey, gschema, ov.required@) == Err::<
                            Seq<char>,
                            Error,
                        >(*err));
                    },
                }
            }
            match entry_res {
                Ok(entry) => {
                    let ghost ev = entry@;
                    entries.push(entry);
                    proof {
                        assert(views_of(entries@) =~~= prev.push(ev));
                        assert(ov.properties@.take(i + 1).drop_last() =~= ov.properties@.take(
                            i as int,
                        ));
                        assert(ov.properties@.take(i + 1).last() == ov.properties@[i as int]);
                        assert(t_entries(self.config, ov.properties@.take(i + 1), ov.required@)
                            == Ok::<Seq<Seq<char>>, Error>(views_of(entries@)));
                    }
                },
                Err(err) => {
                    proof {
                        lemma_t_entries_err(
                            self.config,
                            ov.properties@,
                            ov.required@,
                            i as int,
                            err,
                        );
                    }
                    return Err(err);
                },
            }
        }
        proof {
            assert(ov.properties@.take(n as int) =~= ov.properties@);
        }
        let inner = crate::emit::join_strings(&entries, ", ");
        let has_props = n > 0;
        match &ov.additional_properties {
            Some(a) => match &**a {
                Schema::Bool(b) => {
                    if *b {
                        if has_props {
                            let mut out = "z.looseObject({ ".to_owned();
                            out.append(inner.as_str());
                            out.append(" })");
                            proof {
                                assert(out@ =~= "z.looseObject({ "@ + inner@ + " })"@);
                            }
                            Ok(out)
                        } else {
                            Ok("z.looseObject({})".to_owned())
                        }
                    } else {
                        if has_props {
                            let mut out = "z.strictObject({ ".to_owned();
                            out.append(inner.as_str());
                            out.append(" })");
                            proof {
                                assert(out@ =~= "z.strictObject({ "@ + inner@ + " })"@);
                            }
                            Ok(out)
                        } else {
                            Err(
                                Error::Unimplemented(
                                    "Object: additional_properties are false, and there are no properties given",
                                ),
                            )
                        }
                    }
                },
                Schema::Object(_) => {
                    proof {
                        assert(decreases_to!(*ov => ov.additional_properties));
                        assert(decreases_to!(ov.additional_properties => ov.additional_properties->0));
                    }
                    match self.translate_schema(&**a) {
                        Ok(ae) => {
                            let at = ae.into_rendered();
                            if has_props {
                                let mut out = "z.catchall(z.object({ ".to_owned();
                                out.append(inner.as_str());
                                out.append(" }), ");
                                out.append(at.as_str());
                                out.append(")");
                                proof {
                                    assert(out@ =~= "z.catchall(z.object({ "@ + inner@ + " }), "@
                                        + at@ + ")"@);
                                }
                                Ok(out)
                            } else {
                                let mut out = "z.record(".to_owned();
                                out.append(at.as_str());
                                out.append(")");
                                proof {
                                    assert(out@ =~= "z.record("@ + at@ + ")"@);
                                }
                                Ok(out)
                            }
                        },
                        Err(err) => Err(err),
                    }
                },
            },
            None => {
                if has_props {
                    let mut out = "z.object({ ".to_owned();
                    out.append(inner.as_str());
                    out.append(" })");
                    proof {
                        assert(out@ =~= "z.object({ "@ + inner@ + " })"@);
                    }
                    Ok(out)
                } else {
                    Ok("z.looseObject({})".to_owned())
                }
            },
        }
    }

    /// Parse an object.
    pub fn parse_object(&self, object: &SchemaObject) -> (r: Result<String, Error>)
        requires
            object.wf(),
        ensures
            text_matches(r, t_object(self.config, *object)),
        decreases *object, 4int,
    {
        match &object.object {
            None => Ok("z.looseObject({})".to_owned()),
            Some(ov) => {
                proof {
                    assert(decreases_to!(*object => object.object));
                    assert(decreases_to!(object.object => object.object->0));
                }
                self.object_rule(&**ov)
            },
        }
    }
}

} // verus!
