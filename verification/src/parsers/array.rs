//! The array / tuple rule.  A single item schema gives a homogeneous array
//! (prefix combinator or postfix modifier, per the configuration) with
//! min/max item-count modifiers; a list of item schemas gives a fixed tuple,
//! with the additional-items schema as its rest element and no length
//! modifiers (arity already fixes the length).  An absent item schema gives
//! an array of the reject-all expression, still under the homogeneous path.
//! The `contains` and `unique_items` facets are unsupported.

use vstd::prelude::*;

verus! {

use crate::emit::{dec_seq, join_with, render, u32_dec, views_of};
use crate::parsers::schema::{t_schema, t_variants};
use crate::schema::{ArrayValidation, Items, SchemaObject};
use crate::{text_matches, Config, Error, ParserInner};

/// The homogeneous-array wrapper around an item expression, spelled per the
/// configuration.
pub open spec fn array_wrap(c: Config, item: Seq<char>) -> Seq<char> {
    if c.array_wrapper {
        "z.array("@ + item + ")"@
    } else {
        item + ".array()"@
    }
}

/// The item-count modifiers of an array node.
pub open spec fn array_checks(av: ArrayValidation) -> Seq<Seq<char>> {
    (match av.min_items {
        Some(v) => seq!["z.minLength("@ + dec_seq(v as nat) + ")"@],
        None => Seq::<Seq<char>>::empty(),
    }) + (match av.max_items {
        Some(v) => seq!["z.maxLength("@ + dec_seq(v as nat) + ")"@],
        None => Seq::<Seq<char>>::empty(),
    })
}

/// A base expression followed by its check modifiers, if any.
pub open spec fn with_checks(base: Seq<char>, checks: Seq<Seq<char>>) -> Seq<char> {
    if checks.len() == 0 {
        base
    } else {
        base + ".check("@ + join_with(checks, ", "@) + ")"@
    }
}

/// The array rule on a present array facet.
pub open spec fn t_array_v(c: Config, av: ArrayValidation) -> Result<Seq<char>, Error>
    decreases av, 9int, 0int,
{
    if av.contains is Some || av.unique_items == Some(true) {
        Err(Error::Unimplemented("Array: contains and unique_items are unimplemented"))
    } else {
        match av.items {
            None => Ok(with_checks(array_wrap(c, "z.never()"@), array_checks(av))),
            Some(Items::Single(item)) => match t_schema(c, *item) {
                Ok(e) => Ok(with_checks(array_wrap(c, render(e)), array_checks(av))),
                Err(k) => Err(k),
            },
            Some(Items::Tuple(elems)) => match t_variants(c, elems@) {
                Ok(parts) => match av.additional_items {
                    Some(rest) => match t_schema(c, *rest) {
                        Ok(re) => Ok(
                            "z.tuple(["@ + join_with(parts, ", "@) + "], "@ + render(re) + ")"@,
                        ),
                        Err(k) => Err(k),
                    },
                    None => Ok("z.tuple(["@ + join_with(parts, ", "@) + "])"@),
                },
                Err(k) => Err(k),
            },
        }
    }
}

/// The array rule: an absent facet behaves as an unconstrained one.
pub open spec fn t_array(c: Config, o: SchemaObject) -> Result<Seq<char>, Error>
    decreases o, 4int, 0int,
{
    match o.array {
        None => Ok(array_wrap(c, "z.never()"@)),
        Some(av) => t_array_v(c, *av),
    }
}

/// The item-count modifiers of an array node.
fn array_checks_exec(av: &ArrayValidation) -> (r: Vec<String>)
    ensures
        views_of(r@) == array_checks(*av),
{
    let mut checks: Vec<String> = Vec::new();
    if let Some(v) = av.min_items {
        let mut chk = "z.minLength(".to_owned();
        let d = u32_dec(v);
        chk.append(d.as_str());
        chk.append(")");
        checks.push(chk);
    }
    if let Some(v) = av.max_items {
        let mut chk = "z.maxLength(".to_owned();
        let d = u32_dec(v);
        chk.append(d.as_str());
        chk.append(")");
        checks.push(chk);
    }
    proof {
        assert(views_of(checks@) =~~= array_checks(*av));
    }
    checks
}

/// Append the check modifiers, if any, to the base expression.
fn apply_checks(base: String, checks: &Vec<String>) -> (r: String)
    ensures
        r@ == with_checks(base@, views_of(checks@)),
{
    if checks.len() == 0 {
        base
    } else {
        let mut out = base;
        out.append(".check(");
        let joined = crate::emit::join_strings(checks, ", ");
        out.append(joined.as_str());
        out.append(")");
        proof {
            assert(out@ =~= with_checks(base@, views_of(checks@)));
        }
        out
    }
}

impl ParserInner {
    /// The homogeneous-array wrapper around an item expression.
    fn wrap_array(&self, item: String) -> (r: String)
        ensures
            r@ == array_wrap(self.config, item@),
    {
        if self.config.array_wrapper {
            let mut out = "z.array(".to_owned();
            out.append(item.as_str());
            out.append(")");
            proof {
                assert(out@ =~= array_wrap(self.config, item@));
            }
            out
        } else {
            let mut out = item;
            out.append(".array()");
            out
        }
    }

    /// The array rule on a present array facet.
    fn array_rule(&self, av: &ArrayValidation) -> (r: Result<String, Error>)
        requires
            av.wf(),
        ensures
            text_matches(r, t_array_v(self.config, *av)),
        decreases *av, 9int,
    {
        let unique = match av.unique_items {
            Some(b) => b,
            None => false,
        };
        if av.contains.is_some() || unique {
            return Err(Error::Unimplemented("Array: contains and unique_items are unimplemented"));
        }
        match &av.items {
            None => {
                let checks = array_checks_exec(av);
                Ok(apply_checks(self.wrap_array("z.never()".to_owned()), &checks))
            },
            Some(Items::Single(item)) => {
                proof {
                    assert(decreases_to!(*av => av.items));
                    assert(decreases_to!(av.items => av.items->0));
                    assert(decreases_to!(av.items->0 => av.items->0->Single_0));
                }
                match self.translate_schema(&**item) {
                    Ok(e) => {
                        let checks = array_checks_exec(av);
                        Ok(apply_checks(self.wrap_array(e.into_rendered()), &checks))
                    },
                    Err(e) => Err(e),
                }
            },
            Some(Items::Tuple(elems)) => {
                proof {
                    assert(decreases_to!(*av => av.items));
                    assert(decreases_to!(av.items => av.items->0));
                    assert(decreases_to!(av.items->0 => av.items->0->Tuple_0));
                    assert(decreases_to!(av.items->0->Tuple_0 => elems@));
                }
                match self.translate_schemas(elems) {
                    Ok(parts) => {
                        let joined = crate::emit::join_strings(&parts, ", ");
                        match &av.additional_items {
                            Some(rest) => {
                                proof {
                                    assert(decreases_to!(*av => av.additional_items));
                                    assert(decreases_to!(av.additional_items => av.additional_items->0));
                                }
                                match self.translate_schema(&**rest) {
                                    Ok(re) => {
                                        let mut out = "z.tuple([".to_owned();
                                        out.append(joined.as_str());
                                        out.append("], ");
                                        let rt = re.into_rendered();
                                        out.append(rt.as_str());
                                        out.append(")");
                                        proof {
                                            assert(out@ =~= "z.tuple(["@ + join_with(
                                                views_of(parts@),
                                                ", "@,
                                            ) + "], "@ + rt@ + ")"@);
                                        }
                                        Ok(out)
                                    },
                                    Err(e) => Err(e),
                                }
                            },
                            None => {
                                let mut out = "z.tuple([".to_owned();
                                out.append(joined.as_str());
                                out.append("])");
                                proof {
                                    assert(out@ =~= "z.tuple(["@ + join_with(views_of(parts@), ", "@)
                                        + "])"@);
                                }
                                Ok(out)
                            },
                        }
                    },
                    Err(e) => Err(e),
                }
            },
        }
    }

    /// Parse an array or a tuple.
    pub fn parse_array(&self, object: &SchemaObject) -> (r: Result<String, Error>)
        requires
            object.wf(),
        ensures
            text_matches(r, t_array(self.config, *object)),
        decreases *object, 4int,
    {
        match &object.array {
            None => Ok(self.wrap_array("z.never()".to_owned())),
            Some(av) => {
                proof {
                    assert(decreases_to!(*object => object.array));
                    assert(decreases_to!(object.array => object.array->0));
                }
                self.array_rule(&**av)
            },
        }
    }
}

} // verus!
