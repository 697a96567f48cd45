//! The literal rule: a node with a `const` value, or with an enum facet of
//! exactly one entry, becomes a single literal-value expression.

use vstd::prelude::*;

verus! {

use crate::json::{encode_json_value, json_value};
use crate::schema::{JsonValue, SchemaObject};
use crate::{text_matches, Error, ParserInner};

/// Whether the node is classified as a literal: a `const` value is present,
/// or the enum facet has exactly one entry.
pub open spec fn spec_is_literal(o: SchemaObject) -> bool {
    ||| o.const_value is Some
    ||| match o.enum_values {
        Some(vs) => vs@.len() == 1,
        None => false,
    }
}

/// The literal rule: a `z.literal(..)` expression carrying the JSON-encoded
/// value, or a precondition error when the node is no literal.
pub open spec fn t_literal(o: SchemaObject) -> Result<Seq<char>, Error> {
    match o.const_value {
        Some(v) => match json_value(v) {
            Ok(t) => Ok("z.literal("@ + t + ")"@),
            Err(k) => Err(k),
        },
        None => match o.enum_values {
            Some(vs) => if vs@.len() == 1 {
                match json_value(vs@[0]) {
                    Ok(t) => Ok("z.literal("@ + t + ")"@),
                    Err(k) => Err(k),
                }
            } else {
                Err(
                    Error::ForgotCheck(
                        "Literal: has to have the const_value property or the enum_values property with only one value",
                    ),
                )
            },
            None => Err(
                Error::ForgotCheck(
                    "Literal: has to have the const_value property or the enum_values property with only one value",
                ),
            ),
        },
    }
}

/// The `z.literal(..)` expression carrying the JSON-encoded value.
pub(crate) fn literal_expr(v: &JsonValue) -> (r: Result<String, Error>)
    ensures
        match (r, json_value(*v)) {
            (Ok(s), Ok(t)) => s@ == "z.literal("@ + t + ")"@,
            (Err(e), Err(err)) => e == err,
            _ => false,
        },
{
    match encode_json_value(v) {
        Ok(t) => {
            let mut out = "z.literal(".to_owned();
            out.append(t.as_str());
            out.append(")");
            proof {
                assert(out@ =~= "z.literal("@ + t@ + ")"@);
            }
            Ok(out)
        },
        Err(e) => Err(e),
    }
}

impl ParserInner {
    /// Check if the node is a literal, so that `parse_literal` applies.
    pub fn is_literal(&self, object: &SchemaObject) -> (r: bool)
        ensures
            r == spec_is_literal(*object),
    {
        match &object.const_value {
            Some(_) => true,
            None => match &object.enum_values {
                Some(vs) => vs.len() == 1,
                None => false,
            },
        }
    }

    /// Parse a literal.
    pub fn parse_literal(&self, object: &SchemaObject) -> (r: Result<String, Error>)
        ensures
            text_matches(r, t_literal(*object)),
    {
        match &object.const_value {
            Some(v) => literal_expr(v),
            None => match &object.enum_values {
                Some(vs) => {
                    if vs.len() == 1 {
                        literal_expr(&vs[0])
                    } else {
                        Err(
                            Error::ForgotCheck(
                                "Literal: has to have the const_value property or the enum_values property with only one value",
                            ),
                        )
                    }
                },
                None => Err(
                    Error::ForgotCheck(
                        "Literal: has to have the const_value property or the enum_values property with only one value",
                    ),
                ),
            },
        }
    }
}

} // verus!
