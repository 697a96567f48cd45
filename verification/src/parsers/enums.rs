//! The enum rule: a finite-choice expression listing each value's
//! JSON-encoded literal in original order.  A single-entry enum is a
//! literal, an empty enum rejects every value.

use vstd::prelude::*;

verus! {

use crate::emit::{join_with, views_of};
use crate::json::{encode_json_values, json_items, json_value};
use crate::parsers::literal::literal_expr;
use crate::schema::SchemaObject;
use crate::{text_matches, Error, ParserInner};

/// The enum rule: a `z.enum([..])` expression listing each value's
/// JSON-encoded literal, a single literal for one entry, the reject-all
/// expression for no entries, and a precondition error when the enum facet
/// is absent.
pub open spec fn t_enum(o: SchemaObject) -> Result<Seq<char>, Error> {
    match o.enum_values {
        None => Err(Error::ForgotCheck("Enum: parse_enum requires property enum_values")),
        Some(vs) => if vs@.len() == 1 {
            match json_value(vs@[0]) {
                Ok(t) => Ok("z.literal("@ + t + ")"@),
                Err(k) => Err(k),
            }
        } else if vs@.len() == 0 {
            Ok("z.never()"@)
        } else {
            match json_items(vs@) {
                Ok(parts) => Ok("z.enum(["@ + join_with(parts, ", "@) + "])"@),
                Err(k) => Err(k),
            }
        },
    }
}

impl ParserInner {
    /// Parse an enum.
    pub fn parse_enum(&self, object: &SchemaObject) -> (r: Result<String, Error>)
        ensures
            text_matches(r, t_enum(*object)),
    {
        match &object.enum_values {
            None => Err(Error::ForgotCheck("Enum: parse_enum requires property enum_values")),
            Some(vs) => {
                if vs.len() == 1 {
                    literal_expr(&vs[0])
                } else if vs.len() == 0 {
                    Ok("z.never()".to_owned())
                } else {
                    match encode_json_values(vs) {
                        Ok(parts) => {
                            let mut out = "z.enum([".to_owned();
                            let joined = crate::emit::join_strings(&parts, ", ");
                            out.append(joined.as_str());
                            out.append("])");
                            proof {
                                assert(out@ =~= "z.enum(["@ + join_with(views_of(parts@), ", "@)
                                    + "])"@);
                            }
                            Ok(out)
                        },
                        Err(e) => Err(e),
                    }
                }
            },
        }
    }
}

} // verus!
