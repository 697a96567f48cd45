//! Typed dispatch: maps one declared primitive type tag to the matching
//! production rule.

use vstd::prelude::*;

verus! {

use crate::parsers::array::t_array;
use crate::parsers::number::t_number;
use crate::parsers::object::t_object;
use crate::parsers::string::t_string;
use crate::schema::{InstanceType, SchemaObject};
use crate::{text_matches, Config, Error, ParserInner};

/// The typed production rule for one primitive type tag.
pub open spec fn t_instance_type(c: Config, t: InstanceType, o: SchemaObject) -> Result<
    Seq<char>,
    Error,
>
    decreases o, 6int, 0int,
{
    match t {
        InstanceType::Null => Ok("z.null()"@),
        InstanceType::Boolean => Ok("z.boolean()"@),
        InstanceType::Number => t_number(c, false, o),
        InstanceType::Integer => t_number(c, true, o),
        InstanceType::String => t_string(c, o),
        InstanceType::Object => t_object(c, o),
        InstanceType::Array => t_array(c, o),
    }
}

impl ParserInner {
    /// Find the correct production rule for an instance type.
    pub fn match_instance_type(&self, instance_type: InstanceType, object: &SchemaObject) -> (r:
        Result<String, Error>)
        requires
            object.wf(),
        ensures
            text_matches(r, t_instance_type(self.config, instance_type, *object)),
        decreases *object, 6int,
    {
        match instance_type {
            InstanceType::Null => Ok("z.null()".to_owned()),
            InstanceType::Boolean => Ok("z.boolean()".to_owned()),
            InstanceType::Number => self.parse_number(false, object),
            InstanceType::Integer => self.parse_number(true, object),
            InstanceType::String => self.parse_string(object),
            InstanceType::Object => self.parse_object(object),
            InstanceType::Array => self.parse_array(object),
        }
    }
}

} // verus!
