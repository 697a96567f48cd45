//! The string rule: a base expression picked from the format tag (an
//! unrecognized tag degrades to the plain string expression), followed by
//! length modifiers — merged into a single exact-length modifier when the
//! minimum equals the maximum — and a regex modifier carrying the
//! JSON-escaped pattern.
//!
//! When the configuration requests coercion, date/time formats emit the
//! coercing expression as the base, under the same modifiers.  A node with
//! an enum facet is handed to the enum rule instead.

use vstd::prelude::*;

verus! {

use crate::emit::{dec_seq, str_eq, u32_dec};
use crate::json::{json_quote, json_string};
use crate::parsers::enums::t_enum;
use crate::schema::{SchemaObject, StringValidation};
use crate::{text_matches, Config, Error, ParserInner};

/// Whether the node's format is a date/time tag and the configuration
/// requests the coercing variant.
pub open spec fn is_coerce_date(c: Config, o: SchemaObject) -> bool {
    c.use_coerce_date && match o.format {
        Some(f) => f@ == "date-time"@ || f@ == "partial-date-time"@ || f@ == "date"@,
        None => false,
    }
}

/// The base expression of a string node with the given format tag.
pub open spec fn string_base(f: String) -> Seq<char> {
    if f@ == "email"@ {
        "z.email()"@
    } else if f@ == "uri"@ {
        "z.url()"@
    } else if f@ == "uuid"@ {
        "z.guid()"@
    } else if f@ == "ipv4"@ {
        "z.ipv4()"@
    } else if f@ == "ipv6"@ {
        "z.ipv6()"@
    } else if f@ == "hostname"@ {
        "z.hostname()"@
    } else if f@ == "date-time"@ || f@ == "partial-date-time"@ {
        "z.iso.datetime({ offset: true, local: true })"@
    } else if f@ == "date"@ {
        "z.iso.date()"@
    } else if f@ == "time"@ {
        "z.iso.time()"@
    } else if f@ == "duration"@ {
        "z.iso.duration()"@
    } else {
        "z.string()"@
    }
}

/// The length modifiers of a string node: one exact-length modifier when the
/// minimum equals the maximum, else the present bounds independently.
pub open spec fn length_mods(sv: StringValidation) -> Seq<char> {
    match (sv.min_length, sv.max_length) {
        (Some(mn), Some(mx)) => if mn == mx {
            ".length("@ + dec_seq(mn as nat) + ")"@
        } else {
            ".minLength("@ + dec_seq(mn as nat) + ")"@ + ".maxLength("@ + dec_seq(mx as nat)
                + ")"@
        },
        (Some(mn), None) => ".minLength("@ + dec_seq(mn as nat) + ")"@,
        (None, Some(mx)) => ".maxLength("@ + dec_seq(mx as nat) + ")"@,
        (None, None) => Seq::<char>::empty(),
    }
}

/// The regex modifier of a string node, built from the JSON-escaped pattern.
pub open spec fn pattern_mod(sv: StringValidation) -> Seq<char> {
    match sv.pattern {
        Some(p) => ".regex(new RegExp("@ + json_string(p@) + "))"@,
        None => Seq::<char>::empty(),
    }
}

/// The base expression of the string rule: the coercing date form when the
/// configuration asks for it on a date/time format, else the expression of
/// the format tag.
pub open spec fn string_base_of(c: Config, o: SchemaObject) -> Seq<char> {
    if is_coerce_date(c, o) {
        "z.coerce.date()"@
    } else {
        match o.format {
            Some(f) => string_base(f),
            None => "z.string()"@,
        }
    }
}

/// The string facet of a node, with absence meaning no constraint.
pub open spec fn string_facet(o: SchemaObject) -> StringValidation {
    match o.string {
        Some(sv) => *sv,
        None => StringValidation { min_length: None, max_length: None, pattern: None },
    }
}

/// The string rule.
pub open spec fn t_string(c: Config, o: SchemaObject) -> Result<Seq<char>, Error> {
    if o.enum_values is Some {
        t_enum(o)
    } else {
        Ok(string_base_of(c, o) + length_mods(string_facet(o)) + pattern_mod(string_facet(o)))
    }
}

/// The base expression of a string node with the given format tag.
fn string_base_exec(f: &String) -> (r: String)
    ensures
        r@ == string_base(*f),
{
    let s = f.as_str();
    if str_eq(s, "email") {
        "z.email()".to_owned()
    } else if str_eq(s, "uri") {
        "z.url()".to_owned()
    } else if str_eq(s, "uuid") {
        "z.guid()".to_owned()
    } else if str_eq(s, "ipv4") {
        "z.ipv4()".to_owned()
    } else if str_eq(s, "ipv6") {
        "z.ipv6()".to_owned()
    } else if str_eq(s, "hostname") {
        "z.hostname()".to_owned()
    } else if str_eq(s, "date-time") || str_eq(s, "partial-date-time") {
        "z.iso.datetime({ offset: true, local: true })".to_owned()
    } else if str_eq(s, "date") {
        "z.iso.date()".to_owned()
    } else if str_eq(s, "time") {
        "z.iso.time()".to_owned()
    } else if str_eq(s, "duration") {
        "z.iso.duration()".to_owned()
    } else {
        "z.string()".to_owned()
    }
}

impl ParserInner {
    /// Parse a string, or an enum.
    pub fn parse_string(&self, object: &SchemaObject) -> (r: Result<String, Error>)
        ensures
            text_matches(r, t_string(self.config, *object)),
    {
        if object.enum_values.is_some() {
            return self.parse_enum(object);
        }
        let coerce = self.config.use_coerce_date && match &object.format {
            Some(f) => str_eq(f.as_str(), "date-time") || str_eq(f.as_str(), "partial-date-time")
                || str_eq(f.as_str(), "date"),
            None => false,
        };
        let mut res = if coerce {
            "z.coerce.date()".to_owned()
        } else {
            match &object.format {
                Some(f) => string_base_exec(f),
                None => "z.string()".to_owned(),
            }
        };
        let ghost base = res@;
        proof {
            assert(base == string_base_of(self.config, *object));
        }
        match &object.string {
            None => {
                proof {
                    assert(res@ =~= base + length_mods(string_facet(*object)) + pattern_mod(
                        string_facet(*object),
                    ));
                }
            },
            Some(sv) => {
                match (sv.min_length, sv.max_length) {
                    (Some(mn), Some(mx)) => {
                        if mn == mx {
                            res.append(".length(");
                            let d = u32_dec(mn);
                            res.append(d.as_str());
                            res.append(")");
                        } else {
                            res.append(".minLength(");
                            let d = u32_dec(mn);
                            res.append(d.as_str());
                            res.append(")");
                            res.append(".maxLength(");
                            let d = u32_dec(mx);
                            res.append(d.as_str());
                            res.append(")");
                        }
                    },
                    (Some(mn), None) => {
                        res.append(".minLength(");
                        let d = u32_dec(mn);
                        res.append(d.as_str());
                        res.append(")");
                    },
                    (None, Some(mx)) => {
                        res.append(".maxLength(");
                        let d = u32_dec(mx);
                        res.append(d.as_str());
                        res.append(")");
                    },
                    (None, None) => {},
                }
                proof {
                    assert(res@ =~= base + length_mods(**sv));
                }
                if let Some(p) = &sv.pattern {
                    res.append(".regex(new RegExp(");
                    let q = json_quote(p.as_str());
                    res.append(q.as_str());
                    res.append("))");
                }
                proof {
                    assert(res@ =~= base + length_mods(**sv) + pattern_mod(**sv));
                }
            },
        }
        Ok(res)
    }
}

} // verus!
