//! The number / integer rule: a base expression picking the numeric
//! representation, followed by the present bound modifiers in a fixed
//! order: multiple-of, minimum, exclusive-minimum, maximum,
//! exclusive-maximum.
//!
//! Bounds are decimal text; a minimum of exactly zero (written `0` or `-0`)
//! on an integer node is absorbed into the non-negative base form instead of
//! being emitted as a modifier.

use vstd::prelude::*;

verus! {

use crate::emit::{join_with, str_eq, views_of};
use crate::schema::{NumberValidation, SchemaObject};
use crate::{text_matches, Config, Error, ParserInner};

/// Whether the decimal text denotes exactly zero.
pub open spec fn is_zero_text(s: Seq<char>) -> bool {
    s == "0"@ || s == "-0"@
}

/// The spelling of the inclusive-minimum modifier under the configuration.
pub open spec fn min_bound_name(c: Config) -> Seq<char> {
    if c.explicit_min_max {
        "z.minimum("@
    } else {
        "z.min("@
    }
}

/// The spelling of the inclusive-maximum modifier under the configuration.
pub open spec fn max_bound_name(c: Config) -> Seq<char> {
    if c.explicit_min_max {
        "z.maximum("@
    } else {
        "z.max("@
    }
}

/// The bound modifiers of a numeric node, in their fixed order.
pub open spec fn number_checks(c: Config, is_int: bool, nv: NumberValidation) -> Seq<Seq<char>> {
    (match nv.multiple_of {
        Some(t) => seq!["z.step("@ + t@ + ")"@],
        None => Seq::<Seq<char>>::empty(),
    }) + (match nv.minimum {
        Some(t) => if is_int && is_zero_text(t@) {
            Seq::<Seq<char>>::empty()
        } else {
            seq![min_bound_name(c) + t@ + ")"@]
        },
        None => Seq::<Seq<char>>::empty(),
    }) + (match nv.exclusive_minimum {
        Some(t) => seq!["z.gt("@ + t@ + ")"@],
        None => Seq::<Seq<char>>::empty(),
    }) + (match nv.maximum {
        Some(t) => seq![max_bound_name(c) + t@ + ")"@],
        None => Seq::<Seq<char>>::empty(),
    }) + (match nv.exclusive_maximum {
        Some(t) => seq!["z.lt("@ + t@ + ")"@],
        None => Seq::<Seq<char>>::empty(),
    })
}

/// The base expression of a numeric node: the non-negative integer form when
/// an integer node has a minimum of exactly zero.
pub open spec fn number_base(is_int: bool, o: SchemaObject) -> Seq<char> {
    if is_int {
        if match o.number {
            Some(nv) => match nv.minimum {
                Some(m) => is_zero_text(m@),
                None => false,
            },
            None => false,
        } {
            "z.uint32()"@
        } else {
            "z.int32()"@
        }
    } else {
        "z.float64()"@
    }
}

/// The number / integer rule.
pub open spec fn t_number(c: Config, is_int: bool, o: SchemaObject) -> Result<Seq<char>, Error> {
    let checks = match o.number {
        Some(nv) => number_checks(c, is_int, *nv),
        None => Seq::<Seq<char>>::empty(),
    };
    if checks.len() == 0 {
        Ok(number_base(is_int, o))
    } else {
        Ok(number_base(is_int, o) + ".check("@ + join_with(checks, ", "@) + ")"@)
    }
}

/// Whether the decimal text denotes exactly zero.
fn is_zero_text_exec(s: &String) -> (r: bool)
    ensures
        r == is_zero_text(s@),
{
    str_eq(s.as_str(), "0") || str_eq(s.as_str(), "-0")
}

impl ParserInner {
    /// Parse a number or an integer.  The well-formedness invariant keeps
    /// every spliced bound a well-formed numeric literal.
    pub fn parse_number(&self, is_int: bool, object: &SchemaObject) -> (r: Result<String, Error>)
        requires
            object.wf(),
        ensures
            text_matches(r, t_number(self.config, is_int, *object)),
    {
        match &object.number {
            None => {
                let base = if is_int {
                    "z.int32()".to_owned()
                } else {
                    "z.float64()".to_owned()
                };
                Ok(base)
            },
            Some(nv) => {
                let zero_min = match &nv.minimum {
                    Some(m) => is_zero_text_exec(m),
                    None => false,
                };
                let mut res = if is_int {
                    if zero_min {
                        "z.uint32()".to_owned()
                    } else {
                        "z.int32()".to_owned()
                    }
                } else {
                    "z.float64()".to_owned()
                };
                let mut checks: Vec<String> = Vec::new();
                if let Some(t) = &nv.multiple_of {
                    let mut chk = "z.step(".to_owned();
                    chk.append(t.as_str());
                    chk.append(")");
                    checks.push(chk);
                }
                if let Some(t) = &nv.minimum {
                    if !(is_int && zero_min) {
                        let mut chk = if self.config.explicit_min_max {
                            "z.minimum(".to_owned()
                        } else {
                            "z.min(".to_owned()
                        };
                        chk.append(t.as_str());
                        chk.append(")");
                        checks.push(chk);
                    }
                }
                if let Some(t) = &nv.exclusive_minimum {
                    let mut chk = "z.gt(".to_owned();
                    chk.append(t.as_str());
                    chk.append(")");
                    checks.push(chk);
                }
                if let Some(t) = &nv.maximum {
                    let mut chk = if self.config.explicit_min_max {
                        "z.maximum(".to_owned()
                    } else {
                        "z.max(".to_owned()
                    };
                    chk.append(t.as_str());
                    chk.append(")");
                    checks.push(chk);
                }
                if let Some(t) = &nv.exclusive_maximum {
                    let mut chk = "z.lt(".to_owned();
                    chk.append(t.as_str());
                    chk.append(")");
                    checks.push(chk);
                }
                proof {
                    assert(views_of(checks@) =~~= number_checks(self.config, is_int, **nv));
                }
                if checks.len() > 0 {
                    res.append(".check(");
                    let joined = crate::emit::join_strings(&checks, ", ");
                    res.append(joined.as_str());
                    res.append(")");
                    proof {
                        assert(res@ =~= number_base(is_int, *object) + ".check("@ + join_with(
                            views_of(checks@),
                            ", "@,
                        ) + ")"@);
                    }
                }
                Ok(res)
            },
        }
    }
}

} // verus!
