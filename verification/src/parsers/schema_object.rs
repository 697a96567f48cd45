//! Node dispatch, in fixed precedence: union test, then literal test, then
//! typed dispatch by the declared instance type.  A set of type tags is a
//! union-of-primitive-types shorthand in which a `Null` member means
//! "nullable"; a node satisfying none of the three shapes is an invalid
//! schema.  After the expression is produced, a description is appended as
//! the outermost modifier when the configuration asks for it.

use vstd::prelude::*;

verus! {

use crate::emit::{join_with, render, views_of, Expr, ExprS};
use crate::json::json_string;
use crate::parsers::instance_type::t_instance_type;
use crate::parsers::literal::{spec_is_literal, t_literal};
use crate::parsers::union::{spec_is_union, t_union};
use crate::schema::{InstanceType, InstanceTypes, SchemaObject};
use crate::{expr_matches, list_matches, rendered_matches, Config, Error, ParserInner};

/// The description carried by a node's metadata, if any.
pub open spec fn description_of(o: SchemaObject) -> Option<Seq<char>> {
    match o.metadata {
        Some(m) => match m.description {
            Some(d) => Some(d@),
            None => None,
        },
        None => None,
    }
}

/// Append the describe modifier, as the outermost one, when the
/// configuration emits descriptions and the node carries one.
pub open spec fn describe(c: Config, o: SchemaObject, e: ExprS) -> ExprS {
    match description_of(o) {
        Some(d) => if c.add_descriptions {
            ExprS { text: render(e) + ".describe("@ + json_string(d) + ")"@, nullable: false }
        } else {
            e
        },
        None => e,
    }
}

/// The type tags that are not `Null`, in declaration order.
pub open spec fn non_null(ts: Seq<InstanceType>) -> Seq<InstanceType>
    decreases ts.len(),
{
    if ts.len() == 0 {
        Seq::<InstanceType>::empty()
    } else {
        non_null(ts.drop_last()) + (if ts.last() == InstanceType::Null {
            Seq::<InstanceType>::empty()
        } else {
            seq![ts.last()]
        })
    }
}

/// The typed translations of a list of type tags, or the first error.
pub open spec fn t_tags(c: Config, ts: Seq<InstanceType>, o: SchemaObject) -> Result<
    Seq<Seq<char>>,
    Error,
>
    decreases o, 9int, ts.len(),
{
    if ts.len() == 0 {
        Ok(Seq::<Seq<char>>::empty())
    } else {
        match t_tags(c, ts.drop_last(), o) {
            Ok(parts) => match t_instance_type(c, ts.last(), o) {
                Ok(t) => Ok(parts.push(t)),
                Err(k) => Err(k),
            },
            Err(k) => Err(k),
        }
    }
}

/// If every tag before position `i` translates and the tag at `i` fails,
/// the whole tag list fails with that error.
proof fn lemma_t_tags_err(c: Config, ts: Seq<InstanceType>, o: SchemaObject, i: int, err: Error)
    requires
        0 <= i < ts.len(),
        t_tags(c, ts.take(i), o) is Ok,
        t_instance_type(c, ts[i], o) == Err::<Seq<char>, Error>(err),
    ensures
        t_tags(c, ts, o) == Err::<Seq<Seq<char>>, Error>(err),
    decreases ts.len(),
{
    if ts.len() == i + 1 {
        assert(ts.take(i) =~= ts.drop_last());
        assert(ts.last() == ts[i]);
    } else {
        assert(ts.drop_last().take(i) =~= ts.take(i));
        assert(ts.drop_last()[i] == ts[i]);
        lemma_t_tags_err(c, ts.drop_last(), o, i, err);
    }
}

/// Node dispatch: union, then literal, then typed dispatch with nullable
/// handling for tag sets and the describe modifier applied last.
pub open spec fn t_schema_object(c: Config, o: SchemaObject) -> Result<ExprS, Error>
    decreases o, 10int, 0int,
{
    if spec_is_union(o) {
        t_union(c, o)
    } else if spec_is_literal(o) {
        match t_literal(o) {
            Ok(t) => Ok(ExprS { text: t, nullable: false }),
            Err(k) => Err(k),
        }
    } else {
        match o.instance_type {
            None => Err(
                Error::SchemaError(
                    "Schema: a schema has to be a union, a literal or have an instance_type",
                ),
            ),
            Some(InstanceTypes::Single(t)) => match t_instance_type(c, t, o) {
                Ok(text) => Ok(describe(c, o, ExprS { text, nullable: false })),
                Err(k) => Err(k),
            },
            Some(InstanceTypes::Multiple(ts)) => if ts@.len() == 1 {
                match t_instance_type(c, ts@[0], o) {
                    Ok(text) => Ok(describe(c, o, ExprS { text, nullable: false })),
                    Err(k) => Err(k),
                }
            } else {
                if non_null(ts@).len() < ts@.len() && non_null(ts@).len() == 1 {
                    match t_instance_type(c, non_null(ts@)[0], o) {
                        Ok(text) => Ok(describe(c, o, ExprS { text, nullable: true })),
                        Err(k) => Err(k),
                    }
                } else {
                    match t_tags(c, non_null(ts@), o) {
                        Ok(parts) => Ok(
                            describe(
                                c,
                                o,
                                ExprS {
                                    text: "z.union(["@ + join_with(parts, ", "@) + "])"@,
                                    nullable: non_null(ts@).len() < ts@.len(),
                                },
                            ),
                        ),
                        Err(k) => Err(k),
                    }
                }
            },
        }
    }
}

/// The type tags that are not `Null`, in declaration order.
fn non_null_exec(tags: &Vec<InstanceType>) -> (r: Vec<InstanceType>)
    ensures
        r@ == non_null(tags@),
{
    let mut out: Vec<InstanceType> = Vec::new();
    let n = tags.len();
    assert(tags@.take(0) =~= Seq::<InstanceType>::empty());
    assert(out@ =~= non_null(tags@.take(0)));
    for i in 0..n
        invariant
            n == tags@.len(),
            out@ == non_null(tags@.take(i as int)),
    {
        if !(tags[i] == InstanceType::Null) {
            out.push(tags[i]);
        }
        proof {
            assert(tags@.take(i + 1).drop_last() =~= tags@.take(i as int));
            assert(tags@.take(i + 1).last() == tags@[i as int]);
            assert(out@ =~= non_null(tags@.take(i + 1)));
        }
    }
    proof {
        assert(tags@.take(n as int) =~= tags@);
    }
    out
}

impl ParserInner {
    /// Append the describe modifier when the configuration asks for it.
    fn describe_wrap(&self, object: &SchemaObject, e: Expr) -> (r: Expr)
        ensures
            r@ == describe(self.config, *object, e@),
    {
        if self.config.add_descriptions {
            match &object.metadata {
                Some(m) => match &m.description {
                    Some(d) => {
                        let mut text = e.into_rendered();
                        text.append(".describe(");
                        let q = crate::json::json_quote(d.as_str());
                        text.append(q.as_str());
                        text.append(")");
                        Expr::plain(text)
                    },
                    None => e,
                },
                None => e,
            }
        } else {
            e
        }
    }

    /// Translate each type tag of the list with the typed rules.
    pub(crate) fn translate_tags(&self, tags: &Vec<InstanceType>, object: &SchemaObject) -> (r:
        Result<Vec<String>, Error>)
        requires
            object.wf(),
        ensures
            list_matches(r, t_tags(self.config, tags@, *object)),
        decreases *object, 9int,
    {
        let mut parts: Vec<String> = Vec::new();
        let n = tags.len();
        assert(tags@.take(0) =~= Seq::<InstanceType>::empty());
        assert(views_of(parts@) =~= Seq::<Seq<char>>::empty());
        for i in 0..n
            invariant
                n == tags@.len(),
                object.wf(),
                t_tags(self.config, tags@.take(i as int), *object) == Ok::<
                    Seq<Seq<char>>,
                    Error,
                >(views_of(parts@)),
        {
            let ghost prev = views_of(parts@);
            match self.match_instance_type(tags[i], object) {
                Ok(t) => {
                    let ghost tv = t@;
                    parts.push(t);
                    proof {
                        assert(views_of(parts@) =~~= prev.push(tv));
                        assert(tags@.take(i + 1).drop_last() =~= tags@.take(i as int));
                        assert(tags@.take(i + 1).last() == tags@[i as int]);
                        assert(t_tags(self.config, tags@.take(i + 1), *object) == Ok::<
                            Seq<Seq<char>>,
                            Error,
                        >(views_of(parts@)));
                    }
                },
                Err(e) => {
                    proof {
                        lemma_t_tags_err(self.config, tags@, *object, i as int, e);
                    }
                    return Err(e);
                },
            }
        }
        proof {
            assert(tags@.take(n as int) =~= tags@);
        }
        Ok(parts)
    }

    /// Translate a structured node into an expression.
    pub(crate) fn translate_schema_object(&self, object: &SchemaObject) -> (r: Result<Expr, Error>)
        requires
            object.wf(),
        ensures
            expr_matches(r, t_schema_object(self.config, *object)),
        decreases *object, 10int,
    {
        if object.subschemas.is_some() {
            return self.translate_union(object);
        }
        if self.is_literal(object) {
            return match self.parse_literal(object) {
                Ok(t) => Ok(Expr::plain(t)),
                Err(e) => Err(e),
            };
        }
        match &object.instance_type {
            None => Err(
                Error::SchemaError(
                    "Schema: a schema has to be a union, a literal or have an instance_type",
                ),
            ),
            Some(InstanceTypes::Single(t)) => {
                match self.match_instance_type(*t, object) {
                    Ok(text) => Ok(self.describe_wrap(object, Expr::plain(text))),
                    Err(e) => Err(e),
                }
            },
            Some(InstanceTypes::Multiple(ts)) => {
                if ts.len() == 1 {
                    match self.match_instance_type(ts[0], object) {
                        Ok(text) => Ok(self.describe_wrap(object, Expr::plain(text))),
                        Err(e) => Err(e),
                    }
                } else {
                    let nn = non_null_exec(ts);
                    let nullable = nn.len() < ts.len();
                    if nullable && nn.len() == 1 {
                        match self.match_instance_type(nn[0], object) {
                            Ok(text) => Ok(
                                self.describe_wrap(object, Expr { text, nullable: true }),
                            ),
                            Err(e) => Err(e),
                        }
                    } else {
                        match self.translate_tags(&nn, object) {
                            Ok(parts) => {
                                let joined = crate::emit::join_strings(&parts, ", ");
                                let mut u = "z.union([".to_owned();
                                u.append(joined.as_str());
                                u.append("])");
                                proof {
                                    assert(u@ =~= "z.union(["@ + join_with(views_of(parts@), ", "@)
                                        + "])"@);
                                }
                                Ok(self.describe_wrap(object, Expr { text: u, nullable }))
                            },
                            Err(e) => Err(e),
                        }
                    }
                }
            },
        }
    }

    /// Parse a structured node.
    pub fn parse_schema_object(&self, object: &SchemaObject) -> (r: Result<String, Error>)
        requires
            object.wf(),
        ensures
            rendered_matches(r, t_schema_object(self.config, *object)),
    {
        match self.translate_schema_object(object) {
            Ok(e) => Ok(e.into_rendered()),
            Err(e) => Err(e),
        }
    }
}

} // verus!
