//! Top-level dispatch: the trivial boolean schemas become the accept-any or
//! reject-all expression, a structured node is handed to the node dispatch.

use vstd::prelude::*;

verus! {

use crate::emit::{render, views_of, Expr, ExprS};
use crate::parsers::schema_object::t_schema_object;
use crate::schema::Schema;
use crate::{expr_matches, list_matches, rendered_matches, Config, Error, ParserInner};

/// The top-level dispatch: the accept-any expression (spelled per the
/// configuration) for `Bool(true)`, the reject-all expression for
/// `Bool(false)`, and the node dispatch for a structured node.
pub open spec fn t_schema(c: Config, s: Schema) -> Result<ExprS, Error>
    decreases s, 12int, 0int,
{
    match s {
        Schema::Bool(b) => if b {
            Ok(
                ExprS {
                    text: if c.prefer_unknown {
                        "z.unknown()"@
                    } else {
                        "z.any()"@
                    },
                    nullable: false,
                },
            )
        } else {
            Ok(ExprS { text: "z.never()"@, nullable: false })
        },
        Schema::Object(o) => t_schema_object(c, o),
    }
}

/// The rendered translations of a list of schemas, or the first error.
pub open spec fn t_variants(c: Config, vs: Seq<Schema>) -> Result<Seq<Seq<char>>, Error>
    decreases vs, 9int, 0int,
{
    if vs.len() == 0 {
        Ok(Seq::<Seq<char>>::empty())
    } else {
        match t_variants(c, vs.drop_last()) {
            Ok(parts) => match t_schema(c, vs.last()) {
                Ok(e) => Ok(parts.push(render(e))),
                Err(k) => Err(k),
            },
            Err(k) => Err(k),
        }
    }
}

/// If every schema before position `i` translates and the schema at `i`
/// fails, the whole list fails with that error.
pub(crate) proof fn lemma_t_variants_err(c: Config, vs: Seq<Schema>, i: int, err: Error)
    requires
        0 <= i < vs.len(),
        t_variants(c, vs.take(i)) is Ok,
        t_schema(c, vs[i]) == Err::<ExprS, Error>(err),
    ensures
        t_variants(c, vs) == Err::<Seq<Seq<char>>, Error>(err),
    decreases vs.len(),
{
    if vs.len() == i + 1 {
        assert(vs.take(i) =~= vs.drop_last());
        assert(vs.last() == vs[i]);
    } else {
        assert(vs.drop_last().take(i) =~= vs.take(i));
        assert(vs.drop_last()[i] == vs[i]);
        lemma_t_variants_err(c, vs.drop_last(), i, err);
    }
}

impl ParserInner {
    /// Translate one node into an expression carrying its pending `nullable`
    /// flag.
    pub(crate) fn translate_schema(&self, schema: &Schema) -> (r: Result<Expr, Error>)
        requires
            schema.wf(),
        ensures
            expr_matches(r, t_schema(self.config, *schema)),
        decreases *schema, 12int,
    {
        match schema {
            Schema::Bool(b) => {
                if *b {
                    if self.config.prefer_unknown {
                        Ok(Expr::plain("z.unknown()".to_owned()))
                    } else {
                        Ok(Expr::plain("z.any()".to_owned()))
                    }
                } else {
                    Ok(Expr::plain("z.never()".to_owned()))
                }
            },
            Schema::Object(o) => {
                proof {
                    assert(decreases_to!(*schema => schema->Object_0));
                }
                self.translate_schema_object(o)
            },
        }
    }

    /// Translate each schema of the list and render it.
    pub(crate) fn translate_schemas(&self, schemas: &Vec<Schema>) -> (r: Result<Vec<String>, Error>)
        requires
            forall|i: int| 0 <= i < schemas@.len() ==> (#[trigger] schemas@[i]).wf(),
        ensures
            list_matches(r, t_variants(self.config, schemas@)),
        decreases schemas@, 9int,
    {
        let mut parts: Vec<String> = Vec::new();
        let n = schemas.len();
        assert(schemas@.take(0) =~= Seq::<Schema>::empty());
        assert(views_of(parts@) =~= Seq::<Seq<char>>::empty());
        for i in 0..n
            invariant
                n == schemas@.len(),
                forall|j: int| 0 <= j < schemas@.len() ==> (#[trigger] schemas@[j]).wf(),
                t_variants(self.config, schemas@.take(i as int)) == Ok::<
                    Seq<Seq<char>>,
                    Error,
                >(views_of(parts@)),
        {
            proof {
                assert(decreases_to!(schemas@ => schemas@[i as int]));
            }
            let ghost prev = views_of(parts@);
            match self.translate_schema(&schemas[i]) {
                Ok(e) => {
                    let t = e.into_rendered();
                    let ghost tv = t@;
                    parts.push(t);
                    proof {
                        assert(views_of(parts@) =~~= prev.push(tv));
                        assert(schemas@.take(i + 1).drop_last() =~= schemas@.take(i as int));
                        assert(schemas@.take(i + 1).last() == schemas@[i as int]);
                        assert(t_variants(self.config, schemas@.take(i + 1)) == Ok::<
                            Seq<Seq<char>>,
                            Error,
                        >(views_of(parts@)));
                    }
                },
                Err(e) => {
                    proof {
                        lemma_t_variants_err(self.config, schemas@, i as int, e);
                    }
                    return Err(e);
                },
            }
        }
        proof {
            assert(schemas@.take(n as int) =~= schemas@);
        }
        Ok(parts)
    }

    /// Parse a schema.
    pub fn parse_schema(&self, schema: &Schema) -> (r: Result<String, Error>)
        requires
            schema.wf(),
        ensures
            rendered_matches(r, t_schema(self.config, *schema)),
    {
        match self.translate_schema(schema) {
            Ok(e) => Ok(e.into_rendered()),
            Err(e) => Err(e),
        }
    }
}

} // verus!
