//! General properties of the translation, stated and proved against the
//! ghost production rules that the executable rules are verified to match.

use vstd::prelude::*;

verus! {

use crate::emit::{dec_seq, join_with, render, ExprS};
use crate::json::{json_string, json_value};
use crate::parsers::array::{array_wrap, t_array_v};
use crate::parsers::enums::t_enum;
use crate::parsers::literal::spec_is_literal;
use crate::parsers::object::{t_entries, t_object_v};
use crate::parsers::schema::{t_schema, t_variants};
use crate::parsers::string::{pattern_mod, string_base_of, string_facet, t_string};
use crate::parsers::union::{
    all_object_shaped, common_keys_upto, discriminant_of, literal_keys, member_literal_keys,
    object_shaped, spec_is_union, t_union, union_members,
};
use crate::schema::{
    lex_lt, ArrayValidation, Items, JsonValue, ObjectValidation, Schema, SchemaObject,
};
use crate::{rendered_matches, Config, Error};

/// Strict lexicographic order never relates a sequence to itself.
proof fn lemma_lex_lt_irrefl(a: Seq<char>)
    ensures
        !lex_lt(a, a),
    decreases a.len(),
{
    if a.len() > 0 {
        lemma_lex_lt_irrefl(a.skip(1));
    }
}

/// Strict lexicographic order is transitive.
proof fn lemma_lex_lt_trans(a: Seq<char>, b: Seq<char>, c: Seq<char>)
    requires
        lex_lt(a, b),
        lex_lt(b, c),
    ensures
        lex_lt(a, c),
    decreases a.len(),
{
    if a.len() > 0 {
        if (a[0] as u32) == (b[0] as u32) && (b[0] as u32) == (c[0] as u32) {
            lemma_lex_lt_trans(a.skip(1), b.skip(1), c.skip(1));
        }
    }
}

/// In a well-formed object facet the property keys strictly ascend in
/// lexicographic order, so every key is distinct: the properties stand in
/// canonical order and each declared property appears exactly once in the
/// emitted struct literal.
pub proof fn lemma_canonical_keys(ov: ObjectValidation, i: int, j: int)
    requires
        ov.wf(),
        0 <= i < j < ov.properties@.len(),
    ensures
        lex_lt(ov.properties@[i].0@, ov.properties@[j].0@),
        ov.properties@[i].0@ != ov.properties@[j].0@,
    decreases j - i,
{
    if j == i + 1 {
        assert(lex_lt(ov.properties@[i].0@, ov.properties@[i + 1].0@));
    } else {
        lemma_canonical_keys(ov, i, j - 1);
        assert(lex_lt(ov.properties@[j - 1].0@, ov.properties@[j].0@));
        lemma_lex_lt_trans(
            ov.properties@[i].0@,
            ov.properties@[j - 1].0@,
            ov.properties@[j].0@,
        );
    }
    if ov.properties@[i].0@ == ov.properties@[j].0@ {
        lemma_lex_lt_irrefl(ov.properties@[i].0@);
    }
}

/// The reject-all schema translates to the reject-all expression under every
/// configuration.  Every production rule translates nested nodes through the
/// same top-level dispatch, so a reject-all node produces this expression at
/// any nesting position, regardless of sibling configuration.
pub proof fn lemma_reject_all(c: Config)
    ensures
        t_schema(c, Schema::Bool(false)) == Ok::<ExprS, Error>(
            ExprS { text: "z.never()"@, nullable: false },
        ),
{
}

/// Translating the same node twice under the same configuration yields
/// byte-identical output on success, and the same error on failure:
/// the translation is a function of the configuration and the node alone.
pub proof fn lemma_deterministic(
    c: Config,
    s: Schema,
    r1: Result<String, Error>,
    r2: Result<String, Error>,
)
    requires
        rendered_matches(r1, t_schema(c, s)),
        rendered_matches(r2, t_schema(c, s)),
    ensures
        match (r1, r2) {
            (Ok(a), Ok(b)) => a@ == b@,
            (Err(e1), Err(e2)) => e1 == e2,
            _ => false,
        },
{
}

/// Every property whose schema is a singleton-literal contributes its key
/// to the literal keys of the properties that declare it.
proof fn lemma_literal_keys_contains(props: Seq<(String, Schema)>, j: int)
    requires
        0 <= j < props.len(),
        match props[j].1 {
            Schema::Object(so) => spec_is_literal(so),
            Schema::Bool(_) => false,
        },
    ensures
        literal_keys(props).contains(props[j].0@),
    decreases props.len(),
{
    let pre = literal_keys(props.drop_last());
    if j == props.len() - 1 {
        assert(literal_keys(props)[pre.len() as int] == props[j].0@);
    } else {
        lemma_literal_keys_contains(props.drop_last(), j);
        let i = choose|i: int| 0 <= i < pre.len() && pre[i] == props.drop_last()[j].0@;
        assert(literal_keys(props)[i] == props[j].0@);
    }
}

/// A property whose schema is a singleton-literal makes its key a candidate
/// discriminant of the union member that declares it.
pub proof fn lemma_candidate_discriminant(s: Schema, ov: ObjectValidation, j: int)
    requires
        object_shaped(s) == Some(ov),
        0 <= j < ov.properties@.len(),
        match ov.properties@[j].1 {
            Schema::Object(so) => spec_is_literal(so),
            Schema::Bool(_) => false,
        },
    ensures
        member_literal_keys(s).contains(ov.properties@[j].0@),
{
    lemma_literal_keys_contains(ov.properties@, j);
}

/// A union of two or more object-shaped members sharing exactly one common
/// literal-valued key produces a discriminated-union expression naming that
/// key.
pub proof fn lemma_discriminated_union(
    c: Config,
    o: SchemaObject,
    variants: Seq<Schema>,
    parts: Seq<Seq<char>>,
    k: Seq<char>,
)
    requires
        union_members(o) == Some(variants),
        o.object is None,
        variants.len() >= 2,
        all_object_shaped(variants),
        common_keys_upto(variants, variants.len() as int) == seq![k],
        t_variants(c, variants) == Ok::<Seq<Seq<char>>, Error>(parts),
    ensures
        t_union(c, o) == Ok::<ExprS, Error>(
            ExprS {
                text: "z.discriminatedUnion("@ + json_string(k) + ", ["@ + join_with(
                    parts,
                    ", "@,
                ) + "])"@,
                nullable: false,
            },
        ),
{
    assert(discriminant_of(variants) == Some(k)) by {
        assert(common_keys_upto(variants, variants.len() as int)[0] == k);
    }
}

/// A union of two or more object-shaped members sharing no common
/// literal-valued key, or more than one, produces a plain union expression.
pub proof fn lemma_plain_union(
    c: Config,
    o: SchemaObject,
    variants: Seq<Schema>,
    parts: Seq<Seq<char>>,
)
    requires
        union_members(o) == Some(variants),
        o.object is None,
        variants.len() >= 2,
        all_object_shaped(variants),
        common_keys_upto(variants, variants.len() as int).len() != 1,
        t_variants(c, variants) == Ok::<Seq<Seq<char>>, Error>(parts),
    ensures
        t_union(c, o) == Ok::<ExprS, Error>(
            ExprS { text: "z.union(["@ + join_with(parts, ", "@) + "])"@, nullable: false },
        ),
{
    assert(discriminant_of(variants) is None);
}

/// A string facet whose minimum length equals its maximum length yields
/// exactly one exact-length modifier in place of two independent bound
/// modifiers.
pub proof fn lemma_exact_length_merge(c: Config, o: SchemaObject, n: u32)
    requires
        o.enum_values is None,
        string_facet(o).min_length == Some(n),
        string_facet(o).max_length == Some(n),
    ensures
        t_string(c, o) == Ok::<Seq<char>, Error>(
            string_base_of(c, o) + ".length("@ + dec_seq(n as nat) + ")"@ + pattern_mod(
                string_facet(o),
            ),
        ),
{
    let base = string_base_of(c, o);
    let sv = string_facet(o);
    assert(crate::parsers::string::length_mods(sv) == ".length("@ + dec_seq(n as nat) + ")"@);
    assert(base + (".length("@ + dec_seq(n as nat) + ")"@) + pattern_mod(sv) =~= base + ".length("@
        + dec_seq(n as nat) + ")"@ + pattern_mod(sv));
}

/// A homogeneous array with both item-count bounds yields an array
/// expression carrying a minimum-length and a maximum-length modifier.
pub proof fn lemma_array_bounds(
    c: Config,
    av: ArrayValidation,
    item: Box<Schema>,
    e: ExprS,
    mn: u32,
    mx: u32,
)
    requires
        av.items == Some(Items::Single(item)),
        av.contains is None,
        av.unique_items != Some(true),
        av.min_items == Some(mn),
        av.max_items == Some(mx),
        t_schema(c, *item) == Ok::<ExprS, Error>(e),
    ensures
        t_array_v(c, av) == Ok::<Seq<char>, Error>(
            array_wrap(c, render(e)) + ".check("@ + ("z.minLength("@ + dec_seq(mn as nat) + ")"@)
                + ", "@ + ("z.maxLength("@ + dec_seq(mx as nat) + ")"@) + ")"@,
        ),
{
    let checks = crate::parsers::array::array_checks(av);
    assert(checks =~= seq![
        "z.minLength("@ + dec_seq(mn as nat) + ")"@,
        "z.maxLength("@ + dec_seq(mx as nat) + ")"@,
    ]);
    assert(checks.drop_last() =~= seq!["z.minLength("@ + dec_seq(mn as nat) + ")"@]);
    assert(join_with(checks.drop_last(), ", "@) == checks[0]);
    assert(join_with(checks, ", "@) == checks[0] + ", "@ + checks[1]);
    assert(t_array_v(c, av) == Ok::<Seq<char>, Error>(
        array_wrap(c, render(e)) + ".check("@ + ("z.minLength("@ + dec_seq(mn as nat) + ")"@)
            + ", "@ + ("z.maxLength("@ + dec_seq(mx as nat) + ")"@) + ")"@,
    )) by {
        assert(array_wrap(c, render(e)) + ".check("@ + join_with(checks, ", "@) + ")"@
            =~= array_wrap(c, render(e)) + ".check("@ + ("z.minLength("@ + dec_seq(mn as nat)
            + ")"@) + ", "@ + ("z.maxLength("@ + dec_seq(mx as nat) + ")"@) + ")"@);
    }
}

/// A fixed tuple ignores item-count bounds: its arity already fixes the
/// length, so a tuple facet translates the same with and without them.
pub proof fn lemma_tuple_ignores_bounds(c: Config, av: ArrayValidation, elems: Vec<Schema>)
    requires
        av.items == Some(Items::Tuple(elems)),
    ensures
        t_array_v(c, av) == t_array_v(
            c,
            ArrayValidation {
                min_items: None,
                max_items: None,
                items: av.items,
                additional_items: av.additional_items,
                unique_items: av.unique_items,
                contains: av.contains,
            },
        ),
{
}

/// A closed object facet — additional properties explicitly rejected — with
/// no declared properties is unsupported.
pub proof fn lemma_closed_empty_object(c: Config, ov: ObjectValidation)
    requires
        ov.min_properties is None,
        ov.max_properties is None,
        ov.pattern_properties@.len() == 0,
        ov.property_names is None,
        match ov.additional_properties {
            Some(a) => *a == Schema::Bool(false),
            None => false,
        },
        ov.properties@.len() == 0,
    ensures
        t_object_v(c, ov) == Err::<Seq<char>, Error>(
            Error::Unimplemented(
                "Object: additional_properties are false, and there are no properties given",
            ),
        ),
{
}

/// The identical closed object facet with declared properties succeeds and
/// yields a closed struct expression holding exactly the declared property
/// entries and no catch-all modifier.  The closedness is always spelled
/// explicitly strict: no recognized configuration option governs that
/// spelling.
pub proof fn lemma_closed_object(c: Config, ov: ObjectValidation, entries: Seq<Seq<char>>)
    requires
        ov.min_properties is None,
        ov.max_properties is None,
        ov.pattern_properties@.len() == 0,
        ov.property_names is None,
        match ov.additional_properties {
            Some(a) => *a == Schema::Bool(false),
            None => false,
        },
        ov.properties@.len() > 0,
        t_entries(c, ov.properties@, ov.required@) == Ok::<Seq<Seq<char>>, Error>(entries),
    ensures
        t_object_v(c, ov) == Ok::<Seq<char>, Error>(
            "z.strictObject({ "@ + join_with(entries, ", "@) + " })"@,
        ),
{
}

/// A `oneOf` (or `anyOf`) list of exactly one schema translates as that
/// schema alone: the union wrapper is elided.
pub proof fn lemma_singleton_union(c: Config, o: SchemaObject, member: Schema)
    requires
        spec_is_union(o),
        union_members(o) == Some(seq![member]),
    ensures
        t_union(c, o) == t_schema(c, member),
{
    let variants = seq![member];
    assert(variants[0] == member);
}

/// An enum facet with two entries yields a finite-choice expression listing
/// both JSON-encoded literals in input order.
pub proof fn lemma_enum_pair(o: SchemaObject, a: JsonValue, b: JsonValue, ea: Seq<char>, eb: Seq<char>)
    requires
        match o.enum_values {
            Some(vs) => vs@ == seq![a, b],
            None => false,
        },
        json_value(a) == Ok::<Seq<char>, Error>(ea),
        json_value(b) == Ok::<Seq<char>, Error>(eb),
    ensures
        t_enum(o) == Ok::<Seq<char>, Error>("z.enum(["@ + ea + ", "@ + eb + "])"@),
{
    let vs = seq![a, b];
    assert(vs.drop_last() =~= seq![a]);
    assert(seq![a].drop_last() =~= Seq::<JsonValue>::empty());
    assert(crate::json::json_items(Seq::<JsonValue>::empty()) == Ok::<Seq<Seq<char>>, Error>(
        Seq::<Seq<char>>::empty(),
    ));
    assert(seq![a].last() == a);
    assert(crate::json::json_items(seq![a]) == Ok::<Seq<Seq<char>>, Error>(
        Seq::<Seq<char>>::empty().push(ea),
    ));
    assert(Seq::<Seq<char>>::empty().push(ea) =~= seq![ea]);
    assert(crate::json::json_items(vs) == Ok::<Seq<Seq<char>>, Error>(seq![ea].push(eb)));
    assert(seq![ea].push(eb) =~= seq![ea, eb]);
    let parts = seq![ea, eb];
    assert(parts.drop_last() =~= seq![ea]);
    assert(join_with(parts.drop_last(), ", "@) == ea);
    assert(join_with(parts, ", "@) == ea + ", "@ + eb);
    assert("z.enum(["@ + join_with(parts, ", "@) + "])"@ =~= "z.enum(["@ + ea + ", "@ + eb
        + "])"@);
}

/// A single-entry enum facet yields a single literal expression, not a
/// finite-choice expression.
pub proof fn lemma_enum_singleton(o: SchemaObject, a: JsonValue, ea: Seq<char>)
    requires
        match o.enum_values {
            Some(vs) => vs@ == seq![a],
            None => false,
        },
        json_value(a) == Ok::<Seq<char>, Error>(ea),
    ensures
        t_enum(o) == Ok::<Seq<char>, Error>("z.literal("@ + ea + ")"@),
{
}

} // verus!
