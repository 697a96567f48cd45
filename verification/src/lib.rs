//! Translates a JSON-Schema-shaped intermediate representation into source
//! text for an equivalent runtime validation schema in the Zod dialect
//! (chained builder calls such as `z.string().min(3)`).
//!
//! The translation is a pure, syntax-directed tree walk: one IR node produces
//! one target-language expression, recursively.  Every production rule is
//! specified by a ghost function giving the exact text it emits, and the
//! executable rules are proved to match those specifications.

use vstd::prelude::*;

pub mod emit;
pub mod json;
pub mod laws;
pub mod parsers;
pub mod pretty;
pub mod schema;

verus! {

use crate::emit::ExprS;

/// Output-style policy flags, threaded read-only through every call of a
/// translation.  The default configuration uses the reference spellings:
/// the prefix array combinator and the union-first intersection order are
/// on, every other switch is off.
#[derive(Clone, Copy, Debug)]
pub struct Config {
    /// Emit `z.coerce.date()` for date/time formats instead of a strict
    /// ISO-format expression.
    pub use_coerce_date: bool,
    /// Emit homogeneous arrays with the prefix combinator `z.array(item)`
    /// instead of the postfix modifier `item.array()`.  On by default: the
    /// prefix combinator is the reference spelling.
    pub array_wrapper: bool,
    /// Emit numeric bound modifiers under their explicit names
    /// (`z.minimum(..)` / `z.maximum(..)`) instead of the terse aliases
    /// (`z.min(..)` / `z.max(..)`).
    pub explicit_min_max: bool,
    /// Append `.describe("...")` to expressions whose node carries a
    /// description.
    pub add_descriptions: bool,
    /// When a union node also carries an object facet, emit the union as the
    /// first operand of the intersection instead of the second.  On by
    /// default: the object facet is the reference second operand.
    pub union_first: bool,
    /// Wrap object properties that carry a default value in
    /// `z.default(.., ..)`.
    pub add_default: bool,
    /// Emit `z.unknown()` for the accept-any schema instead of `z.any()`.
    pub prefer_unknown: bool,
    /// Suppress the `z.optional(..)` wrapper for non-required object
    /// properties entirely.
    pub ignore_undefined: bool,
}

impl Config {
    /// The default configuration: the two reference-spelling switches on,
    /// every other flag off.
    pub open spec fn spec_default() -> Config {
        Config {
            use_coerce_date: false,
            array_wrapper: true,
            explicit_min_max: false,
            add_descriptions: false,
            union_first: true,
            add_default: false,
            prefer_unknown: false,
            ignore_undefined: false,
        }
    }
}

impl Default for Config {
    fn default() -> (c: Config)
        ensures
            c == Config::spec_default(),
    {
        Config {
            use_coerce_date: false,
            array_wrapper: true,
            explicit_min_max: false,
            add_descriptions: false,
            union_first: true,
            add_default: false,
            prefer_unknown: false,
            ignore_undefined: false,
        }
    }
}

/// The errors which may be returned from the `Parser::parse` functions.
#[derive(Clone, Copy, Debug)]
pub enum Error {
    /// An invalid schema was given: the node satisfies none of the shapes
    /// the translator can represent.
    SchemaError(&'static str),
    /// Parts of the schema are recognized but not supported.
    Unimplemented(&'static str),
    /// A production rule was called on a node that does not satisfy its
    /// documented precondition; this signals a dispatch bug, not a data
    /// problem.
    ForgotCheck(&'static str),
    /// JSON-encoding of a literal, default or description value failed.
    JsonError(&'static str),
    /// Formatting the emitted code through the external formatter failed.
    PrettifyError,
}

impl Error {
    /// The human-readable description of this error.
    pub open spec fn spec_message(self) -> Seq<char> {
        match self {
            Error::SchemaError(m) => "Invalid schema: "@ + m@,
            Error::Unimplemented(m) => "Unimplemented: "@ + m@,
            Error::ForgotCheck(m) => "Forgot a check: "@ + m@,
            Error::JsonError(m) => "Encoding error: "@ + m@,
            Error::PrettifyError => "Error when prettifying"@,
        }
    }

    /// The human-readable description of this error, with the context the
    /// variant carries.
    pub fn message(&self) -> (r: String)
        ensures
            r@ == self.spec_message(),
    {
        match self {
            Error::SchemaError(m) => {
                let mut s = "Invalid schema: ".to_owned();
                s.append(m);
                s
            },
            Error::Unimplemented(m) => {
                let mut s = "Unimplemented: ".to_owned();
                s.append(m);
                s
            },
            Error::ForgotCheck(m) => {
                let mut s = "Forgot a check: ".to_owned();
                s.append(m);
                s
            },
            Error::JsonError(m) => {
                let mut s = "Encoding error: ".to_owned();
                s.append(m);
                s
            },
            Error::PrettifyError => "Error when prettifying".to_owned(),
        }
    }
}

/// How an executable translation result relates to a ghost one producing
/// plain text: equal text on success, the same error on failure.
pub open spec fn text_matches(r: Result<String, Error>, t: Result<Seq<char>, Error>) -> bool {
    match (r, t) {
        (Ok(s), Ok(text)) => s@ == text,
        (Err(e), Err(err)) => e == err,
        _ => false,
    }
}

/// How an executable list of translated pieces relates to a ghost one:
/// equal piece texts on success, the same error on failure.
pub open spec fn list_matches(
    r: Result<Vec<String>, Error>,
    t: Result<Seq<Seq<char>>, Error>,
) -> bool {
    match (r, t) {
        (Ok(parts), Ok(ts)) => crate::emit::views_of(parts@) == ts,
        (Err(e), Err(err)) => e == err,
        _ => false,
    }
}

/// How an executable translation result relates to a ghost one producing an
/// expression: the rendered expression text on success, the same error on
/// failure.
pub open spec fn rendered_matches(r: Result<String, Error>, t: Result<ExprS, Error>) -> bool {
    match (r, t) {
        (Ok(s), Ok(e)) => s@ == crate::emit::render(e),
        (Err(e), Err(err)) => e == err,
        _ => false,
    }
}

/// How an executable expression result relates to a ghost one: equal
/// expression values on success, the same error on failure.
pub open spec fn expr_matches(
    r: Result<crate::emit::Expr, Error>,
    t: Result<ExprS, Error>,
) -> bool {
    match (r, t) {
        (Ok(e), Ok(es)) => e@ == es,
        (Err(e), Err(err)) => e == err,
        _ => false,
    }
}

/// The inside of the parser, which contains all production rules.
pub struct ParserInner {
    /// The configuration threaded through every production rule.
    pub config: Config,
}

/// The main parser, which converts a schema IR value into the text of a Zod
/// schema expression.
pub struct Parser(pub ParserInner);

impl Default for Parser {
    fn default() -> (p: Parser)
        ensures
            p.0.config == Config::spec_default(),
    {
        Parser(ParserInner { config: Config::default() })
    }
}

impl Parser {
    /// Create a new parser with the given configuration.
    pub fn new(config: Config) -> (p: Parser)
        ensures
            p.0.config == config,
    {
        Parser(ParserInner { config })
    }

    /// Parse a schema.  The schema must satisfy the IR well-formedness
    /// invariant (`Schema::wf`); `Schema::wf_check` tests it at run time.
    pub fn parse(&self, schema: &crate::schema::Schema) -> (r: Result<String, Error>)
        requires
            schema.wf(),
        ensures
            rendered_matches(r, crate::parsers::schema::t_schema(self.0.config, *schema)),
    {
        self.0.parse_schema(schema)
    }
}

} // verus!
