//! Formatting of the emitted expression text through the external
//! TypeScript/JavaScript formatter.  The formatter's output is a function of
//! the file name, the text and the configuration alone; it is given a name
//! here, and the formatting entry point promises exactly that name's value.

use vstd::prelude::*;

verus! {

use crate::parsers::schema::t_schema;
use crate::schema::Schema;
use crate::{Error, Parser};

#[verifier::external_type_specification]
#[verifier::external_body]
pub struct ExConfiguration(dprint_plugin_typescript::configuration::Configuration);

/// What the external formatter makes of the given source text, formatted as
/// a file of the given name under the given configuration: the formatted
/// text, or nothing when the text fails to parse or the formatter leaves it
/// as it is.
pub uninterp spec fn format_of(
    path_hint: Seq<char>,
    text: Seq<char>,
    config: dprint_plugin_typescript::configuration::Configuration,
) -> Option<Seq<char>>;

/// Relies on `dprint_plugin_typescript::format_text`: formats the given
/// source text, under the given configuration, as a file of the given name;
/// returns no text when the input fails to parse or the formatter leaves it
/// as it is.  The call is a deterministic parse-and-print, so its outcome is
/// a function of the three arguments, named `format_of`.
#[verifier::external_body]
fn format_text_js(
    path_hint: &str,
    text: String,
    config: &dprint_plugin_typescript::configuration::Configuration,
) -> (r: Option<String>)
    ensures
        (match r {
            Some(s) => Some(s@),
            None => None::<Seq<char>>,
        }) == format_of(path_hint@, text@, *config),
{
    let path = std::path::PathBuf::from(path_hint);
    let options = dprint_plugin_typescript::FormatTextOptions {
        path: &path,
        extension: None,
        text,
        config,
        external_formatter: None,
    };
    match dprint_plugin_typescript::format_text(options) {
        Ok(t) => t,
        Err(_) => None,
    }
}

/// The formatter's output as a translation result: the formatted text when
/// there is one, the formatting-failed error when there is none.
fn finish_pretty(formatted: Option<String>) -> (r: Result<String, Error>)
    ensures
        match (formatted, r) {
            (Some(s), Ok(t)) => t@ == s@,
            (None, Err(e)) => e == Error::PrettifyError,
            _ => false,
        },
{
    match formatted {
        Some(s) => Ok(s),
        None => Err(Error::PrettifyError),
    }
}

impl Parser {
    /// Parse a schema and format the result with the given formatter
    /// configuration.  A successful result is exactly what the formatter
    /// makes of the rendered translation; when the formatter yields no text
    /// the formatting-failed error is returned, and a translation error is
    /// passed through.
    pub fn parse_pretty(
        &self,
        schema: &Schema,
        config: &dprint_plugin_typescript::configuration::Configuration,
    ) -> (r: Result<String, Error>)
        requires
            schema.wf(),
        ensures
            match (r, t_schema(self.0.config, *schema)) {
                (Ok(s), Ok(e)) => format_of(".js"@, crate::emit::render(e), *config) == Some(s@),
                (Err(er), Ok(e)) => er == Error::PrettifyError && format_of(
                    ".js"@,
                    crate::emit::render(e),
                    *config,
                ) is None,
                (Err(er), Err(err)) => er == err,
                (Ok(_), Err(_)) => false,
            },
    {
        let parsed = match self.0.parse_schema(schema) {
            Ok(p) => p,
            Err(e) => {
                return Err(e);
            },
        };
        let formatted = format_text_js(".js", parsed, config);
        finish_pretty(formatted)
    }
}

} // verus!
