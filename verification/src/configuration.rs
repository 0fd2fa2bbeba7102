//! Strict file configuration resolves service references before any external operation.
pub mod document;

use crate::contracts::configuration::{Config, ConfigModel};
use crate::cut::rest_of;
use crate::fault::{field_error, field_failure, EngineError, EngineErrorModel};
use crate::text::{byte_count, byte_len, chars_of};
use document::Document;
use vstd::prelude::*;

verus! {

/// The most bytes that a configuration may take.
pub const MAX_CONFIG_BYTES: usize = 1_048_576;

/// An error that names a field of the configuration.
pub open spec fn field_fault(field: Seq<char>, message: Seq<char>) -> EngineErrorModel {
    field_failure("configuration"@, field, message)
}

/// An error that names a field of the configuration.
pub fn error(field: &str, message: &str) -> (r: EngineError)
    ensures
        r.deep_view() == field_fault(field@, message@),
{
    field_error("configuration", field, message)
}

/// A text without byte order marks at its start.
pub open spec fn unmarked(s: Seq<char>) -> Seq<char>
    decreases s.len(),
{
    if s.len() > 0 && s[0] == '\u{feff}' {
        unmarked(s.drop_first())
    } else {
        s
    }
}

/// The text that is read as JSON: without byte order marks, and only where it is not too long.
pub fn source_text(raw: &str) -> (r: Result<String, EngineError>)
    ensures
        match r {
            Ok(s) => byte_len(raw@) <= MAX_CONFIG_BYTES && s@ == unmarked(raw@),
            Err(e) => byte_len(raw@) > MAX_CONFIG_BYTES && e.deep_view() == field_fault(
                "$"@,
                "configuration exceeds 1 MiB"@,
            ),
        },
{
    if byte_count(raw) > MAX_CONFIG_BYTES {
        return Err(error("$", "configuration exceeds 1 MiB"));
    }
    let chars: Vec<char> = chars_of(raw);
    let mut from: usize = 0;
    assert(chars@.skip(0) =~= chars@);
    while from < chars.len() && chars[from] == '\u{feff}'
        invariant
            from <= chars@.len(),
            unmarked(chars@) == unmarked(chars@.skip(from as int)),
        decreases chars@.len() - from,
    {
        assert(chars@.skip(from as int).drop_first() =~= chars@.skip(from + 1));
        from += 1;
    }
    Ok(rest_of(&chars, from))
}

/// Validated configuration. Its internal snapshot has no mutation interface.
#[derive(Debug)]
pub struct ResolvedConfig {
    config: Config,
}

impl ResolvedConfig {
    /// What the configuration holds.
    pub closed spec fn model(self) -> ConfigModel {
        self.config.deep_view()
    }

    #[verifier::type_invariant]
    spec fn checked(self) -> bool {
        self.config.deep_view().fault(true) is None
    }

    /// Resolves a document. `located` is its database path seen from the base directory, where
    /// that is UTF-8.
    pub fn resolve(document: Document, located: Option<String>) -> (r: Result<Self, EngineError>)
        ensures
            match r {
                Ok(c) => document.deep_view().fault(located.deep_view()) is None && c.model()
                    == document.deep_view().config(located.deep_view()),
                Err(e) => document.deep_view().fault(located.deep_view()) == Some(
                    e.deep_view(),
                ),
            },
    {
        match document.resolve(located) {
            Ok(config) => Ok(ResolvedConfig { config }),
            Err(e) => Err(e),
        }
    }

    /// The configuration, which is valid.
    pub fn as_config(&self) -> (r: &Config)
        ensures
            r.deep_view() == self.model(),
            self.model().fault(true) is None,
    {
        proof {
            use_type_invariant(self);
        }
        &self.config
    }

    /// Transfers ownership to the component assembly of the engine.
    pub fn into_config(self) -> (r: Config)
        ensures
            r.deep_view() == self.model(),
            self.model().fault(true) is None,
    {
        proof {
            use_type_invariant(&self);
        }
        self.config
    }
}

/// Marks of the byte order are taken off the start of a text, all of them and nothing else.
pub proof fn lemma_byte_order_marks(s: Seq<char>)
    ensures
        unmarked(seq!['\u{feff}'] + s) == unmarked(s),
        s.len() == 0 || s[0] != '\u{feff}' ==> unmarked(s) == s,
{
    let marked = seq!['\u{feff}'] + s;
    assert(marked.drop_first() =~= s);
}

} // verus!
