//! The dialect in which statements are read.
use sqlparser::dialect::{Dialect, GenericDialect};
use vstd::prelude::*;

verus! {

/// Whether `sqlparser`'s generic dialect lets an identifier start with
/// `ch`.
pub uninterp spec fn generic_identifier_start(ch: char) -> bool;

/// Whether `sqlparser`'s generic dialect lets an identifier go on with
/// `ch`.
pub uninterp spec fn generic_identifier_part(ch: char) -> bool;

/// `GenericDialect::is_identifier_start` of `sqlparser`. It looks at the
/// character alone (a letter of any script, or one of `_ # @`), so the
/// contract only gives the answer its name.
#[verifier::external_body]
fn generic_is_identifier_start(ch: char) -> (r: bool)
    ensures
        r == generic_identifier_start(ch),
{
    GenericDialect.is_identifier_start(ch)
}

/// `GenericDialect::is_identifier_part` of `sqlparser`. It looks at the
/// character alone (a letter of any script, an ASCII digit, or one of
/// `@ $ # _`), so the contract only gives the answer its name.
#[verifier::external_body]
fn generic_is_identifier_part(ch: char) -> (r: bool)
    ensures
        r == generic_identifier_part(ch),
{
    GenericDialect.is_identifier_part(ch)
}

/// The dialect of the statements that the resolver takes: identifiers as in
/// the generic dialect, and the name of a named argument always a plain
/// identifier, so that `read_csv('a.csv', has_header => false)` names its
/// argument `has_header`.
#[derive(Debug)]
pub struct EasyDBDialect;

impl EasyDBDialect {
    /// Whether an identifier may start with `ch`.
    pub fn is_identifier_start(&self, ch: char) -> (r: bool)
        ensures
            r == generic_identifier_start(ch),
    {
        generic_is_identifier_start(ch)
    }

    /// Whether an identifier may go on with `ch`.
    pub fn is_identifier_part(&self, ch: char) -> (r: bool)
        ensures
            r == generic_identifier_part(ch),
    {
        generic_is_identifier_part(ch)
    }

    /// Whether the name of a named argument may be an expression. It may
    /// not.
    pub fn supports_named_fn_args_with_expr_name(&self) -> (r: bool)
        ensures
            !r,
    {
        false
    }
}

} // verus!
