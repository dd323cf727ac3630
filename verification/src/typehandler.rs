//! Type handlers: which one applies, and what its answer means.
use vstd::prelude::*;

use crate::binds::{positional_bind_items, ContainerKind, Payload};
#[allow(unused_imports)]
use crate::binds::positional_kind;
use crate::errors::ErrorName;

verus! {

/// Where the handler that applies is set.
#[derive(Clone, Copy, PartialEq, Eq, Structural, Debug)]
pub enum HandlerSource {
    Cursor,
    Connection,
}

pub open spec fn handler_of(on_cursor: bool, on_connection: bool) -> Option<HandlerSource> {
    if on_cursor {
        Some(HandlerSource::Cursor)
    } else if on_connection {
        Some(HandlerSource::Connection)
    } else {
        None
    }
}

/// A handler of the cursor goes before one of the connection.
pub fn active_input_type_handler(on_cursor: bool, on_connection: bool) -> (r: Option<HandlerSource>)
    ensures
        r == handler_of(on_cursor, on_connection),
{
    if on_cursor {
        Some(HandlerSource::Cursor)
    } else if on_connection {
        Some(HandlerSource::Connection)
    } else {
        None
    }
}

/// What a handler answered for a value.
#[derive(Clone, Copy, PartialEq, Eq, Structural, Debug)]
pub enum HandlerAnswer {
    /// `None`.
    Nothing,
    Variable,
    /// Anything else.
    Other,
}

/// What becomes of a value.
#[derive(Clone, Copy, PartialEq, Eq, Structural, Debug)]
pub enum Substitution {
    /// The value is bound as it is.
    Keep,
    /// The value goes through the handler's variable, which is bound in its place.
    Replace,
}

pub open spec fn handled(is_variable: bool) -> bool {
    !is_variable
}

/// A value that already is a variable does not go through the handler.
pub fn goes_through_handler(is_variable: bool) -> (r: bool)
    ensures
        r == handled(is_variable),
{
    !is_variable
}

pub open spec fn substitution_of(answer: HandlerAnswer) -> Result<Substitution, ErrorName> {
    match answer {
        HandlerAnswer::Nothing => Ok(Substitution::Keep),
        HandlerAnswer::Variable => Ok(Substitution::Replace),
        HandlerAnswer::Other => Err(ErrorName::ExpectingVar),
    }
}

/// What the handler's answer means for a value.
pub fn input_handler_substitute(answer: HandlerAnswer) -> (r: Result<Substitution, ErrorName>)
    ensures
        r == substitution_of(answer),
{
    match answer {
        HandlerAnswer::Nothing => Ok(Substitution::Keep),
        HandlerAnswer::Variable => Ok(Substitution::Replace),
        HandlerAnswer::Other => Err(ErrorName::ExpectingVar),
    }
}

/// How parameters are handed to a handler, one value after the other.
#[derive(Clone, Copy, PartialEq, Eq, Structural, Debug)]
pub enum HandlerTarget {
    /// The values of a mapping, under their keys.
    Mapping,
    /// So many positional values.
    Positions(usize),
    /// Nothing: the parameters stay as they are.
    Unchanged,
}

pub open spec fn handler_target(parameters: Option<Payload>) -> HandlerTarget {
    match parameters {
        None => HandlerTarget::Unchanged,
        Some(p) => if p.is_none {
            HandlerTarget::Unchanged
        } else if p.kind == ContainerKind::Dict {
            HandlerTarget::Mapping
        } else if positional_kind(p.kind) {
            HandlerTarget::Positions(p.items)
        } else {
            HandlerTarget::Unchanged
        },
    }
}

/// Parameters that are neither a mapping nor positional stay as they are: binding refuses them
/// later.
pub fn apply_input_type_handler(parameters: Option<Payload>) -> (r: HandlerTarget)
    ensures
        r == handler_target(parameters),
{
    match parameters {
        None => HandlerTarget::Unchanged,
        Some(p) => if p.is_none {
            HandlerTarget::Unchanged
        } else if p.kind == ContainerKind::Dict {
            HandlerTarget::Mapping
        } else {
            match positional_bind_items(&p) {
                Ok(n) => HandlerTarget::Positions(n),
                Err(_) => HandlerTarget::Unchanged,
            }
        },
    }
}

pub open spec fn takes_metadata(parameter_count: Option<usize>) -> bool {
    parameter_count == Some(2usize)
}

/// An output type handler with two parameters is called with the cursor and the column's metadata.
/// Where its parameters cannot be counted it is called the older way.
pub fn handler_uses_metadata(parameter_count: Option<usize>) -> (r: bool)
    ensures
        r == takes_metadata(parameter_count),
{
    match parameter_count {
        Some(n) => n == 2,
        None => false,
    }
}

/// A handler applies exactly where one is set, and the nearer one wins.
pub proof fn law_nearer_handler_applies(on_cursor: bool, on_connection: bool)
    ensures
        handler_of(on_cursor, on_connection) is Some <==> on_cursor || on_connection,
        handler_of(on_cursor, on_connection) == Some(HandlerSource::Cursor) <==> on_cursor,
{
}

/// A value is replaced exactly by a variable that the handler gave; an answer that is no variable is
/// an error, and no answer leaves the value.
pub proof fn law_handler_gives_a_variable(answer: HandlerAnswer)
    ensures
        substitution_of(answer) == Ok::<Substitution, ErrorName>(Substitution::Replace) <==> answer
            == HandlerAnswer::Variable,
        substitution_of(answer) is Err <==> answer == HandlerAnswer::Other,
        substitution_of(answer) matches Err(e) ==> e == ErrorName::ExpectingVar,
{
}

/// The handler sees every value: those of a dictionary under their keys, those of a sequence all by
/// their position. Parameters that are neither are left to be refused.
pub proof fn law_handler_sees_every_value(p: Payload)
    ensures
        !p.is_none && p.kind == ContainerKind::Dict ==> handler_target(Some(p))
            == HandlerTarget::Mapping,
        !p.is_none && (p.kind == ContainerKind::Tuple || p.kind == ContainerKind::List || p.kind
            == ContainerKind::Iterable) ==> handler_target(Some(p)) == HandlerTarget::Positions(
            p.items,
        ),
        p.is_none || p.kind == ContainerKind::Text || p.kind == ContainerKind::Other
            ==> handler_target(Some(p)) == HandlerTarget::Unchanged,
        handler_target(None) == HandlerTarget::Unchanged,
{
}

/// Every value goes through the handler that is no variable yet, and a variable that the handler
/// gave does not go through it again.
pub proof fn law_variables_pass_the_handler_by(is_variable: bool)
    ensures
        handled(is_variable) <==> !is_variable,
        !handled(true),
{
}

/// A handler is given the metadata exactly where it takes two parameters.
pub proof fn law_two_parameters_take_metadata(n: usize)
    ensures
        takes_metadata(Some(n)) <==> n == 2,
        !takes_metadata(None),
{
}

} // verus!
