use vstd::prelude::*;

verus! {

use crate::value::Value;
use crate::SERIALIZE_DATACLASS;
use crate::SERIALIZE_UUID;
use crate::opt_set;

/// The closed set of semantic kinds the classifier can assign. Exactly one
/// kind is assigned per value.
#[derive(Clone, Copy, Debug, PartialEq, Eq, Structural)]
pub enum SemanticKind {
    Str,
    Int,
    List,
    Dict,
    Bool,
    Null,
    Float,
    Tuple,
    DateTime,
    Date,
    Time,
    Identifier,
    Record,
    Unrecognized,
}

/// The kind assigned to `v` under the options `opts`: a total function of
/// the value's type identity and the configuration. Identifier and record
/// detection are gated by their configuration bits; a gated-off value falls
/// through to `Unrecognized`.
pub open spec fn classify_spec(v: Value, opts: u8) -> SemanticKind {
    match v {
        Value::Str(_) => SemanticKind::Str,
        Value::StrInvalid => SemanticKind::Str,
        Value::Int(_) => SemanticKind::Int,
        Value::IntBig => SemanticKind::Int,
        Value::Float(_) => SemanticKind::Float,
        Value::Bool(_) => SemanticKind::Bool,
        Value::Null => SemanticKind::Null,
        Value::List(_) => SemanticKind::List,
        Value::Tuple(_) => SemanticKind::Tuple,
        Value::Dict(_) => SemanticKind::Dict,
        Value::DateTime(_) => SemanticKind::DateTime,
        Value::Date(_) => SemanticKind::Date,
        Value::Time(_) => SemanticKind::Time,
        Value::Identifier(_) => if opt_set(opts, SERIALIZE_UUID) {
            SemanticKind::Identifier
        } else {
            SemanticKind::Unrecognized
        },
        Value::Record(_) => if opt_set(opts, SERIALIZE_DATACLASS) {
            SemanticKind::Record
        } else {
            SemanticKind::Unrecognized
        },
        Value::Unrecognized(_) => SemanticKind::Unrecognized,
    }
}

/// Assigns `v` its semantic kind under `opts`. Pure and total: a fixed
/// chain of identity checks, no probing of the value's contents.
pub fn classify(v: &Value, opts: u8) -> (k: SemanticKind)
    ensures
        k == classify_spec(*v, opts),
{
    match v {
        Value::Str(_) => SemanticKind::Str,
        Value::StrInvalid => SemanticKind::Str,
        Value::Int(_) => SemanticKind::Int,
        Value::IntBig => SemanticKind::Int,
        Value::Float(_) => SemanticKind::Float,
        Value::Bool(_) => SemanticKind::Bool,
        Value::Null => SemanticKind::Null,
        Value::List(_) => SemanticKind::List,
        Value::Tuple(_) => SemanticKind::Tuple,
        Value::Dict(_) => SemanticKind::Dict,
        Value::DateTime(_) => SemanticKind::DateTime,
        Value::Date(_) => SemanticKind::Date,
        Value::Time(_) => SemanticKind::Time,
        Value::Identifier(_) => if crate::opt_enabled(opts, SERIALIZE_UUID) {
            SemanticKind::Identifier
        } else {
            SemanticKind::Unrecognized
        },
        Value::Record(_) => if crate::opt_enabled(opts, SERIALIZE_DATACLASS) {
            SemanticKind::Record
        } else {
            SemanticKind::Unrecognized
        },
        Value::Unrecognized(_) => SemanticKind::Unrecognized,
    }
}

/// Classification is pure: it reads nothing but the value and the options,
/// so classifying an unchanged value twice yields the same kind.
pub proof fn lemma_classify_deterministic(v1: Value, v2: Value, opts1: u8, opts2: u8)
    requires
        v1 == v2,
        opts1 == opts2,
    ensures
        classify_spec(v1, opts1) == classify_spec(v2, opts2),
{
}

} // verus!
