//! Literal nodes from plain values.

use vstd::prelude::*;
use vstd::std_specs::convert::FromSpecImpl;
use super::ast::{AExprKind, BExprKind, IdentifierKind, LiteralKind};

verus! {

impl From<i64> for LiteralKind {
    fn from(value: i64) -> (k: LiteralKind) {
        LiteralKind::Number(value)
    }
}

impl FromSpecImpl<i64> for LiteralKind {
    open spec fn obeys_from_spec() -> bool {
        true
    }

    open spec fn from_spec(value: i64) -> LiteralKind {
        LiteralKind::Number(value)
    }
}

impl From<i32> for LiteralKind {
    fn from(value: i32) -> (k: LiteralKind) {
        LiteralKind::Number(value as i64)
    }
}

impl FromSpecImpl<i32> for LiteralKind {
    open spec fn obeys_from_spec() -> bool {
        true
    }

    open spec fn from_spec(value: i32) -> LiteralKind {
        LiteralKind::Number(value as i64)
    }
}

impl From<String> for LiteralKind {
    fn from(value: String) -> (k: LiteralKind) {
        LiteralKind::String(value)
    }
}

impl FromSpecImpl<String> for LiteralKind {
    open spec fn obeys_from_spec() -> bool {
        true
    }

    open spec fn from_spec(value: String) -> LiteralKind {
        LiteralKind::String(value)
    }
}

impl From<&str> for LiteralKind {
    /// The text is copied; the result holds the same characters.
    fn from(value: &str) -> (k: LiteralKind)
        ensures
            k matches LiteralKind::String(s) && s@ == value@,
    {
        LiteralKind::String(value.to_owned())
    }
}

impl FromSpecImpl<&str> for LiteralKind {
    /// A copy of a text is no one value to speak of: `from` states what it
    /// returns in its own contract.
    open spec fn obeys_from_spec() -> bool {
        false
    }

    open spec fn from_spec(value: &str) -> LiteralKind {
        arbitrary()
    }
}

impl From<bool> for LiteralKind {
    fn from(value: bool) -> (k: LiteralKind) {
        LiteralKind::Bool(value)
    }
}

impl FromSpecImpl<bool> for LiteralKind {
    open spec fn obeys_from_spec() -> bool {
        true
    }

    open spec fn from_spec(value: bool) -> LiteralKind {
        LiteralKind::Bool(value)
    }
}

impl From<char> for LiteralKind {
    fn from(value: char) -> (k: LiteralKind) {
        LiteralKind::Char(value)
    }
}

impl FromSpecImpl<char> for LiteralKind {
    open spec fn obeys_from_spec() -> bool {
        true
    }

    open spec fn from_spec(value: char) -> LiteralKind {
        LiteralKind::Char(value)
    }
}

impl From<i64> for AExprKind {
    fn from(value: i64) -> (k: AExprKind) {
        AExprKind::Int(value)
    }
}

impl FromSpecImpl<i64> for AExprKind {
    open spec fn obeys_from_spec() -> bool {
        true
    }

    open spec fn from_spec(value: i64) -> AExprKind {
        AExprKind::Int(value)
    }
}

impl From<i32> for AExprKind {
    fn from(value: i32) -> (k: AExprKind) {
        AExprKind::Int(value as i64)
    }
}

impl FromSpecImpl<i32> for AExprKind {
    open spec fn obeys_from_spec() -> bool {
        true
    }

    open spec fn from_spec(value: i32) -> AExprKind {
        AExprKind::Int(value as i64)
    }
}

impl From<bool> for BExprKind {
    fn from(value: bool) -> (k: BExprKind) {
        match value {
            true => BExprKind::True,
            false => BExprKind::False,
        }
    }
}

impl FromSpecImpl<bool> for BExprKind {
    open spec fn obeys_from_spec() -> bool {
        true
    }

    open spec fn from_spec(value: bool) -> BExprKind {
        if value {
            BExprKind::True
        } else {
            BExprKind::False
        }
    }
}

impl From<i64> for IdentifierKind {
    fn from(value: i64) -> (k: IdentifierKind) {
        IdentifierKind::Int64(value)
    }
}

impl FromSpecImpl<i64> for IdentifierKind {
    open spec fn obeys_from_spec() -> bool {
        true
    }

    open spec fn from_spec(value: i64) -> IdentifierKind {
        IdentifierKind::Int64(value)
    }
}

impl From<i32> for IdentifierKind {
    fn from(value: i32) -> (k: IdentifierKind) {
        IdentifierKind::Int64(value as i64)
    }
}

impl FromSpecImpl<i32> for IdentifierKind {
    open spec fn obeys_from_spec() -> bool {
        true
    }

    open spec fn from_spec(value: i32) -> IdentifierKind {
        IdentifierKind::Int64(value as i64)
    }
}

impl From<String> for IdentifierKind {
    fn from(value: String) -> (k: IdentifierKind) {
        IdentifierKind::String(value)
    }
}

impl FromSpecImpl<String> for IdentifierKind {
    open spec fn obeys_from_spec() -> bool {
        true
    }

    open spec fn from_spec(value: String) -> IdentifierKind {
        IdentifierKind::String(value)
    }
}

impl From<&str> for IdentifierKind {
    /// The text is copied; the result holds the same characters.
    fn from(value: &str) -> (k: IdentifierKind)
        ensures
            k matches IdentifierKind::String(s) && s@ == value@,
    {
        IdentifierKind::String(value.to_owned())
    }
}

impl FromSpecImpl<&str> for IdentifierKind {
    /// A copy of a text is no one value to speak of: `from` states what it
    /// returns in its own contract.
    open spec fn obeys_from_spec() -> bool {
        false
    }

    open spec fn from_spec(value: &str) -> IdentifierKind {
        arbitrary()
    }
}

impl From<bool> for IdentifierKind {
    fn from(value: bool) -> (k: IdentifierKind) {
        IdentifierKind::Bool(value)
    }
}

impl FromSpecImpl<bool> for IdentifierKind {
    open spec fn obeys_from_spec() -> bool {
        true
    }

    open spec fn from_spec(value: bool) -> IdentifierKind {
        IdentifierKind::Bool(value)
    }
}

impl From<char> for IdentifierKind {
    fn from(value: char) -> (k: IdentifierKind) {
        IdentifierKind::Char(value)
    }
}

impl FromSpecImpl<char> for IdentifierKind {
    open spec fn obeys_from_spec() -> bool {
        true
    }

    open spec fn from_spec(value: char) -> IdentifierKind {
        IdentifierKind::Char(value)
    }
}

} // verus!
