//! The six comparison operators of a rule, parsed from their names.
//!
//! Operator names are matched ignoring ASCII case.  A name outside the
//! six recognized ones is a fatal configuration error, never a silent
//! default.

use vstd::prelude::*;
use crate::errors::StreamError;

verus! {

/// One of the six recognized comparison operators.
#[derive(Clone, Copy, Debug, PartialEq, Eq, Structural)]
pub enum CompareOp {
    Equal,
    NotEqual,
    Greater,
    Less,
    LessEqual,
    GreaterEqual,
}

/// The character's code, with ASCII upper-case letters folded to lower.
pub open spec fn lower_code(c: char) -> int {
    if 65 <= c as int <= 90 {
        c as int + 32
    } else {
        c as int
    }
}

/// Whether two strings are equal ignoring ASCII case.
pub open spec fn eq_ignore_case(a: Seq<char>, b: Seq<char>) -> bool {
    a.len() == b.len() && forall|i: int| 0 <= i < a.len() ==> lower_code(a[i]) == lower_code(b[i])
}

/// Compare two strings ignoring ASCII case.
pub fn str_eq_ignore_case(a: &str, b: &str) -> (r: bool)
    ensures
        r == eq_ignore_case(a@, b@),
{
    let a_len = a.unicode_len();
    let b_len = b.unicode_len();
    if a_len != b_len {
        return false;
    }
    let mut i: usize = 0;
    while i < a_len
        invariant
            i <= a_len,
            a_len == a@.len(),
            b_len == b@.len(),
            a_len == b_len,
            forall|j: int| 0 <= j < i ==> lower_code(a@[j]) == lower_code(b@[j]),
        decreases a_len - i,
    {
        let ca = a.get_char(i);
        let cb = b.get_char(i);
        let code_a = ca as u32;
        let code_b = cb as u32;
        let folded_a: u32 = if 65 <= code_a && code_a <= 90 { code_a + 32 } else { code_a };
        let folded_b: u32 = if 65 <= code_b && code_b <= 90 { code_b + 32 } else { code_b };
        if folded_a != folded_b {
            return false;
        }
        i = i + 1;
    }
    true
}

/// What each operator means, over mathematical integers.
pub open spec fn compare_spec(op: CompareOp, value: int, limit: int) -> bool {
    match op {
        CompareOp::Equal => value == limit,
        CompareOp::NotEqual => value != limit,
        CompareOp::Greater => value > limit,
        CompareOp::Less => value < limit,
        CompareOp::LessEqual => value <= limit,
        CompareOp::GreaterEqual => value >= limit,
    }
}

/// Which operator a name denotes, ignoring ASCII case; `None` for a name
/// outside the six recognized ones.
pub open spec fn operator_of(name: Seq<char>) -> Option<CompareOp> {
    if eq_ignore_case(name, "EQUAL"@) {
        Some(CompareOp::Equal)
    } else if eq_ignore_case(name, "NOT_EQUAL"@) {
        Some(CompareOp::NotEqual)
    } else if eq_ignore_case(name, "GREATER"@) {
        Some(CompareOp::Greater)
    } else if eq_ignore_case(name, "LESS"@) {
        Some(CompareOp::Less)
    } else if eq_ignore_case(name, "LESS_EQUAL"@) {
        Some(CompareOp::LessEqual)
    } else if eq_ignore_case(name, "GREATER_EQUAL"@) {
        Some(CompareOp::GreaterEqual)
    } else {
        None
    }
}

/// Parse an operator name; an unrecognized name is a fatal configuration
/// error.
pub fn parse_operator(name: &str) -> (r: Result<CompareOp, StreamError>)
    ensures
        r is Ok <==> operator_of(name@) is Some,
        r is Ok ==> operator_of(name@) == Some(r->Ok_0),
        r is Err ==> r == Err::<CompareOp, StreamError>(StreamError::UnsupportedOperator),
{
    if str_eq_ignore_case(name, "EQUAL") {
        Ok(CompareOp::Equal)
    } else if str_eq_ignore_case(name, "NOT_EQUAL") {
        Ok(CompareOp::NotEqual)
    } else if str_eq_ignore_case(name, "GREATER") {
        Ok(CompareOp::Greater)
    } else if str_eq_ignore_case(name, "LESS") {
        Ok(CompareOp::Less)
    } else if str_eq_ignore_case(name, "LESS_EQUAL") {
        Ok(CompareOp::LessEqual)
    } else if str_eq_ignore_case(name, "GREATER_EQUAL") {
        Ok(CompareOp::GreaterEqual)
    } else {
        Err(StreamError::UnsupportedOperator)
    }
}

/// Evaluate one operator against an aggregate and a limit.
pub fn compare(op: CompareOp, value: i128, limit: i64) -> (r: bool)
    ensures
        r == compare_spec(op, value as int, limit as int),
{
    let wide_limit = limit as i128;
    match op {
        CompareOp::Equal => value == wide_limit,
        CompareOp::NotEqual => value != wide_limit,
        CompareOp::Greater => value > wide_limit,
        CompareOp::Less => value < wide_limit,
        CompareOp::LessEqual => value <= wide_limit,
        CompareOp::GreaterEqual => value >= wide_limit,
    }
}

/// Whether a rule state names the active state, ignoring ASCII case.
pub fn is_active_state(state: &str) -> (r: bool)
    ensures
        r == eq_ignore_case(state@, "ACTIVE"@),
{
    str_eq_ignore_case(state, "ACTIVE")
}

/// Parse an aggregator-function name; only the sum fold is recognized.
pub fn parse_aggregator(name: &str) -> (r: Result<(), StreamError>)
    ensures
        r is Ok <==> eq_ignore_case(name@, "sum"@),
        r is Err ==> r == Err::<(), StreamError>(StreamError::UnsupportedAggregator),
{
    if str_eq_ignore_case(name, "sum") {
        Ok(())
    } else {
        Err(StreamError::UnsupportedAggregator)
    }
}

} // verus!
