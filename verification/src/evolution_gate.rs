//! The reasons the evolution gate turns a proposal away before its cost
//! is weighed.

use vstd::prelude::*;

use crate::text::{owned, push_str};

verus! {

/// Field that declares a proposal's token cost.
pub const FIELD_EST_TOKENS: &'static str = "est_tokens";

/// Field that declares a proposal's expected value.
pub const FIELD_EST_VALUE: &'static str = "est_value";

/// What a declared token cost means for a proposal.
#[derive(Debug, Clone, Copy, PartialEq, Eq, Structural)]
pub enum TokenCheck {
    /// No cost declared (zero tokens): the proposal is turned away.
    NoCost,
    /// The cost is over the token budget: the proposal is turned away.
    OverBudget,
    /// A positive cost within the budget: the value is weighed next.
    WithinBudget,
}

/// The verdict on a declared token cost against a budget.
pub open spec fn token_verdict(est_tokens: u64, token_budget: u64) -> TokenCheck {
    if est_tokens == 0 {
        TokenCheck::NoCost
    } else if est_tokens > token_budget {
        TokenCheck::OverBudget
    } else {
        TokenCheck::WithinBudget
    }
}

/// Checks a declared token cost against the budget: zero tokens is no
/// cost declared, more than the budget is over it (exactly the budget is
/// within it).
pub fn check_tokens(est_tokens: u64, token_budget: u64) -> (c: TokenCheck)
    ensures
        c == token_verdict(est_tokens, token_budget),
{
    if est_tokens == 0 {
        TokenCheck::NoCost
    } else if est_tokens > token_budget {
        TokenCheck::OverBudget
    } else {
        TokenCheck::WithinBudget
    }
}

/// The reason a proposal is turned away.
#[derive(Debug, Clone, PartialEq, Eq)]
pub enum GateError {
    /// The proposal is not JSON.
    MalformedJson { detail: String },
    /// A cost field is missing.
    MissingField { field: String },
    /// A cost field has a value that is not allowed.
    InvalidValue { field: String, detail: String },
}

/// The message of a refusal.
pub open spec fn gate_error_text(e: GateError) -> Seq<char> {
    match e {
        GateError::MalformedJson { detail } => "提案不是合法 JSON，前置 gate 拒绝："@ + detail@,
        GateError::MissingField { field } => "提案缺少成本申报字段 `"@ + field@
            + "`，前置 gate 拒绝。申报必须含 `est_tokens`（正整数）与 `est_value`（非负数）。"@,
        GateError::InvalidValue { field, detail } => "提案字段 `"@ + field@ + "` 值非法："@
            + detail@,
    }
}

impl GateError {
    /// The message of the refusal (its `Display` text).
    pub fn to_string(&self) -> (s: String)
        ensures
            s@ == gate_error_text(*self),
    {
        match self {
            GateError::MalformedJson { detail } => {
                let mut s = owned("提案不是合法 JSON，前置 gate 拒绝：");
                push_str(&mut s, detail.as_str());
                s
            },
            GateError::MissingField { field } => {
                let mut s = owned("提案缺少成本申报字段 `");
                push_str(&mut s, field.as_str());
                push_str(
                    &mut s,
                    "`，前置 gate 拒绝。申报必须含 `est_tokens`（正整数）与 `est_value`（非负数）。",
                );
                s
            },
            GateError::InvalidValue { field, detail } => {
                let mut s = owned("提案字段 `");
                push_str(&mut s, field.as_str());
                push_str(&mut s, "` 值非法：");
                push_str(&mut s, detail.as_str());
                s
            },
        }
    }
}

} // verus!
