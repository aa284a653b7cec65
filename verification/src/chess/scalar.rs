//! Row-level outcomes shared by the extension's scalar functions.
use vstd::prelude::*;

verus! {

/// What a `VARCHAR` scalar gives for a NULL input row.
#[derive(Debug, Clone, Copy)]
pub enum VarcharNullBehavior {
    /// Output NULL when the input row is NULL.
    Null,
    /// Output a static string when the input row is NULL.
    Static(&'static str),
}

/// The value written for one row of a `VARCHAR` scalar.
#[derive(Debug, Clone)]
pub enum VarcharOutput {
    Null,
    Value(String),
}

/// The text of an output row, `None` for NULL.
pub open spec fn output_view(o: VarcharOutput) -> Option<Seq<char>> {
    match o {
        VarcharOutput::Null => None,
        VarcharOutput::Value(s) => Some(s@),
    }
}

pub open spec fn null_behavior_view(b: VarcharNullBehavior) -> Option<Seq<char>> {
    match b {
        VarcharNullBehavior::Null => None,
        VarcharNullBehavior::Static(s) => Some(s@),
    }
}

/// The output for a NULL input row.
pub fn null_row_output(b: VarcharNullBehavior) -> (r: VarcharOutput)
    ensures
        output_view(r) == null_behavior_view(b),
{
    match b {
        VarcharNullBehavior::Null => VarcharOutput::Null,
        VarcharNullBehavior::Static(s) => VarcharOutput::Value(crate::text::string_from(s)),
    }
}

/// `Some` text as a value, `None` as NULL.
pub fn output_of(o: Option<String>) -> (r: VarcharOutput)
    ensures
        output_view(r) == match o {
            Some(s) => Some(s@),
            None => None::<Seq<char>>,
        },
{
    match o {
        Some(s) => VarcharOutput::Value(s),
        None => VarcharOutput::Null,
    }
}

} // verus!
