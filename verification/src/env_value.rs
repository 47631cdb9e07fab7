use vstd::prelude::*;

verus! {

/// What reading an environment variable gave.
#[derive(Debug)]
pub enum EnvValue {
    /// The variable is not set.
    NotPresent,
    /// The variable is set but is not valid Unicode.
    NotUnicode,
    /// The variable's text.
    Value(String),
}

/// The variable's text is exactly `text`.
pub open spec fn spec_is_text(v: EnvValue, text: Seq<char>) -> bool {
    match v {
        EnvValue::Value(s) => s@ == text,
        _ => false,
    }
}

/// The variable's text is exactly `text`.
pub fn is_text(v: &EnvValue, text: &str) -> (b: bool)
    ensures
        b == spec_is_text(*v, text@),
{
    match v {
        EnvValue::Value(s) => *s == String::from_str(text),
        _ => false,
    }
}

} // verus!
