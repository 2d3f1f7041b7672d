//! Messages for the common ways a YAML configuration can be wrong.
use vstd::prelude::*;
use std::fmt::Write;
use crate::text::{concat, push_str};

verus! {

/// Whether a key must be present.
#[derive(PartialEq, Eq, Structural, Debug, Clone, Copy)]
pub enum Required {
    Yes,
    No,
}

pub open spec fn required_label(r: Required) -> Seq<char> {
    match r {
        Required::Yes => "Required"@,
        Required::No => "Optional"@,
    }
}

impl Required {
    /// `Required` or `Optional`.
    pub fn label(&self) -> (r: String)
        ensures
            r@ == required_label(*self),
    {
        match self {
            Required::Yes => String::from_str("Required"),
            Required::No => String::from_str("Optional"),
        }
    }
}

/// Relies on `write!` with `{:?}` into a `String`: the `Debug` text of a
/// value, cut short (never a panic) where its `Debug` reports an error.
#[verifier::external_body]
fn debug_text<Y: std::fmt::Debug + ?Sized>(y: &Y) -> String {
    let mut text = String::new();
    let _ = write!(text, "{:?}", y);
    text
}

/// "Required key `{key}` missing from {yaml:?}".
pub fn required_key<Y: std::fmt::Debug>(key: &str, yaml: &Y) -> (r: String)
    ensures
        exists|shown: Seq<char>| r@ == "Required key `"@ + key@ + "` missing from "@ + shown,
{
    let mut r = concat("Required key `", key);
    push_str(&mut r, "` missing from ");
    let shown = debug_text(yaml);
    push_str(&mut r, shown.as_str());
    r
}

/// "{Required|Optional} key `{key}` in {yaml:?} must be a {required_type}".
pub fn key_of_type<Y: std::fmt::Debug>(key: &str, required: Required, yaml: Y, required_type: &str) -> (r: String)
    ensures
        exists|shown: Seq<char>|
            r@ == required_label(required) + " key `"@ + key@ + "` in "@ + shown + " must be a "@ + required_type@,
{
    let mut r = required.label();
    push_str(&mut r, " key `");
    push_str(&mut r, key);
    push_str(&mut r, "` in ");
    let shown = debug_text(&yaml);
    push_str(&mut r, shown.as_str());
    push_str(&mut r, " must be a ");
    push_str(&mut r, required_type);
    r
}

/// "Invalid value {value:?} for key `{key}` in hash {context:?}".
pub fn bad_value<V: std::fmt::Debug, Y: std::fmt::Debug>(value: V, key: &str, context: &Y) -> (r: String)
    ensures
        exists|v: Seq<char>, c: Seq<char>|
            r@ == "Invalid value "@ + v + " for key `"@ + key@ + "` in hash "@ + c,
{
    let mut r = String::from_str("Invalid value ");
    let shown_value = debug_text(&value);
    push_str(&mut r, shown_value.as_str());
    push_str(&mut r, " for key `");
    push_str(&mut r, key);
    push_str(&mut r, "` in hash ");
    let shown_context = debug_text(context);
    push_str(&mut r, shown_context.as_str());
    r
}

} // verus!
