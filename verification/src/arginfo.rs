//! Metadata describing one configurable argument.
//!
//! The driver describes each supported argument with a record carrying a
//! key, a default value, optional display strings, a data-type tag and two
//! parallel arrays of option values and option display names.  The caller
//! reads that native record into plain values and hands them to
//! [`ArgInfo::from_parts`], which builds the typed description; the native
//! record's storage is released by the caller afterwards.

use vstd::prelude::*;

verus! {

/// The data type of an argument.
#[derive(Copy, Clone, Eq, PartialEq, Structural, Debug)]
pub enum ArgType {
    Bool,
    Float,
    Int,
    String,
    /// A native type tag this library does not recognize.  New native tags
    /// must degrade gracefully rather than crash a binding built against
    /// an older set.
    __Nonexhaustive,
}

/// The argument type a native type tag denotes.  Unrecognized tags map to
/// the explicit fallback variant.
pub open spec fn arg_type_of(tag: u32) -> ArgType {
    if tag == 0 {
        ArgType::Bool
    } else if tag == 1 {
        ArgType::Int
    } else if tag == 2 {
        ArgType::Float
    } else if tag == 3 {
        ArgType::String
    } else {
        ArgType::__Nonexhaustive
    }
}

impl ArgType {
    /// Translate a native data-type tag.
    pub fn from_tag(tag: u32) -> (r: ArgType)
        ensures
            r == arg_type_of(tag),
    {
        if tag == 0 {
            ArgType::Bool
        } else if tag == 1 {
            ArgType::Int
        } else if tag == 2 {
            ArgType::Float
        } else if tag == 3 {
            ArgType::String
        } else {
            ArgType::__Nonexhaustive
        }
    }
}

/// Metadata about one supported argument.
#[derive(Debug)]
pub struct ArgInfo {
    /// The key used to identify the argument.
    pub key: String,
    /// The default value of the argument when not specified.
    pub value: String,
    /// The displayable name of the argument.
    pub name: Option<String>,
    /// A brief description of the argument.
    pub description: Option<String>,
    /// The units of the argument: dB, Hz, and so on.
    pub units: Option<String>,
    /// The data type of the argument.
    pub data_type: ArgType,
    /// A discrete list of possible values, each with an optional display
    /// name.  When specified, the argument should be restricted to this
    /// option set.
    pub options: Vec<(String, Option<String>)>,
}

/// Copies an optional string.
fn clone_opt_string(s: &Option<String>) -> (r: Option<String>)
    ensures
        r == *s,
{
    match s {
        Some(x) => Some(x.clone()),
        None => None,
    }
}

impl ArgInfo {
    /// Build an argument description from the fields of a native record.
    ///
    /// The key and the default value are required: the native layer hands
    /// them over as non-null strings, and their absence is a contract
    /// violation of the driver, not a runtime error, so the caller fails
    /// fast before reaching this constructor.  The optional display
    /// strings map absent (null) fields to nothing.  The options are built
    /// by zipping the two parallel native arrays, which carry the same
    /// declared length.
    pub fn from_parts(
        key: String,
        value: String,
        name: Option<String>,
        description: Option<String>,
        units: Option<String>,
        type_tag: u32,
        option_values: &Vec<String>,
        option_names: &Vec<Option<String>>,
    ) -> (r: ArgInfo)
        requires
            option_values@.len() == option_names@.len(),
        ensures
            r.key == key,
            r.value == value,
            r.name == name,
            r.description == description,
            r.units == units,
            r.data_type == arg_type_of(type_tag),
            r.options@.len() == option_values@.len(),
            forall|i: int|
                0 <= i < option_values@.len() ==> #[trigger] r.options@[i] == (
                option_values@[i],
                option_names@[i],
                ),
    {
        let n = option_values.len();
        let mut options: Vec<(String, Option<String>)> = Vec::new();
        let mut i: usize = 0;
        while i < n
            invariant
                n == option_values@.len(),
                option_values@.len() == option_names@.len(),
                i <= n,
                options@.len() == i,
                forall|j: int|
                    0 <= j < i ==> #[trigger] options@[j] == (
                    option_values@[j],
                    option_names@[j],
                    ),
            decreases n - i,
        {
            options.push((option_values[i].clone(), clone_opt_string(&option_names[i])));
            i += 1;
        }
        ArgInfo { key, value, name, description, units, data_type: ArgType::from_tag(type_tag), options }
    }
}

} // verus!
