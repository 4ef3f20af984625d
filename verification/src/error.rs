//! The error of reading a scene.

use vstd::prelude::*;

verus! {

/// The error of the YAML reader. Nothing is known of what it holds.
#[verifier::external_type_specification]
#[verifier::external_body]
pub struct ExYamlError(serde_yaml::Error);

/// A scene could not be read. `s` says why.
#[derive(Debug)]
pub struct DeserializeError {
    pub s: String,
}

impl DeserializeError {
    pub fn new(s: &str) -> (e: DeserializeError)
        ensures
            e.s@ == s@,
    {
        DeserializeError { s: s.to_owned() }
    }

    /// The text of the error as callers show it.
    pub fn message(&self) -> (text: String)
        ensures
            text@ == "Deserialize error: "@ + self.s@,
    {
        let mut text = "Deserialize error: ".to_owned();
        text.append(self.s.as_str());
        text
    }
}

impl From<serde_yaml::Error> for DeserializeError {
    /// Whatever the YAML reader objected to, the error names the reader alone.
    fn from(_e: serde_yaml::Error) -> (e: DeserializeError)
        ensures
            e.s@ == "serde_yaml::Error"@,
    {
        DeserializeError::new("serde_yaml::Error")
    }
}

impl vstd::std_specs::convert::FromSpecImpl<serde_yaml::Error> for DeserializeError {
    open spec fn obeys_from_spec() -> bool {
        false
    }

    open spec fn from_spec(e: serde_yaml::Error) -> DeserializeError {
        arbitrary()
    }
}

/// Turns a result of the YAML reader into one of this library.
pub fn from_yaml_result<T>(r: Result<T, serde_yaml::Error>) -> (out: Result<T, DeserializeError>)
    ensures
        match r {
            Ok(v) => out == Ok::<T, DeserializeError>(v),
            Err(_) => out matches Err(e) && e.s@ == "serde_yaml::Error"@,
        },
{
    match r {
        Ok(v) => Ok(v),
        Err(e) => Err(DeserializeError::from(e)),
    }
}

} // verus!
