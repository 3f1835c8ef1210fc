use vstd::prelude::*;

verus! {

/// The error-code catalog of a project: the language of the messages and one
/// entry per code.
pub struct ErrorMessages {
    pub language: String,
    pub codes: Vec<ErrorMessage>,
}

/// One catalog entry: the numeric code, its symbolic name, the message shown
/// for it, and where it originates.
pub struct ErrorMessage {
    pub code: i64,
    pub symbol: String,
    pub message: String,
    pub source: String,
}

/// The catalog used when the project has none yet: a single placeholder
/// entry asking for the catalog file to be populated.
pub fn default_error_messages() -> (r: ErrorMessages)
    ensures
        r.language@ == "TODO"@,
        r.codes@.len() == 1,
        r.codes@[0].code == 0,
        r.codes@[0].symbol@ == "XXX"@,
        r.codes@[0].message@ == "Please populate error_codes.json"@,
        r.codes@[0].source@ == "None"@,
{
    let mut codes: Vec<ErrorMessage> = Vec::new();
    codes.push(
        ErrorMessage {
            code: 0,
            symbol: String::from_str("XXX"),
            message: String::from_str("Please populate error_codes.json"),
            source: String::from_str("None"),
        },
    );
    ErrorMessages { language: String::from_str("TODO"), codes }
}

} // verus!
