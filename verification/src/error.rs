//! What can go wrong while themes are read.

use vstd::prelude::*;
use vstd::string::StringExecFns;

verus! {

/// Why a theme, or the list of themes, could not be had.
#[derive(Debug)]
pub enum RadioError {
    /// A colour that a theme needs is not set.
    MissingColor,
    /// A colour that is not six bytes of hexadecimal; holds the text as it was given.
    UnsupportedColor(String),
    /// A colour with something else than hexadecimal digits in it.
    InvalidDigit,
    /// A theme file without a usable name.
    BadThemeFilename,
    /// No theme at all.
    NoThemes,
}

/// A [`RadioError`] as a mathematical value.
pub enum Fault {
    MissingColor,
    UnsupportedColor(Seq<char>),
    InvalidDigit,
    BadThemeFilename,
    NoThemes,
}

impl View for RadioError {
    type V = Fault;

    open spec fn view(&self) -> Fault {
        match self {
            RadioError::MissingColor => Fault::MissingColor,
            RadioError::UnsupportedColor(raw) => Fault::UnsupportedColor(raw@),
            RadioError::InvalidDigit => Fault::InvalidDigit,
            RadioError::BadThemeFilename => Fault::BadThemeFilename,
            RadioError::NoThemes => Fault::NoThemes,
        }
    }
}

/// The sentence that is shown for a fault.
pub open spec fn fault_message(fault: Fault) -> Seq<char> {
    match fault {
        Fault::MissingColor => "missing color string"@,
        Fault::UnsupportedColor(raw) => "unsupported color format: "@ + raw,
        Fault::InvalidDigit => "invalid digit found in string"@,
        Fault::BadThemeFilename => "bad theme filename"@,
        Fault::NoThemes => "no Alacritty TOML themes found"@,
    }
}

impl RadioError {
    /// The sentence that is shown for this error.
    pub fn message(&self) -> (text: String)
        ensures
            text@ == fault_message(self@),
    {
        match self {
            RadioError::MissingColor => "missing color string".to_owned(),
            RadioError::UnsupportedColor(raw) => {
                let mut text: String = "unsupported color format: ".to_owned();
                text.append(raw.as_str());
                text
            },
            RadioError::InvalidDigit => "invalid digit found in string".to_owned(),
            RadioError::BadThemeFilename => "bad theme filename".to_owned(),
            RadioError::NoThemes => "no Alacritty TOML themes found".to_owned(),
        }
    }
}

/// Every fault is told by its own sentence, and a colour that is not supported as it was given.
pub proof fn faults_are_told_apart(raw: Seq<char>)
    ensures
        fault_message(Fault::MissingColor) == "missing color string"@,
        fault_message(Fault::UnsupportedColor(raw)) == "unsupported color format: "@ + raw,
        fault_message(Fault::InvalidDigit) == "invalid digit found in string"@,
        fault_message(Fault::BadThemeFilename) == "bad theme filename"@,
        fault_message(Fault::NoThemes) == "no Alacritty TOML themes found"@,
{
}

/// An error as a mathematical value is the fault of the same name.
pub proof fn errors_are_seen_as_they_are(error: RadioError)
    ensures
        error is MissingColor <==> error@ is MissingColor,
        error is UnsupportedColor <==> error@ is UnsupportedColor,
        error is UnsupportedColor ==> error@ == Fault::UnsupportedColor(
            error->UnsupportedColor_0@,
        ),
        error is InvalidDigit <==> error@ is InvalidDigit,
        error is BadThemeFilename <==> error@ is BadThemeFilename,
        error is NoThemes <==> error@ is NoThemes,
{
}

} // verus!
