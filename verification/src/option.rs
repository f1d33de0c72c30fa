//! One command-line option, as declared or as matched on a command line.

use vstd::prelude::*;
use vstd::string::StringExecFns;

verus! {

/// The mathematical value of an [`Option`].
pub struct OptionView {
    pub short_name: Seq<char>,
    pub long_name: Seq<char>,
    pub required: bool,
    pub has_argument: bool,
    pub description: Seq<char>,
    pub argument: Seq<char>,
}

/// A command-line option.
pub struct Option {
    /// The short name, without its dash: "h" for "-h".
    pub short_name: String,
    /// The long name, without its dashes: "help" for "--help".
    pub long_name: String,
    /// Whether a command line without this option is rejected.
    pub required: bool,
    /// Whether the token after the flag is taken as the option's value.
    pub has_argument: bool,
    /// Free text shown on the help screen.
    pub description: String,
    /// The value given on the command line; empty until matched.
    pub argument: String,
}

impl View for Option {
    type V = OptionView;

    open spec fn view(&self) -> OptionView {
        OptionView {
            short_name: self.short_name@,
            long_name: self.long_name@,
            required: self.required,
            has_argument: self.has_argument,
            description: self.description@,
            argument: self.argument@,
        }
    }
}

/// How a flag's truth value is written out.
pub open spec fn truth_text(value: bool) -> Seq<char> {
    if value {
        "true"@
    } else {
        "false"@
    }
}

/// The one-line diagnostic description of an option: every declared field,
/// labelled, in declaration order. The matched argument is not part of it.
pub open spec fn diagnostic_text(option: OptionView) -> Seq<char> {
    "short:"@ + option.short_name + ", long:"@ + option.long_name + ", required:"@ + truth_text(
        option.required,
    ) + ", has argument:"@ + truth_text(option.has_argument) + ", description:"@
        + option.description
}

impl Clone for Option {
    /// A copy with the same value in every field.
    fn clone(&self) -> (r: Self)
        ensures
            r@ == self@,
    {
        Self {
            short_name: self.short_name.clone(),
            long_name: self.long_name.clone(),
            required: self.required,
            has_argument: self.has_argument,
            description: self.description.clone(),
            argument: self.argument.clone(),
        }
    }
}

impl Option {
    /// Renders the option for diagnostics, as [`diagnostic_text`] lays it out.
    pub fn to_string(&self) -> (r: String)
        ensures
            r@ == diagnostic_text(self@),
    {
        let mut text = String::from_str("short:");
        text.append(self.short_name.as_str());
        text.append(", long:");
        text.append(self.long_name.as_str());
        text.append(", required:");
        text.append(if self.required { "true" } else { "false" });
        text.append(", has argument:");
        text.append(if self.has_argument { "true" } else { "false" });
        text.append(", description:");
        text.append(self.description.as_str());
        text
    }

    /// Declares an option; its argument starts out empty.
    pub fn new(
        short_name: String,
        long_name: String,
        required: bool,
        has_argument: bool,
        description: String,
    ) -> (r: Self)
        ensures
            r@ == (OptionView {
                short_name: short_name@,
                long_name: long_name@,
                required,
                has_argument,
                description: description@,
                argument: Seq::<char>::empty(),
            }),
    {
        Self { short_name, long_name, required, has_argument, description, argument: String::new() }
    }
}

} // verus!
