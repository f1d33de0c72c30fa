//! The options manager: it owns the catalog of declared options, scans a
//! command line against it, and answers which options were given.

use vstd::prelude::*;
use vstd::string::StrSliceExecFns;
use vstd::string::StringExecFns;
use crate::matching::argument_in;
use crate::matching::first_missing;
use crate::matching::first_named;
use crate::matching::first_valued;
use crate::matching::help_entries;
use crate::matching::help_entry;
use crate::matching::help_option;
use crate::matching::help_screen;
use crate::matching::is_present_in;
use crate::matching::lemma_first_named;
use crate::matching::matched_entry;
use crate::matching::missing_argument_message;
use crate::matching::missing_required_message;
use crate::matching::option_views;
use crate::matching::parse_outcome;
use crate::matching::scan;
use crate::matching::scan_report;
use crate::matching::stored_after;
use crate::matching::supplied;
use crate::matching::texts;
use crate::matching::unknown_option_message;
use crate::matching::Scan;
use crate::option::Option;
use crate::option::OptionView;

verus! {

/// The mathematical value of an [`OptionsManager`].
pub struct ManagerView {
    /// The application's name, as the help screen shows it.
    pub context: Seq<char>,
    /// Every declared option in declaration order, the help option last.
    pub catalog: Seq<OptionView>,
    /// The matches of the most recent complete scan.
    pub present: Seq<OptionView>,
}

/// A command-line option manager.
pub struct OptionsManager {
    context: String,
    options: Vec<Option>,
    present_options: Vec<Option>,
}

impl View for OptionsManager {
    type V = ManagerView;

    closed spec fn view(&self) -> ManagerView {
        ManagerView {
            context: self.context@,
            catalog: option_views(self.options@),
            present: option_views(self.present_options@),
        }
    }
}

/// The value of a parse result: the matched options by their values, or the
/// text of the error.
pub open spec fn outcome_view(outcome: Result<Vec<Option>, String>) -> Result<
    Seq<OptionView>,
    Seq<char>,
> {
    match outcome {
        Ok(found) => Ok(option_views(found@)),
        Err(message) => Err(message@),
    }
}

/// Matching `entry` after `earlier` is matching after `earlier` extended by
/// `entry`.
proof fn lemma_preceded_by_push(rest: Scan, earlier: Seq<OptionView>, entry: OptionView)
    ensures
        rest.preceded_by(seq![entry]).preceded_by(earlier) == rest.preceded_by(earlier.push(entry)),
{
    match rest {
        Scan::Matched(found) => {
            assert(earlier + (seq![entry] + found) =~= earlier.push(entry) + found);
        },
        _ => {},
    }
}

fn unknown_option_text(token: &str) -> (r: String)
    ensures
        r@ == unknown_option_message(token@),
{
    let mut text = String::from_str("Unknown option: ");
    text.append(token);
    text
}

fn missing_argument_text(token: &str) -> (r: String)
    ensures
        r@ == missing_argument_message(token@),
{
    let mut text = String::from_str("Option ");
    text.append(token);
    text.append(" requires an argument.");
    text
}

fn missing_required_text(declared: &Option) -> (r: String)
    ensures
        r@ == missing_required_message(declared@),
{
    let mut text = String::from_str("Required option -");
    text.append(declared.short_name.as_str());
    text.append(" or --");
    text.append(declared.long_name.as_str());
    text.append(" is missing.");
    text
}

/// Renders one catalog entry of the help screen.
fn help_entry_text(declared: &Option) -> (r: String)
    ensures
        r@ == help_entry(declared@),
{
    let mut text = String::from_str("  -");
    text.append(declared.short_name.as_str());
    text.append(", --");
    text.append(declared.long_name.as_str());
    text.append(if declared.has_argument { " <arg>" } else { "" });
    text.append(if declared.required { " (required)" } else { "" });
    text.append("\n      ");
    text.append(declared.description.as_str());
    text.append("\n");
    text
}

/// Finds the first option that answers to `name`.
fn find_named(options: &Vec<Option>, name: &String) -> (k: usize)
    ensures
        k == first_named(option_views(options@), name@, 0),
{
    let mut k: usize = 0;
    while k < options.len()
        invariant
            k <= options.len(),
            first_named(option_views(options@), name@, 0) == first_named(
                option_views(options@),
                name@,
                k as int,
            ),
        decreases options.len() - k,
    {
        if options[k].short_name == *name || options[k].long_name == *name {
            return k;
        }
        k += 1;
    }
    k
}

/// Finds the first option that takes an argument and answers to `name`.
fn find_valued(options: &Vec<Option>, name: &String) -> (k: usize)
    ensures
        k == first_valued(option_views(options@), name@, 0),
{
    let mut k: usize = 0;
    while k < options.len()
        invariant
            k <= options.len(),
            first_valued(option_views(options@), name@, 0) == first_valued(
                option_views(options@),
                name@,
                k as int,
            ),
        decreases options.len() - k,
    {
        if options[k].has_argument && (options[k].short_name == *name || options[k].long_name
            == *name) {
            return k;
        }
        k += 1;
    }
    k
}

/// Whether some option answers to `name`.
fn any_named(options: &Vec<Option>, name: &String) -> (r: bool)
    ensures
        r == is_present_in(option_views(options@), name@),
{
    let k = find_named(options, name);
    proof {
        lemma_first_named(option_views(options@), name@, 0);
    }
    k < options.len()
}

/// Whether some matched option shares a name with `declared`.
fn is_supplied(found: &Vec<Option>, declared: &Option) -> (r: bool)
    ensures
        r == supplied(option_views(found@), declared@),
{
    let mut j: usize = 0;
    while j < found.len()
        invariant
            j <= found.len(),
            forall|i: int|
                0 <= i < j ==> !((#[trigger] option_views(found@)[i]).short_name
                    == declared@.short_name || option_views(found@)[i].long_name
                    == declared@.long_name),
        decreases found.len() - j,
    {
        if found[j].short_name == declared.short_name || found[j].long_name
            == declared.long_name {
            assert(option_views(found@)[j as int] == found@[j as int]@);
            return true;
        }
        j += 1;
    }
    false
}

/// Finds the first required option that was not supplied.
fn find_missing(options: &Vec<Option>, found: &Vec<Option>) -> (k: usize)
    ensures
        k == first_missing(option_views(options@), option_views(found@), 0),
{
    let mut k: usize = 0;
    while k < options.len()
        invariant
            k <= options.len(),
            first_missing(option_views(options@), option_views(found@), 0) == first_missing(
                option_views(options@),
                option_views(found@),
                k as int,
            ),
        decreases options.len() - k,
    {
        if options[k].required && !is_supplied(found, &options[k]) {
            return k;
        }
        k += 1;
    }
    k
}

/// Copies a list of options, value for value.
fn copy_all(options: &Vec<Option>) -> (r: Vec<Option>)
    ensures
        option_views(r@) == option_views(options@),
{
    let mut copies: Vec<Option> = Vec::new();
    let mut k: usize = 0;
    while k < options.len()
        invariant
            k <= options.len(),
            copies@.len() == k,
            forall|i: int| 0 <= i < k ==> (#[trigger] copies@[i])@ == options@[i]@,
        decreases options.len() - k,
    {
        copies.push(options[k].clone());
        k += 1;
    }
    assert(option_views(copies@) =~= option_views(options@));
    copies
}

/// Scans the arguments from left to right against the catalog.
fn scan_arguments(options: &Vec<Option>, args: &Vec<String>) -> (r: Result<Vec<Option>, String>)
    ensures
        outcome_view(r) == scan_report(scan(option_views(options@), texts(args@), 0)),
{
    let ghost catalog = option_views(options@);
    let ghost tokens = texts(args@);
    let mut found: Vec<Option> = Vec::new();
    let mut index: usize = 0;
    while index < args.len()
        invariant
            index <= args.len(),
            catalog == option_views(options@),
            tokens == texts(args@),
            scan(catalog, tokens, 0) == scan(catalog, tokens, index as int).preceded_by(
                option_views(found@),
            ),
        decreases args.len() - index,
    {
        let token = args[index].as_str();
        assert(tokens[index as int] == token@);
        let length = token.unicode_len();
        if length > 0 && token.get_char(0) == '-' {
            let name = String::from_str(token.substring_char(1, length));
            let k = find_named(options, &name);
            if k >= options.len() {
                return Err(unknown_option_text(token));
            }
            let declared = &options[k];
            assert(catalog[k as int] == declared@);
            let mut argument = String::new();
            if declared.has_argument {
                if index + 1 >= args.len() {
                    return Err(missing_argument_text(token));
                }
                index += 1;
                argument = args[index].clone();
                assert(tokens[index as int] == argument@);
            }
            let entry = Option {
                short_name: declared.short_name.clone(),
                long_name: declared.long_name.clone(),
                required: declared.required,
                has_argument: declared.has_argument,
                description: declared.description.clone(),
                argument,
            };
            proof {
                lemma_preceded_by_push(
                    scan(catalog, tokens, index + 1),
                    option_views(found@),
                    entry@,
                );
                assert(option_views(found@.push(entry)) =~= option_views(found@).push(entry@));
            }
            found.push(entry);
        }
        index += 1;
    }
    assert(option_views(found@) + Seq::<OptionView>::empty() =~= option_views(found@));
    Ok(found)
}

impl OptionsManager {
    /// Builds a manager for the application named `context`. The catalog is
    /// the declared options in their order, followed by the help option;
    /// nothing is matched yet.
    pub fn new(context: &str, options: Vec<Option>) -> (r: Self)
        ensures
            r@ == (ManagerView {
                context: context@,
                catalog: option_views(options@).push(help_option()),
                present: Seq::<OptionView>::empty(),
            }),
    {
        let ghost declared = option_views(options@);
        let mut options = options;
        options.push(
            Option::new(
                String::from_str("h"),
                String::from_str("help"),
                false,
                false,
                String::from_str("Displays the help screen"),
            ),
        );
        let r = Self { context: String::from_str(context), options, present_options: Vec::new() };
        assert(r@.catalog =~= declared.push(help_option()));
        assert(r@.present =~= Seq::<OptionView>::empty());
        r
    }

    /// The catalog: every declared option, the help option last.
    pub fn options(&self) -> (r: &Vec<Option>)
        ensures
            option_views(r@) == self@.catalog,
    {
        &self.options
    }

    /// Parses a command line. The result is [`parse_outcome`] of the catalog
    /// and the arguments. The matches of a complete scan are stored for
    /// [`Self::is_present`] and [`Self::argument`], also where a required
    /// option is then reported missing; a failed scan leaves the stored
    /// matches as they were.
    /// When the result is `Ok` and "h" is present, the caller is expected to
    /// show [`Self::help_text`].
    pub fn parse_options(&mut self, args: Vec<String>) -> (r: Result<Vec<Option>, String>)
        ensures
            outcome_view(r) == parse_outcome(old(self)@.catalog, texts(args@)),
            final(self)@ == (ManagerView {
                context: old(self)@.context,
                catalog: old(self)@.catalog,
                present: stored_after(old(self)@.catalog, texts(args@), old(self)@.present),
            }),
    {
        let found = match scan_arguments(&self.options, &args) {
            Ok(found) => found,
            Err(message) => {
                return Err(message);
            },
        };
        self.present_options = copy_all(&found);
        if self.is_present("h") {
            return Ok(found);
        }
        let k = find_missing(&self.options, &found);
        if k < self.options.len() {
            assert(option_views(self.options@)[k as int] == self.options@[k as int]@);
            Err(missing_required_text(&self.options[k]))
        } else {
            Ok(found)
        }
    }

    /// Whether the most recent complete scan matched an option that answers
    /// to `option`. A pure read: the answer depends on the stored matches and
    /// the name alone, so asking again gives the same answer.
    pub fn is_present(&self, option: &str) -> (r: bool)
        ensures
            r == is_present_in(self@.present, option@),
    {
        let name = String::from_str(option);
        any_named(&self.present_options, &name)
    }

    /// The argument that the most recent complete scan recorded for `option`:
    /// that of the first match that takes an argument and answers to the
    /// name, and the empty string when there is none. A pure read: asking
    /// again gives the same answer.
    pub fn argument(&self, option: &str) -> (r: String)
        ensures
            r@ == argument_in(self@.present, option@),
    {
        let name = String::from_str(option);
        let k = find_valued(&self.present_options, &name);
        if k < self.present_options.len() {
            assert(option_views(self.present_options@)[k as int]
                == self.present_options@[k as int]@);
            self.present_options[k].argument.clone()
        } else {
            String::new()
        }
    }

    /// The text of the help screen, as [`help_screen`] lays it out.
    pub fn help_text(&self) -> (r: String)
        ensures
            r@ == help_screen(self@.context, self@.catalog),
    {
        let mut text = self.context.clone();
        text.append(" - Help: \n");
        let mut k: usize = 0;
        while k < self.options.len()
            invariant
                k <= self.options.len(),
                text@ == self.context@ + " - Help: \n"@ + help_entries(
                    option_views(self.options@),
                    k as int,
                ),
            decreases self.options.len() - k,
        {
            let ghost before = text@;
            let entry = help_entry_text(&self.options[k]);
            assert(option_views(self.options@)[k as int] == self.options@[k as int]@);
            text.append(entry.as_str());
            k += 1;
            assert(text@ =~= self.context@ + " - Help: \n"@ + (help_entries(
                option_views(self.options@),
                k - 1,
            ) + entry@));
        }
        text
    }
}

} // verus!
