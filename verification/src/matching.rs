//! The mathematical account of a command line: which tokens are flags, which
//! catalog entry a flag selects, what a scan of the arguments yields, and the
//! messages that report a rejected command line.

use vstd::prelude::*;
use crate::option::OptionView;
use crate::option::Option;

verus! {

/// The values of a list of options, in order.
pub open spec fn option_views(options: Seq<Option>) -> Seq<OptionView> {
    options.map_values(|o: Option| o@)
}

/// The texts of a list of strings, in order.
pub open spec fn texts(strings: Seq<String>) -> Seq<Seq<char>> {
    strings.map_values(|s: String| s@)
}

/// The help option that every catalog ends with.
pub open spec fn help_option() -> OptionView {
    OptionView {
        short_name: "h"@,
        long_name: "help"@,
        required: false,
        has_argument: false,
        description: "Displays the help screen"@,
        argument: Seq::<char>::empty(),
    }
}

/// An option answers to its short name and to its long name.
pub open spec fn names(option: OptionView, name: Seq<char>) -> bool {
    option.short_name == name || option.long_name == name
}

/// A token is a flag when its first character is a dash.
pub open spec fn is_flag(token: Seq<char>) -> bool {
    token.len() > 0 && token[0] == '-'
}

/// The name a flag asks for: everything after its first character. A second
/// dash is not stripped, so "--help" asks for "-help".
pub open spec fn flag_name(token: Seq<char>) -> Seq<char> {
    token.subrange(1, token.len() as int)
}

/// The index of the first entry at or after `from` that answers to `name`,
/// or the length of `entries` when there is none.
pub open spec fn first_named(entries: Seq<OptionView>, name: Seq<char>, from: int) -> int
    decreases entries.len() - from,
{
    if from >= entries.len() {
        entries.len() as int
    } else if names(entries[from], name) {
        from
    } else {
        first_named(entries, name, from + 1)
    }
}

/// Whether some entry answers to `name`.
pub open spec fn is_present_in(entries: Seq<OptionView>, name: Seq<char>) -> bool {
    exists|k: int| 0 <= k < entries.len() && names(#[trigger] entries[k], name)
}

/// The index of the first entry at or after `from` that takes an argument and
/// answers to `name`, or the length of `entries` when there is none.
pub open spec fn first_valued(entries: Seq<OptionView>, name: Seq<char>, from: int) -> int
    decreases entries.len() - from,
{
    if from >= entries.len() {
        entries.len() as int
    } else if entries[from].has_argument && names(entries[from], name) {
        from
    } else {
        first_valued(entries, name, from + 1)
    }
}

/// The argument recorded for `name`: that of the first entry that takes an
/// argument and answers to `name`, and the empty text when there is none.
pub open spec fn argument_in(entries: Seq<OptionView>, name: Seq<char>) -> Seq<char> {
    let k = first_valued(entries, name, 0);
    if k < entries.len() {
        entries[k].argument
    } else {
        Seq::<char>::empty()
    }
}

/// Whether some matched entry shares its short name or its long name with
/// `declared`.
pub open spec fn supplied(found: Seq<OptionView>, declared: OptionView) -> bool {
    exists|j: int|
        0 <= j < found.len() && ((#[trigger] found[j]).short_name == declared.short_name
            || found[j].long_name == declared.long_name)
}

/// The index of the first catalog entry at or after `from` that is required
/// and not supplied, or the length of the catalog when there is none.
pub open spec fn first_missing(catalog: Seq<OptionView>, found: Seq<OptionView>, from: int) -> int
    decreases catalog.len() - from,
{
    if from >= catalog.len() {
        catalog.len() as int
    } else if catalog[from].required && !supplied(found, catalog[from]) {
        from
    } else {
        first_missing(catalog, found, from + 1)
    }
}

/// What a matched flag records: the names, flags and description of the
/// catalog entry it selected, and the argument taken from the command line.
pub open spec fn matched_entry(declared: OptionView, argument: Seq<char>) -> OptionView {
    OptionView {
        short_name: declared.short_name,
        long_name: declared.long_name,
        required: declared.required,
        has_argument: declared.has_argument,
        description: declared.description,
        argument,
    }
}

/// What a left-to-right scan of the arguments yields.
pub enum Scan {
    /// Every flag was recognised; the matched entries, in order of appearance.
    Matched(Seq<OptionView>),
    /// The flag token that no catalog entry answers to.
    UnknownOption(Seq<char>),
    /// The flag token whose argument should have followed, at the end of input.
    MissingArgument(Seq<char>),
}

impl Scan {
    /// The outcome of a longer scan that matched `earlier` before reaching
    /// this one: a failure stays as it is.
    pub open spec fn preceded_by(self, earlier: Seq<OptionView>) -> Scan {
        match self {
            Scan::Matched(found) => Scan::Matched(earlier + found),
            failure => failure,
        }
    }
}

/// The scan of `args` from position `from` on. A token that is no flag is
/// passed over. A flag selects the first catalog entry that answers to its
/// name; an entry that takes an argument consumes the following token, flag
/// or not. The first flag that is unknown, or lacks its argument, ends the
/// scan.
pub open spec fn scan(catalog: Seq<OptionView>, args: Seq<Seq<char>>, from: int) -> Scan
    decreases args.len() - from,
{
    if from >= args.len() {
        Scan::Matched(Seq::empty())
    } else if !is_flag(args[from]) {
        scan(catalog, args, from + 1)
    } else {
        let k = first_named(catalog, flag_name(args[from]), 0);
        if k >= catalog.len() {
            Scan::UnknownOption(args[from])
        } else if !catalog[k].has_argument {
            scan(catalog, args, from + 1).preceded_by(
                seq![matched_entry(catalog[k], Seq::<char>::empty())],
            )
        } else if from + 1 >= args.len() {
            Scan::MissingArgument(args[from])
        } else {
            scan(catalog, args, from + 2).preceded_by(
                seq![matched_entry(catalog[k], args[from + 1])],
            )
        }
    }
}

/// The message for a flag that no catalog entry answers to.
pub open spec fn unknown_option_message(token: Seq<char>) -> Seq<char> {
    "Unknown option: "@ + token
}

/// The message for a flag whose argument is missing at the end of input.
pub open spec fn missing_argument_message(token: Seq<char>) -> Seq<char> {
    "Option "@ + token + " requires an argument."@
}

/// The message for a required option that was not supplied.
pub open spec fn missing_required_message(declared: OptionView) -> Seq<char> {
    "Required option -"@ + declared.short_name + " or --"@ + declared.long_name + " is missing."@
}

/// What a scan reports to its caller: the matches, or the message of the
/// failure that ended it.
pub open spec fn scan_report(outcome: Scan) -> Result<Seq<OptionView>, Seq<char>> {
    match outcome {
        Scan::Matched(found) => Ok(found),
        Scan::UnknownOption(token) => Err(unknown_option_message(token)),
        Scan::MissingArgument(token) => Err(missing_argument_message(token)),
    }
}

/// The result of parsing `args` against `catalog`. A failed scan is reported
/// by its message. After a complete scan, a request for help ("h" is among
/// the matches) succeeds whatever else is missing; otherwise the first
/// required catalog entry that was not supplied is reported, and if there is
/// none the matches are the result.
pub open spec fn parse_outcome(catalog: Seq<OptionView>, args: Seq<Seq<char>>) -> Result<
    Seq<OptionView>,
    Seq<char>,
> {
    match scan_report(scan(catalog, args, 0)) {
        Err(message) => Err(message),
        Ok(found) => {
            let k = first_missing(catalog, found, 0);
            if is_present_in(found, "h"@) || k >= catalog.len() {
                Ok(found)
            } else {
                Err(missing_required_message(catalog[k]))
            }
        },
    }
}

/// The matches a manager holds after parsing `args`: those of a complete
/// scan, also where a required option then turns out to be missing; after a
/// failed scan, what it held before.
pub open spec fn stored_after(
    catalog: Seq<OptionView>,
    args: Seq<Seq<char>>,
    before: Seq<OptionView>,
) -> Seq<OptionView> {
    match scan(catalog, args, 0) {
        Scan::Matched(found) => found,
        _ => before,
    }
}

/// One catalog entry on the help screen: a line with both names and the
/// marks for an argument and for a required option, then the indented
/// description.
pub open spec fn help_entry(declared: OptionView) -> Seq<char> {
    "  -"@ + declared.short_name + ", --"@ + declared.long_name + (if declared.has_argument {
        " <arg>"@
    } else {
        ""@
    }) + (if declared.required {
        " (required)"@
    } else {
        ""@
    }) + "\n      "@ + declared.description + "\n"@
}

/// The help entries of the first `count` catalog entries, in catalog order.
pub open spec fn help_entries(catalog: Seq<OptionView>, count: int) -> Seq<char>
    decreases count,
{
    if count <= 0 {
        Seq::<char>::empty()
    } else {
        help_entries(catalog, count - 1) + help_entry(catalog[count - 1])
    }
}

/// The help screen: a heading with the application's name, then every
/// catalog entry.
pub open spec fn help_screen(context: Seq<char>, catalog: Seq<OptionView>) -> Seq<char> {
    context + " - Help: \n"@ + help_entries(catalog, catalog.len() as int)
}

/// What `first_named` finds: an entry that answers to the name with none
/// before it back to `from`, or no such entry from `from` on.
pub proof fn lemma_first_named(entries: Seq<OptionView>, name: Seq<char>, from: int)
    requires
        0 <= from,
    ensures
        from <= first_named(entries, name, from) || first_named(entries, name, from)
            == entries.len(),
        first_named(entries, name, from) <= entries.len(),
        first_named(entries, name, from) < entries.len() ==> names(
            entries[first_named(entries, name, from)],
            name,
        ),
        forall|j: int|
            from <= j < first_named(entries, name, from) ==> !names(#[trigger] entries[j], name),
    decreases entries.len() - from,
{
    if from < entries.len() && !names(entries[from], name) {
        lemma_first_named(entries, name, from + 1);
    }
}

/// What `first_missing` finds: a required entry that was not supplied, with
/// none such before it back to `from`, or no such entry from `from` on.
pub proof fn lemma_first_missing(catalog: Seq<OptionView>, found: Seq<OptionView>, from: int)
    requires
        0 <= from,
    ensures
        first_missing(catalog, found, from) <= catalog.len(),
        first_missing(catalog, found, from) < catalog.len() ==> {
            &&& from <= first_missing(catalog, found, from)
            &&& catalog[first_missing(catalog, found, from)].required
            &&& !supplied(found, catalog[first_missing(catalog, found, from)])
        },
        forall|j: int|
            from <= j < first_missing(catalog, found, from) ==> !(#[trigger] catalog[j]).required
                || supplied(found, catalog[j]),
    decreases catalog.len() - from,
{
    if from < catalog.len() && !(catalog[from].required && !supplied(found, catalog[from])) {
        lemma_first_missing(catalog, found, from + 1);
    }
}

/// A command line that is accepted without a request for help supplies every
/// required option of the catalog.
pub proof fn lemma_accepted_supplies_required(catalog: Seq<OptionView>, args: Seq<Seq<char>>)
    requires
        parse_outcome(catalog, args) is Ok,
        !is_present_in(parse_outcome(catalog, args)->Ok_0, "h"@),
    ensures
        forall|k: int|
            0 <= k < catalog.len() && (#[trigger] catalog[k]).required ==> supplied(
                parse_outcome(catalog, args)->Ok_0,
                catalog[k],
            ),
{
    let found = parse_outcome(catalog, args)->Ok_0;
    assert(scan(catalog, args, 0) == Scan::Matched(found));
    lemma_first_missing(catalog, found, 0);
}

/// What an accepted command line returns is what is stored for the queries
/// that follow, whatever was stored before.
pub proof fn lemma_accepted_is_stored(
    catalog: Seq<OptionView>,
    args: Seq<Seq<char>>,
    before: Seq<OptionView>,
)
    requires
        parse_outcome(catalog, args) is Ok,
    ensures
        stored_after(catalog, args, before) == parse_outcome(catalog, args)->Ok_0,
{
}

/// With nothing required in the catalog, nothing from `from` on is missing,
/// whatever was matched.
proof fn lemma_nothing_required(catalog: Seq<OptionView>, found: Seq<OptionView>, from: int)
    requires
        0 <= from,
        forall|k: int| 0 <= k < catalog.len() ==> !(#[trigger] catalog[k]).required,
    ensures
        first_missing(catalog, found, from) == catalog.len(),
    decreases catalog.len() - from,
{
    if from < catalog.len() {
        lemma_nothing_required(catalog, found, from + 1);
    }
}

/// An empty command line is accepted whenever the catalog requires nothing:
/// the result is the empty list of matches, that list is what is stored, and
/// no name is present in it.
pub proof fn lemma_empty_command_line(catalog: Seq<OptionView>, before: Seq<OptionView>)
    requires
        forall|k: int| 0 <= k < catalog.len() ==> !(#[trigger] catalog[k]).required,
    ensures
        parse_outcome(catalog, Seq::<Seq<char>>::empty()) == Ok::<Seq<OptionView>, Seq<char>>(
            Seq::<OptionView>::empty(),
        ),
        stored_after(catalog, Seq::<Seq<char>>::empty(), before) == Seq::<OptionView>::empty(),
        forall|name: Seq<char>| !is_present_in(Seq::<OptionView>::empty(), name),
{
    lemma_nothing_required(catalog, Seq::<OptionView>::empty(), 0);
}

/// Where no entry that answers to `name` takes an argument, none from `from`
/// on is found to carry one.
proof fn lemma_no_valued(entries: Seq<OptionView>, name: Seq<char>, from: int)
    requires
        0 <= from,
        forall|k: int|
            0 <= k < entries.len() && names(#[trigger] entries[k], name)
                ==> !entries[k].has_argument,
    ensures
        first_valued(entries, name, from) == entries.len(),
    decreases entries.len() - from,
{
    if from < entries.len() {
        lemma_no_valued(entries, name, from + 1);
    }
}

/// An option that takes no argument has none to give: where every match that
/// answers to `name` was declared without an argument, the argument recorded
/// for `name` is the empty text, present or not.
pub proof fn lemma_argument_of_plain_option(entries: Seq<OptionView>, name: Seq<char>)
    requires
        forall|k: int|
            0 <= k < entries.len() && names(#[trigger] entries[k], name)
                ==> !entries[k].has_argument,
    ensures
        argument_in(entries, name) == Seq::<char>::empty(),
{
    lemma_no_valued(entries, name, 0);
}

} // verus!
