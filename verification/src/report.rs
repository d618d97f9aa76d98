//! The words of the launcher: what it says of an error, of the end of
//! an interactive session, and of each step of a run.
//!
//! Every text is stated exactly. A cause or detail that an error
//! carries is not part of its message: the caller shows it beside it.

use vstd::prelude::*;
use vstd::string::StringExecFns;
use crate::model::{texts, ExampleSpec};
use crate::runner::{RunError, RunErrorView};
use crate::scan::{LoadError, LoadErrorView};
use crate::select::{all_keyword, is_all_filter, lowercase_of, Farewell, NoMatchError};
use crate::text::{decimal, decimal_string, join, join_with};

verus! {

/// The banner that opens an interactive session: the art between the
/// codes that switch its colour on and off.
pub open spec fn banner_text() -> Seq<char> {
    "\x1b[38;5;99m"@ + banner_art() + "\x1b[0m"@
}

/// The art of the banner.
pub open spec fn banner_art() -> Seq<char> {
    "
   ███████╗       ██████╗ ██████╗ ██████╗ ███████╗
   ██╔════╝      ██╔════╝██╔═══██╗██╔══██╗██╔════╝
   ███████╗█████╗██║     ██║   ██║██████╔╝█████╗  
   ╚════██║╚════╝██║     ██║   ██║██╔══██╗██╔══╝  
   ███████║      ╚██████╗╚██████╔╝██║  ██║███████╗
   ╚══════╝       ╚═════╝ ╚═════╝ ╚═╝  ╚═╝╚══════╝
"@
}

/// The banner that opens an interactive session.
pub fn banner() -> (r: String)
    ensures
        r@ == banner_text(),
{
    let mut r = String::from_str("\x1b[38;5;99m");
    r.append(
        "
   ███████╗       ██████╗ ██████╗ ██████╗ ███████╗
   ██╔════╝      ██╔════╝██╔═══██╗██╔══██╗██╔════╝
   ███████╗█████╗██║     ██║   ██║██████╔╝█████╗  
   ╚════██║╚════╝██║     ██║   ██║██╔══██╗██╔══╝  
   ███████║      ╚██████╗╚██████╔╝██║  ██║███████╗
   ╚══════╝       ╚═════╝ ╚═════╝ ╚═╝  ╚═╝╚══════╝
",
    );
    r.append("\x1b[0m");
    r
}

/// The title of an interactive session.
pub fn welcome() -> (r: &'static str)
    ensures
        r@ == "WELCOME TO SHOWCASE ENTRYPOINT"@,
{
    "WELCOME TO SHOWCASE ENTRYPOINT"
}

/// The question whether the operator wants to select examples.
pub fn confirm_question() -> (r: &'static str)
    ensures
        r@ == "Do you want to select examples to run?"@,
{
    "Do you want to select examples to run?"
}

/// The request to select examples from the list.
pub fn choice_question() -> (r: &'static str)
    ensures
        r@
            == "Select examples to run (use space to select (multiselect supported), enter to run examples):"@,
{
    "Select examples to run (use space to select (multiselect supported), enter to run examples):"
}

/// The last words of a session in which every selected example ran.
pub fn all_done() -> (r: &'static str)
    ensures
        r@ == "All done!"@,
{
    "All done!"
}

/// What is said when an interactive session ends without a run.
pub open spec fn farewell_text(f: Farewell) -> Seq<char> {
    match f {
        Farewell::Declined => "Falling back to the console. Goodbye!"@,
        Farewell::NothingSelected => "No examples selected. Goodbye!"@,
    }
}

/// What is said when an interactive session ends without a run.
pub fn farewell(f: Farewell) -> (r: &'static str)
    ensures
        r@ == farewell_text(f),
{
    match f {
        Farewell::Declined => "Falling back to the console. Goodbye!",
        Farewell::NothingSelected => "No examples selected. Goodbye!",
    }
}

/// What is said of a failed scan.
pub open spec fn load_error_text(e: LoadErrorView) -> Seq<char> {
    match e {
        LoadErrorView::DirectoryUnreadable { path } => "Failed to read directory "@ + path,
        LoadErrorView::FileUnreadable { path } => "Failed reading "@ + path,
        LoadErrorView::MalformedDescriptor { path, detail } => "Invalid JSON in "@ + path,
    }
}

/// What is said of a failed scan.
pub fn load_error_message(e: &LoadError) -> (r: String)
    ensures
        r@ == load_error_text(e@),
{
    match e {
        LoadError::DirectoryUnreadable { path } => String::from_str(
            "Failed to read directory ",
        ).concat(path.as_str()),
        LoadError::FileUnreadable { path } => String::from_str("Failed reading ").concat(
            path.as_str(),
        ),
        LoadError::MalformedDescriptor { path, detail } => String::from_str(
            "Invalid JSON in ",
        ).concat(path.as_str()),
    }
}

/// What is said when the scan under `root` found no example.
pub open spec fn nothing_found_text(root: Seq<char>) -> Seq<char> {
    "No *.score.json files found under "@ + root
}

/// What is said when the scan under `root` found no example.
pub fn nothing_found_message(root: &str) -> (r: String)
    ensures
        r@ == nothing_found_text(root@),
{
    String::from_str("No *.score.json files found under ").concat(root)
}

/// What is said when a filter matches no example: the filter as it was
/// given, and the names of all examples, separated by a comma and a
/// blank.
pub open spec fn no_match_text(requested: Seq<char>, available: Seq<Seq<char>>) -> Seq<char> {
    "No examples found matching: "@ + requested + ". Available examples: "@ + join(
        available,
        ", "@,
    )
}

/// What is said when a filter matches no example.
pub fn no_match_message(e: &NoMatchError) -> (r: String)
    ensures
        r@ == no_match_text(e.requested@, texts(e.available@)),
{
    let mut r = String::from_str("No examples found matching: ");
    r.append(e.requested.as_str());
    r.append(". Available examples: ");
    let names = join_with(&e.available, ", ");
    r.append(names.as_str());
    r
}

/// What is said of a failed run: what failed, the position of the
/// application, counted from one, and its path.
pub open spec fn run_error_text(e: RunErrorView) -> Seq<char> {
    match e {
        RunErrorView::Spawn { index, path, cause } => "Failed to start app "@ + decimal(index)
            + ": "@ + path,
        RunErrorView::Wait { index, path, cause } => "Failed to wait for app "@ + decimal(index)
            + ": "@ + path,
    }
}

/// What is said of a failed run.
pub fn run_error_message(e: &RunError) -> (r: String)
    ensures
        r@ == run_error_text(e@),
{
    match e {
        RunError::Spawn { index, path, cause } => numbered(
            "Failed to start app ",
            *index,
            ": ",
            path.as_str(),
        ),
        RunError::Wait { index, path, cause } => numbered(
            "Failed to wait for app ",
            *index,
            ": ",
            path.as_str(),
        ),
    }
}

/// `head`, the numeral of `index`, `middle` and `tail`, one after
/// another.
fn numbered(head: &str, index: usize, middle: &str, tail: &str) -> (r: String)
    ensures
        r@ == head@ + decimal(index as nat) + middle@ + tail@,
{
    let mut r = String::from_str(head);
    let number = decimal_string(index as u64);
    r.append(number.as_str());
    r.append(middle);
    r.append(tail);
    r
}

/// The line that announces the run of an example.
pub fn example_heading(example: &ExampleSpec) -> (r: String)
    ensures
        r@ == "▶ Running example: "@ + example.name@,
{
    String::from_str("▶ Running example: ").concat(example.name.as_str())
}

/// The line that says that the run of an example begins.
pub fn example_started(example: &ExampleSpec) -> (r: String)
    ensures
        r@ == "Starting example '"@ + example.name@ + "'"@,
{
    let mut r = String::from_str("Starting example '");
    r.append(example.name.as_str());
    r.append("'");
    r
}

/// The line that says that every process of an example has ended.
pub fn example_finished(example: &ExampleSpec) -> (r: String)
    ensures
        r@ == "✅ Example '"@ + example.name@ + "' finished successfully."@,
{
    let mut r = String::from_str("✅ Example '");
    r.append(example.name.as_str());
    r.append("' finished successfully.");
    r
}

/// The line that says that the application at `index` is held back for
/// `seconds`.
pub fn waiting_notice(index: usize, seconds: u64) -> (r: String)
    ensures
        r@ == "App "@ + decimal(index as nat) + ": waiting "@ + decimal(seconds as nat)
            + " seconds before start..."@,
{
    let number = decimal_string(seconds);
    numbered("App ", index, ": waiting ", number.as_str()).concat(" seconds before start...")
}

/// The line that says that the application at `index` is being started.
pub fn starting_notice(index: usize, path: &str) -> (r: String)
    ensures
        r@ == "App "@ + decimal(index as nat) + ": starting "@ + path@,
{
    numbered("App ", index, ": starting ", path)
}

/// The line that says that the process of the application at `index`
/// has ended.
pub fn finished_notice(index: usize, path: &str) -> (r: String)
    ensures
        r@ == "App "@ + decimal(index as nat) + ": finished "@ + path@,
{
    numbered("App ", index, ": finished ", path)
}

/// The line that says that all `count` examples run.
pub fn running_all_notice(count: usize) -> (r: String)
    ensures
        r@ == "Running all "@ + decimal(count as nat) + " examples"@,
{
    let number = decimal_string(count as u64);
    String::from_str("Running all ").concat(number.as_str()).concat(" examples")
}

/// The line that says which examples a filter asked for.
pub fn running_named_notice(filter: &str) -> (r: String)
    ensures
        r@ == "Running examples: "@ + filter@,
{
    String::from_str("Running examples: ").concat(filter)
}

/// The line that says what a filter selects among `count` examples:
/// all of them if the filter asks for all, else those it names.
pub fn filter_notice(count: usize, filter: &str) -> (r: String)
    ensures
        r@ == (if lowercase_of(filter@) == all_keyword() {
            "Running all "@ + decimal(count as nat) + " examples"@
        } else {
            "Running examples: "@ + filter@
        }),
{
    if is_all_filter(filter) {
        running_all_notice(count)
    } else {
        running_named_notice(filter)
    }
}

/// The entries of the list that the operator selects from: for each
/// example its position, its name and its description, in discovery
/// order.
pub fn choice_items(examples: &Vec<ExampleSpec>) -> (items: Vec<(usize, String, String)>)
    ensures
        items.len() == examples.len(),
        forall|i: int|
            0 <= i < items.len() ==> (#[trigger] items[i]).0 == i && items[i].1@
                == examples[i].name@ && items[i].2@ == examples[i].description@,
{
    let mut items: Vec<(usize, String, String)> = Vec::new();
    let mut i: usize = 0;
    while i < examples.len()
        invariant
            i <= examples.len(),
            items.len() == i,
            forall|k: int|
                0 <= k < i ==> (#[trigger] items[k]).0 == k && items[k].1@ == examples[k].name@
                    && items[k].2@ == examples[k].description@,
        decreases examples.len() - i,
    {
        items.push((i, examples[i].name.clone(), examples[i].description.clone()));
        i += 1;
    }
    items
}

} // verus!
