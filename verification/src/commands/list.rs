//! How installed modules are listed.

use crate::text::same_text;
use vstd::prelude::*;

pub mod rubygems;

verus! {

/// The forms in which modules are listed.
#[derive(Clone, Copy, Debug, PartialEq, Eq, Structural)]
pub enum OutputFormat {
    /// One line for each module, for people to read.
    Cli,
    /// One JSON object for each module, on a line of its own.
    Jsonl,
}

/// The form that goes by the name `name`: `jsonl`, or else the one for
/// people.
pub fn output_format(name: &str) -> (format: OutputFormat)
    ensures
        format == (if name@ == "jsonl"@ {
            OutputFormat::Jsonl
        } else {
            OutputFormat::Cli
        }),
{
    if same_text(name, "jsonl") {
        OutputFormat::Jsonl
    } else {
        OutputFormat::Cli
    }
}

pub open spec fn truth_word(value: bool) -> Seq<char> {
    if value {
        "true"@
    } else {
        "false"@
    }
}

/// The JSON line for one module.
pub open spec fn jsonl_text(
    name: Seq<char>,
    label: Seq<char>,
    enabled: bool,
    version: Seq<char>,
) -> Seq<char> {
    "{\"@type\": \"AsimovModule\", \"@id\": \"https://asimov.directory/modules/"@ + name
        + "\", \"name\": \""@ + name + "\", \"label\": \""@ + label + "\", \"enabled\": "@
        + truth_word(enabled) + ", \"version\": \""@ + version + "\"}"@
}

/// The line that describes a module in the `jsonl` form. The texts are put
/// between the quotes as they are.
pub fn jsonl_line(name: &str, label: &str, enabled: bool, version: &str) -> (line: String)
    ensures
        line@ == jsonl_text(name@, label@, enabled, version@),
{
    let mut line = String::from_str(
        "{\"@type\": \"AsimovModule\", \"@id\": \"https://asimov.directory/modules/",
    );
    line.append(name);
    line.append("\", \"name\": \"");
    line.append(name);
    line.append("\", \"label\": \"");
    line.append(label);
    line.append("\", \"enabled\": ");
    line.append(if enabled {
        "true"
    } else {
        "false"
    });
    line.append(", \"version\": \"");
    line.append(version);
    line.append("\"}");
    line
}

/// The line that describes a module in the form for people: a mark that
/// says whether the module is enabled, and its name.
pub fn cli_line(name: &str, enabled: bool) -> (line: String)
    ensures
        line@ == (if enabled {
            "✓ "@
        } else {
            "✗ "@
        }) + name@,
{
    let mut line = String::from_str(if enabled {
        "✓ "
    } else {
        "✗ "
    });
    line.append(name);
    line
}

} // verus!
