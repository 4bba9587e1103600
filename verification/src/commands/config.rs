//! What configuring a module means, given its variables and the arguments.
//!
//! With no arguments each variable is asked for; with one argument the value
//! of that variable is shown; with an even number of arguments each pair is
//! a variable and the value to store for it. Whatever is not used up goes to
//! the configurator of the module, if it has one.

use crate::manifest::ConfigVariable;
use crate::text::{
    chars_of, lower_char, same_chars, string_of, to_lower_char, trim, trimmed,
    views,
};
use vstd::prelude::*;

verus! {

/// What is to be done about the stored values of a module.
#[derive(Clone, Debug, PartialEq, Eq)]
pub enum ConfigRequest {
    /// Nothing.
    Nothing,
    /// Remove the stored values of these variables.
    Unset { names: Vec<String> },
    /// Ask for the value of each variable in turn.
    Prompt,
    /// Show the stored value of this variable.
    Show { name: String },
    /// Store a value for each of the first `pairs` pairs of arguments, a
    /// variable and its value.
    Store { pairs: usize },
}

/// What configuring a module comes to.
#[derive(Clone, Debug, PartialEq, Eq)]
pub struct ConfigPlan {
    pub request: ConfigRequest,
    /// Whether the configurator of the module is run afterwards, if it has one.
    pub configurator: bool,
    /// The arguments that are handed to the configurator.
    pub arguments: Vec<String>,
}

/// The arguments cannot be used.
#[derive(Clone, Copy, Debug, PartialEq, Eq, Structural)]
pub enum ConfigError {
    /// The one argument is not the name of a variable of the module.
    UnknownVariable,
}

pub enum ConfigRequestView {
    Nothing,
    Unset { names: Seq<Seq<char>> },
    Prompt,
    Show { name: Seq<char> },
    Store { pairs: usize },
}

pub struct ConfigPlanView {
    pub request: ConfigRequestView,
    pub configurator: bool,
    pub arguments: Seq<Seq<char>>,
}

impl View for ConfigRequest {
    type V = ConfigRequestView;

    open spec fn view(&self) -> ConfigRequestView {
        match *self {
            ConfigRequest::Nothing => ConfigRequestView::Nothing,
            ConfigRequest::Unset { names } => ConfigRequestView::Unset { names: views(names@) },
            ConfigRequest::Prompt => ConfigRequestView::Prompt,
            ConfigRequest::Show { name } => ConfigRequestView::Show { name: name@ },
            ConfigRequest::Store { pairs } => ConfigRequestView::Store { pairs },
        }
    }
}

impl View for ConfigPlan {
    type V = ConfigPlanView;

    open spec fn view(&self) -> ConfigPlanView {
        ConfigPlanView {
            request: self.request@,
            configurator: self.configurator,
            arguments: views(self.arguments@),
        }
    }
}

/// The names of the variables, in order.
pub open spec fn variable_names(variables: Seq<ConfigVariable>) -> Seq<Seq<char>> {
    Seq::new(variables.len(), |i: int| variables[i].name@)
}

/// The number of pairs of arguments, from position `from` on, that begin
/// with the name of a variable, up to the first pair that does not.
pub open spec fn settable_pairs(names: Seq<Seq<char>>, args: Seq<Seq<char>>, from: nat) -> nat
    decreases args.len() - from,
{
    if from + 2 <= args.len() && names.contains(args[from as int]) {
        1 + settable_pairs(names, args, from + 2)
    } else {
        0
    }
}

/// What configuring a module with variables of these names comes to, or
/// nothing where the arguments cannot be used.
pub open spec fn plan_for(names: Seq<Seq<char>>, unset: bool, args: Seq<Seq<char>>) -> Option<
    ConfigPlanView,
> {
    if names.len() == 0 {
        Some(
            ConfigPlanView {
                request: ConfigRequestView::Nothing,
                configurator: true,
                arguments: args,
            },
        )
    } else if unset {
        Some(
            ConfigPlanView {
                request: ConfigRequestView::Unset {
                    names: if args.len() > 0 {
                        args
                    } else {
                        names
                    },
                },
                configurator: false,
                arguments: Seq::empty(),
            },
        )
    } else if args.len() == 0 {
        Some(
            ConfigPlanView {
                request: ConfigRequestView::Prompt,
                configurator: true,
                arguments: Seq::empty(),
            },
        )
    } else if args.len() == 1 {
        if names.contains(args[0]) {
            Some(
                ConfigPlanView {
                    request: ConfigRequestView::Show { name: args[0] },
                    configurator: true,
                    arguments: Seq::empty(),
                },
            )
        } else {
            None
        }
    } else if args.len() % 2 == 0 {
        let pairs = settable_pairs(names, args, 0);
        Some(
            ConfigPlanView {
                request: ConfigRequestView::Store { pairs: pairs as usize },
                configurator: true,
                arguments: args.skip(2 * pairs as int),
            },
        )
    } else {
        Some(
            ConfigPlanView {
                request: ConfigRequestView::Nothing,
                configurator: true,
                arguments: args,
            },
        )
    }
}

fn nothing() -> (none: Vec<String>)
    ensures
        views(none@) == Seq::<Seq<char>>::empty(),
{
    let none: Vec<String> = Vec::new();
    assert(views(none@) =~= Seq::<Seq<char>>::empty());
    none
}

fn copy_all(items: &Vec<String>, from: usize) -> (copy: Vec<String>)
    requires
        from <= items.len(),
    ensures
        views(copy@) == views(items@).skip(from as int),
{
    let mut copy: Vec<String> = Vec::new();
    let mut i: usize = from;
    while i < items.len()
        invariant
            from <= i <= items.len(),
            copy.len() == i - from,
            forall|j: int| 0 <= j < i - from ==> (#[trigger] copy@[j])@ == items@[j + from]@,
        decreases items.len() - i,
    {
        copy.push(items[i].clone());
        i += 1;
    }
    assert(views(copy@) =~= views(items@).skip(from as int));
    copy
}

fn names_of(variables: &Vec<ConfigVariable>) -> (names: Vec<String>)
    ensures
        views(names@) == variable_names(variables@),
{
    let mut names: Vec<String> = Vec::new();
    let mut i: usize = 0;
    while i < variables.len()
        invariant
            i <= variables.len(),
            names.len() == i,
            forall|j: int| 0 <= j < i ==> (#[trigger] names@[j])@ == variables@[j].name@,
        decreases variables.len() - i,
    {
        names.push(variables[i].name.clone());
        i += 1;
    }
    assert(views(names@) =~= variable_names(variables@));
    names
}

/// Whether `name` is the name of one of the variables.
pub fn is_variable(variables: &Vec<ConfigVariable>, name: &str) -> (known: bool)
    ensures
        known == variable_names(variables@).contains(name@),
{
    let wanted = chars_of(name);
    let mut i: usize = 0;
    while i < variables.len()
        invariant
            i <= variables.len(),
            wanted@ == name@,
            forall|j: int| 0 <= j < i ==> variable_names(variables@)[j] != name@,
        decreases variables.len() - i,
    {
        let here = chars_of(variables[i].name.as_str());
        if same_chars(&here, &wanted) {
            assert(variable_names(variables@)[i as int] == name@);
            return true;
        }
        i += 1;
    }
    false
}

fn count_settable(variables: &Vec<ConfigVariable>, args: &Vec<String>) -> (pairs: usize)
    ensures
        pairs == settable_pairs(variable_names(variables@), views(args@), 0),
        2 * pairs <= args.len(),
{
    let ghost names = variable_names(variables@);
    let ghost given = views(args@);
    let mut pairs: usize = 0;
    let mut from: usize = 0;
    while from < args.len() && args.len() - from >= 2
        invariant
            from == 2 * pairs,
            from <= args.len(),
            names == variable_names(variables@),
            given == views(args@),
            settable_pairs(names, given, 0) == pairs + settable_pairs(names, given, from as nat),
        decreases args.len() - from,
    {
        assert(given[from as int] == args@[from as int]@);
        if !is_variable(variables, args[from].as_str()) {
            return pairs;
        }
        pairs += 1;
        from += 2;
    }
    pairs
}

/// What configuring a module with these variables comes to, given whether
/// stored values are to be removed and the arguments.
pub fn plan_config(variables: &Vec<ConfigVariable>, unset: bool, args: &Vec<String>) -> (plan:
    Result<ConfigPlan, ConfigError>)
    ensures
        match plan {
            Ok(p) => plan_for(variable_names(variables@), unset, views(args@)) == Some(p@),
            Err(e) => e == ConfigError::UnknownVariable && plan_for(
                variable_names(variables@),
                unset,
                views(args@),
            ) is None,
        },
{
    let ghost names = variable_names(variables@);
    let ghost given = views(args@);
    assert(given.skip(0) =~= given);
    if variables.len() == 0 {
        return Ok(
            ConfigPlan {
                request: ConfigRequest::Nothing,
                configurator: true,
                arguments: copy_all(args, 0),
            },
        );
    }
    if unset {
        let names = if args.len() > 0 {
            copy_all(args, 0)
        } else {
            names_of(variables)
        };
        return Ok(
            ConfigPlan {
                request: ConfigRequest::Unset { names },
                configurator: false,
                arguments: nothing(),
            },
        );
    }
    if args.len() == 0 {
        return Ok(
            ConfigPlan { request: ConfigRequest::Prompt, configurator: true, arguments: nothing() },
        );
    }
    if args.len() == 1 {
        assert(given[0] == args@[0]@);
        if is_variable(variables, args[0].as_str()) {
            return Ok(
                ConfigPlan {
                    request: ConfigRequest::Show { name: args[0].clone() },
                    configurator: true,
                    arguments: nothing(),
                },
            );
        }
        return Err(ConfigError::UnknownVariable);
    }
    if args.len() % 2 == 0 {
        let pairs = count_settable(variables, args);
        return Ok(
            ConfigPlan {
                request: ConfigRequest::Store { pairs },
                configurator: true,
                arguments: copy_all(args, 2 * pairs),
            },
        );
    }
    Ok(
        ConfigPlan {
            request: ConfigRequest::Nothing,
            configurator: true,
            arguments: copy_all(args, 0),
        },
    )
}

/// The name of the program that configures a module.
pub fn configurator_name(module_name: &str) -> (name: String)
    ensures
        name@ == "asimov-"@ + module_name@ + "-configurator"@,
{
    let mut name = String::from_str("asimov-");
    name.append(module_name);
    name.append("-configurator");
    name
}

/// The note that tells the user what happens if no value is entered.
pub open spec fn note_for(has_current: bool, default_value: Option<Seq<char>>) -> Seq<char> {
    if has_current {
        "(press Enter to keep current)"@
    } else {
        match default_value {
            Some(value) => "(optional, default: `"@ + value + "`)"@,
            None => "(required)"@,
        }
    }
}

/// The note shown when a variable is asked for.
pub fn prompt_note(has_current: bool, default_value: &Option<String>) -> (note: String)
    ensures
        note@ == note_for(
            has_current,
            match default_value {
                Some(v) => Some(v@),
                None => None,
            },
        ),
{
    if has_current {
        return String::from_str("(press Enter to keep current)");
    }
    match default_value {
        Some(value) => {
            let mut note = String::from_str("(optional, default: `");
            note.append(value.as_str());
            note.append("`)");
            note
        },
        None => String::from_str("(required)"),
    }
}

/// Whether the variable must be asked for again: an empty line is no
/// answer where the variable has neither a value nor a default.
pub fn asks_again(has_current: bool, has_default: bool, line: &str) -> (again: bool)
    ensures
        again == (!has_current && !has_default && line@.len() == 0),
{
    !has_current && !has_default && line.is_empty()
}

/// The value to store for an answer: the answer without surrounding white
/// space, or nothing where that is empty.
pub fn value_to_store(line: &str) -> (value: Option<String>)
    ensures
        match value {
            Some(text) => text@ == trim(line@) && text@.len() > 0,
            None => trim(line@).len() == 0,
        },
{
    let text = trimmed(&chars_of(line));
    if text.len() == 0 {
        None
    } else {
        Some(string_of(&text))
    }
}

/// Whether an answer allows that a stored value is overwritten: it does
/// where it is `y` or `Y`, white space aside.
pub fn confirms_overwrite(answer: &str) -> (confirmed: bool)
    ensures
        confirmed == (trim(answer@).len() == 1 && lower_char(trim(answer@)[0]) == 'y'),
{
    let text = trimmed(&chars_of(answer));
    text.len() == 1 && to_lower_char(text[0]) == 'y'
}

} // verus!
