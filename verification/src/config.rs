//! The configuration commands, which overwrite one list of the persisted
//! rules, and the rules that stand in for a record that cannot be read.

use vstd::prelude::*;
use crate::rules::{Config, Rules};
use crate::text::{list_items, parse_list, same_text, texts, to_chars};

verus! {

/// What a configuration option asks for.
#[derive(Clone, Debug, PartialEq, Eq)]
pub enum ConfigAction {
    /// No option was given: the search goes on.
    Search,
    /// The option is none of those the tool knows: nothing is stored.
    Unsupported,
    /// The rules to persist in place of the stored ones.
    Store(Config),
}

/// The rules that restrict nothing: one empty item in each list.
pub open spec fn no_rules() -> Rules {
    Rules {
        ex_dir: seq![Seq::<char>::empty()],
        ex_ext: seq![Seq::<char>::empty()],
        in_dir: seq![Seq::<char>::empty()],
        in_ext: seq![Seq::<char>::empty()],
    }
}

/// The rules after an exclusion command: a directory list replaces the
/// excluded directories; without one, an extension list replaces the
/// excluded extensions.
pub open spec fn excluding(dir: Option<Seq<char>>, ext: Option<Seq<char>>, rules: Rules) -> Rules {
    match (dir, ext) {
        (Some(d), _) => Rules { ex_dir: list_items(d), ..rules },
        (None, Some(e)) => Rules { ex_ext: list_items(e), ..rules },
        (None, None) => rules,
    }
}

/// The rules after an inclusion command: a directory list replaces the
/// included directories; without one, an extension list replaces the
/// included extensions.
pub open spec fn including(dir: Option<Seq<char>>, ext: Option<Seq<char>>, rules: Rules) -> Rules {
    match (dir, ext) {
        (Some(d), _) => Rules { in_dir: list_items(d), ..rules },
        (None, Some(e)) => Rules { in_ext: list_items(e), ..rules },
        (None, None) => rules,
    }
}

/// The rules in force for a stored record: the record's own, or no rules
/// where there is none to read.
pub open spec fn loaded(stored: Option<Rules>) -> Rules {
    match stored {
        Some(rules) => rules,
        None => no_rules(),
    }
}

/// What the option `option` with the argument `pattern` does to the stored
/// rules.
pub open spec fn command(option: Seq<char>, pattern: Seq<char>, stored: Option<Rules>) -> Option<
    Rules,
> {
    if option == "ex_dir"@ {
        Some(excluding(Some(pattern), None, loaded(stored)))
    } else if option == "ex_ext"@ {
        Some(excluding(None, Some(pattern), loaded(stored)))
    } else if option == "in_dir"@ {
        Some(including(Some(pattern), None, loaded(stored)))
    } else if option == "in_ext"@ {
        Some(including(None, Some(pattern), loaded(stored)))
    } else if option == "clear"@ {
        Some(no_rules())
    } else {
        None
    }
}

/// A list of one empty item.
fn blank_list() -> (items: Vec<String>)
    ensures
        texts(items@) == seq![Seq::<char>::empty()],
{
    let mut items: Vec<String> = Vec::new();
    items.push(String::new());
    assert(texts(items@) =~= seq![Seq::<char>::empty()]);
    items
}

/// The rules that a cleared configuration holds.
pub fn config_clear() -> (config: Config)
    ensures
        config@ == no_rules(),
{
    Config {
        ex_dir: blank_list(),
        ex_ext: blank_list(),
        in_dir: blank_list(),
        in_ext: blank_list(),
    }
}

/// The rules in force for what was read from the persisted record: `None`
/// stands for a record that is missing or malformed.
pub fn load_config(stored: Option<Config>) -> (config: Config)
    ensures
        config@ == loaded(
            match stored {
                Some(c) => Some(c@),
                None => None,
            },
        ),
{
    match stored {
        Some(config) => config,
        None => config_clear(),
    }
}

/// Overwrites the excluded directories with the items of `dir`, or, where
/// there is no `dir`, the excluded extensions with the items of `ext`.
pub fn config_exclude(dir: Option<&str>, ext: Option<&str>, config: Config) -> (updated: Config)
    ensures
        updated@ == excluding(
            match dir {
                Some(d) => Some(d@),
                None => None,
            },
            match ext {
                Some(e) => Some(e@),
                None => None,
            },
            config@,
        ),
{
    let mut config = config;
    if let Some(d) = dir {
        config.ex_dir = parse_list(d);
    } else if let Some(e) = ext {
        config.ex_ext = parse_list(e);
    }
    config
}

/// Overwrites the included directories with the items of `dir`, or, where
/// there is no `dir`, the included extensions with the items of `ext`.
pub fn config_include(dir: Option<&str>, ext: Option<&str>, config: Config) -> (updated: Config)
    ensures
        updated@ == including(
            match dir {
                Some(d) => Some(d@),
                None => None,
            },
            match ext {
                Some(e) => Some(e@),
                None => None,
            },
            config@,
        ),
{
    let mut config = config;
    if let Some(d) = dir {
        config.in_dir = parse_list(d);
    } else if let Some(e) = ext {
        config.in_ext = parse_list(e);
    }
    config
}

/// Whether `text` reads as the word `word`.
fn reads(text: &Vec<char>, word: &str) -> (r: bool)
    ensures
        r == (text@ == word@),
{
    let word = to_chars(word);
    same_text(text, &word)
}

/// Decides what a run does about configuration. `option` is the
/// configuration option, if one was given, `pattern` its argument, and
/// `stored` what was read from the persisted record.
pub fn save_config(option: Option<&str>, pattern: &str, stored: Option<Config>) -> (action:
    ConfigAction)
    ensures
        match option {
            None => action is Search,
            Some(opt) => match command(
                opt@,
                pattern@,
                match stored {
                    Some(c) => Some(c@),
                    None => None,
                },
            ) {
                Some(rules) => action matches ConfigAction::Store(config) && config@ == rules,
                None => action is Unsupported,
            },
        },
{
    match option {
        None => ConfigAction::Search,
        Some(opt) => {
            let opt = to_chars(opt);
            if reads(&opt, "ex_dir") {
                ConfigAction::Store(config_exclude(Some(pattern), None, load_config(stored)))
            } else if reads(&opt, "ex_ext") {
                ConfigAction::Store(config_exclude(None, Some(pattern), load_config(stored)))
            } else if reads(&opt, "in_dir") {
                ConfigAction::Store(config_include(Some(pattern), None, load_config(stored)))
            } else if reads(&opt, "in_ext") {
                ConfigAction::Store(config_include(None, Some(pattern), load_config(stored)))
            } else if reads(&opt, "clear") {
                ConfigAction::Store(config_clear())
            } else {
                ConfigAction::Unsupported
            }
        },
    }
}

} // verus!
