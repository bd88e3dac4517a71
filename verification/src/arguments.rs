//! The words of the command line: settings come in pairs, a name and its value.

use crate::config::{
    behaviour_named, image_size_named, parse_image_size, parse_terracotta_behaviour, ProgramConfig,
};
use crate::text::same_text;
use vstd::prelude::*;

verus! {

/// The character sequences of the words.
pub open spec fn words_of(args: Seq<String>) -> Seq<Seq<char>> {
    args.map_values(|word: String| word@)
}

/// Some word is `wanted`.
pub open spec fn has_word(words: Seq<Seq<char>>, wanted: Seq<char>) -> bool {
    exists|i: int| 0 <= i < words.len() && #[trigger] words[i] == wanted
}

/// Some pair of the words names `key`. The words are taken two by two, a name and
/// its value.
pub open spec fn names_setting(words: Seq<Seq<char>>, key: Seq<char>) -> bool {
    exists|i: int| 0 <= i && 2 * i + 1 < words.len() && #[trigger] words[2 * i] == key
}

/// The value of the setting `key`: that of the last pair that names it, or
/// `default` where no pair does.
pub open spec fn setting_of(words: Seq<Seq<char>>, key: Seq<char>, default: Seq<char>) -> Seq<char>
    decreases words.len(),
{
    if words.len() < 2 {
        default
    } else if words[words.len() - 2] == key {
        words[words.len() - 1]
    } else {
        setting_of(words.take(words.len() - 2), key, default)
    }
}

/// Without a pair that names the setting, its value is the default.
pub proof fn lemma_unnamed_setting_is_default(words: Seq<Seq<char>>, key: Seq<char>, default: Seq<char>)
    requires
        words.len() % 2 == 0,
        !names_setting(words, key),
    ensures
        setting_of(words, key, default) == default,
    decreases words.len(),
{
    if words.len() >= 2 {
        let pairs = words.len() / 2;
        assert(words[2 * (pairs - 1)] != key);
        let rest = words.take(words.len() - 2);
        assert forall|i: int| 0 <= i && 2 * i + 1 < rest.len() implies #[trigger] rest[2 * i] != key by {
            assert(words[2 * i] != key);
        }
        lemma_unnamed_setting_is_default(rest, key, default);
    }
}

/// Whether some word is `wanted`.
pub fn contains_word(args: &Vec<String>, wanted: &str) -> (found: bool)
    ensures
        found == has_word(words_of(args@), wanted@),
{
    let mut i: usize = 0;
    while i < args.len()
        invariant
            i <= args@.len(),
            forall|k: int| 0 <= k < i ==> #[trigger] words_of(args@)[k] != wanted@,
        decreases args@.len() - i,
    {
        if same_text(args[i].as_str(), wanted) {
            assert(words_of(args@)[i as int] == wanted@);
            return true;
        }
        i = i + 1;
    }
    false
}

/// The value that the words give the setting `key`, if a pair names it: the value
/// of the last such pair.
pub fn find_setting<'a>(args: &'a Vec<String>, key: &str) -> (value: Option<&'a str>)
    requires
        args@.len() % 2 == 0,
    ensures
        value is Some <==> names_setting(words_of(args@), key@),
        value matches Some(text) ==> text@ == setting_of(words_of(args@), key@, Seq::empty()),
{
    let ghost words = words_of(args@);
    let mut value: Option<&'a str> = None;
    let mut i: usize = 0;
    while i < args.len()
        invariant
            words == words_of(args@),
            args@.len() % 2 == 0,
            i % 2 == 0,
            i <= args@.len(),
            value is Some <==> names_setting(words.take(i as int), key@),
            value matches Some(text) ==> text@ == setting_of(words.take(i as int), key@, Seq::empty()),
        decreases args@.len() - i,
    {
        let ghost before = words.take(i as int);
        let ghost after = words.take(i + 2);
        proof {
            assert(after.take(after.len() - 2) =~= before);
            assert(after[after.len() - 2] == words[i as int]);
            assert(after[after.len() - 1] == words[i + 1]);
            if names_setting(before, key@) {
                let j = choose|j: int| 0 <= j && 2 * j + 1 < before.len() && #[trigger] before[2 * j] == key@;
                assert(after[2 * j] == key@);
            }
            if words[i as int] == key@ {
                assert(after[2 * (i as int / 2)] == key@);
            }
            if names_setting(after, key@) && words[i as int] != key@ {
                let j = choose|j: int| 0 <= j && 2 * j + 1 < after.len() && #[trigger] after[2 * j] == key@;
                assert(before[2 * j] == key@);
            }
        }
        if same_text(args[i].as_str(), key) {
            value = Some(args[i + 1].as_str());
        }
        i = i + 2;
    }
    assert(words.take(i as int) =~= words);
    value
}

/// The value of a setting: what the words give it, or the default.
pub fn setting<'a>(args: &'a Vec<String>, key: &str, default: &'a str) -> (value: &'a str)
    requires
        args@.len() % 2 == 0,
    ensures
        value@ == setting_of(words_of(args@), key@, default@),
{
    match find_setting(args, key) {
        Some(value) => {
            proof {
                lemma_default_is_unused(words_of(args@), key@, Seq::empty(), default@);
            }
            value
        },
        None => {
            proof {
                lemma_unnamed_setting_is_default(words_of(args@), key@, default@);
            }
            default
        },
    }
}

/// Where a pair names the setting, the default plays no part.
proof fn lemma_default_is_unused(
    words: Seq<Seq<char>>,
    key: Seq<char>,
    first: Seq<char>,
    second: Seq<char>,
)
    requires
        words.len() % 2 == 0,
        names_setting(words, key),
    ensures
        setting_of(words, key, first) == setting_of(words, key, second),
    decreases words.len(),
{
    if words.len() >= 2 && words[words.len() - 2] != key {
        let rest = words.take(words.len() - 2);
        let j = choose|j: int| 0 <= j && 2 * j + 1 < words.len() && #[trigger] words[2 * j] == key;
        assert(rest[2 * j] == key);
        lemma_default_is_unused(rest, key, first, second);
    }
}

/// What is wrong with the way the program was called.
#[derive(Clone, Copy, Debug, PartialEq, Eq, Structural)]
pub enum UsageError {
    /// No word was given.
    NoArguments,
    /// A name stands without its value.
    OddArguments,
    /// The width or the height is neither `auto` nor a number.
    UnreadableSize,
    /// The terracotta setting is none of its three words.
    UnreadableTerracotta,
    /// No action is named.
    MissingAction,
    /// The action is none of the three.
    InvalidAction,
}

impl UsageError {
    /// The words that tell the user of the error.
    pub open spec fn text(self) -> Seq<char> {
        match self {
            UsageError::NoArguments => "This programs requires some arguments!"@,
            UsageError::OddArguments => "This programs requires even arguments!"@,
            UsageError::UnreadableSize => "Parsing image size argument"@,
            UsageError::UnreadableTerracotta => "Parsing terracotta argument"@,
            UsageError::MissingAction => "--action parameter is required"@,
            UsageError::InvalidAction => "Invalid action option"@,
        }
    }

    /// Whether the program cannot go on: it can after every error but a setting
    /// that cannot be read.
    pub open spec fn spec_is_fatal(self) -> bool {
        self == UsageError::UnreadableSize || self == UsageError::UnreadableTerracotta
    }

    /// The words that tell the user of the error.
    pub fn message(&self) -> (message: &'static str)
        ensures
            message@ == self.text(),
    {
        match self {
            UsageError::NoArguments => "This programs requires some arguments!",
            UsageError::OddArguments => "This programs requires even arguments!",
            UsageError::UnreadableSize => "Parsing image size argument",
            UsageError::UnreadableTerracotta => "Parsing terracotta argument",
            UsageError::MissingAction => "--action parameter is required",
            UsageError::InvalidAction => "Invalid action option",
        }
    }

    /// Whether the program cannot go on.
    pub fn is_fatal(&self) -> (fatal: bool)
        ensures
            fatal == self.spec_is_fatal(),
    {
        match self {
            UsageError::UnreadableSize | UsageError::UnreadableTerracotta => true,
            _ => false,
        }
    }
}

/// What the program is asked to make.
#[derive(Clone, Copy, Debug, PartialEq, Eq, Structural)]
pub enum Action {
    /// A picture from every file of a folder.
    TransformAll,
    /// One picture from one file.
    TransformOne,
    /// One picture mixed from several files.
    TransformRandom,
}

/// The action that a setting names: one of `transform-all`, `transform-one` and
/// `transform-random`.
pub open spec fn action_named(action: Option<Seq<char>>) -> Result<Action, UsageError> {
    match action {
        None => Err(UsageError::MissingAction),
        Some(name) => if name == "transform-all"@ {
            Ok(Action::TransformAll)
        } else if name == "transform-one"@ {
            Ok(Action::TransformOne)
        } else if name == "transform-random"@ {
            Ok(Action::TransformRandom)
        } else {
            Err(UsageError::InvalidAction)
        },
    }
}

/// The settings as they were written, each with its default where it was left out.
#[derive(Clone, Copy, Debug)]
pub struct Settings<'a> {
    /// `--from`: source file, folder, or files with commas between them.
    pub from: &'a str,
    /// `--to`: output file or folder.
    pub to: &'a str,
    /// `--scale`: how many canvas pixels wide a texture pixel is drawn.
    pub scale: &'a str,
    /// `--width`: width of the canvas, or `auto`.
    pub width: &'a str,
    /// `--height`: height of the canvas, or `auto`.
    pub height: &'a str,
    /// `--terracotta`: `always`, `never` or `auto`.
    pub terracotta: &'a str,
    /// `--probabilities`: weights with commas between them.
    pub probabilities: &'a str,
    /// `--action`, if it was given.
    pub action: Option<&'a str>,
}

impl<'a> Settings<'a> {
    /// The settings are those that the words give, with the defaults: no source,
    /// no output, no weights, scale 8, the desktop's size, terracotta by file name.
    pub open spec fn read_from(self, words: Seq<Seq<char>>) -> bool {
        &&& self.from@ == setting_of(words, "--from"@, ""@)
        &&& self.to@ == setting_of(words, "--to"@, ""@)
        &&& self.scale@ == setting_of(words, "--scale"@, "8"@)
        &&& self.width@ == setting_of(words, "--width"@, "auto"@)
        &&& self.height@ == setting_of(words, "--height"@, "auto"@)
        &&& self.terracotta@ == setting_of(words, "--terracotta"@, "auto"@)
        &&& self.probabilities@ == setting_of(words, "--probabilities"@, ""@)
        &&& self.action is Some <==> names_setting(words, "--action"@)
        &&& self.action matches Some(action) ==> action@ == setting_of(
            words,
            "--action"@,
            Seq::empty(),
        )
    }

    /// The action that is asked for.
    pub fn parse_action(&self) -> (action: Result<Action, UsageError>)
        ensures
            action == action_named(
                match self.action {
                    Some(name) => Some(name@),
                    None => None,
                },
            ),
    {
        match self.action {
            None => Err(UsageError::MissingAction),
            Some(name) => {
                if same_text(name, "transform-all") {
                    Ok(Action::TransformAll)
                } else if same_text(name, "transform-one") {
                    Ok(Action::TransformOne)
                } else if same_text(name, "transform-random") {
                    Ok(Action::TransformRandom)
                } else {
                    Err(UsageError::InvalidAction)
                }
            },
        }
    }

    /// What stands against the settings: the width, the height or the terracotta
    /// setting cannot be read, looked at in this order.
    pub open spec fn unreadable(self, desktop_width: u32, desktop_height: u32) -> Option<UsageError> {
        if image_size_named(self.width@, desktop_width) is None {
            Some(UsageError::UnreadableSize)
        } else if image_size_named(self.height@, desktop_height) is None {
            Some(UsageError::UnreadableSize)
        } else if behaviour_named(self.terracotta@) is None {
            Some(UsageError::UnreadableTerracotta)
        } else {
            None
        }
    }

    /// Reads the settings into what a run needs. The scale is handed in as the
    /// number that was read from its text; `auto` sizes are the desktop's.
    pub fn configure(&self, scale_factor: u32, desktop_width: u32, desktop_height: u32) -> (config: Result<
        ProgramConfig<'a>,
        UsageError,
    >)
        ensures
            match config {
                Ok(config) => {
                    &&& self.unreadable(desktop_width, desktop_height) is None
                    &&& config.input_folder_name@ == self.from@
                    &&& config.output_folder_name@ == self.to@
                    &&& config.scale_factor == scale_factor
                    &&& Some(config.image_width) == image_size_named(self.width@, desktop_width)
                    &&& Some(config.image_height) == image_size_named(self.height@, desktop_height)
                    &&& Some(config.terracotta_behaviour) == behaviour_named(self.terracotta@)
                    &&& config.probabilities_str@ == self.probabilities@
                },
                Err(error) => self.unreadable(desktop_width, desktop_height) == Some(error),
            },
    {
        let image_width: u32 = match parse_image_size(self.width, true, desktop_width, desktop_height) {
            Some(size) => size,
            None => {
                return Err(UsageError::UnreadableSize);
            },
        };
        let image_height: u32 = match parse_image_size(
            self.height,
            false,
            desktop_width,
            desktop_height,
        ) {
            Some(size) => size,
            None => {
                return Err(UsageError::UnreadableSize);
            },
        };
        let terracotta_behaviour = match parse_terracotta_behaviour(self.terracotta) {
            Some(behaviour) => behaviour,
            None => {
                return Err(UsageError::UnreadableTerracotta);
            },
        };
        Ok(
            ProgramConfig {
                input_folder_name: self.from,
                output_folder_name: self.to,
                scale_factor,
                image_width,
                image_height,
                terracotta_behaviour,
                probabilities_str: self.probabilities,
            },
        )
    }
}

/// What a call of the program asks for.
#[derive(Clone, Copy, Debug)]
pub enum Invocation<'a> {
    /// The help text.
    Help,
    /// Nothing that can be done.
    Refused(UsageError),
    /// A run with these settings.
    Run(Settings<'a>),
}

/// Reads the words of the command line. A `--help` anywhere asks for the help
/// text. Otherwise there must be words, and an even number of them: they are
/// taken two by two as a setting's name and its value, a later pair overriding
/// an earlier one, and names that are no settings' are passed over.
pub fn read_arguments<'a>(args: &'a Vec<String>) -> (invocation: Invocation<'a>)
    ensures
        match invocation {
            Invocation::Help => has_word(words_of(args@), "--help"@),
            Invocation::Refused(error) => {
                &&& !has_word(words_of(args@), "--help"@)
                &&& args@.len() == 0 ==> error == UsageError::NoArguments
                &&& args@.len() != 0 ==> args@.len() % 2 == 1 && error == UsageError::OddArguments
            },
            Invocation::Run(settings) => {
                &&& !has_word(words_of(args@), "--help"@)
                &&& args@.len() > 0
                &&& args@.len() % 2 == 0
                &&& settings.read_from(words_of(args@))
            },
        },
{
    if contains_word(args, "--help") {
        return Invocation::Help;
    }
    if args.len() == 0 {
        return Invocation::Refused(UsageError::NoArguments);
    }
    if args.len() % 2 == 1 {
        return Invocation::Refused(UsageError::OddArguments);
    }
    Invocation::Run(
        Settings {
            from: setting(args, "--from", ""),
            to: setting(args, "--to", ""),
            scale: setting(args, "--scale", "8"),
            width: setting(args, "--width", "auto"),
            height: setting(args, "--height", "auto"),
            terracotta: setting(args, "--terracotta", "auto"),
            probabilities: setting(args, "--probabilities", ""),
            action: find_setting(args, "--action"),
        },
    )
}

} // verus!
