use wallpaper_tiler::arguments::{
    contains_word, find_setting, read_arguments, setting, Action, Invocation, Settings, UsageError,
};
use wallpaper_tiler::config::TerracottaBehaviour;

fn words(list: &[&str]) -> Vec<String> {
    list.iter().map(|word| word.to_string()).collect()
}

fn settings_of(args: &Vec<String>) -> Settings<'_> {
    match read_arguments(args) {
        Invocation::Run(settings) => settings,
        other => panic!("no run: {:?}", other),
    }
}

fn action_of(list: &[&str]) -> Result<Action, UsageError> {
    let args = words(list);
    settings_of(&args).parse_action()
}

#[test]
fn help_is_asked_for_anywhere() {
    assert!(matches!(read_arguments(&words(&["--help"])), Invocation::Help));
    assert!(matches!(read_arguments(&words(&["--from", "a", "--help"])), Invocation::Help));
    assert!(matches!(read_arguments(&words(&["--from", "--help"])), Invocation::Help));
    assert!(matches!(read_arguments(&words(&["--help", "--from", "a"])), Invocation::Help));
}

#[test]
fn no_words_are_refused() {
    assert!(matches!(read_arguments(&words(&[])), Invocation::Refused(UsageError::NoArguments)));
    assert_eq!(UsageError::NoArguments.message(), "This programs requires some arguments!");
    assert!(!UsageError::NoArguments.is_fatal());
}

#[test]
fn a_name_without_value_is_refused() {
    for list in [&["--from"][..], &["--from", "a", "--to"][..], &["a", "b", "c", "d", "e"][..]] {
        assert!(matches!(
            read_arguments(&words(list)),
            Invocation::Refused(UsageError::OddArguments)
        ));
    }
    assert_eq!(UsageError::OddArguments.message(), "This programs requires even arguments!");
    assert!(!UsageError::OddArguments.is_fatal());
}

#[test]
fn settings_left_out_have_their_defaults() {
    let args = words(&["--action", "transform-one"]);
    let settings = settings_of(&args);
    assert_eq!(settings.from, "");
    assert_eq!(settings.to, "");
    assert_eq!(settings.scale, "8");
    assert_eq!(settings.width, "auto");
    assert_eq!(settings.height, "auto");
    assert_eq!(settings.terracotta, "auto");
    assert_eq!(settings.probabilities, "");
    assert_eq!(settings.action, Some("transform-one"));
}

#[test]
fn settings_are_read_from_their_pairs() {
    let args = words(&[
        "--to", "out", "--from", "in", "--scale", "2.5", "--height", "480", "--width", "640",
        "--probabilities", "1,2", "--terracotta", "never", "--action", "transform-all",
    ]);
    let settings = settings_of(&args);
    assert_eq!(settings.from, "in");
    assert_eq!(settings.to, "out");
    assert_eq!(settings.scale, "2.5");
    assert_eq!(settings.width, "640");
    assert_eq!(settings.height, "480");
    assert_eq!(settings.terracotta, "never");
    assert_eq!(settings.probabilities, "1,2");
    assert_eq!(settings.action, Some("transform-all"));
}

#[test]
fn later_pair_overrides_earlier() {
    let args = words(&["--from", "first", "--to", "x", "--from", "second", "--from", "third"]);
    assert_eq!(settings_of(&args).from, "third");
    assert_eq!(setting(&args, "--from", ""), "third");
    assert_eq!(find_setting(&args, "--from"), Some("third"));
    assert_eq!(find_setting(&args, "--to"), Some("x"));
}

#[test]
fn names_are_looked_for_at_even_places_only() {
    let args = words(&["--from", "--to", "--scale", "--from"]);
    let settings = settings_of(&args);
    assert_eq!(settings.from, "--to");
    assert_eq!(settings.scale, "--from");
    assert_eq!(settings.to, "");
    assert_eq!(find_setting(&args, "--to"), None);
}

#[test]
fn unknown_names_are_passed_over() {
    let args = words(&["--colour", "red", "--from", "in", "from", "other"]);
    let settings = settings_of(&args);
    assert_eq!(settings.from, "in");
    assert_eq!(settings.action, None);
    assert_eq!(setting(&args, "--colour", "blue"), "red");
    assert_eq!(setting(&args, "--shade", "blue"), "blue");
}

#[test]
fn words_are_found() {
    let args = words(&["a", "--help", "b"]);
    assert!(contains_word(&args, "--help"));
    assert!(contains_word(&args, "b"));
    assert!(!contains_word(&args, "--hel"));
    assert!(!contains_word(&args, ""));
    assert!(!contains_word(&words(&[]), "--help"));
}

#[test]
fn actions_are_read_from_their_words() {
    assert_eq!(action_of(&["--action", "transform-all"]), Ok(Action::TransformAll));
    assert_eq!(action_of(&["--action", "transform-one"]), Ok(Action::TransformOne));
    assert_eq!(action_of(&["--action", "transform-random"]), Ok(Action::TransformRandom));
}

#[test]
fn other_actions_are_refused() {
    assert_eq!(action_of(&["--action", "transform"]), Err(UsageError::InvalidAction));
    assert_eq!(action_of(&["--action", ""]), Err(UsageError::InvalidAction));
    assert_eq!(action_of(&["--action", "Transform-One"]), Err(UsageError::InvalidAction));
    assert_eq!(action_of(&["--from", "in"]), Err(UsageError::MissingAction));
    assert_eq!(UsageError::InvalidAction.message(), "Invalid action option");
    assert_eq!(UsageError::MissingAction.message(), "--action parameter is required");
    assert!(!UsageError::InvalidAction.is_fatal());
    assert!(!UsageError::MissingAction.is_fatal());
}

#[test]
fn settings_are_made_into_a_configuration() {
    let args = words(&[
        "--from", "in.png", "--to", "out.png", "--width", "640", "--terracotta", "always",
        "--probabilities", "3",
    ]);
    let config = settings_of(&args)
        .configure(4, 1920, 1080)
        .unwrap_or_else(|error| panic!("{:?}", error));
    assert_eq!(config.input_folder_name, "in.png");
    assert_eq!(config.output_folder_name, "out.png");
    assert_eq!(config.scale_factor, 4);
    assert_eq!(config.image_width, 640);
    assert_eq!(config.image_height, 1080);
    assert_eq!(config.terracotta_behaviour, TerracottaBehaviour::Always);
    assert_eq!(config.probabilities_str, "3");
}

#[test]
fn default_configuration_fills_the_desktop() {
    let args = words(&["--action", "transform-all"]);
    let config = settings_of(&args)
        .configure(8, 1366, 768)
        .unwrap_or_else(|error| panic!("{:?}", error));
    assert_eq!(config.image_width, 1366);
    assert_eq!(config.image_height, 768);
    assert_eq!(config.terracotta_behaviour, TerracottaBehaviour::Auto);
    assert_eq!(config.input_folder_name, "");
    assert_eq!(config.output_folder_name, "");
    assert_eq!(config.probabilities_str, "");
}

#[test]
fn unreadable_settings_are_fatal() {
    let bad_width = words(&["--width", "wide", "--terracotta", "maybe"]);
    assert_eq!(
        settings_of(&bad_width).configure(8, 1920, 1080).err(),
        Some(UsageError::UnreadableSize)
    );
    let bad_height = words(&["--height", "-3"]);
    assert_eq!(
        settings_of(&bad_height).configure(8, 1920, 1080).err(),
        Some(UsageError::UnreadableSize)
    );
    let bad_terracotta = words(&["--terracotta", "maybe"]);
    assert_eq!(
        settings_of(&bad_terracotta).configure(8, 1920, 1080).err(),
        Some(UsageError::UnreadableTerracotta)
    );
    assert!(UsageError::UnreadableSize.is_fatal());
    assert!(UsageError::UnreadableTerracotta.is_fatal());
    assert_eq!(UsageError::UnreadableTerracotta.message(), "Parsing terracotta argument");
    assert_eq!(UsageError::UnreadableSize.message(), "Parsing image size argument");
}
