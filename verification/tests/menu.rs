use xero_cli::menu::{
    menu_options, next_state, read_choice, script_at, script_file, script_path, Choice,
    InputError, LoopState, Script,
};

#[test]
fn exit_token_ends_the_loop() {
    assert_eq!(read_choice("x", 7), Choice::Exit);
    assert_eq!(read_choice("X", 7), Choice::Exit);
    assert_eq!(read_choice("  x\n", 7), Choice::Exit);
}

#[test]
fn exit_token_ends_the_loop_of_an_empty_menu() {
    assert_eq!(read_choice("x", 0), Choice::Exit);
    assert_eq!(read_choice("X", 0), Choice::Exit);
    assert_eq!(next_state(LoopState::AwaitingInput, "x", 0), LoopState::Terminate);
}

#[test]
fn zero_is_not_above_zero() {
    assert_eq!(read_choice("0", 7), Choice::Rejected(InputError::NotAboveZero));
    assert_eq!(read_choice("000", 7), Choice::Rejected(InputError::NotAboveZero));
    assert_eq!(next_state(LoopState::AwaitingInput, "0", 7), LoopState::AwaitingInput);
}

#[test]
fn number_beyond_the_menu_is_refused() {
    assert_eq!(read_choice("99", 7), Choice::Rejected(InputError::ExceedsOptions));
    assert_eq!(read_choice("8", 7), Choice::Rejected(InputError::ExceedsOptions));
    assert_eq!(read_choice("1", 0), Choice::Rejected(InputError::ExceedsOptions));
}

#[test]
fn third_entry_is_index_two() {
    assert_eq!(read_choice("3", 7), Choice::Entry(2));
    assert_eq!(next_state(LoopState::AwaitingInput, "3", 7), LoopState::Dispatch(2));
    assert_eq!(script_at(&menu_options(), 2), Some(Script::Distrobox));
}

#[test]
fn first_and_last_entries() {
    assert_eq!(read_choice("1", 7), Choice::Entry(0));
    assert_eq!(read_choice("7", 7), Choice::Entry(6));
    assert_eq!(read_choice(" 7 ", 7), Choice::Entry(6));
    assert_eq!(read_choice("+7", 7), Choice::Entry(6));
    assert_eq!(read_choice("007", 7), Choice::Entry(6));
}

#[test]
fn text_that_is_no_number_is_refused() {
    for answer in ["", " ", "abc", "1a", "-1", "+", "++1", "1 2", "3.0", "xx", "x1", "0x1", "\u{0663}"] {
        assert_eq!(read_choice(answer, 7), Choice::Rejected(InputError::NotANumber), "{:?}", answer);
    }
}

#[test]
fn number_too_large_for_the_machine_is_no_number() {
    let max = usize::MAX.to_string();
    assert_eq!(read_choice(&max, 7), Choice::Rejected(InputError::ExceedsOptions));
    assert_eq!(read_choice(&max, usize::MAX), Choice::Entry(usize::MAX - 1));
    let beyond = format!("{}0", max);
    assert_eq!(read_choice(&beyond, 7), Choice::Rejected(InputError::NotANumber));
    assert_eq!(read_choice("99999999999999999999999999999999", 7), Choice::Rejected(InputError::NotANumber));
}

#[test]
fn answers_are_read_as_std_reads_numbers() {
    for answer in ["1", "12", "+5", "-5", "", "00", "18446744073709551615", "18446744073709551616", "4294967296", "٣", "1_0"] {
        let expected = match answer.parse::<usize>() {
            Err(_) => Choice::Rejected(InputError::NotANumber),
            Ok(0) => Choice::Rejected(InputError::NotAboveZero),
            Ok(n) if n > 20 => Choice::Rejected(InputError::ExceedsOptions),
            Ok(n) => Choice::Entry(n - 1),
        };
        assert_eq!(read_choice(answer, 20), expected, "{:?}", answer);
    }
}

#[test]
fn repeated_invalid_answers_keep_the_loop_waiting() {
    let mut state = LoopState::AwaitingInput;
    for answer in ["abc", "0", "99", "", "-3", "8", "0"] {
        state = next_state(state, answer, 7);
        assert_eq!(state, LoopState::AwaitingInput);
    }
    assert_eq!(next_state(state, "5", 7), LoopState::Dispatch(4));
    assert_eq!(next_state(state, "x", 7), LoopState::Terminate);
}

#[test]
fn finished_loop_reads_no_more_answers() {
    assert_eq!(next_state(LoopState::Terminate, "3", 7), LoopState::Terminate);
    assert_eq!(next_state(LoopState::Dispatch(1), "x", 7), LoopState::Dispatch(1));
}

#[test]
fn diagnostics() {
    assert_eq!(InputError::NotANumber.message(), "Couldn't parse into a number, please try again!");
    assert_eq!(InputError::NotAboveZero.message(), "Number must be above 0!");
    assert_eq!(InputError::ExceedsOptions.message(), "Number must not exceed the amount of options!");
}

#[test]
fn script_names() {
    assert_eq!(Script::SystemSetup.script_name(), "tool_init");
    assert_eq!(Script::Drivers.script_name(), "drivers");
    assert_eq!(Script::Distrobox.script_name(), "dbox");
    assert_eq!(Script::Customization.script_name(), "customization");
    assert_eq!(Script::Gaming.script_name(), "gaming");
    assert_eq!(Script::RecommendedPackages.script_name(), "pkgs");
    assert_eq!(Script::Service.script_name(), "service");
}

#[test]
fn menu_in_order() {
    let options = menu_options();
    let expected = [
        ("System Setup.", Script::SystemSetup),
        ("System Drivers.", Script::Drivers),
        ("Distrobox & Docker.", Script::Distrobox),
        ("System Customization.", Script::Customization),
        ("Game Launchers/Tweaks.", Script::Gaming),
        ("Recommended System Packages.", Script::RecommendedPackages),
        ("System Troubleshooting & More.", Script::Service),
    ];
    assert_eq!(options.len(), expected.len());
    for (option, (label, script)) in options.iter().zip(expected.iter()) {
        assert_eq!(option.label, *label);
        assert_eq!(option.script, *script);
    }
}

#[test]
fn script_behind_an_entry() {
    let options = menu_options();
    assert_eq!(script_at(&options, 0), Some(Script::SystemSetup));
    assert_eq!(script_at(&options, 6), Some(Script::Service));
    assert_eq!(script_at(&options, 7), None);
}

#[test]
fn script_is_started_from_the_scripts_directory() {
    assert_eq!(script_path("/usr/share/xero-scripts", Script::Gaming), "/usr/share/xero-scripts/gaming");
    assert_eq!(script_path("scripts", Script::SystemSetup), "scripts/tool_init");
}

#[test]
fn named_script_in_the_scripts_directory() {
    assert_eq!(script_file("/usr/share/xero-scripts", "invalid_distro"), "/usr/share/xero-scripts/invalid_distro");
    assert_eq!(script_file("", "x"), "/x");
}
