use crate::text::{chars_of, parse_number, parse_unsigned, trim, trimmed};
use vstd::prelude::*;

verus! {

/// The maintenance scripts that the menu can start.
#[derive(Clone, Copy, Debug, PartialEq, Eq, Structural)]
pub enum Script {
    SystemSetup,
    Drivers,
    Distrobox,
    RecommendedPackages,
    Customization,
    Service,
    Gaming,
}

/// One line of the menu: what the user reads, and the script behind it.
pub struct MenuOption {
    pub label: String,
    pub script: Script,
}

/// Why an answer was turned down.
#[derive(Clone, Copy, Debug, PartialEq, Eq, Structural)]
pub enum InputError {
    NotANumber,
    NotAboveZero,
    ExceedsOptions,
}

/// What an answer to the prompt means.
#[derive(Clone, Copy, Debug, PartialEq, Eq, Structural)]
pub enum Choice {
    /// Leave the program.
    Exit,
    /// Start the menu entry at this position, counted from zero.
    Entry(usize),
    /// Ask again.
    Rejected(InputError),
}

/// Where the selection loop stands. Once an entry is dispatched the program ends with
/// the script: control does not come back to the prompt.
#[derive(Clone, Copy, Debug, PartialEq, Eq, Structural)]
pub enum LoopState {
    AwaitingInput,
    Dispatch(usize),
    Terminate,
}

impl Script {
    /// The name under which the script is started.
    pub open spec fn name(self) -> Seq<char> {
        match self {
            Script::SystemSetup => "tool_init"@,
            Script::Drivers => "drivers"@,
            Script::Distrobox => "dbox"@,
            Script::Customization => "customization"@,
            Script::Gaming => "gaming"@,
            Script::RecommendedPackages => "pkgs"@,
            Script::Service => "service"@,
        }
    }

    /// The name under which the script is started.
    pub fn script_name(&self) -> (r: String)
        ensures
            r@ == self.name(),
    {
        match *self {
            Script::SystemSetup => String::from_str("tool_init"),
            Script::Drivers => String::from_str("drivers"),
            Script::Distrobox => String::from_str("dbox"),
            Script::Customization => String::from_str("customization"),
            Script::Gaming => String::from_str("gaming"),
            Script::RecommendedPackages => String::from_str("pkgs"),
            Script::Service => String::from_str("service"),
        }
    }
}

impl InputError {
    /// The diagnostic shown for the error.
    pub open spec fn text(self) -> Seq<char> {
        match self {
            InputError::NotANumber => "Couldn't parse into a number, please try again!"@,
            InputError::NotAboveZero => "Number must be above 0!"@,
            InputError::ExceedsOptions => "Number must not exceed the amount of options!"@,
        }
    }

    /// The diagnostic shown for the error.
    pub fn message(&self) -> (r: String)
        ensures
            r@ == self.text(),
    {
        match *self {
            InputError::NotANumber => String::from_str(
                "Couldn't parse into a number, please try again!",
            ),
            InputError::NotAboveZero => String::from_str("Number must be above 0!"),
            InputError::ExceedsOptions => String::from_str(
                "Number must not exceed the amount of options!",
            ),
        }
    }
}

/// The menu's entries, in the order shown.
pub open spec fn menu() -> Seq<(Seq<char>, Script)> {
    seq![
        ("System Setup."@, Script::SystemSetup),
        ("System Drivers."@, Script::Drivers),
        ("Distrobox & Docker."@, Script::Distrobox),
        ("System Customization."@, Script::Customization),
        ("Game Launchers/Tweaks."@, Script::Gaming),
        ("Recommended System Packages."@, Script::RecommendedPackages),
        ("System Troubleshooting & More."@, Script::Service),
    ]
}

/// What a list of menu options holds.
pub open spec fn entries(options: Seq<MenuOption>) -> Seq<(Seq<char>, Script)> {
    Seq::new(options.len(), |i: int| (options[i].label@, options[i].script))
}

/// Whether the text is the token that leaves the program: the letter x, in either
/// case.
pub open spec fn is_exit_token(s: Seq<char>) -> bool {
    s == seq!['x'] || s == seq!['X']
}

/// What an answer means before a menu of `count` entries. White space round the
/// answer does not count. The exit token is looked for before any number.
pub open spec fn choice_of(answer: Seq<char>, count: nat) -> Choice {
    let t = trim(answer);
    if is_exit_token(t) {
        Choice::Exit
    } else {
        match parse_number(t) {
            None => Choice::Rejected(InputError::NotANumber),
            Some(n) => if n == 0 {
                Choice::Rejected(InputError::NotAboveZero)
            } else if n > count {
                Choice::Rejected(InputError::ExceedsOptions)
            } else {
                Choice::Entry((n - 1) as usize)
            },
        }
    }
}

/// The state after one answer. Only a loop that awaits input moves.
pub open spec fn after_input(state: LoopState, answer: Seq<char>, count: nat) -> LoopState {
    match state {
        LoopState::AwaitingInput => match choice_of(answer, count) {
            Choice::Exit => LoopState::Terminate,
            Choice::Entry(i) => LoopState::Dispatch(i),
            Choice::Rejected(_) => LoopState::AwaitingInput,
        },
        _ => state,
    }
}

/// The state after a run of answers, given one after the other.
pub open spec fn after_inputs(state: LoopState, answers: Seq<Seq<char>>, count: nat) -> LoopState
    decreases answers.len(),
{
    if answers.len() == 0 {
        state
    } else {
        after_input(after_inputs(state, answers.drop_last(), count), answers.last(), count)
    }
}

/// The path of the script of this name in the scripts directory.
pub open spec fn script_location(scripts_path: Seq<char>, name: Seq<char>) -> Seq<char> {
    scripts_path + seq!['/'] + name
}

/// However many answers are turned down, the loop still awaits input and no entry
/// has been chosen.
pub proof fn lemma_rejected_answers_change_nothing(answers: Seq<Seq<char>>, count: nat)
    requires
        forall|i: int|
            0 <= i < answers.len() ==> choice_of(#[trigger] answers[i], count) is Rejected,
    ensures
        after_inputs(LoopState::AwaitingInput, answers, count) == LoopState::AwaitingInput,
    decreases answers.len(),
{
    if answers.len() > 0 {
        let init = answers.drop_last();
        assert(forall|i: int| 0 <= i < init.len() ==> init[i] == answers[i]);
        lemma_rejected_answers_change_nothing(init, count);
    }
}

/// After any run of answers that are turned down, the next answer is read as if it
/// were the first.
pub proof fn lemma_loop_restarts(answers: Seq<Seq<char>>, next: Seq<char>, count: nat)
    requires
        forall|i: int|
            0 <= i < answers.len() ==> choice_of(#[trigger] answers[i], count) is Rejected,
    ensures
        after_inputs(LoopState::AwaitingInput, answers.push(next), count) == after_input(
            LoopState::AwaitingInput,
            next,
            count,
        ),
{
    lemma_rejected_answers_change_nothing(answers, count);
    assert(answers.push(next).drop_last() =~= answers);
}

/// The exit token leaves the program whatever the menu holds, an empty menu too.
pub proof fn lemma_exit_token_always_exits(answer: Seq<char>, count: nat)
    requires
        is_exit_token(trim(answer)),
    ensures
        choice_of(answer, count) == Choice::Exit,
        after_input(LoopState::AwaitingInput, answer, count) == LoopState::Terminate,
{
}

/// An entry that is chosen is one of the menu's.
pub proof fn lemma_entry_in_range(answer: Seq<char>, count: nat)
    ensures
        choice_of(answer, count) matches Choice::Entry(i) ==> i < count,
{
}

/// The menu's entries, in the order shown.
pub fn menu_options() -> (r: Vec<MenuOption>)
    ensures
        entries(r@) == menu(),
{
    let mut out: Vec<MenuOption> = Vec::new();
    out.push(MenuOption { label: String::from_str("System Setup."), script: Script::SystemSetup });
    out.push(MenuOption { label: String::from_str("System Drivers."), script: Script::Drivers });
    out.push(
        MenuOption { label: String::from_str("Distrobox & Docker."), script: Script::Distrobox },
    );
    out.push(
        MenuOption {
            label: String::from_str("System Customization."),
            script: Script::Customization,
        },
    );
    out.push(
        MenuOption { label: String::from_str("Game Launchers/Tweaks."), script: Script::Gaming },
    );
    out.push(
        MenuOption {
            label: String::from_str("Recommended System Packages."),
            script: Script::RecommendedPackages,
        },
    );
    out.push(
        MenuOption {
            label: String::from_str("System Troubleshooting & More."),
            script: Script::Service,
        },
    );
    assert(entries(out@) =~= menu());
    out
}

/// Reads one answer to the prompt before a menu of `option_count` entries.
pub fn read_choice(answer: &str, option_count: usize) -> (r: Choice)
    ensures
        r == choice_of(answer@, option_count as nat),
{
    let chars = chars_of(answer);
    let t = trimmed(&chars);
    if t.len() == 1 && (t[0] == 'x' || t[0] == 'X') {
        assert(t@ =~= seq![t@[0]]);
        return Choice::Exit;
    }
    proof {
        if is_exit_token(t@) {
            assert(t@.len() == 1);
            assert(t@[0] == 'x' || t@[0] == 'X');
        }
    }
    match parse_unsigned(&t) {
        None => Choice::Rejected(InputError::NotANumber),
        Some(n) => {
            if n == 0 {
                Choice::Rejected(InputError::NotAboveZero)
            } else if n > option_count {
                Choice::Rejected(InputError::ExceedsOptions)
            } else {
                Choice::Entry(n - 1)
            }
        },
    }
}

/// Moves the selection loop by one answer.
pub fn next_state(state: LoopState, answer: &str, option_count: usize) -> (r: LoopState)
    ensures
        r == after_input(state, answer@, option_count as nat),
{
    match state {
        LoopState::AwaitingInput => match read_choice(answer, option_count) {
            Choice::Exit => LoopState::Terminate,
            Choice::Entry(i) => LoopState::Dispatch(i),
            Choice::Rejected(_) => LoopState::AwaitingInput,
        },
        LoopState::Dispatch(i) => LoopState::Dispatch(i),
        LoopState::Terminate => LoopState::Terminate,
    }
}

/// The script behind the entry that was chosen, where the position is one of the
/// menu's.
pub fn script_at(options: &Vec<MenuOption>, index: usize) -> (r: Option<Script>)
    ensures
        r == if index < options.len() {
            Some(options@[index as int].script)
        } else {
            None
        },
{
    if index < options.len() {
        Some(options[index].script)
    } else {
        None
    }
}

/// The path under which the script of this name is started: the scripts directory, a
/// slash, and the name.
pub fn script_file(scripts_path: &str, name: &str) -> (r: String)
    ensures
        r@ == script_location(scripts_path@, name@),
{
    let mut out = String::from_str(scripts_path);
    out.append("/");
    out.append(name);
    proof {
        reveal_strlit("/");
        assert("/"@ =~= seq!['/']);
    }
    out
}

/// The path under which the script of a menu entry is started.
pub fn script_path(scripts_path: &str, script: Script) -> (r: String)
    ensures
        r@ == script_location(scripts_path@, script.name()),
{
    let name = script.script_name();
    script_file(scripts_path, name.as_str())
}

} // verus!
