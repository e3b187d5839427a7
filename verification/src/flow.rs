use crate::menu::{after_input, choice_of, Choice, InputError, LoopState};
use vstd::prelude::*;

verus! {

/// What the program waits for. Each phase but the last names the outside work whose
/// result comes next.
#[derive(Clone, Copy, Debug, PartialEq, Eq, Structural)]
pub enum Phase {
    /// Nothing has been done yet.
    Launch,
    /// A command of the scripting interface runs.
    Api,
    /// Whether the scripts directory exists.
    ScriptsDirectory,
    /// The text of the identification file.
    Identification,
    /// The end of the script that is run on a host that is not accepted.
    Fallback,
    /// The screen is drawn again and a helper is looked for.
    Helper,
    /// An answer to the prompt.
    Prompt,
    /// The end of the script of the menu entry at this position.
    Script(usize),
    /// The program has ended with this exit code.
    Done(u8),
}

/// The result of a piece of outside work.
#[derive(Clone, Copy, Debug, PartialEq, Eq, Structural)]
pub enum Event {
    Started { verbose: bool, minimal: bool, cancelled: bool, api_command: bool },
    ApiFinished { succeeded: bool },
    DirectoryChecked { exists: bool },
    IdentificationRead { readable: bool, valid: bool },
    FallbackFinished { succeeded: bool },
    HelperResolved { found: bool },
    Answered { choice: Choice },
    ScriptFinished,
}

/// What is reported to the user on a step.
#[derive(Clone, Copy, Debug, PartialEq, Eq, Structural)]
pub enum Report {
    ConflictingFlags,
    MissingScriptsDirectory,
    UnreadableIdentification,
    InvalidDistro,
    NoHelper,
    Input(InputError),
}

/// One step of the program: the phase that follows, and what is reported on the way.
#[derive(Clone, Copy, Debug, PartialEq, Eq, Structural)]
pub struct Step {
    pub next: Phase,
    pub report: Option<Report>,
}

/// The exit code of a run that ended well.
pub open spec fn success() -> u8 {
    0
}

/// The exit code of a run that failed.
pub open spec fn failure() -> u8 {
    1
}

/// The step that an event causes in a phase. An event that the phase does not wait
/// for changes nothing. The interrupt flag is read once, at the start, after the
/// arguments are checked; a script that was started ends the program with success.
pub open spec fn step(phase: Phase, event: Event) -> Step {
    match (phase, event) {
        (Phase::Launch, Event::Started { verbose, minimal, cancelled, api_command }) => {
            if verbose && minimal {
                Step { next: Phase::Done(failure()), report: Some(Report::ConflictingFlags) }
            } else if cancelled {
                Step { next: Phase::Done(success()), report: None }
            } else if api_command {
                Step { next: Phase::Api, report: None }
            } else {
                Step { next: Phase::ScriptsDirectory, report: None }
            }
        },
        (Phase::Api, Event::ApiFinished { succeeded }) => Step {
            next: if succeeded {
                Phase::Done(success())
            } else {
                Phase::Done(failure())
            },
            report: None,
        },
        (Phase::ScriptsDirectory, Event::DirectoryChecked { exists }) => {
            if exists {
                Step { next: Phase::Identification, report: None }
            } else {
                Step {
                    next: Phase::Done(failure()),
                    report: Some(Report::MissingScriptsDirectory),
                }
            }
        },
        (Phase::Identification, Event::IdentificationRead { readable, valid }) => {
            if !readable {
                Step {
                    next: Phase::Done(failure()),
                    report: Some(Report::UnreadableIdentification),
                }
            } else if valid {
                Step { next: Phase::Helper, report: None }
            } else {
                Step { next: Phase::Fallback, report: None }
            }
        },
        (Phase::Fallback, Event::FallbackFinished { succeeded }) => Step {
            next: Phase::Done(failure()),
            report: if succeeded {
                None
            } else {
                Some(Report::InvalidDistro)
            },
        },
        (Phase::Helper, Event::HelperResolved { found }) => {
            if found {
                Step { next: Phase::Prompt, report: None }
            } else {
                Step { next: Phase::Done(failure()), report: Some(Report::NoHelper) }
            }
        },
        (Phase::Prompt, Event::Answered { choice }) => match choice {
            Choice::Exit => Step { next: Phase::Done(success()), report: None },
            Choice::Entry(i) => Step { next: Phase::Script(i), report: None },
            Choice::Rejected(e) => Step { next: Phase::Prompt, report: Some(Report::Input(e)) },
        },
        (Phase::Script(_), Event::ScriptFinished) => Step {
            next: Phase::Done(success()),
            report: None,
        },
        _ => Step { next: phase, report: None },
    }
}

/// The phase after a run of events, given one after the other.
pub open spec fn run(phase: Phase, events: Seq<Event>) -> Phase
    decreases events.len(),
{
    if events.len() == 0 {
        phase
    } else {
        step(run(phase, events.drop_last()), events.last()).next
    }
}

/// Whether the event is an answer that is turned down.
pub open spec fn is_rejected_answer(event: Event) -> bool {
    event matches Event::Answered { choice } && choice is Rejected
}

/// An interrupt that arrived before the start is checked ends the program with
/// success at once: no phase in which anything is drawn or asked is entered.
pub proof fn lemma_cancelled_before_start(verbose: bool, minimal: bool, api_command: bool)
    requires
        !(verbose && minimal),
    ensures
        step(Phase::Launch, Event::Started { verbose, minimal, cancelled: true, api_command })
            == (Step { next: Phase::Done(success()), report: None }),
{
}

/// A program that has ended stays ended, with the same exit code, whatever comes.
pub proof fn lemma_done_is_final(code: u8, events: Seq<Event>)
    ensures
        run(Phase::Done(code), events) == Phase::Done(code),
    decreases events.len(),
{
    if events.len() > 0 {
        lemma_done_is_final(code, events.drop_last());
    }
}

/// However many answers are turned down, the program still waits at the prompt.
pub proof fn lemma_rejected_answers_keep_prompt(events: Seq<Event>)
    requires
        forall|i: int| 0 <= i < events.len() ==> is_rejected_answer(#[trigger] events[i]),
    ensures
        run(Phase::Prompt, events) == Phase::Prompt,
    decreases events.len(),
{
    if events.len() > 0 {
        let init = events.drop_last();
        assert(forall|i: int| 0 <= i < init.len() ==> init[i] == events[i]);
        lemma_rejected_answers_keep_prompt(init);
        assert(is_rejected_answer(events.last()));
    }
}

/// The program never ends with any exit code but the two.
pub proof fn lemma_exit_codes(phase: Phase, event: Event)
    requires
        !(phase is Done),
    ensures
        step(phase, event).next matches Phase::Done(code) ==> code == success() || code
            == failure(),
{
}

/// The phase of the program that stands for a state of the selection loop.
pub open spec fn phase_of(state: LoopState) -> Phase {
    match state {
        LoopState::AwaitingInput => Phase::Prompt,
        LoopState::Dispatch(i) => Phase::Script(i),
        LoopState::Terminate => Phase::Done(success()),
    }
}

/// At the prompt the program moves as the selection loop does.
pub proof fn lemma_prompt_follows_selection(answer: Seq<char>, count: nat)
    ensures
        step(Phase::Prompt, Event::Answered { choice: choice_of(answer, count) }).next == phase_of(
            after_input(LoopState::AwaitingInput, answer, count),
        ),
{
}

/// The host is checked before a helper is looked for: that phase is entered only from
/// a readable identification file that names an accepted host.
pub proof fn lemma_helper_is_gated(phase: Phase, event: Event)
    requires
        step(phase, event).next == Phase::Helper,
        phase != Phase::Helper,
    ensures
        phase == Phase::Identification,
        event == (Event::IdentificationRead { readable: true, valid: true }),
{
}

/// The prompt is reached only once a helper is found.
pub proof fn lemma_prompt_is_gated(phase: Phase, event: Event)
    requires
        step(phase, event).next == Phase::Prompt,
        phase != Phase::Prompt,
    ensures
        phase == Phase::Helper,
        event == (Event::HelperResolved { found: true }),
{
}

/// A script is started only by an answer at the prompt that chose its entry.
pub proof fn lemma_script_is_chosen(phase: Phase, event: Event, index: usize)
    requires
        step(phase, event).next == Phase::Script(index),
        phase != Phase::Script(index),
    ensures
        phase == Phase::Prompt,
        event == (Event::Answered { choice: Choice::Entry(index) }),
{
}

/// Takes one step of the program.
pub fn advance(phase: Phase, event: Event) -> (r: Step)
    ensures
        r == step(phase, event),
{
    match (phase, event) {
        (Phase::Launch, Event::Started { verbose, minimal, cancelled, api_command }) => {
            if verbose && minimal {
                Step { next: Phase::Done(1), report: Some(Report::ConflictingFlags) }
            } else if cancelled {
                Step { next: Phase::Done(0), report: None }
            } else if api_command {
                Step { next: Phase::Api, report: None }
            } else {
                Step { next: Phase::ScriptsDirectory, report: None }
            }
        },
        (Phase::Api, Event::ApiFinished { succeeded }) => {
            if succeeded {
                Step { next: Phase::Done(0), report: None }
            } else {
                Step { next: Phase::Done(1), report: None }
            }
        },
        (Phase::ScriptsDirectory, Event::DirectoryChecked { exists }) => {
            if exists {
                Step { next: Phase::Identification, report: None }
            } else {
                Step { next: Phase::Done(1), report: Some(Report::MissingScriptsDirectory) }
            }
        },
        (Phase::Identification, Event::IdentificationRead { readable, valid }) => {
            if !readable {
                Step { next: Phase::Done(1), report: Some(Report::UnreadableIdentification) }
            } else if valid {
                Step { next: Phase::Helper, report: None }
            } else {
                Step { next: Phase::Fallback, report: None }
            }
        },
        (Phase::Fallback, Event::FallbackFinished { succeeded }) => {
            if succeeded {
                Step { next: Phase::Done(1), report: None }
            } else {
                Step { next: Phase::Done(1), report: Some(Report::InvalidDistro) }
            }
        },
        (Phase::Helper, Event::HelperResolved { found }) => {
            if found {
                Step { next: Phase::Prompt, report: None }
            } else {
                Step { next: Phase::Done(1), report: Some(Report::NoHelper) }
            }
        },
        (Phase::Prompt, Event::Answered { choice }) => match choice {
            Choice::Exit => Step { next: Phase::Done(0), report: None },
            Choice::Entry(i) => Step { next: Phase::Script(i), report: None },
            Choice::Rejected(e) => Step { next: Phase::Prompt, report: Some(Report::Input(e)) },
        },
        (Phase::Script(_), Event::ScriptFinished) => Step { next: Phase::Done(0), report: None },
        _ => Step { next: phase, report: None },
    }
}

} // verus!
