use crate::config::preference_of;
use crate::config::read_preferred_from_config;
use crate::config::BLOCK_END;
use crate::config::BLOCK_START;
use crate::failure::Failure;
use crate::hint::connector_of;
use crate::hint::is_connector;
use crate::hint::map_hint_to_connector;
use crate::hint::needs_listing;
use crate::outputs::list_outputs;
use crate::outputs::outputs_in;
use crate::outputs::primary_name;
use crate::outputs::OutputModel;
use crate::outputs::OutputSet;
use crate::select::auto_cycle;
use crate::select::choose_default;
use crate::select::choose_listed;
use crate::select::current_primary;
use crate::select::cycle_of;
use crate::select::default_of;
use crate::select::is_listed;
use crate::select::lemma_default_is_listed;
use crate::select::pick_of;
use crate::select::selection_of;
use crate::select::wanted_name;
use crate::select::Mode;
use crate::select::Switch;
use crate::select::SwitchModel;
use crate::text::lines_of;
use vstd::prelude::*;

verus! {

/// How a run has ended.
#[derive(Debug, PartialEq, Eq)]
pub enum Outcome {
    /// The primary output was reported; it has this name.
    Primary(String),
    /// The chosen output was made primary.
    Switched(Switch),
    /// The run failed before any output was chosen.
    Failed(Failure),
    /// The display server did not make the chosen output primary.
    NotApplied(Switch),
}

/// What an `Outcome` stands for.
pub ghost enum OutcomeModel {
    Primary(Seq<char>),
    Switched(SwitchModel),
    Failed(Failure),
    NotApplied(SwitchModel),
}

impl View for Outcome {
    type V = OutcomeModel;

    open spec fn view(&self) -> OutcomeModel {
        match self {
            Outcome::Primary(name) => OutcomeModel::Primary(name@),
            Outcome::Switched(switch) => OutcomeModel::Switched(switch@),
            Outcome::Failed(failure) => OutcomeModel::Failed(*failure),
            Outcome::NotApplied(switch) => OutcomeModel::NotApplied(switch@),
        }
    }
}

/// The failure that `outcome` amounts to, if it is one.
pub open spec fn failure_of(outcome: OutcomeModel) -> Option<Failure> {
    match outcome {
        OutcomeModel::Primary(_) => None,
        OutcomeModel::Switched(_) => None,
        OutcomeModel::Failed(failure) => Some(failure),
        OutcomeModel::NotApplied(_) => Some(Failure::ApplyFailed),
    }
}

impl Outcome {
    /// The failure that the outcome amounts to, if it is one.
    pub fn failure(&self) -> (failure: Option<Failure>)
        ensures
            failure == failure_of(self@),
    {
        match self {
            Outcome::Primary(_) => None,
            Outcome::Switched(_) => None,
            Outcome::Failed(failure) => Some(*failure),
            Outcome::NotApplied(_) => Some(Failure::ApplyFailed),
        }
    }

    /// The status with which the process ends: zero unless the outcome is a
    /// failure.
    pub fn exit_code(&self) -> (code: u8)
        ensures
            (code == if failure_of(self@) is None {
                0u8
            } else {
                1u8
            }),
    {
        match self.failure() {
            None => 0,
            Some(_) => 1,
        }
    }
}

/// What a run waits for, or how it has ended. Each state but the last asks
/// for one thing to be done outside, and takes the result as an event.
#[derive(Debug, PartialEq, Eq)]
pub enum Session {
    /// The display server is to be queried.
    AwaitDisplay { mode: Mode },
    /// The configuration file is to be read.
    AwaitConfig { outputs: OutputSet },
    /// The compositor is to be asked for its listing, to resolve `hint`.
    AwaitListing { outputs: OutputSet, hint: String },
    /// The outputs are to be listed and a selection read.
    AwaitInput { outputs: OutputSet },
    /// The target of `switch` is to be made primary.
    AwaitApply { switch: Switch },
    /// Nothing more is to be done.
    Finished { outcome: Outcome },
}

/// What a `Session` stands for.
pub ghost enum SessionModel {
    AwaitDisplay { mode: Mode },
    AwaitConfig { outputs: Seq<OutputModel> },
    AwaitListing { outputs: Seq<OutputModel>, hint: Seq<char> },
    AwaitInput { outputs: Seq<OutputModel> },
    AwaitApply { switch: SwitchModel },
    Finished { outcome: OutcomeModel },
}

impl View for Session {
    type V = SessionModel;

    open spec fn view(&self) -> SessionModel {
        match self {
            Session::AwaitDisplay { mode } => SessionModel::AwaitDisplay { mode: *mode },
            Session::AwaitConfig { outputs } => SessionModel::AwaitConfig { outputs: outputs@ },
            Session::AwaitListing { outputs, hint } => SessionModel::AwaitListing {
                outputs: outputs@,
                hint: hint@,
            },
            Session::AwaitInput { outputs } => SessionModel::AwaitInput { outputs: outputs@ },
            Session::AwaitApply { switch } => SessionModel::AwaitApply { switch: switch@ },
            Session::Finished { outcome } => SessionModel::Finished { outcome: outcome@ },
        }
    }
}

/// What was done outside, and what came of it.
#[derive(Clone, Debug, PartialEq, Eq)]
pub enum Event {
    /// The display server was queried; its answer, if it gave one.
    Display(Option<String>),
    /// The configuration file was read; its content, if it could be read.
    Config(Option<String>),
    /// The compositor was asked for its listing; the listing, if it gave one.
    Listing(Option<String>),
    /// A selection was asked for; the line, if one could be read.
    Input(Option<String>),
    /// The display server was asked to make the target primary; whether it
    /// did.
    Applied(bool),
}

/// What an `Event` stands for.
pub ghost enum EventModel {
    Display(Option<Seq<char>>),
    Config(Option<Seq<char>>),
    Listing(Option<Seq<char>>),
    Input(Option<Seq<char>>),
    Applied(bool),
}

impl View for Event {
    type V = EventModel;

    open spec fn view(&self) -> EventModel {
        match self {
            Event::Display(answer) => EventModel::Display(answer.deep_view()),
            Event::Config(content) => EventModel::Config(content.deep_view()),
            Event::Listing(listing) => EventModel::Listing(listing.deep_view()),
            Event::Input(line) => EventModel::Input(line.deep_view()),
            Event::Applied(done) => EventModel::Applied(*done),
        }
    }
}

/// A session that has ended in `failure`.
pub open spec fn failed(failure: Failure) -> SessionModel {
    SessionModel::Finished { outcome: OutcomeModel::Failed(failure) }
}

/// Where a run in `mode` stands once the connected outputs are known. The
/// status mode ends the run with the primary output's name, cycling has
/// made its choice, and the other two modes go on to ask for the
/// configuration or for a selection.
pub open spec fn after_outputs(mode: Mode, outputs: Seq<OutputModel>) -> SessionModel {
    match mode {
        Mode::Status => match primary_name(outputs) {
            Some(name) => SessionModel::Finished { outcome: OutcomeModel::Primary(name) },
            None => failed(Failure::NoPrimary),
        },
        Mode::AutoCycle => SessionModel::AwaitApply { switch: cycle_of(outputs) },
        Mode::ConfigDefault => SessionModel::AwaitConfig { outputs },
        Mode::Interactive => SessionModel::AwaitInput { outputs },
    }
}

/// Where a run in `mode` stands once the display server has answered. No
/// answer ends the run before the mode counts, and so does an answer
/// without a connected output.
pub open spec fn after_display(mode: Mode, answer: Option<Seq<char>>) -> SessionModel {
    match answer {
        None => failed(Failure::DisplayUnavailable),
        Some(text) => {
            let outputs = outputs_in(lines_of(text));
            if outputs.len() == 0 {
                failed(Failure::NoOutputs)
            } else {
                after_outputs(mode, outputs)
            }
        },
    }
}

/// The preference that the configuration file states, given its content
/// where it could be read.
pub open spec fn preference_in(content: Option<Seq<char>>) -> Option<Seq<char>> {
    match content {
        Some(text) => preference_of(lines_of(text), BLOCK_START@, BLOCK_END@),
        None => None,
    }
}

/// Where a run stands once the preference is known, and whether it is a
/// connector's name already. Without a preference the choice falls on the
/// first output. A preference that is a connector's name is the choice
/// where an output has that name; any other preference is a hint that the
/// compositor's listing is to resolve.
pub open spec fn after_preference(
    outputs: Seq<OutputModel>,
    preferred: Option<Seq<char>>,
    connector: bool,
) -> SessionModel {
    match preferred {
        None => SessionModel::AwaitApply { switch: default_of(outputs, None, None) },
        Some(hint) => if connector {
            SessionModel::AwaitApply { switch: default_of(outputs, Some(hint), Some(hint)) }
        } else {
            SessionModel::AwaitListing { outputs, hint }
        },
    }
}

/// Where a run stands once the configuration file has been read.
pub open spec fn after_config(outputs: Seq<OutputModel>, content: Option<Seq<char>>) -> SessionModel {
    after_preference(
        outputs,
        preference_in(content),
        match preference_in(content) {
            Some(hint) => is_connector(hint),
            None => false,
        },
    )
}

/// Where a run stands once the hint has been resolved, or could not be:
/// the choice is made, from the connector that the hint resolved to or,
/// where it resolved to none, from the hint itself.
pub open spec fn after_resolution(
    outputs: Seq<OutputModel>,
    hint: Seq<char>,
    resolved: Option<Seq<char>>,
) -> SessionModel {
    SessionModel::AwaitApply { switch: default_of(outputs, Some(hint), resolved) }
}

/// Where a run stands once the compositor has been asked for its listing.
pub open spec fn after_listing(
    outputs: Seq<OutputModel>,
    hint: Seq<char>,
    listing: Option<Seq<char>>,
) -> SessionModel {
    after_resolution(outputs, hint, connector_of(hint, listing))
}

/// Where a run stands once a selection has been asked for: the choice is
/// made where the line picks a listed output; otherwise the run has ended.
pub open spec fn after_input(outputs: Seq<OutputModel>, line: Option<Seq<char>>) -> SessionModel {
    match line {
        None => failed(Failure::InputUnreadable),
        Some(input) => match pick_of(outputs, input) {
            Some(switch) => SessionModel::AwaitApply { switch },
            None => failed(Failure::InvalidSelection),
        },
    }
}

/// Where a run stands once the display server has been asked to make the
/// target primary: at its end either way.
pub open spec fn after_apply(switch: SwitchModel, done: bool) -> SessionModel {
    SessionModel::Finished {
        outcome: if done {
            OutcomeModel::Switched(switch)
        } else {
            OutcomeModel::NotApplied(switch)
        },
    }
}

/// Where `session` stands after `event`. An event that the session does not
/// wait for changes nothing.
pub open spec fn step_of(session: SessionModel, event: EventModel) -> SessionModel {
    match (session, event) {
        (SessionModel::AwaitDisplay { mode }, EventModel::Display(answer)) => after_display(
            mode,
            answer,
        ),
        (SessionModel::AwaitConfig { outputs }, EventModel::Config(content)) => after_config(
            outputs,
            content,
        ),
        (SessionModel::AwaitListing { outputs, hint }, EventModel::Listing(listing)) => after_listing(
            outputs,
            hint,
            listing,
        ),
        (SessionModel::AwaitInput { outputs }, EventModel::Input(line)) => after_input(outputs, line),
        (SessionModel::AwaitApply { switch }, EventModel::Applied(done)) => after_apply(switch, done),
        _ => session,
    }
}

/// Whether `session` waits for an event of the kind of `event`.
pub open spec fn awaits(session: SessionModel, event: EventModel) -> bool {
    match (session, event) {
        (SessionModel::AwaitDisplay { mode }, EventModel::Display(answer)) => true,
        (SessionModel::AwaitConfig { outputs }, EventModel::Config(content)) => true,
        (SessionModel::AwaitListing { outputs, hint }, EventModel::Listing(listing)) => true,
        (SessionModel::AwaitInput { outputs }, EventModel::Input(line)) => true,
        (SessionModel::AwaitApply { switch }, EventModel::Applied(done)) => true,
        _ => false,
    }
}

/// The greatest number of events that `session` may still wait for.
pub open spec fn steps_left(session: SessionModel) -> nat {
    match session {
        SessionModel::AwaitDisplay { mode } => 4,
        SessionModel::AwaitConfig { outputs } => 3,
        SessionModel::AwaitListing { outputs, hint } => 2,
        SessionModel::AwaitInput { outputs } => 2,
        SessionModel::AwaitApply { switch } => 1,
        SessionModel::Finished { outcome } => 0,
    }
}

/// An event that the session waits for brings it nearer to its end, and no
/// state is entered twice: a run asks the display server for its outputs
/// once at most, reads the configuration once at most, asks the compositor
/// once at most, and asks for one output at most to be made primary. Any
/// other event changes nothing.
pub proof fn lemma_step_advances(session: SessionModel, event: EventModel)
    ensures
        awaits(session, event) ==> steps_left(step_of(session, event)) < steps_left(session),
        !awaits(session, event) ==> step_of(session, event) == session,
        steps_left(session) == 0 <==> session is Finished,
{
}

/// A run that has ended stays as it is, whatever happens.
pub proof fn lemma_finished_stays(outcome: OutcomeModel, event: EventModel)
    ensures
        (step_of(SessionModel::Finished { outcome }, event) == (SessionModel::Finished { outcome })),
{
}

/// Where the configuration prefers a connector's name, the compositor is
/// not asked: the choice is made at once.
pub proof fn lemma_connector_preference_needs_no_listing(
    outputs: Seq<OutputModel>,
    content: Option<Seq<char>>,
    hint: Seq<char>,
)
    requires
        preference_in(content) == Some(hint),
        is_connector(hint),
    ensures
        (step_of(SessionModel::AwaitConfig { outputs }, EventModel::Config(content)) == (
        SessionModel::AwaitApply { switch: default_of(outputs, Some(hint), Some(hint)) })),
{
}

/// Where the preference names no output of the display server, whether
/// resolved or taken as it is, the run goes on with the first output
/// instead of failing.
pub proof fn lemma_unknown_preference_falls_back(
    outputs: Seq<OutputModel>,
    hint: Seq<char>,
    listing: Option<Seq<char>>,
)
    requires
        outputs.len() > 0,
        !is_listed(outputs, wanted_name(outputs, Some(hint), connector_of(hint, listing))),
    ensures
        (step_of(SessionModel::AwaitListing { outputs, hint }, EventModel::Listing(listing))
            matches SessionModel::AwaitApply { switch } && switch.target == outputs[0].name),
{
}

/// A line that picks no listed output (it writes no number, or zero, or a
/// number beyond the list) ends the run as a failure. The run never comes
/// to ask for an output to be made primary.
pub proof fn lemma_invalid_selection_ends_run(
    outputs: Seq<OutputModel>,
    input: Seq<char>,
    later: EventModel,
)
    requires
        selection_of(input, outputs.len()) is None,
    ensures
        (step_of(SessionModel::AwaitInput { outputs }, EventModel::Input(Some(input))) == failed(
            Failure::InvalidSelection,
        )),
        step_of(failed(Failure::InvalidSelection), later) == failed(Failure::InvalidSelection),
{
}

/// The outputs that a session holds while it waits for something other than
/// the display server's answers.
pub open spec fn outputs_of(session: SessionModel) -> Option<Seq<OutputModel>> {
    match session {
        SessionModel::AwaitConfig { outputs } => Some(outputs),
        SessionModel::AwaitListing { outputs, hint } => Some(outputs),
        SessionModel::AwaitInput { outputs } => Some(outputs),
        _ => None,
    }
}

/// Whenever a step leads a session that holds outputs to ask for an output
/// to be made primary, that output is one of those it holds.
pub proof fn lemma_target_is_held(session: SessionModel, event: EventModel)
    requires
        outputs_of(session) is Some,
        outputs_of(session).unwrap().len() > 0,
        step_of(session, event) is AwaitApply,
    ensures
        is_listed(outputs_of(session).unwrap(), step_of(session, event)->switch.target),
{
    match (session, event) {
        (SessionModel::AwaitConfig { outputs }, EventModel::Config(content)) => {
            match preference_in(content) {
                Some(hint) => lemma_default_is_listed(outputs, Some(hint), Some(hint)),
                None => lemma_default_is_listed(outputs, None, None),
            }
        },
        (SessionModel::AwaitListing { outputs, hint }, EventModel::Listing(listing)) => {
            lemma_default_is_listed(outputs, Some(hint), connector_of(hint, listing));
        },
        _ => {},
    }
}

/// Whenever the display server's answer leads a run to ask for an output to
/// be made primary, that output is one that the answer reports as
/// connected.
pub proof fn lemma_first_target_is_reported(mode: Mode, text: Seq<char>)
    requires
        after_display(mode, Some(text)) is AwaitApply,
    ensures
        is_listed(outputs_in(lines_of(text)), after_display(mode, Some(text))->switch.target),
{
}

/// A session that has ended in `failure`.
fn fail(failure: Failure) -> (session: Session)
    ensures
        session@ == failed(failure),
{
    Session::Finished { outcome: Outcome::Failed(failure) }
}

/// `text` as a borrowed text.
fn borrowed(text: &Option<String>) -> (slice: Option<&str>)
    ensures
        slice.deep_view() == text.deep_view(),
{
    match text {
        Some(text) => Some(text.as_str()),
        None => None,
    }
}

impl Session {
    /// The session of a run in `mode`, at its start.
    pub fn start(mode: Mode) -> (session: Session)
        ensures
            (session@ == (SessionModel::AwaitDisplay { mode })),
    {
        Session::AwaitDisplay { mode }
    }

    /// Where a run in `mode` stands once the connected outputs are known.
    pub fn on_outputs(mode: Mode, outputs: OutputSet) -> (next: Session)
        ensures
            next@ == after_outputs(mode, outputs@),
    {
        match mode {
            Mode::Status => match current_primary(&outputs) {
                Ok(name) => Session::Finished { outcome: Outcome::Primary(name) },
                Err(failure) => fail(failure),
            },
            Mode::AutoCycle => Session::AwaitApply { switch: auto_cycle(&outputs) },
            Mode::ConfigDefault => Session::AwaitConfig { outputs },
            Mode::Interactive => Session::AwaitInput { outputs },
        }
    }

    /// Where a run in `mode` stands once the display server has answered.
    pub fn on_display(mode: Mode, answer: Option<&str>) -> (next: Session)
        ensures
            next@ == after_display(mode, answer.deep_view()),
    {
        if answer.is_none() {
            return fail(Failure::DisplayUnavailable);
        }
        match list_outputs(answer) {
            Ok(outputs) => Session::on_outputs(mode, outputs),
            Err(failure) => fail(failure),
        }
    }

    /// Where a run stands once the preference is known, and whether it is
    /// a connector's name already.
    pub fn on_preference(outputs: OutputSet, preferred: Option<String>, connector: bool) -> (next:
        Session)
        ensures
            next@ == after_preference(outputs@, preferred.deep_view(), connector),
    {
        match preferred {
            None => Session::AwaitApply { switch: choose_default(&outputs, None, None) },
            Some(hint) => {
                if connector {
                    Session::AwaitApply {
                        switch: choose_default(&outputs, Some(hint.as_str()), Some(hint.as_str())),
                    }
                } else {
                    Session::AwaitListing { outputs, hint }
                }
            },
        }
    }

    /// Where a run stands once the configuration file has been read.
    pub fn on_config(outputs: OutputSet, content: Option<&str>) -> (next: Session)
        ensures
            next@ == after_config(outputs@, content.deep_view()),
    {
        let preferred = read_preferred_from_config(content);
        let connector = match &preferred {
            Some(hint) => !needs_listing(hint.as_str()),
            None => false,
        };
        Session::on_preference(outputs, preferred, connector)
    }

    /// Where a run stands once the hint has been resolved, or could not be.
    pub fn on_resolution(outputs: OutputSet, hint: &str, resolved: Option<&str>) -> (next: Session)
        ensures
            next@ == after_resolution(outputs@, hint@, resolved.deep_view()),
    {
        Session::AwaitApply { switch: choose_default(&outputs, Some(hint), resolved) }
    }

    /// Where a run stands once the compositor has been asked for its
    /// listing.
    pub fn on_listing(outputs: OutputSet, hint: &str, listing: Option<&str>) -> (next: Session)
        ensures
            next@ == after_listing(outputs@, hint@, listing.deep_view()),
    {
        let resolved = map_hint_to_connector(hint, listing);
        Session::on_resolution(outputs, hint, borrowed(&resolved))
    }

    /// Where a run stands once a selection has been asked for.
    pub fn on_input(outputs: OutputSet, line: Option<&str>) -> (next: Session)
        ensures
            next@ == after_input(outputs@, line.deep_view()),
    {
        match line {
            None => fail(Failure::InputUnreadable),
            Some(input) => match choose_listed(&outputs, input) {
                Ok(switch) => Session::AwaitApply { switch },
                Err(failure) => fail(failure),
            },
        }
    }

    /// Where a run stands once the display server has been asked to make
    /// the target primary.
    pub fn on_apply(switch: Switch, done: bool) -> (next: Session)
        ensures
            next@ == after_apply(switch@, done),
    {
        if done {
            Session::Finished { outcome: Outcome::Switched(switch) }
        } else {
            Session::Finished { outcome: Outcome::NotApplied(switch) }
        }
    }

    /// Where the session stands after `event`.
    pub fn step(self, event: Event) -> (next: Session)
        ensures
            next@ == step_of(self@, event@),
    {
        match (self, event) {
            (Session::AwaitDisplay { mode }, Event::Display(answer)) => Session::on_display(
                mode,
                borrowed(&answer),
            ),
            (Session::AwaitConfig { outputs }, Event::Config(content)) => Session::on_config(
                outputs,
                borrowed(&content),
            ),
            (Session::AwaitListing { outputs, hint }, Event::Listing(listing)) => Session::on_listing(
                outputs,
                hint.as_str(),
                borrowed(&listing),
            ),
            (Session::AwaitInput { outputs }, Event::Input(line)) => Session::on_input(
                outputs,
                borrowed(&line),
            ),
            (Session::AwaitApply { switch }, Event::Applied(done)) => Session::on_apply(
                switch,
                done,
            ),
            (session, _) => session,
        }
    }
}

} // verus!
