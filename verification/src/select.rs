use crate::failure::Failure;
use crate::outputs::is_primary;
use crate::outputs::primary_index;
use crate::outputs::primary_name;
use crate::outputs::OutputModel;
use crate::outputs::OutputSet;
use crate::search::lemma_first_where_is;
use crate::search::lemma_first_where_none;
use vstd::arithmetic::div_mod::lemma_mod_self_0;
use vstd::arithmetic::div_mod::lemma_small_mod;
use crate::text::chars_of;
use crate::text::number_of;
use crate::text::parse_number;
use crate::text::same_text;
use crate::text::trim;
use crate::text::trimmed;
use vstd::prelude::*;

verus! {

/// What a run is to do.
#[derive(Clone, Copy, Debug, PartialEq, Eq, Structural)]
pub enum Mode {
    /// Report the primary output and change nothing.
    Status,
    /// Make the output after the primary one primary.
    AutoCycle,
    /// Make the output that the configuration prefers primary.
    ConfigDefault,
    /// Make the output that the user picks from a list primary.
    Interactive,
}

/// The mode that the three flags ask for. Where several are set the first
/// of status, cycling and default counts; where none is, the user picks.
pub open spec fn mode_of(status: bool, auto: bool, default: bool) -> Mode {
    if status {
        Mode::Status
    } else if auto {
        Mode::AutoCycle
    } else if default {
        Mode::ConfigDefault
    } else {
        Mode::Interactive
    }
}

/// The mode that the three flags ask for.
pub fn select_mode(status: bool, auto: bool, default: bool) -> (mode: Mode)
    ensures
        mode == mode_of(status, auto, default),
{
    if status {
        Mode::Status
    } else if auto {
        Mode::AutoCycle
    } else if default {
        Mode::ConfigDefault
    } else {
        Mode::Interactive
    }
}

/// The choice of a new primary output.
#[derive(Clone, Debug, PartialEq, Eq)]
pub struct Switch {
    /// The mode that made the choice.
    pub mode: Mode,
    /// The output that was primary before, if one was.
    pub previous: Option<String>,
    /// The output to make primary.
    pub target: String,
    /// Whether the user is to be told that the configuration states no
    /// preference.
    pub notice: bool,
}

/// What a `Switch` stands for.
pub ghost struct SwitchModel {
    pub mode: Mode,
    pub previous: Option<Seq<char>>,
    pub target: Seq<char>,
    pub notice: bool,
}

impl View for Switch {
    type V = SwitchModel;

    open spec fn view(&self) -> SwitchModel {
        SwitchModel {
            mode: self.mode,
            previous: self.previous.deep_view(),
            target: self.target@,
            notice: self.notice,
        }
    }
}

impl DeepView for Switch {
    type V = SwitchModel;

    open spec fn deep_view(&self) -> SwitchModel {
        self@
    }
}

/// The name of the primary output, or the reason why there is none to
/// report.
pub fn current_primary(set: &OutputSet) -> (name: Result<String, Failure>)
    ensures
        (match name {
            Ok(name) => primary_name(set@) == Some(name@),
            Err(failure) => failure == Failure::NoPrimary && primary_name(set@) is None,
        }),
{
    let (_, name) = set.primary();
    match name {
        Some(name) => Ok(name),
        None => Err(Failure::NoPrimary),
    }
}

/// The position of the output that follows the primary one, the first
/// following the last; the first position where no output is primary.
pub open spec fn next_index(outputs: Seq<OutputModel>) -> int
    recommends
        outputs.len() > 0,
{
    match primary_index(outputs) {
        Some(at) => (at + 1) % (outputs.len() as int),
        None => 0,
    }
}

/// The position of the output that follows the primary one.
pub fn next_primary_index(set: &OutputSet) -> (next: usize)
    ensures
        next == next_index(set@),
        next < set@.len(),
        set@.len() >= 2 ==> primary_index(set@) != Some(next as int),
{
    let outputs = set.outputs();
    let (current, _) = set.primary();
    match current {
        Some(at) => {
            if at + 1 == outputs.len() {
                proof {
                    lemma_mod_self_0(outputs.len() as int);
                }
                0
            } else {
                proof {
                    lemma_small_mod((at + 1) as nat, outputs.len() as nat);
                }
                at + 1
            }
        },
        None => 0,
    }
}

/// The choice that cycling makes: the output that follows the primary one.
pub open spec fn cycle_of(outputs: Seq<OutputModel>) -> SwitchModel
    recommends
        outputs.len() > 0,
{
    SwitchModel {
        mode: Mode::AutoCycle,
        previous: primary_name(outputs),
        target: outputs[next_index(outputs)].name,
        notice: false,
    }
}

/// The choice that cycling makes.
pub fn auto_cycle(set: &OutputSet) -> (switch: Switch)
    ensures
        switch@ == cycle_of(set@),
{
    let outputs = set.outputs();
    let (_, previous) = set.primary();
    let next = next_primary_index(set);
    Switch { mode: Mode::AutoCycle, previous, target: outputs[next].name.clone(), notice: false }
}

/// The position that cycling chooses is one of the set.
pub proof fn lemma_next_index_in_range(outputs: Seq<OutputModel>)
    requires
        outputs.len() > 0,
    ensures
        0 <= next_index(outputs) < outputs.len(),
{
}

/// With two outputs or more, cycling from a primary output at `at` chooses
/// the position after it, the first after the last, and never `at` itself;
/// with one output it chooses that one.
pub proof fn lemma_cycle_moves_on(outputs: Seq<OutputModel>, at: int)
    requires
        0 <= at < outputs.len(),
        outputs[at].primary,
        forall|j: int| 0 <= j < at ==> !outputs[j].primary,
    ensures
        primary_index(outputs) == Some(at),
        next_index(outputs) == (at + 1) % (outputs.len() as int),
        0 <= next_index(outputs) < outputs.len(),
        outputs.len() >= 2 ==> next_index(outputs) != at,
        outputs.len() == 1 ==> next_index(outputs) == at,
{
    lemma_first_where_is(outputs, 0, is_primary(), at);
    if at + 1 == outputs.len() {
        lemma_mod_self_0(outputs.len() as int);
    } else {
        lemma_small_mod((at + 1) as nat, outputs.len());
    }
}

/// Whether no two of `outputs` have the same name.
pub open spec fn names_differ(outputs: Seq<OutputModel>) -> bool {
    forall|i: int, j: int|
        0 <= i < j < outputs.len() ==> (#[trigger] outputs[i]).name != (#[trigger] outputs[j]).name
}

/// With two outputs or more, none named like another, cycling from a
/// primary output chooses an output of another name.
pub proof fn lemma_cycle_picks_another_name(outputs: Seq<OutputModel>, at: int)
    requires
        outputs.len() >= 2,
        names_differ(outputs),
        0 <= at < outputs.len(),
        outputs[at].primary,
        forall|j: int| 0 <= j < at ==> !outputs[j].primary,
    ensures
        cycle_of(outputs).previous == Some(outputs[at].name),
        cycle_of(outputs).target != outputs[at].name,
{
    lemma_cycle_moves_on(outputs, at);
    let next = next_index(outputs);
    if next < at {
        assert(outputs[next].name != outputs[at].name);
    } else {
        assert(outputs[at].name != outputs[next].name);
    }
}

/// Where no output is primary, cycling chooses the first.
pub proof fn lemma_cycle_starts_at_first(outputs: Seq<OutputModel>)
    requires
        forall|j: int| 0 <= j < outputs.len() ==> !outputs[j].primary,
    ensures
        next_index(outputs) == 0,
{
    lemma_first_where_none(outputs, 0, is_primary());
}

/// Whether one of `outputs` has the name `name`.
pub open spec fn is_listed(outputs: Seq<OutputModel>, name: Seq<char>) -> bool {
    exists|i: int| 0 <= i < outputs.len() && (#[trigger] outputs[i]).name == name
}

/// Whether one of the outputs has the name `name`.
pub fn has_output(set: &OutputSet, name: &str) -> (listed: bool)
    ensures
        listed == is_listed(set@, name@),
{
    let outputs = set.outputs();
    let mut i: usize = 0;
    while i < outputs.len()
        invariant
            i <= outputs.len(),
            outputs.deep_view() == set@,
            forall|j: int| 0 <= j < i ==> (#[trigger] set@[j]).name != name@,
        decreases outputs.len() - i,
    {
        assert(outputs.deep_view()[i as int] == outputs[i as int]@);
        if same_text(outputs[i].name.as_str(), name) {
            return true;
        }
        i += 1;
    }
    false
}

/// The name that the configuration asks for: the connector that the hint
/// was resolved to, or the hint itself where it was not; the first output
/// where the configuration states no preference.
pub open spec fn wanted_name(
    outputs: Seq<OutputModel>,
    preferred: Option<Seq<char>>,
    resolved: Option<Seq<char>>,
) -> Seq<char>
    recommends
        outputs.len() > 0,
{
    match preferred {
        Some(hint) => match resolved {
            Some(connector) => connector,
            None => hint,
        },
        None => outputs[0].name,
    }
}

/// The choice that the configuration makes: the name that it asks for where
/// an output has that name, the first output where none has.
pub open spec fn default_of(
    outputs: Seq<OutputModel>,
    preferred: Option<Seq<char>>,
    resolved: Option<Seq<char>>,
) -> SwitchModel
    recommends
        outputs.len() > 0,
{
    let wanted = wanted_name(outputs, preferred, resolved);
    SwitchModel {
        mode: Mode::ConfigDefault,
        previous: primary_name(outputs),
        target: if is_listed(outputs, wanted) {
            wanted
        } else {
            outputs[0].name
        },
        notice: preferred is None,
    }
}

/// The choice that the configuration makes, given the preference that it
/// states, if any, and the connector that the preference was resolved to,
/// if it was.
pub fn choose_default(set: &OutputSet, preferred: Option<&str>, resolved: Option<&str>) -> (switch:
    Switch)
    ensures
        switch@ == default_of(set@, preferred.deep_view(), resolved.deep_view()),
        is_listed(set@, switch.target@),
        !is_listed(set@, wanted_name(set@, preferred.deep_view(), resolved.deep_view()))
            ==> switch.target@ == set@[0].name,
{
    let outputs = set.outputs();
    let (_, previous) = set.primary();
    let first = outputs[0].name.as_str();
    let wanted = match preferred {
        Some(hint) => match resolved {
            Some(connector) => connector,
            None => hint,
        },
        None => first,
    };
    let target = if has_output(set, wanted) {
        wanted.to_owned()
    } else {
        first.to_owned()
    };
    Switch { mode: Mode::ConfigDefault, previous, target, notice: preferred.is_none() }
}

/// A name that no output has is never chosen: the choice falls on the first
/// output instead.
pub proof fn lemma_unlisted_name_falls_back(
    outputs: Seq<OutputModel>,
    preferred: Option<Seq<char>>,
    resolved: Option<Seq<char>>,
)
    requires
        outputs.len() > 0,
        !is_listed(outputs, wanted_name(outputs, preferred, resolved)),
    ensures
        default_of(outputs, preferred, resolved).target == outputs[0].name,
{
}

/// The choice that the configuration makes is always one of the outputs.
pub proof fn lemma_default_is_listed(
    outputs: Seq<OutputModel>,
    preferred: Option<Seq<char>>,
    resolved: Option<Seq<char>>,
)
    requires
        outputs.len() > 0,
    ensures
        is_listed(outputs, default_of(outputs, preferred, resolved).target),
{
}

/// One entry of the list that the user picks from.
#[derive(Clone, Debug, PartialEq, Eq)]
pub struct Choice {
    /// The number that picks the entry; the first entry has number one.
    pub number: usize,
    /// The name of the output.
    pub name: String,
    /// Whether the output is marked primary.
    pub current: bool,
}

/// What a `Choice` stands for.
pub ghost struct ChoiceModel {
    pub number: int,
    pub name: Seq<char>,
    pub current: bool,
}

impl View for Choice {
    type V = ChoiceModel;

    open spec fn view(&self) -> ChoiceModel {
        ChoiceModel { number: self.number as int, name: self.name@, current: self.current }
    }
}

impl DeepView for Choice {
    type V = ChoiceModel;

    open spec fn deep_view(&self) -> ChoiceModel {
        self@
    }
}

/// The list that the user picks from: the outputs in their order, numbered
/// from one.
pub open spec fn choices_of(outputs: Seq<OutputModel>) -> Seq<ChoiceModel> {
    Seq::new(
        outputs.len(),
        |i: int| ChoiceModel { number: i + 1, name: outputs[i].name, current: outputs[i].primary },
    )
}

/// The list that the user picks from.
pub fn choices(set: &OutputSet) -> (list: Vec<Choice>)
    ensures
        list.deep_view() == choices_of(set@),
{
    let outputs = set.outputs();
    let mut list: Vec<Choice> = Vec::new();
    let mut i: usize = 0;
    while i < outputs.len()
        invariant
            i <= outputs.len(),
            list.len() == i,
            outputs.deep_view() == set@,
            forall|j: int| 0 <= j < i ==> (#[trigger] list[j])@ == choices_of(set@)[j],
        decreases outputs.len() - i,
    {
        list.push(
            Choice { number: i + 1, name: outputs[i].name.clone(), current: outputs[i].primary },
        );
        i += 1;
    }
    list
}

/// The position that `input` picks from a list of `count` entries numbered
/// from one: the number that the input writes, white space at its ends
/// aside, less one; none where it writes no number or one that is not on
/// the list.
pub open spec fn selection_of(input: Seq<char>, count: nat) -> Option<int> {
    match number_of(trim(input)) {
        Some(number) => if 1 <= number <= count {
            Some(number - 1)
        } else {
            None
        },
        None => None,
    }
}

/// The position that `input` picks from a list of `count` entries.
pub fn parse_selection(input: &str, count: usize) -> (picked: Option<usize>)
    ensures
        (match picked {
            Some(at) => selection_of(input@, count as nat) == Some(at as int) && at < count,
            None => selection_of(input@, count as nat) is None,
        }),
{
    let chars = chars_of(input);
    match parse_number(trimmed(chars.as_slice())) {
        Some(number) => {
            if 1 <= number && number <= count {
                Some(number - 1)
            } else {
                None
            }
        },
        None => None,
    }
}

/// An input picks a position only where it writes a number from one to
/// `count`, and then the position before that number.
pub proof fn lemma_selection_is_in_range(input: Seq<char>, count: nat)
    ensures
        (match selection_of(input, count) {
            Some(at) => 0 <= at < count && number_of(trim(input)) == Some((at + 1) as nat),
            None => match number_of(trim(input)) {
                Some(number) => number == 0 || number > count,
                None => true,
            },
        }),
{
}

/// The choice that `input` makes from the list of `outputs`.
pub open spec fn pick_of(outputs: Seq<OutputModel>, input: Seq<char>) -> Option<SwitchModel> {
    match selection_of(input, outputs.len()) {
        Some(at) => Some(
            SwitchModel {
                mode: Mode::Interactive,
                previous: primary_name(outputs),
                target: outputs[at].name,
                notice: false,
            },
        ),
        None => None,
    }
}

/// An input that picks an output picks the one whose number on the list it
/// writes.
pub proof fn lemma_pick_is_the_numbered_choice(outputs: Seq<OutputModel>, input: Seq<char>)
    requires
        pick_of(outputs, input) is Some,
    ensures
        exists|at: int|
            0 <= at < outputs.len() && number_of(trim(input)) == Some(
                (#[trigger] choices_of(outputs)[at]).number as nat,
            ) && pick_of(outputs, input).unwrap().target == choices_of(outputs)[at].name,
{
    let at = selection_of(input, outputs.len()).unwrap();
    assert(choices_of(outputs)[at].number == at + 1);
}

/// The choice that `input` makes from the list of the outputs, or the
/// reason why it makes none.
pub fn choose_listed(set: &OutputSet, input: &str) -> (choice: Result<Switch, Failure>)
    ensures
        (match choice {
            Ok(switch) => pick_of(set@, input@) == Some(switch@),
            Err(failure) => failure == Failure::InvalidSelection && pick_of(set@, input@) is None,
        }),
{
    let outputs = set.outputs();
    match parse_selection(input, outputs.len()) {
        Some(at) => {
            let (_, previous) = set.primary();
            Ok(
                Switch {
                    mode: Mode::Interactive,
                    previous,
                    target: outputs[at].name.clone(),
                    notice: false,
                },
            )
        },
        None => Err(Failure::InvalidSelection),
    }
}

} // verus!
