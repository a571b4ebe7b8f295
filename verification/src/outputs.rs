use crate::failure::Failure;
use crate::pattern::captures;
use crate::pattern::regex_captures;
use crate::search::first_where;
use crate::search::lemma_first_where_is;
use crate::search::lemma_first_where_none;
use crate::text::entry;
use crate::text::entry_at;
use crate::text::has_word;
use crate::text::lines;
use crate::text::lines_of;
use crate::text::same_text;
use crate::text::str_holds_word;
use vstd::prelude::*;

verus! {

/// The pattern of a line that reports an output: the connector's name at
/// the start of the line, white space, and the word that says whether
/// anything is plugged in.
pub const OUTPUT_LINE: &'static str =
    r"^([A-Za-z0-9\-_.+:/]+)\s+(connected|disconnected)(?:\s+primary)?";

/// The word by which the display server marks an output in use.
pub const CONNECTED: &'static str = "connected";

/// The word by which the display server marks an output with nothing
/// plugged in.
pub const DISCONNECTED: &'static str = "disconnected";

/// The word by which the display server marks the primary output.
pub const PRIMARY: &'static str = "primary";

/// One output of the display server.
#[derive(Clone, Debug, PartialEq, Eq)]
pub struct Output {
    /// The connector's name.
    pub name: String,
    /// Whether the output is the primary one.
    pub primary: bool,
    /// Whether a display is plugged in.
    pub connected: bool,
}

/// What an `Output` stands for.
pub ghost struct OutputModel {
    pub name: Seq<char>,
    pub primary: bool,
    pub connected: bool,
}

impl View for Output {
    type V = OutputModel;

    open spec fn view(&self) -> OutputModel {
        OutputModel { name: self.name@, primary: self.primary, connected: self.connected }
    }
}

impl DeepView for Output {
    type V = OutputModel;

    open spec fn deep_view(&self) -> OutputModel {
        self@
    }
}

/// The output that `line` reports, given what the line pattern found in it:
/// one only where the pattern matched and the second group reads
/// `connected`. Its name is the first group; it is primary where the line
/// holds the word `primary` with white space directly before and after it,
/// wherever in the line.
pub open spec fn output_of(line: Seq<char>, found: Option<Seq<Option<Seq<char>>>>) -> Option<
    OutputModel,
> {
    match found {
        Some(groups) => match (entry(groups, 1), entry(groups, 2)) {
            (Some(name), Some(status)) => if status == CONNECTED@ {
                Some(OutputModel { name, primary: has_word(line, PRIMARY@), connected: true })
            } else {
                None
            },
            _ => None,
        },
        None => None,
    }
}

/// The output that `line` reports, if it reports one that is connected.
pub open spec fn line_output(line: Seq<char>) -> Option<OutputModel> {
    output_of(line, regex_captures(OUTPUT_LINE@, line))
}

/// The connected outputs that `lines` report, in the order of the lines.
pub open spec fn outputs_in(lines: Seq<Seq<char>>) -> Seq<OutputModel>
    decreases lines.len(),
{
    if lines.len() == 0 {
        Seq::empty()
    } else {
        let before = outputs_in(lines.drop_last());
        match line_output(lines.last()) {
            Some(output) => before.push(output),
            None => before,
        }
    }
}

/// The output that `line` reports, given what the line pattern found in it.
pub fn output_from_match(line: &str, found: &Option<Vec<Option<String>>>) -> (output: Option<Output>)
    ensures
        output.deep_view() == output_of(line@, found.deep_view()),
{
    match found {
        Some(groups) => match (entry_at(groups, 1), entry_at(groups, 2)) {
            (Some(name), Some(status)) => {
                if same_text(status.as_str(), CONNECTED) {
                    Some(
                        Output {
                            name: name.clone(),
                            primary: str_holds_word(line, PRIMARY),
                            connected: true,
                        },
                    )
                } else {
                    None
                }
            },
            _ => None,
        },
        None => None,
    }
}

/// The connected outputs that the text of a display query reports, in the
/// order in which the text names them.
pub fn parse_outputs(text: &str) -> (outputs: Vec<Output>)
    ensures
        outputs.deep_view() == outputs_in(lines_of(text@)),
        all_connected(outputs.deep_view()),
{
    let all = lines(text);
    let mut outputs: Vec<Output> = Vec::new();
    let mut i: usize = 0;
    while i < all.len()
        invariant
            i <= all.len(),
            outputs.deep_view() == outputs_in(all.deep_view().take(i as int)),
        decreases all.len() - i,
    {
        let line = all[i].as_str();
        let found = captures(OUTPUT_LINE, line);
        proof {
            let upto = all.deep_view().take(i + 1);
            assert(upto.drop_last() =~= all.deep_view().take(i as int));
        }
        match output_from_match(line, &found) {
            Some(output) => {
                outputs.push(output);
            },
            None => {},
        }
        i += 1;
    }
    assert(all.deep_view().take(all.len() as int) =~= all.deep_view());
    proof {
        assert forall|k: int| 0 <= k < outputs.len() implies (
        #[trigger] outputs.deep_view()[k]).connected by {
            lemma_outputs_come_from_connected_lines(lines_of(text@), k);
        }
    }
    outputs
}

/// The word by which `line` says whether anything is plugged in: the second
/// group of the line pattern.
pub open spec fn status_of(line: Seq<char>) -> Option<Seq<char>> {
    match regex_captures(OUTPUT_LINE@, line) {
        Some(groups) => entry(groups, 2),
        None => None,
    }
}

/// A line that the display server marks `disconnected` reports no output.
pub proof fn lemma_disconnected_line_reports_nothing(line: Seq<char>)
    requires
        status_of(line) == Some(DISCONNECTED@),
    ensures
        line_output(line) is None,
{
    reveal_strlit("connected");
    reveal_strlit("disconnected");
    assert(CONNECTED@.len() != DISCONNECTED@.len());
}

/// Every output that `lines` report is reported by one of the lines, and
/// that line is marked `connected`.
pub proof fn lemma_outputs_come_from_connected_lines(lines: Seq<Seq<char>>, k: int)
    requires
        0 <= k < outputs_in(lines).len(),
    ensures
        outputs_in(lines)[k].connected,
        exists|i: int|
            0 <= i < lines.len() && line_output(#[trigger] lines[i]) == Some(outputs_in(lines)[k])
                && status_of(lines[i]) == Some(CONNECTED@),
    decreases lines.len(),
{
    if k < outputs_in(lines.drop_last()).len() {
        lemma_outputs_come_from_connected_lines(lines.drop_last(), k);
    }
}

/// No output that the text of a display query reports is marked
/// `disconnected`: each is reported by a line of the text that is marked
/// `connected`, and says so itself.
pub proof fn lemma_no_disconnected_output(text: Seq<char>, k: int)
    requires
        0 <= k < outputs_in(lines_of(text)).len(),
    ensures
        outputs_in(lines_of(text))[k].connected,
        exists|i: int|
            0 <= i < lines_of(text).len() && line_output(#[trigger] lines_of(text)[i]) == Some(
                outputs_in(lines_of(text))[k],
            ) && status_of(lines_of(text)[i]) != Some(DISCONNECTED@),
{
    lemma_outputs_come_from_connected_lines(lines_of(text), k);
    let lines = lines_of(text);
    let i = choose|i: int|
        0 <= i < lines.len() && line_output(#[trigger] lines[i]) == Some(outputs_in(lines)[k])
            && status_of(lines[i]) == Some(CONNECTED@);
    reveal_strlit("connected");
    reveal_strlit("disconnected");
    assert(CONNECTED@.len() != DISCONNECTED@.len());
}

/// The positions of the lines that report a connected output, in order.
pub open spec fn reporting_lines(lines: Seq<Seq<char>>) -> Seq<int>
    decreases lines.len(),
{
    if lines.len() == 0 {
        Seq::empty()
    } else {
        let before = reporting_lines(lines.drop_last());
        if line_output(lines.last()) is Some {
            before.push(lines.len() - 1)
        } else {
            before
        }
    }
}

/// The outputs that `lines` report are what the reporting lines report,
/// one for each such line and in the order of the lines.
pub proof fn lemma_outputs_follow_lines(lines: Seq<Seq<char>>)
    ensures
        reporting_lines(lines).len() == outputs_in(lines).len(),
        forall|k: int|
            0 <= k < reporting_lines(lines).len() ==> 0 <= (#[trigger] reporting_lines(lines)[k])
                < lines.len() && line_output(lines[reporting_lines(lines)[k]]) == Some(
                outputs_in(lines)[k],
            ),
        forall|j: int, k: int|
            0 <= j < k < reporting_lines(lines).len() ==> (#[trigger] reporting_lines(lines)[j]) < (
            #[trigger] reporting_lines(lines)[k]),
        forall|i: int|
            0 <= i < lines.len() && line_output(#[trigger] lines[i]) is Some ==> reporting_lines(
                lines,
            ).contains(i),
    decreases lines.len(),
{
    if lines.len() > 0 {
        let shorter = lines.drop_last();
        let last = lines.len() - 1;
        lemma_outputs_follow_lines(shorter);
        let before = reporting_lines(shorter);
        let now = reporting_lines(lines);
        assert forall|i: int|
            0 <= i < lines.len() && line_output(#[trigger] lines[i]) is Some implies now.contains(
            i,
        ) by {
            if i < last {
                assert(shorter[i] == lines[i]);
                let k = choose|k: int| 0 <= k < before.len() && before[k] == i;
                assert(now[k] == i);
            } else {
                assert(now[now.len() - 1] == i);
            }
        }
    }
}

/// The outputs that are primary.
pub open spec fn is_primary() -> spec_fn(OutputModel) -> bool {
    |output: OutputModel| output.primary
}

/// The position of the first output that is primary.
pub open spec fn primary_index(outputs: Seq<OutputModel>) -> Option<int> {
    first_where(outputs, 0, is_primary())
}

/// The position and the name of the first output that is primary, or
/// neither where none is.
pub fn current_primary_index_name(outputs: &[Output]) -> (found: (Option<usize>, Option<String>))
    ensures
        (match primary_index(outputs.deep_view()) {
            Some(at) => 0 <= at < outputs.len() && found.0 == Some(at as usize)
                && found.1.deep_view() == Some(outputs[at].name@),
            None => found.0 is None && found.1 is None,
        }),
        (match found.0 {
            Some(at) => at < outputs.len() && outputs[at as int].primary && forall|j: int|
                0 <= j < at ==> !outputs[j].primary,
            None => forall|j: int| 0 <= j < outputs.len() ==> !outputs[j].primary,
        }),
{
    let mut i: usize = 0;
    while i < outputs.len()
        invariant
            i <= outputs.len(),
            forall|j: int| 0 <= j < i ==> !outputs[j].primary,
        decreases outputs.len() - i,
    {
        if outputs[i].primary {
            proof {
                lemma_first_where_is(outputs.deep_view(), 0, is_primary(), i as int);
            }
            return (Some(i), Some(outputs[i].name.clone()));
        }
        i += 1;
    }
    proof {
        lemma_first_where_none(outputs.deep_view(), 0, is_primary());
    }
    (None, None)
}

/// The name of the first output that is primary.
pub open spec fn primary_name(outputs: Seq<OutputModel>) -> Option<Seq<char>> {
    match primary_index(outputs) {
        Some(at) => Some(outputs[at].name),
        None => None,
    }
}

/// Those of `outputs` that are connected, in their order.
pub open spec fn connected_among(outputs: Seq<OutputModel>) -> Seq<OutputModel>
    decreases outputs.len(),
{
    if outputs.len() == 0 {
        Seq::empty()
    } else {
        let before = connected_among(outputs.drop_last());
        if outputs.last().connected {
            before.push(outputs.last())
        } else {
            before
        }
    }
}

/// Whether every one of `outputs` is connected.
pub open spec fn all_connected(outputs: Seq<OutputModel>) -> bool {
    forall|k: int| 0 <= k < outputs.len() ==> (#[trigger] outputs[k]).connected
}

/// Nothing is left out of outputs that are all connected.
pub proof fn lemma_connected_are_kept(outputs: Seq<OutputModel>)
    requires
        all_connected(outputs),
    ensures
        connected_among(outputs) == outputs,
    decreases outputs.len(),
{
    if outputs.len() > 0 {
        lemma_connected_are_kept(outputs.drop_last());
        assert(outputs.drop_last().push(outputs.last()) =~= outputs);
    }
}

/// What is kept of any outputs is connected.
pub proof fn lemma_kept_are_connected(outputs: Seq<OutputModel>)
    ensures
        all_connected(connected_among(outputs)),
    decreases outputs.len(),
{
    if outputs.len() > 0 {
        lemma_kept_are_connected(outputs.drop_last());
    }
}

/// The connected outputs of one display query, in the order in which the
/// display server reported them. There is at least one, and none is
/// disconnected. Where several are marked primary the first of them counts
/// as the primary one.
#[derive(Debug, PartialEq, Eq)]
pub struct OutputSet {
    outputs: Vec<Output>,
}

impl View for OutputSet {
    type V = Seq<OutputModel>;

    closed spec fn view(&self) -> Seq<OutputModel> {
        self.outputs.deep_view()
    }
}

impl DeepView for OutputSet {
    type V = Seq<OutputModel>;

    open spec fn deep_view(&self) -> Seq<OutputModel> {
        self@
    }
}

impl OutputSet {
    #[verifier::type_invariant]
    spec fn holds_connected_outputs(&self) -> bool {
        self.outputs.len() > 0 && all_connected(self.outputs.deep_view())
    }

    /// The set of those of `outputs` that are connected, unless there are
    /// none.
    pub fn new(outputs: Vec<Output>) -> (set: Option<OutputSet>)
        ensures
            (match set {
                Some(set) => set@ == connected_among(outputs.deep_view()) && set@.len() > 0,
                None => connected_among(outputs.deep_view()).len() == 0,
            }),
    {
        let mut kept: Vec<Output> = Vec::new();
        let mut i: usize = 0;
        while i < outputs.len()
            invariant
                i <= outputs.len(),
                kept.deep_view() == connected_among(outputs.deep_view().take(i as int)),
            decreases outputs.len() - i,
        {
            proof {
                let upto = outputs.deep_view().take(i + 1);
                assert(upto.drop_last() =~= outputs.deep_view().take(i as int));
            }
            if outputs[i].connected {
                kept.push(
                    Output {
                        name: outputs[i].name.clone(),
                        primary: outputs[i].primary,
                        connected: true,
                    },
                );
            }
            i += 1;
        }
        proof {
            assert(outputs.deep_view().take(outputs.len() as int) =~= outputs.deep_view());
            lemma_kept_are_connected(outputs.deep_view());
        }
        if kept.len() > 0 {
            Some(OutputSet { outputs: kept })
        } else {
            None
        }
    }

    /// The outputs of the set.
    pub fn outputs(&self) -> (outputs: &Vec<Output>)
        ensures
            outputs.len() > 0,
            outputs.deep_view() == self@,
            all_connected(self@),
    {
        proof {
            use_type_invariant(self);
        }
        &self.outputs
    }

    /// The position and the name of the first output that is primary, or
    /// neither where none is.
    pub fn primary(&self) -> (found: (Option<usize>, Option<String>))
        ensures
            (match primary_index(self@) {
                Some(at) => 0 <= at < self@.len() && found.0 == Some(at as usize)
                    && found.1.deep_view() == primary_name(self@),
                None => found.0 is None && found.1 is None,
            }),
    {
        let outputs = self.outputs().as_slice();
        current_primary_index_name(outputs)
    }

    /// The number of outputs.
    pub fn len(&self) -> (count: usize)
        ensures
            count > 0,
            count == self@.len(),
    {
        self.outputs().len()
    }
}

/// The connected outputs that a display query reports, given the text of
/// its answer where it gave one. A query without an answer, and an answer
/// that names no connected output, both count as no outputs.
pub fn list_outputs(query: Option<&str>) -> (listed: Result<OutputSet, Failure>)
    ensures
        (match listed {
            Ok(set) => query.is_some() && set@ == outputs_in(lines_of(query.unwrap()@)),
            Err(failure) => failure == Failure::NoOutputs && (query.is_none() || outputs_in(
                lines_of(query.unwrap()@),
            ).len() == 0),
        }),
        listed.is_ok() ==> listed.unwrap()@.len() > 0,
{
    match query {
        Some(text) => {
            let outputs = parse_outputs(text);
            proof {
                lemma_connected_are_kept(outputs.deep_view());
            }
            match OutputSet::new(outputs) {
                Some(set) => Ok(set),
                None => Err(Failure::NoOutputs),
            }
        },
        None => Err(Failure::NoOutputs),
    }
}

} // verus!
