use crate::pattern::captures;
use crate::pattern::regex_captures;
use crate::search::first_where;
use crate::search::lemma_first_where;
use crate::search::lemma_first_where_is;
use crate::search::lemma_first_where_none;
use crate::text::chars_of;
use crate::text::contains;
use crate::text::entry;
use crate::text::entry_at;
use crate::text::has_infix;
use crate::text::is_space;
use crate::text::leading_space;
use crate::text::trim_start;
use crate::text::lines;
use crate::text::lines_of;
use vstd::prelude::*;

verus! {

/// The text that marks the line on which a preference block opens.
pub const BLOCK_START: &'static str = "Primary Monitor Start";

/// The text that marks the line on which a preference block closes.
pub const BLOCK_END: &'static str = "Primary Monitor End";

/// The pattern of a line that declares an output: the word `output`, white
/// space, and the output's description between double quotes.
pub const DECLARATION: &'static str = r#"^\s*output\s+"([^"]+)""#;

/// The character that opens a comment.
pub const COMMENT: char = '#';

/// A preference block: the lines from `start`, which holds the opening
/// marker, up to but without `end`, the line after the one that holds the
/// closing marker.
#[derive(Clone, Copy, Debug, PartialEq, Eq)]
pub struct Block {
    pub start: usize,
    pub end: usize,
}

/// What a `Block` stands for.
pub ghost struct BlockModel {
    pub start: int,
    pub end: int,
}

impl View for Block {
    type V = BlockModel;

    open spec fn view(&self) -> BlockModel {
        BlockModel { start: self.start as int, end: self.end as int }
    }
}

impl DeepView for Block {
    type V = BlockModel;

    open spec fn deep_view(&self) -> BlockModel {
        self@
    }
}

/// The lines that hold `marker`.
pub open spec fn marked(marker: Seq<char>) -> spec_fn(Seq<char>) -> bool {
    |line: Seq<char>| has_infix(line, marker)
}

/// The blocks of `lines` that open at or after line `from`, in order. A
/// block opens on the first line that holds `start` and closes on the first
/// later line that holds `end`; the search for the next block begins on the
/// line after that. A block that never closes is none, and ends the search.
pub open spec fn blocks_from(lines: Seq<Seq<char>>, start: Seq<char>, end: Seq<char>, from: int) -> Seq<
    BlockModel,
>
    decreases lines.len() - from,
{
    match first_where(lines, from, marked(start)) {
        Some(opening) => match first_where(lines, opening + 1, marked(end)) {
            Some(closing) => {
                proof {
                    lemma_first_where(lines, from, marked(start));
                    lemma_first_where(lines, opening + 1, marked(end));
                }
                seq![BlockModel { start: opening, end: closing + 1 }] + blocks_from(
                    lines,
                    start,
                    end,
                    closing + 1,
                )
            },
            None => Seq::empty(),
        },
        None => Seq::empty(),
    }
}

/// Whether `line` is a comment: its first character that is not white space
/// is the comment character.
pub open spec fn is_comment(line: Seq<char>) -> bool {
    let rest = trim_start(line);
    rest.len() > 0 && rest[0] == COMMENT
}

/// Whether `line` declares an output: it is no comment and the declaration
/// pattern matches it.
pub open spec fn declares(line: Seq<char>) -> bool {
    !is_comment(line) && regex_captures(DECLARATION@, line) is Some
}

/// The lines that declare an output.
pub open spec fn declaring() -> spec_fn(Seq<char>) -> bool {
    |line: Seq<char>| declares(line)
}

/// The description that a match of the declaration pattern holds: its first
/// group.
pub open spec fn declared_in(found: Option<Seq<Option<Seq<char>>>>) -> Option<Seq<char>> {
    match found {
        Some(groups) => entry(groups, 1),
        None => None,
    }
}

/// The description that `line` declares.
pub open spec fn declared(line: Seq<char>) -> Option<Seq<char>> {
    declared_in(regex_captures(DECLARATION@, line))
}

/// The first line of `block` that declares an output.
pub open spec fn declaration_in(lines: Seq<Seq<char>>, block: BlockModel) -> Option<int> {
    first_where(lines.take(block.end), block.start, declaring())
}

/// The first line that declares an output in the first of `blocks` that
/// holds such a line.
pub open spec fn first_declaration(lines: Seq<Seq<char>>, blocks: Seq<BlockModel>) -> Option<int>
    decreases blocks.len(),
{
    if blocks.len() == 0 {
        None
    } else {
        match declaration_in(lines, blocks[0]) {
            Some(at) => Some(at),
            None => first_declaration(lines, blocks.drop_first()),
        }
    }
}

/// The preference that `lines` state between the markers `start` and `end`:
/// what the first declaring line of the first block with such a line
/// declares.
pub open spec fn preference_of(lines: Seq<Seq<char>>, start: Seq<char>, end: Seq<char>) -> Option<
    Seq<char>,
> {
    match first_declaration(lines, blocks_from(lines, start, end, 0)) {
        Some(at) => declared(lines[at]),
        None => None,
    }
}

/// The first line at or after `from` that holds `marker`.
pub fn first_line_with(lines: &Vec<String>, marker: &str, from: usize) -> (found: Option<usize>)
    ensures
        found.is_some() ==> found.unwrap() < lines.len(),
        (match found {
            Some(at) => first_where(lines.deep_view(), from as int, marked(marker@)) == Some(
                at as int,
            ),
            None => first_where(lines.deep_view(), from as int, marked(marker@)) is None,
        }),
{
    let needle = chars_of(marker);
    let mut i: usize = from;
    while i < lines.len()
        invariant
            from <= i,
            needle@ == marker@,
            forall|j: int| from <= j < i && j < lines.len() ==> !has_infix(lines[j]@, marker@),
        decreases lines.len() - i,
    {
        let hay = chars_of(lines[i].as_str());
        if contains(hay.as_slice(), needle.as_slice()) {
            proof {
                lemma_first_where_is(lines.deep_view(), from as int, marked(marker@), i as int);
            }
            return Some(i);
        }
        i += 1;
    }
    proof {
        lemma_first_where_none(lines.deep_view(), from as int, marked(marker@));
    }
    None
}

/// The preference blocks of `lines`, in order.
pub fn find_blocks(lines: &Vec<String>, start: &str, end: &str) -> (blocks: Vec<Block>)
    ensures
        blocks.deep_view() == blocks_from(lines.deep_view(), start@, end@, 0),
{
    let mut blocks: Vec<Block> = Vec::new();
    let mut from: usize = 0;
    loop
        invariant
            from <= lines.len(),
            blocks_from(lines.deep_view(), start@, end@, 0) == blocks.deep_view() + blocks_from(
                lines.deep_view(),
                start@,
                end@,
                from as int,
            ),
        decreases lines.len() - from,
    {
        let opening = match first_line_with(lines, start, from) {
            Some(at) => at,
            None => {
                return blocks;
            },
        };
        let closing = match first_line_with(lines, end, opening + 1) {
            Some(at) => at,
            None => {
                return blocks;
            },
        };
        proof {
            lemma_first_where(lines.deep_view(), from as int, marked(start@));
            lemma_first_where(lines.deep_view(), opening + 1, marked(end@));
        }
        let block = Block { start: opening, end: closing + 1 };
        blocks.push(block);
        from = closing + 1;
    }
}

/// Whether `line` is a comment.
pub fn is_comment_line(line: &str) -> (comment: bool)
    ensures
        comment == is_comment(line@),
{
    let chars = chars_of(line);
    let at = leading_space(chars.as_slice());
    at < chars.len() && chars[at] == COMMENT
}

/// The description that a match of the declaration pattern holds.
pub fn declared_from_match(found: &Option<Vec<Option<String>>>) -> (value: Option<String>)
    ensures
        value.deep_view() == declared_in(found.deep_view()),
{
    match found {
        Some(groups) => match entry_at(groups, 1) {
            Some(value) => Some(value.clone()),
            None => None,
        },
        None => None,
    }
}

/// The first line of `block` that declares an output, with what it declares.
fn declaration_in_block(lines: &Vec<String>, block: Block) -> (found: Option<(usize, Option<String>)>)
    requires
        block.end <= lines.len(),
    ensures
        (match found {
            Some((at, value)) => declaration_in(lines.deep_view(), block@) == Some(at as int)
                && at < lines.len() && value.deep_view() == declared(lines[at as int]@),
            None => declaration_in(lines.deep_view(), block@) is None,
        }),
{
    let ghost within = lines.deep_view().take(block.end as int);
    let mut i: usize = block.start;
    while i < block.end
        invariant
            block.start <= i,
            block.end <= lines.len(),
            within == lines.deep_view().take(block.end as int),
            forall|j: int| block.start <= j < i && j < block.end ==> !declares(within[j]),
        decreases block.end - i,
    {
        let line = lines[i].as_str();
        if !is_comment_line(line) {
            let found = captures(DECLARATION, line);
            if found.is_some() {
                proof {
                    lemma_first_where_is(within, block.start as int, declaring(), i as int);
                }
                return Some((i, declared_from_match(&found)));
            }
        }
        i += 1;
    }
    proof {
        lemma_first_where_none(within, block.start as int, declaring());
    }
    None
}

/// No block is found from line `from` on where no line at or after it
/// holds the opening marker.
pub proof fn lemma_no_block_opens(lines: Seq<Seq<char>>, start: Seq<char>, end: Seq<char>, from: int)
    requires
        0 <= from,
        forall|j: int| from <= j < lines.len() ==> !has_infix(lines[j], start),
    ensures
        blocks_from(lines, start, end, from) == Seq::<BlockModel>::empty(),
{
    lemma_first_where_none(lines, from, marked(start));
}

/// A block that opens and never closes is no block, and nothing after it is
/// one either: the search ends there.
pub proof fn lemma_block_never_closes(
    lines: Seq<Seq<char>>,
    start: Seq<char>,
    end: Seq<char>,
    from: int,
    opening: int,
)
    requires
        0 <= from <= opening < lines.len(),
        has_infix(lines[opening], start),
        forall|j: int| from <= j < opening ==> !has_infix(lines[j], start),
        forall|j: int| opening < j < lines.len() ==> !has_infix(lines[j], end),
    ensures
        blocks_from(lines, start, end, from) == Seq::<BlockModel>::empty(),
{
    lemma_first_where_is(lines, from, marked(start), opening);
    lemma_first_where_none(lines, opening + 1, marked(end));
}

/// The first block from line `from` on opens on the first line that holds
/// the opening marker and closes on the first later line that holds the
/// closing one; the blocks after it are those found from the line after
/// that.
pub proof fn lemma_block_found(
    lines: Seq<Seq<char>>,
    start: Seq<char>,
    end: Seq<char>,
    from: int,
    opening: int,
    closing: int,
)
    requires
        0 <= from <= opening < closing < lines.len(),
        has_infix(lines[opening], start),
        forall|j: int| from <= j < opening ==> !has_infix(lines[j], start),
        has_infix(lines[closing], end),
        forall|j: int| opening < j < closing ==> !has_infix(lines[j], end),
    ensures
        blocks_from(lines, start, end, from) == seq![
            BlockModel { start: opening, end: closing + 1 },
        ] + blocks_from(lines, start, end, closing + 1),
{
    lemma_first_where_is(lines, from, marked(start), opening);
    lemma_first_where_is(lines, opening + 1, marked(end), closing);
}

/// The first line of a block that declares an output is the one before
/// which no line of the block declares one.
pub proof fn lemma_declaration_found(lines: Seq<Seq<char>>, block: BlockModel, at: int)
    requires
        0 <= block.start <= at < block.end <= lines.len(),
        declares(lines[at]),
        forall|j: int| block.start <= j < at ==> !declares(lines[j]),
    ensures
        declaration_in(lines, block) == Some(at),
{
    let within = lines.take(block.end);
    assert forall|j: int| block.start <= j < at implies !declaring()(within[j]) by {
        assert(within[j] == lines[j]);
    }
    assert(within[at] == lines[at]);
    lemma_first_where_is(within, block.start, declaring(), at);
}

/// Whether `blocks` lie within the first `count` lines one after the other:
/// each holds a line at least, and each begins where the one before it has
/// ended, or later.
pub open spec fn blocks_in_order(blocks: Seq<BlockModel>, count: int) -> bool {
    &&& forall|b: int|
        0 <= b < blocks.len() ==> 0 <= (#[trigger] blocks[b]).start < blocks[b].end <= count
    &&& forall|a: int, b: int|
        0 <= a < b < blocks.len() ==> (#[trigger] blocks[a]).end <= (#[trigger] blocks[b]).start
}

/// Whether line `at` lies in one of `blocks`.
pub open spec fn in_a_block(blocks: Seq<BlockModel>, at: int) -> bool {
    exists|b: int| 0 <= b < blocks.len() && (#[trigger] blocks[b]).start <= at < blocks[b].end
}

/// The blocks that `blocks_from` finds lie within the lines one after the
/// other, none before line `from`. Each opens on a line that holds the
/// opening marker and closes on a later line that holds the closing one.
pub proof fn lemma_blocks_in_order(lines: Seq<Seq<char>>, start: Seq<char>, end: Seq<char>, from: int)
    requires
        0 <= from,
    ensures
        blocks_in_order(blocks_from(lines, start, end, from), lines.len() as int),
        (forall|b: int|
            0 <= b < blocks_from(lines, start, end, from).len() ==> {
                let block = #[trigger] blocks_from(lines, start, end, from)[b];
                &&& from <= block.start
                &&& block.start + 2 <= block.end
                &&& has_infix(lines[block.start], start)
                &&& has_infix(lines[block.end - 1], end)
            }),
    decreases lines.len() - from,
{
    lemma_first_where(lines, from, marked(start));
    match first_where(lines, from, marked(start)) {
        Some(opening) => {
            lemma_first_where(lines, opening + 1, marked(end));
            match first_where(lines, opening + 1, marked(end)) {
                Some(closing) => {
                    lemma_blocks_in_order(lines, start, end, closing + 1);
                },
                None => {},
            }
        },
        None => {},
    }
}

/// The line that `first_declaration` finds declares an output, lies in one
/// of the blocks, and is the first line of the text to do both. It finds
/// none only where no line in any of the blocks declares an output.
pub proof fn lemma_first_declaration(lines: Seq<Seq<char>>, blocks: Seq<BlockModel>)
    requires
        blocks_in_order(blocks, lines.len() as int),
    ensures
        (match first_declaration(lines, blocks) {
            Some(at) => {
                &&& 0 <= at < lines.len()
                &&& in_a_block(blocks, at)
                &&& declares(lines[at])
                &&& forall|j: int| 0 <= j < at && in_a_block(blocks, j) ==> !declares(lines[j])
            },
            None => forall|j: int| 0 <= j < lines.len() && in_a_block(blocks, j) ==> !declares(lines[j]),
        }),
    decreases blocks.len(),
{
    if blocks.len() > 0 {
        let first = blocks[0];
        let rest = blocks.drop_first();
        let within = lines.take(first.end);
        lemma_first_where(within, first.start, declaring());
        assert forall|j: int| in_a_block(blocks, j) implies first.start <= j < first.end
            || in_a_block(rest, j) by {
            let b = choose|b: int|
                0 <= b < blocks.len() && (#[trigger] blocks[b]).start <= j < blocks[b].end;
            if b > 0 {
                assert(rest[b - 1] == blocks[b]);
            }
        }
        match declaration_in(lines, first) {
            Some(at) => {
                assert forall|j: int| 0 <= j < at && in_a_block(blocks, j) implies !declares(
                    lines[j],
                ) by {
                    if first.start <= j < first.end {
                        assert(within[j] == lines[j]);
                    }
                }
            },
            None => {
                lemma_first_declaration(lines, rest);
                assert forall|j: int|
                    0 <= j < lines.len() && first.start <= j < first.end implies !declares(
                    lines[j],
                ) by {
                    assert(within[j] == lines[j]);
                }
            },
        }
    }
}

/// The preference that a text states is what the first line declares that
/// lies in a block and declares an output; the text states none where no
/// line in any block declares one.
pub proof fn lemma_preference_is_first_declaration(
    lines: Seq<Seq<char>>,
    start: Seq<char>,
    end: Seq<char>,
)
    ensures
        ({
            let blocks = blocks_from(lines, start, end, 0);
            match first_declaration(lines, blocks) {
                Some(at) => {
                    &&& 0 <= at < lines.len()
                    &&& in_a_block(blocks, at)
                    &&& declares(lines[at])
                    &&& forall|j: int| 0 <= j < at && in_a_block(blocks, j) ==> !declares(lines[j])
                    &&& preference_of(lines, start, end) == declared(lines[at])
                },
                None => {
                    &&& forall|j: int|
                        0 <= j < lines.len() && in_a_block(blocks, j) ==> !declares(lines[j])
                    &&& preference_of(lines, start, end) is None
                },
            }
        }),
{
    lemma_blocks_in_order(lines, start, end, 0);
    lemma_first_declaration(lines, blocks_from(lines, start, end, 0));
}

/// A block in which no line declares an output is passed over: the
/// preference is looked for in the blocks after it.
pub proof fn lemma_block_without_declaration_is_passed_over(
    lines: Seq<Seq<char>>,
    blocks: Seq<BlockModel>,
)
    requires
        blocks.len() > 0,
        0 <= blocks[0].start <= blocks[0].end <= lines.len(),
        forall|j: int| blocks[0].start <= j < blocks[0].end ==> !declares(lines[j]),
    ensures
        first_declaration(lines, blocks) == first_declaration(lines, blocks.drop_first()),
{
    let within = lines.take(blocks[0].end);
    lemma_first_where_none(within, blocks[0].start, declaring());
}

/// A comment declares nothing, whatever stands in it.
pub proof fn lemma_comment_declares_nothing(line: Seq<char>)
    requires
        is_comment(line),
    ensures
        !declares(line),
{
}

/// A line is a comment once the comment character is put in front of it,
/// with or without white space before that character.
pub proof fn lemma_commented_out(indent: Seq<char>, line: Seq<char>)
    requires
        forall|i: int| 0 <= i < indent.len() ==> is_space(#[trigger] indent[i]),
    ensures
        is_comment(indent + seq![COMMENT] + line),
        !declares(indent + seq![COMMENT] + line),
    decreases indent.len(),
{
    let whole = indent + seq![COMMENT] + line;
    if indent.len() > 0 {
        lemma_commented_out(indent.drop_first(), line);
        assert(whole.drop_first() =~= indent.drop_first() + seq![COMMENT] + line);
    }
}

/// The preference that `content` states between the markers `start` and
/// `end`.
pub fn read_preferred(content: &str, start: &str, end: &str) -> (preferred: Option<String>)
    ensures
        preferred.deep_view() == preference_of(lines_of(content@), start@, end@),
{
    let all = lines(content);
    let blocks = find_blocks(&all, start, end);
    proof {
        lemma_blocks_in_order(all.deep_view(), start@, end@, 0);
    }
    let mut b: usize = 0;
    assert(blocks.deep_view().skip(0) =~= blocks.deep_view());
    while b < blocks.len()
        invariant
            b <= blocks.len(),
            all.deep_view() == lines_of(content@),
            blocks.deep_view() == blocks_from(all.deep_view(), start@, end@, 0),
            blocks_in_order(blocks.deep_view(), all.len() as int),
            first_declaration(all.deep_view(), blocks.deep_view()) == first_declaration(
                all.deep_view(),
                blocks.deep_view().skip(b as int),
            ),
        decreases blocks.len() - b,
    {
        let ghost rest = blocks.deep_view().skip(b as int);
        match declaration_in_block(&all, blocks[b]) {
            Some((_, value)) => {
                return value;
            },
            None => {},
        }
        assert(rest.drop_first() =~= blocks.deep_view().skip(b + 1));
        b += 1;
    }
    None
}

/// The preference that a configuration file states between the usual
/// markers; none where the file could not be read.
pub fn read_preferred_from_config(content: Option<&str>) -> (preferred: Option<String>)
    ensures
        (preferred.deep_view() == match content {
            Some(text) => preference_of(lines_of(text@), BLOCK_START@, BLOCK_END@),
            None => None,
        }),
{
    match content {
        Some(text) => read_preferred(text, BLOCK_START, BLOCK_END),
        None => None,
    }
}

} // verus!
