use vstd::prelude::*;

use crate::resources::ResourceLoc;
use crate::text::{decimal_text, joined, lemma_joined_step, push_decimal, same_text};

verus! {

/// Why a source file was given up.
#[derive(Debug, Clone, Copy, PartialEq, Eq, Structural)]
pub enum ErrorType {
    /// A number literal has the shape of a number but no value in its
    /// domain.
    InvalidNumError,
    /// The token at hand does not fit the rule being read.
    InvalidTokenError,
    /// The parser took a token other than the one it had just looked at.
    InternalError,
}

/// An error that ends the work on one source file.
#[derive(Debug)]
pub struct CompileError {
    pub error_type: ErrorType,
    pub info: String,
    pub loc: ResourceLoc,
    pub line_num: usize,
    pub line_index: usize,
}

/// What a [`CompileError`] holds, as plain values.
pub struct CompileErrorView {
    pub error_type: ErrorType,
    pub info: Seq<char>,
    pub loc: Seq<Seq<char>>,
    pub line_num: nat,
    pub line_index: nat,
}

impl View for CompileError {
    type V = CompileErrorView;

    open spec fn view(&self) -> CompileErrorView {
        CompileErrorView {
            error_type: self.error_type,
            info: self.info@,
            loc: self.loc@,
            line_num: self.line_num as nat,
            line_index: self.line_index as nat,
        }
    }
}

impl CompileErrorView {
    /// The report of the error: where it happened, in which file, and on
    /// the last line the column once more.
    pub open spec fn report(self) -> Seq<char> {
        "Exception occured at "@ + decimal_text(self.line_num) + ":"@ + decimal_text(
            self.line_index,
        ) + " in "@ + joined(self.loc, "::"@) + ":\n"@ + decimal_text(self.line_index)
    }
}

impl CompileError {
    /// An error of kind `error_type` met at line `line_num`, column
    /// `line_index` of the file at `loc`.
    pub fn new(
        error_type: ErrorType,
        loc: ResourceLoc,
        line_num: usize,
        line_index: usize,
        info: &str,
    ) -> (e: CompileError)
        ensures
            e@ == (CompileErrorView {
                error_type,
                info: info@,
                loc: loc@,
                line_num: line_num as nat,
                line_index: line_index as nat,
            }),
    {
        CompileError { error_type, info: String::from_str(info), loc, line_num, line_index }
    }

    /// The report of the error as text.
    pub fn to_string(&self) -> (s: String)
        ensures
            s@ == self@.report(),
    {
        let mut s = String::from_str("Exception occured at ");
        push_decimal(&mut s, self.line_num);
        s.append(":");
        push_decimal(&mut s, self.line_index);
        s.append(" in ");
        let place = self.loc.to_string();
        s.append(place.as_str());
        s.append(":\n");
        push_decimal(&mut s, self.line_index);
        s
    }
}

/// The number of slots in the argument row of a block.
pub const ROW_SLOTS: usize = 27;

/// A leaf value in the argument row of a block.
#[derive(Debug, Clone, PartialEq, Eq)]
pub enum ValueItem {
    /// A number, held as the text that stands for it in the document.
    Number(String),
    String(String),
    Varible(String),
}

impl ValueItem {
    /// The item as it stands in the document, without the braces and the
    /// slot around it.
    pub open spec fn json(&self) -> Seq<char> {
        match self {
            ValueItem::Number(n) => "\"item\":{\"id\":\"num\",\"data\":{\"name\":\""@ + n@
                + "\"}}"@,
            ValueItem::String(n) => "\"item\":{\"id\":\"txt\",\"data\":{\"name\":\""@ + n@
                + "\"}}"@,
            ValueItem::Varible(n) => "\"item\":{\"id\":\"var\",\"data\":{\"name\":\""@ + n@
                + "\",\"scope\":\"local\"}}"@,
        }
    }

    pub fn to_json(&self) -> (s: String)
        ensures
            s@ == self.json(),
    {
        match self {
            ValueItem::Number(n) => {
                let mut s = String::from_str("\"item\":{\"id\":\"num\",\"data\":{\"name\":\"");
                s.append(n.as_str());
                s.append("\"}}");
                s
            },
            ValueItem::String(n) => {
                let mut s = String::from_str("\"item\":{\"id\":\"txt\",\"data\":{\"name\":\"");
                s.append(n.as_str());
                s.append("\"}}");
                s
            },
            ValueItem::Varible(n) => {
                let mut s = String::from_str("\"item\":{\"id\":\"var\",\"data\":{\"name\":\"");
                s.append(n.as_str());
                s.append("\",\"scope\":\"local\"}}");
                s
            },
        }
    }
}

/// A named switch of a block, set to one of its options.
#[derive(Debug, Clone, PartialEq, Eq)]
pub struct TagItem {
    pub option: String,
    pub tag: String,
    pub action: String,
    pub block: String,
}

impl TagItem {
    /// The tag as it stands in the document, without the braces and the
    /// slot around it.
    pub open spec fn json(&self) -> Seq<char> {
        "\"item\":{\"id\":\"bl_tag\",\"data\":{\"option\":\""@ + self.option@ + "\",\"tag\":\""@
            + self.tag@ + "\",\"action\":\""@ + self.action@ + "\",\"block\":\""@ + self.block@
            + "\"}}"@
    }

    pub fn to_json(&self) -> (s: String)
        ensures
            s@ == self.json(),
    {
        let mut s = String::from_str("\"item\":{\"id\":\"bl_tag\",\"data\":{\"option\":\"");
        s.append(self.option.as_str());
        s.append("\",\"tag\":\"");
        s.append(self.tag.as_str());
        s.append("\",\"action\":\"");
        s.append(self.action.as_str());
        s.append("\",\"block\":\"");
        s.append(self.block.as_str());
        s.append("\"}}");
        s
    }
}

/// One entry of an argument row: an item and the slot it is put in.
pub struct SlotEntry {
    pub item: Seq<char>,
    pub slot: int,
}

/// The slot of the `i`-th value item: value items fill the row from the
/// left.
pub open spec fn value_slot(i: int) -> int {
    i
}

/// The slot of the `j`-th of `count` tags: tags fill the last `count` slots
/// of the row.
pub open spec fn tag_slot(count: int, j: int) -> int {
    ROW_SLOTS - count + j
}

/// The argument row of a block: its value items in order, then its tags in
/// order, each with its slot.
pub open spec fn row_entries(args: Seq<ValueItem>, tags: Seq<TagItem>) -> Seq<SlotEntry> {
    Seq::new(
        args.len() + tags.len(),
        |i: int|
            if i < args.len() {
                SlotEntry { item: args[i].json(), slot: value_slot(i) }
            } else {
                SlotEntry {
                    item: tags[i - args.len()].json(),
                    slot: tag_slot(tags.len() as int, i - args.len()),
                }
            },
    )
}

/// One entry as it stands in the document.
pub open spec fn entry_json(e: SlotEntry) -> Seq<char> {
    "{"@ + e.item + ",\"slot\":"@ + decimal_text(e.slot as nat) + "}"@
}

/// A whole argument row as it stands in the document.
pub open spec fn row_json(entries: Seq<SlotEntry>) -> Seq<char> {
    "{\"items\":["@ + joined(entries.map_values(|e: SlotEntry| entry_json(e)), ","@) + "]}"@
}

/// In a row that holds no more items than it has slots, the value items
/// stand in the slots `0`, `1`, ... and the tags in the last slots, up to
/// slot 26; the slots rise strictly along the row, so that no two entries
/// share a slot and every value item stands before every tag.
pub proof fn lemma_row_slots(args: Seq<ValueItem>, tags: Seq<TagItem>)
    requires
        args.len() + tags.len() <= ROW_SLOTS,
    ensures
        row_entries(args, tags).len() == args.len() + tags.len(),
        forall|i: int|
            0 <= i < args.len() ==> (#[trigger] row_entries(args, tags)[i]).slot == i
                && row_entries(args, tags)[i].item == args[i].json(),
        forall|j: int|
            0 <= j < tags.len() ==> (#[trigger] row_entries(args, tags)[args.len() + j]).slot
                == ROW_SLOTS - tags.len() + j && row_entries(args, tags)[args.len() + j].item
                == tags[j].json(),
        forall|a: int, b: int|
            0 <= a < b < args.len() + tags.len() ==> (#[trigger] row_entries(args, tags)[a]).slot
                < (#[trigger] row_entries(args, tags)[b]).slot,
        forall|a: int|
            0 <= a < args.len() + tags.len() ==> 0 <= (#[trigger] row_entries(
                args,
                tags,
            )[a]).slot < ROW_SLOTS,
{
}

/// Whether the block kind `block` names an action done to a set of actors.
pub open spec fn takes_target(block: Seq<char>) -> bool {
    block == "player_action"@ || block == "entity_action"@ || block == "if_player"@ || block
        == "if_entity"@
}

/// One block of a line.
#[derive(Debug, Clone, PartialEq, Eq)]
pub struct CodeBlock {
    pub id: String,
    pub block: String,
    pub args: Vec<ValueItem>,
    pub tags: Vec<TagItem>,
    pub target: Option<String>,
    pub action: String,
}

/// Appends the entry of the item `item` in the slot `slot` to `s`.
fn push_entry(s: &mut String, item: &str, slot: usize)
    ensures
        final(s)@ == old(s)@ + entry_json(SlotEntry { item: item@, slot: slot as int }),
{
    s.append("{");
    s.append(item);
    s.append(",\"slot\":");
    push_decimal(s, slot);
    s.append("}");
    assert(s@ =~= old(s)@ + entry_json(SlotEntry { item: item@, slot: slot as int }));
}

/// Appends the argument row of `args` and `tags` to `s`.
fn push_row(s: &mut String, args: &Vec<ValueItem>, tags: &Vec<TagItem>)
    requires
        args.len() + tags.len() <= ROW_SLOTS,
    ensures
        final(s)@ == old(s)@ + row_json(row_entries(args@, tags@)),
{
    let ghost start = s@;
    let ghost entries = row_entries(args@, tags@);
    let ghost texts = entries.map_values(|e: SlotEntry| entry_json(e));
    s.append("{\"items\":[");
    let mut i: usize = 0;
    assert(joined(texts.take(0), ","@) =~= Seq::<char>::empty());
    while i < args.len() + tags.len()
        invariant
            i <= args.len() + tags.len() <= ROW_SLOTS,
            entries == row_entries(args@, tags@),
            texts == entries.map_values(|e: SlotEntry| entry_json(e)),
            s@ == start + "{\"items\":["@ + joined(texts.take(i as int), ","@),
        decreases args.len() + tags.len() - i,
    {
        proof {
            lemma_joined_step(texts, ","@, i as int);
            assert(texts[i as int] == entry_json(entries[i as int]));
        }
        let ghost before = s@;
        if i > 0 {
            s.append(",");
        }
        if i < args.len() {
            let item = args[i].to_json();
            push_entry(s, item.as_str(), i);
        } else {
            let item = tags[i - args.len()].to_json();
            push_entry(s, item.as_str(), ROW_SLOTS - tags.len() + (i - args.len()));
        }
        proof {
            if i == 0 {
                assert(s@ =~= start + "{\"items\":["@ + texts[0]);
            } else {
                assert(s@ =~= start + "{\"items\":["@ + (joined(texts.take(i as int), ","@) + ","@
                    + texts[i as int]));
            }
        }
        i += 1;
    }
    s.append("]}");
    proof {
        assert(texts.take(args.len() + tags.len()) =~= texts);
        assert(s@ =~= start + row_json(entries));
    }
}

impl CodeBlock {
    /// A block can be written when its items fit into one row.
    pub open spec fn wf(&self) -> bool {
        self.args@.len() + self.tags@.len() <= ROW_SLOTS
    }

    /// The actors that the block acts on, where it names none itself.
    pub open spec fn target_text(&self) -> Seq<char> {
        match self.target {
            Some(t) => t@,
            None => "Selection"@,
        }
    }

    /// The block as it stands in the document.
    pub open spec fn json(&self) -> Seq<char> {
        "{\"id\":\""@ + self.id@ + "\",\"block\":\""@ + self.block@ + "\",\"args\":"@ + row_json(
            row_entries(self.args@, self.tags@),
        ) + ",\"action\":\""@ + self.action@ + if takes_target(self.block@) {
            "\",\"target\":\""@ + self.target_text() + "\"}"@
        } else {
            "\"}"@
        }
    }

    /// Whether the items of the block fit into one row.
    pub fn is_wf(&self) -> (r: bool)
        ensures
            r == self.wf(),
    {
        self.args.len() <= ROW_SLOTS && self.tags.len() <= ROW_SLOTS - self.args.len()
    }

    pub fn to_json(&self) -> (s: String)
        requires
            self.wf(),
        ensures
            s@ == self.json(),
    {
        let mut s = String::from_str("{\"id\":\"");
        s.append(self.id.as_str());
        s.append("\",\"block\":\"");
        s.append(self.block.as_str());
        s.append("\",\"args\":");
        push_row(&mut s, &self.args, &self.tags);
        s.append(",\"action\":\"");
        s.append(self.action.as_str());
        let kind = self.block.as_str();
        if same_text(kind, "player_action") || same_text(kind, "entity_action") || same_text(
            kind,
            "if_player",
        ) || same_text(kind, "if_entity") {
            s.append("\",\"target\":\"");
            match &self.target {
                Some(t) => {
                    s.append(t.as_str());
                },
                None => {
                    s.append("Selection");
                },
            }
            s.append("\"}");
            assert(s@ =~= self.json());
        } else {
            s.append("\"}");
            assert(s@ =~= self.json());
        }
        s
    }
}

/// The blocks `blocks[0]`, `blocks[1]`, ... as they follow the head of a
/// line: each with a comma before it.
pub open spec fn blocks_json(blocks: Seq<CodeBlock>) -> Seq<char>
    decreases blocks.len(),
{
    if blocks.len() == 0 {
        Seq::empty()
    } else {
        blocks_json(blocks.drop_last()) + ","@ + blocks.last().json()
    }
}

/// Whether each of `blocks` can be written.
pub open spec fn blocks_wf(blocks: Seq<CodeBlock>) -> bool {
    forall|i: int| 0 <= i < blocks.len() ==> (#[trigger] blocks[i]).wf()
}

fn check_blocks(blocks: &Vec<CodeBlock>) -> (r: bool)
    ensures
        r == blocks_wf(blocks@),
{
    let mut i: usize = 0;
    while i < blocks.len()
        invariant
            i <= blocks.len(),
            forall|k: int| 0 <= k < i ==> (#[trigger] blocks@[k]).wf(),
        decreases blocks.len() - i,
    {
        if !blocks[i].is_wf() {
            return false;
        }
        i += 1;
    }
    true
}

fn push_blocks(s: &mut String, blocks: &Vec<CodeBlock>)
    requires
        blocks_wf(blocks@),
    ensures
        final(s)@ == old(s)@ + blocks_json(blocks@),
{
    let ghost start = s@;
    let mut i: usize = 0;
    assert(s@ =~= start + blocks_json(blocks@.take(0)));
    while i < blocks.len()
        invariant
            i <= blocks.len(),
            blocks_wf(blocks@),
            s@ == start + blocks_json(blocks@.take(i as int)),
        decreases blocks.len() - i,
    {
        s.append(",");
        let text = blocks[i].to_json();
        s.append(text.as_str());
        proof {
            let longer = blocks@.take(i + 1);
            assert(longer.drop_last() =~= blocks@.take(i as int));
            assert(longer.last() == blocks@[i as int]);
            assert(s@ =~= start + blocks_json(longer));
        }
        i += 1;
    }
    assert(blocks@.take(blocks.len() as int) =~= blocks@);
}

/// A line that starts with an event: the blocks run when the event
/// happens.
#[derive(Debug, Clone, PartialEq, Eq)]
pub struct EventLine {
    pub blocks: Vec<CodeBlock>,
    pub event: String,
}

impl EventLine {
    /// A line can be written when each of its blocks can.
    pub open spec fn wf(&self) -> bool {
        blocks_wf(self.blocks@)
    }

    /// The line as it stands in the document: the event block, which has
    /// no items, then the blocks of the body.
    pub open spec fn json(&self) -> Seq<char> {
        "{\"id\":\"block\",\"block\":\"event\",\"args\":{\"items\":[]},\"action\":\""@
            + self.event@ + "\"}"@ + blocks_json(self.blocks@)
    }

    /// Whether the line can be written.
    pub fn is_wf(&self) -> (r: bool)
        ensures
            r == self.wf(),
    {
        check_blocks(&self.blocks)
    }

    pub fn to_json(&self) -> (s: String)
        requires
            self.wf(),
        ensures
            s@ == self.json(),
    {
        let mut s = String::from_str(
            "{\"id\":\"block\",\"block\":\"event\",\"args\":{\"items\":[]},\"action\":\"",
        );
        s.append(self.event.as_str());
        s.append("\"}");
        push_blocks(&mut s, &self.blocks);
        s
    }
}

/// A line that starts with the definition of a function.
#[derive(Debug, Clone, PartialEq, Eq)]
pub struct FunctionLine {
    pub args: Vec<ValueItem>,
    pub blocks: Vec<CodeBlock>,
    pub tags: Vec<TagItem>,
    pub name: String,
}

impl FunctionLine {
    /// A line can be written when the parameters and tags of the function
    /// fit into one row and each block of the body can be written.
    pub open spec fn wf(&self) -> bool {
        &&& self.args@.len() + self.tags@.len() <= ROW_SLOTS
        &&& blocks_wf(self.blocks@)
    }

    /// The line as it stands in the document: the function block, with one
    /// item for each parameter and one for each tag, then the blocks of the
    /// body.
    pub open spec fn json(&self) -> Seq<char> {
        "{\"id\":\"block\",\"block\":\"func\",\"args\":"@ + row_json(
            row_entries(self.args@, self.tags@),
        ) + ",\"data\":\""@ + self.name@ + "\"}"@ + blocks_json(self.blocks@)
    }

    /// Whether the line can be written.
    pub fn is_wf(&self) -> (r: bool)
        ensures
            r == self.wf(),
    {
        self.args.len() <= ROW_SLOTS && self.tags.len() <= ROW_SLOTS - self.args.len()
            && check_blocks(&self.blocks)
    }

    pub fn to_json(&self) -> (s: String)
        requires
            self.wf(),
        ensures
            s@ == self.json(),
    {
        let mut s = String::from_str("{\"id\":\"block\",\"block\":\"func\",\"args\":");
        push_row(&mut s, &self.args, &self.tags);
        s.append(",\"data\":\"");
        s.append(self.name.as_str());
        s.append("\"}");
        push_blocks(&mut s, &self.blocks);
        s
    }
}

} // verus!
