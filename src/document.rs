use crate::color::{from_display, from_display_spec, to_display, to_display_spec, ColorType, ColorValue, DisplayColor, ONE_BITS};
use vstd::prelude::*;
use vstd::string::StringExecFns;

verus! {

/// A named colour. Its identity is its position in its sequence; names may repeat.
#[derive(Debug)]
pub struct ColorBlock {
    pub name: String,
    pub color: ColorValue,
    pub kind: ColorType,
}

/// A named, ordered collection of colour blocks.
#[derive(Debug)]
pub struct Group {
    pub name: String,
    pub blocks: Vec<ColorBlock>,
}

/// All groups of a swatch file, in order, and the blocks outside any group.
#[derive(Debug)]
pub struct Document {
    pub groups: Vec<Group>,
    pub ungrouped: Vec<ColorBlock>,
}

pub ghost struct BlockView {
    pub name: Seq<char>,
    pub color: ColorValue,
    pub kind: ColorType,
}

pub ghost struct GroupView {
    pub name: Seq<char>,
    pub blocks: Seq<BlockView>,
}

pub ghost struct DocumentView {
    pub groups: Seq<GroupView>,
    pub ungrouped: Seq<BlockView>,
}

pub open spec fn blocks_view(v: Seq<ColorBlock>) -> Seq<BlockView> {
    v.map_values(|b: ColorBlock| b@)
}

impl View for ColorBlock {
    type V = BlockView;

    open spec fn view(&self) -> BlockView {
        BlockView { name: self.name@, color: self.color, kind: self.kind }
    }
}

impl View for Group {
    type V = GroupView;

    open spec fn view(&self) -> GroupView {
        GroupView { name: self.name@, blocks: blocks_view(self.blocks@) }
    }
}

impl View for Document {
    type V = DocumentView;

    open spec fn view(&self) -> DocumentView {
        DocumentView {
            groups: self.groups@.map_values(|g: Group| g@),
            ungrouped: blocks_view(self.ungrouped@),
        }
    }
}

/// The block that "Add New" creates: named `new`, white, of normal kind.
pub open spec fn default_block() -> BlockView {
    BlockView {
        name: seq!['n', 'e', 'w'],
        color: ColorValue::Rgb(ONE_BITS, ONE_BITS, ONE_BITS),
        kind: ColorType::Normal,
    }
}

/// Where a block sits: among the ungrouped blocks, or in a group.
#[derive(Clone, Copy, Debug, PartialEq, Eq, Structural)]
pub enum Slot {
    Ungrouped(usize),
    Grouped(usize, usize),
}

/// Which sequence a new block is appended to.
#[derive(Clone, Copy, Debug, PartialEq, Eq, Structural)]
pub enum Target {
    Ungrouped,
    Group(usize),
}

impl DocumentView {
    pub open spec fn has_slot(self, s: Slot) -> bool {
        match s {
            Slot::Ungrouped(i) => i < self.ungrouped.len(),
            Slot::Grouped(g, i) => g < self.groups.len() && i < self.groups[g as int].blocks.len(),
        }
    }

    pub open spec fn has_target(self, t: Target) -> bool {
        match t {
            Target::Ungrouped => true,
            Target::Group(g) => g < self.groups.len(),
        }
    }

    pub open spec fn block_at(self, s: Slot) -> BlockView {
        match s {
            Slot::Ungrouped(i) => self.ungrouped[i as int],
            Slot::Grouped(g, i) => self.groups[g as int].blocks[i as int],
        }
    }

    /// The document with the block at `s` replaced by `b`.
    pub open spec fn with_block(self, s: Slot, b: BlockView) -> DocumentView {
        match s {
            Slot::Ungrouped(i) => DocumentView { ungrouped: self.ungrouped.update(i as int, b), ..self },
            Slot::Grouped(g, i) => DocumentView {
                groups: self.groups.update(
                    g as int,
                    GroupView {
                        blocks: self.groups[g as int].blocks.update(i as int, b),
                        ..self.groups[g as int]
                    },
                ),
                ..self
            },
        }
    }

    /// The document with a default block appended to the target sequence.
    pub open spec fn with_new_block(self, t: Target) -> DocumentView {
        match t {
            Target::Ungrouped => DocumentView { ungrouped: self.ungrouped.push(default_block()), ..self },
            Target::Group(g) => DocumentView {
                groups: self.groups.update(
                    g as int,
                    GroupView {
                        blocks: self.groups[g as int].blocks.push(default_block()),
                        ..self.groups[g as int]
                    },
                ),
                ..self
            },
        }
    }
}

impl ColorBlock {
    pub fn new(name: String, color: ColorValue, kind: ColorType) -> (r: ColorBlock)
        ensures
            r@ == (BlockView { name: name@, color, kind }),
    {
        ColorBlock { name, color, kind }
    }

    /// The block that "Add New" creates.
    pub fn new_default() -> (r: ColorBlock)
        ensures
            r@ == default_block(),
    {
        proof {
            reveal_strlit("new");
        }
        let name = String::from_str("new");
        assert(name@ =~= seq!['n', 'e', 'w']);
        ColorBlock { name, color: ColorValue::Rgb(ONE_BITS, ONE_BITS, ONE_BITS), kind: ColorType::Normal }
    }
}

impl Group {
    pub fn new(name: String, blocks: Vec<ColorBlock>) -> (r: Group)
        ensures
            r@ == (GroupView { name: name@, blocks: blocks_view(blocks@) }),
    {
        Group { name, blocks }
    }
}

fn push_default(v: &mut Vec<ColorBlock>)
    ensures
        blocks_view(final(v)@) == blocks_view(old(v)@).push(default_block()),
{
    v.push(ColorBlock::new_default());
    assert(blocks_view(final(v)@) =~= blocks_view(old(v)@).push(default_block()));
}

/// A change to one field of a block.
enum Edit {
    Rename(String),
    Recolor(ColorValue),
}

pub open spec fn renamed(b: BlockView, name: Seq<char>) -> BlockView {
    BlockView { name, ..b }
}

pub open spec fn recolored(b: BlockView, color: ColorValue) -> BlockView {
    BlockView { color, ..b }
}

spec fn edited(b: BlockView, e: Edit) -> BlockView {
    match e {
        Edit::Rename(n) => renamed(b, n@),
        Edit::Recolor(c) => recolored(b, c),
    }
}

/// Applies `e` to block `i`, keeping everything else.
fn edit_in(v: &mut Vec<ColorBlock>, i: usize, e: Edit)
    requires
        i < old(v)@.len(),
    ensures
        blocks_view(final(v)@) == blocks_view(old(v)@).update(
            i as int,
            edited(blocks_view(old(v)@)[i as int], e),
        ),
{
    let ghost before = blocks_view(v@);
    let ghost e0 = e;
    let mut b = v.remove(i);
    match e {
        Edit::Rename(n) => {
            b.name = n;
        },
        Edit::Recolor(c) => {
            b.color = c;
        },
    }
    v.insert(i, b);
    assert(blocks_view(v@) =~= before.update(i as int, edited(before[i as int], e0)));
}

impl Document {
    /// An empty document: no groups, no ungrouped blocks.
    pub fn new() -> (r: Document)
        ensures
            r@.groups.len() == 0,
            r@.ungrouped.len() == 0,
    {
        let r = Document { groups: Vec::new(), ungrouped: Vec::new() };
        assert(r@.groups =~= Seq::<GroupView>::empty());
        r
    }

    /// Appends the default block to the ungrouped blocks or to a group.
    pub fn add_block(&mut self, target: Target)
        requires
            old(self)@.has_target(target),
        ensures
            final(self)@ == old(self)@.with_new_block(target),
    {
        match target {
            Target::Ungrouped => {
                push_default(&mut self.ungrouped);
                assert(self@ =~= old(self)@.with_new_block(target));
            },
            Target::Group(g) => {
                let mut grp = self.groups.remove(g);
                push_default(&mut grp.blocks);
                self.groups.insert(g, grp);
                assert(self@.groups =~= old(self)@.with_new_block(target).groups);
                assert(self@ =~= old(self)@.with_new_block(target));
            },
        }
    }

    fn edit(&mut self, slot: Slot, e: Edit)
        requires
            old(self)@.has_slot(slot),
        ensures
            final(self)@ == old(self)@.with_block(slot, edited(old(self)@.block_at(slot), e)),
    {
        match slot {
            Slot::Ungrouped(i) => {
                edit_in(&mut self.ungrouped, i, e);
                assert(self@ =~= old(self)@.with_block(slot, edited(old(self)@.block_at(slot), e)));
            },
            Slot::Grouped(g, i) => {
                let mut grp = self.groups.remove(g);
                edit_in(&mut grp.blocks, i, e);
                self.groups.insert(g, grp);
                let ghost target = old(self)@.with_block(slot, edited(old(self)@.block_at(slot), e));
                assert(self@.groups =~= target.groups);
                assert(self@ =~= target);
            },
        }
    }

    /// Renames the block at `slot`; its colour and kind stay.
    pub fn rename_block(&mut self, slot: Slot, name: String)
        requires
            old(self)@.has_slot(slot),
        ensures
            final(self)@ == old(self)@.with_block(slot, renamed(old(self)@.block_at(slot), name@)),
    {
        self.edit(slot, Edit::Rename(name));
    }

    /// Sets the block at `slot` to the colour picked in display form. The block
    /// becomes RGB, whatever model it had before; its name and kind stay.
    pub fn recolor_block(&mut self, slot: Slot, d: DisplayColor)
        requires
            old(self)@.has_slot(slot),
        ensures
            final(self)@ == old(self)@.with_block(
                slot,
                recolored(old(self)@.block_at(slot), from_display_spec(d)),
            ),
    {
        let c = from_display(d);
        self.edit(slot, Edit::Recolor(c));
    }

    /// The display colour of the block at `slot`, or `None` where its colour
    /// model cannot be shown; the block is not touched.
    pub fn display_color(&self, slot: Slot) -> (r: Option<DisplayColor>)
        requires
            self@.has_slot(slot),
        ensures
            r == to_display_spec(self@.block_at(slot).color),
    {
        match slot {
            Slot::Ungrouped(i) => to_display(&self.ungrouped[i].color),
            Slot::Grouped(g, i) => to_display(&self.groups[g].blocks[i].color),
        }
    }
}

/// Editing one block, whether renaming or recolouring, leaves every other block
/// as it was, whatever its colour model; and a block whose model is not RGB has
/// no display colour, so drawing it changes nothing.
pub proof fn law_edit_isolation(d: DocumentView, a: Slot, b: Slot, nb: BlockView)
    requires
        d.has_slot(a),
        d.has_slot(b),
        a != b,
    ensures
        d.with_block(a, nb).has_slot(b),
        d.with_block(a, nb).block_at(b) == d.block_at(b),
        !(d.block_at(b).color is Rgb) ==> to_display_spec(d.block_at(b).color) is None,
{
}

} // verus!
