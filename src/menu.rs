//! The menu model: the accepted actions of an entry file, the cursor over
//! them, and the width of the box they are drawn in.
use vstd::prelude::*;
use crate::item::{lemma_name_fits_line, parse_line, texts, ItemView, MenuItem};
use crate::text::chars_of;

verus! {

/// The actions that the lines `ls` describe, in order; malformed lines are
/// skipped.
pub open spec fn parse_lines(ls: Seq<Seq<char>>) -> Seq<ItemView>
    decreases ls.len(),
{
    if ls.len() == 0 {
        Seq::empty()
    } else {
        let prev = parse_lines(ls.drop_last());
        match parse_line(ls.last()) {
            Some(it) => prev.push(it),
            None => prev,
        }
    }
}

/// The box width an item of `name` needs: its length plus two border
/// columns. Length counts characters, not UTF-8 bytes, on purpose: the box
/// is sized by what the terminal shows.
pub open spec fn item_width(name: Seq<char>) -> nat {
    (name.len() + 2) as nat
}

/// The box width of a menu: the widest of its items, 0 when it has none.
pub open spec fn width_of(items: Seq<ItemView>) -> nat
    decreases items.len(),
{
    if items.len() == 0 {
        0
    } else {
        let prev = width_of(items.drop_last());
        let w = item_width(items.last().name);
        if prev >= w {
            prev
        } else {
            w
        }
    }
}

/// The mathematical content of a [`Menu`].
pub struct MenuView {
    pub items: Seq<ItemView>,
    pub selected: nat,
    pub layout_width: nat,
}

/// One menu level: its actions, the selected one, and the layout width.
pub struct Menu {
    items: Vec<MenuItem>,
    selected: usize,
    max_length: usize,
}

/// The views of a sequence of items.
pub open spec fn item_views(items: Seq<MenuItem>) -> Seq<ItemView> {
    items.map_values(|it: MenuItem| it@)
}

impl View for Menu {
    type V = MenuView;

    closed spec fn view(&self) -> MenuView {
        MenuView {
            items: item_views(self.items@),
            selected: self.selected as nat,
            layout_width: self.max_length as nat,
        }
    }
}

impl MenuView {
    /// The cursor stays on an item (or at 0 in an empty menu), and the width
    /// is that of the items.
    pub open spec fn wf(self) -> bool {
        &&& (self.selected < self.items.len() || (self.items.len() == 0 && self.selected == 0))
        &&& self.layout_width == width_of(self.items)
    }
}

impl Menu {
    /// An empty menu.
    pub fn new() -> (r: Menu)
        ensures
            r@.items == Seq::<ItemView>::empty(),
            r@.selected == 0,
            r@.layout_width == 0,
            r@.wf(),
    {
        let r = Menu { items: Vec::new(), selected: 0, max_length: 0 };
        assert(r@.items =~= Seq::<ItemView>::empty());
        r
    }

    /// The menu that the lines of an entry file describe, with the first
    /// item selected.
    pub fn from_lines(lines: &[String]) -> (r: Menu)
        ensures
            r@.items == parse_lines(texts(lines@)),
            r@.selected == 0,
            r@.wf(),
    {
        let mut menu = Menu::new();
        let mut i: usize = 0;
        while i < lines.len()
            invariant
                i <= lines@.len(),
                menu@.wf(),
                menu@.selected == 0,
                menu@.items == parse_lines(texts(lines@.subrange(0, i as int))),
            decreases lines.len() - i,
        {
            let parsed = MenuItem::from_csv_line(lines[i].as_str());
            proof {
                assert(texts(lines@.subrange(0, i + 1)).drop_last() =~= texts(
                    lines@.subrange(0, i as int),
                ));
                assert(texts(lines@.subrange(0, i + 1)).last() == lines@[i as int]@);
            }
            match parsed {
                Some(item) => {
                    proof {
                        lemma_name_fits_line(lines@[i as int]@);
                    }
                    let n = chars_of(item.name.as_str()).len();
                    let w: usize = n + 2;
                    assert(w == item_width(item@.name));
                    if w > menu.max_length {
                        menu.max_length = w;
                    }
                    let ghost before = menu.items@;
                    menu.items.push(item);
                    assert(item_views(menu.items@).drop_last() =~= item_views(before));
                    assert(item_views(menu.items@) =~= item_views(before).push(item@));
                },
                None => {},
            }
            i = i + 1;
        }
        assert(lines@.subrange(0, lines@.len() as int) =~= lines@);
        menu
    }

    /// Moves the cursor one item up; no-op on the first item.
    pub fn move_up(&mut self)
        requires
            old(self)@.wf(),
        ensures
            final(self)@.wf(),
            final(self)@.items == old(self)@.items,
            final(self)@.layout_width == old(self)@.layout_width,
            final(self)@.selected == if old(self)@.selected > 0 {
                (old(self)@.selected - 1) as nat
            } else {
                0
            },
    {
        if self.selected > 0 {
            self.selected = self.selected - 1;
        }
    }

    /// Moves the cursor one item down; no-op on the last item.
    pub fn move_down(&mut self)
        requires
            old(self)@.wf(),
        ensures
            final(self)@.wf(),
            final(self)@.items == old(self)@.items,
            final(self)@.layout_width == old(self)@.layout_width,
            final(self)@.selected == if old(self)@.selected + 1 < old(self)@.items.len() {
                old(self)@.selected + 1
            } else {
                old(self)@.selected
            },
    {
        if self.items.len() > 0 && self.selected < self.items.len() - 1 {
            self.selected = self.selected + 1;
        }
    }

    /// Number of items.
    pub fn len(&self) -> (r: usize)
        ensures
            r == self@.items.len(),
    {
        self.items.len()
    }

    /// Index of the selected item.
    pub fn selected_index(&self) -> (r: usize)
        ensures
            r == self@.selected,
    {
        self.selected
    }

    /// Width of the box the menu is drawn in.
    pub fn layout_width(&self) -> (r: usize)
        ensures
            r == self@.layout_width,
    {
        self.max_length
    }

    /// The item at `index`.
    pub fn item(&self, index: usize) -> (r: &MenuItem)
        requires
            index < self@.items.len(),
        ensures
            r@ == self@.items[index as int],
    {
        &self.items[index]
    }

    /// The selected item, if the menu has any.
    pub fn selected_item(&self) -> (r: Option<&MenuItem>)
        requires
            self@.wf(),
        ensures
            match r {
                Some(it) => self@.items.len() > 0 && it@ == self@.items[self@.selected as int],
                None => self@.items.len() == 0,
            },
    {
        if self.selected < self.items.len() {
            Some(&self.items[self.selected])
        } else {
            None
        }
    }
}


proof fn lemma_parse_lines_concat(a: Seq<Seq<char>>, b: Seq<Seq<char>>)
    ensures
        parse_lines(a + b) == parse_lines(a) + parse_lines(b),
    decreases b.len(),
{
    if b.len() == 0 {
        assert(a + b =~= a);
        assert(parse_lines(a) + parse_lines(b) =~= parse_lines(a));
    } else {
        assert((a + b).drop_last() =~= a + b.drop_last());
        assert((a + b).last() == b.last());
        lemma_parse_lines_concat(a, b.drop_last());
        match parse_line(b.last()) {
            Some(it) => {
                assert(parse_lines(a) + parse_lines(b.drop_last()).push(it) =~= (parse_lines(a)
                    + parse_lines(b.drop_last())).push(it));
            },
            None => {},
        }
    }
}

proof fn lemma_parse_lines_all_malformed(bad: Seq<Seq<char>>)
    requires
        forall|k: int| 0 <= k < bad.len() ==> parse_line(#[trigger] bad[k]) is None,
    ensures
        parse_lines(bad) == Seq::<ItemView>::empty(),
    decreases bad.len(),
{
    if bad.len() > 0 {
        assert(bad.last() == bad[bad.len() - 1]);
        lemma_parse_lines_all_malformed(bad.drop_last());
    }
}

/// Malformed lines anywhere in an entry file are ignored: removing them does
/// not change the actions it describes.
pub proof fn lemma_malformed_lines_ignored(
    before: Seq<Seq<char>>,
    bad: Seq<Seq<char>>,
    after: Seq<Seq<char>>,
)
    requires
        forall|k: int| 0 <= k < bad.len() ==> parse_line(#[trigger] bad[k]) is None,
    ensures
        parse_lines(before + bad + after) == parse_lines(before + after),
{
    lemma_parse_lines_concat(before + bad, after);
    lemma_parse_lines_concat(before, bad);
    lemma_parse_lines_concat(before, after);
    lemma_parse_lines_all_malformed(bad);
    assert(parse_lines(before) + Seq::<ItemView>::empty() =~= parse_lines(before));
}

/// Every well-formed line gives exactly one action, in the order of the
/// lines.
pub proof fn lemma_records_kept_in_order(ls: Seq<Seq<char>>)
    requires
        forall|k: int| 0 <= k < ls.len() ==> parse_line(#[trigger] ls[k]) is Some,
    ensures
        parse_lines(ls).len() == ls.len(),
        forall|k: int|
            0 <= k < ls.len() ==> Some(#[trigger] parse_lines(ls)[k]) == parse_line(ls[k]),
    decreases ls.len(),
{
    if ls.len() > 0 {
        let prev = ls.drop_last();
        assert forall|k: int| 0 <= k < prev.len() implies parse_line(#[trigger] prev[k]) is Some by {
            assert(prev[k] == ls[k]);
        }
        lemma_records_kept_in_order(prev);
        assert(ls.last() == ls[ls.len() - 1]);
        assert forall|k: int| 0 <= k < ls.len() implies Some(#[trigger] parse_lines(ls)[k])
            == parse_line(ls[k]) by {
            if k < ls.len() - 1 {
                assert(prev[k] == ls[k]);
            }
        }
    }
}

/// The layout width is at least the width of every item and, in a
/// non-empty menu, equal to the width of one of them.
pub proof fn lemma_layout_width_is_widest(items: Seq<ItemView>)
    ensures
        forall|k: int| 0 <= k < items.len() ==> width_of(items) >= item_width(#[trigger] items[k].name),
        items.len() > 0 ==> exists|k: int|
            0 <= k < items.len() && width_of(items) == item_width(#[trigger] items[k].name),
    decreases items.len(),
{
    if items.len() > 0 {
        let prev = items.drop_last();
        lemma_layout_width_is_widest(prev);
        assert forall|k: int| 0 <= k < items.len() implies width_of(items) >= item_width(
            #[trigger] items[k].name,
        ) by {
            if k < items.len() - 1 {
                assert(prev[k] == items[k]);
            }
        }
        if width_of(prev) >= item_width(items.last().name) && prev.len() > 0 {
            let k = choose|k: int| 0 <= k < prev.len() && width_of(prev) == item_width(#[trigger] prev[k].name);
            assert(prev[k] == items[k]);
        } else {
            assert(items[items.len() - 1] == items.last());
        }
    }
}

/// The layout width of an entry file is at least two more than the longest
/// accepted name, and malformed lines do not change it.
pub proof fn lemma_layout_width_bounds_names(
    before: Seq<Seq<char>>,
    bad: Seq<Seq<char>>,
    after: Seq<Seq<char>>,
)
    requires
        forall|k: int| 0 <= k < bad.len() ==> parse_line(#[trigger] bad[k]) is None,
    ensures
        width_of(parse_lines(before + bad + after)) == width_of(parse_lines(before + after)),
        forall|k: int|
            0 <= k < parse_lines(before + after).len() ==> width_of(parse_lines(before + after))
                >= #[trigger] parse_lines(before + after)[k].name.len() + 2,
{
    lemma_malformed_lines_ignored(before, bad, after);
    lemma_layout_width_is_widest(parse_lines(before + after));
}

} // verus!
