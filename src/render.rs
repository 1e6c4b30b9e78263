//! Drawing a menu as a box of text lines centred in the terminal.
use vstd::prelude::*;
use crate::menu::{Menu, MenuView};
use crate::text::{chars_of, string_from_chars};

verus! {

/// What a draw puts on a cleared screen: `lines[k]` goes to row `k`, starting
/// at `column`.
pub struct Frame {
    pub column: usize,
    pub lines: Vec<String>,
}

/// `n` copies of `c`.
pub open spec fn repeat(c: char, n: nat) -> Seq<char> {
    Seq::new(n, |_i: int| c)
}

/// Width inside the two border columns.
pub open spec fn interior(width: nat) -> nat {
    if width >= 2 {
        (width - 2) as nat
    } else {
        0
    }
}

/// First column of the box: the box is centred, and put at column 0 when
/// the terminal is narrower than the box.
pub open spec fn start_column(term_width: nat, width: nat) -> nat {
    if term_width >= width {
        ((term_width - width) / 2) as nat
    } else {
        0
    }
}

/// A horizontal border between the corners `l` and `r`.
pub open spec fn border_line(l: char, r: char, width: nat) -> Seq<char> {
    seq![l] + repeat('─', interior(width)) + seq![r]
}

/// The row of an item: its name centred between two vertical bars, heavy
/// for the selected row and light for the others.
pub open spec fn item_line(name: Seq<char>, width: nat, selected: bool) -> Seq<char> {
    let bar = if selected {
        '║'
    } else {
        '│'
    };
    let inner = interior(width);
    let gap: nat = if inner >= name.len() {
        (inner - name.len()) as nat
    } else {
        0
    };
    let left = gap / 2;
    seq![bar] + repeat(' ', left) + name + repeat(' ', (gap - left) as nat) + seq![bar]
}

/// Line `k` of the box of `m`: the top border, one row per item, the bottom
/// border.
pub open spec fn frame_line(m: MenuView, k: int) -> Seq<char> {
    if k == 0 {
        border_line('┌', '┐', m.layout_width)
    } else if k <= m.items.len() {
        item_line(m.items[k - 1].name, m.layout_width, m.selected == k - 1)
    } else {
        border_line('└', '┘', m.layout_width)
    }
}

fn push_repeat(dst: &mut Vec<char>, c: char, n: usize)
    ensures
        final(dst)@ == old(dst)@ + repeat(c, n as nat),
{
    let mut i: usize = 0;
    while i < n
        invariant
            i <= n,
            dst@ == old(dst)@ + repeat(c, i as nat),
        decreases n - i,
    {
        dst.push(c);
        i = i + 1;
        assert(dst@ =~= old(dst)@ + repeat(c, i as nat));
    }
}

fn border(l: char, r: char, width: usize) -> (s: String)
    ensures
        s@ == border_line(l, r, width as nat),
{
    let inner: usize = if width >= 2 {
        width - 2
    } else {
        0
    };
    let mut out: Vec<char> = Vec::new();
    out.push(l);
    push_repeat(&mut out, '─', inner);
    out.push(r);
    assert(out@ =~= border_line(l, r, width as nat));
    string_from_chars(out.as_slice())
}

// Name lengths count characters, not UTF-8 bytes, on purpose: padding is
// measured in terminal columns.
fn item_row(name: &str, width: usize, selected: bool) -> (s: String)
    ensures
        s@ == item_line(name@, width as nat, selected),
{
    let bar = if selected {
        '║'
    } else {
        '│'
    };
    let inner: usize = if width >= 2 {
        width - 2
    } else {
        0
    };
    let cs = chars_of(name);
    let gap: usize = if inner >= cs.len() {
        inner - cs.len()
    } else {
        0
    };
    let left = gap / 2;
    let mut out: Vec<char> = Vec::new();
    out.push(bar);
    push_repeat(&mut out, ' ', left);
    let mut i: usize = 0;
    let ghost pre = out@;
    while i < cs.len()
        invariant
            i <= cs@.len(),
            out@ == pre + cs@.subrange(0, i as int),
        decreases cs.len() - i,
    {
        out.push(cs[i]);
        i = i + 1;
        assert(out@ =~= pre + cs@.subrange(0, i as int));
    }
    assert(cs@.subrange(0, cs@.len() as int) =~= cs@);
    push_repeat(&mut out, ' ', gap - left);
    out.push(bar);
    assert(out@ =~= item_line(name@, width as nat, selected));
    string_from_chars(out.as_slice())
}

impl Menu {
    /// The box of this menu for a terminal `term_width` columns wide. The
    /// result depends on the menu and the width alone.
    pub fn render(&self, term_width: usize) -> (r: Frame)
        requires
            self@.wf(),
        ensures
            r.column == start_column(term_width as nat, self@.layout_width),
            r.lines@.len() == self@.items.len() + 2,
            forall|k: int| 0 <= k < r.lines@.len() ==> #[trigger] r.lines@[k]@ == frame_line(self@, k),
    {
        let width = self.layout_width();
        let column: usize = if term_width >= width {
            (term_width - width) / 2
        } else {
            0
        };
        let mut lines: Vec<String> = Vec::new();
        lines.push(border('┌', '┐', width));
        let n = self.len();
        let mut i: usize = 0;
        while i < n
            invariant
                i <= n == self@.items.len(),
                width == self@.layout_width,
                lines@.len() == i + 1,
                forall|k: int| 0 <= k < lines@.len() ==> #[trigger] lines@[k]@ == frame_line(self@, k),
            decreases n - i,
        {
            let it = self.item(i);
            let sel = i == self.selected_index();
            lines.push(item_row(it.name.as_str(), width, sel));
            i = i + 1;
        }
        lines.push(border('└', '┘', width));
        Frame { column, lines }
    }
}

} // verus!
