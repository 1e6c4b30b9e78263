//! The terminal-mode protocol: the operations that move the terminal between
//! the normal (cooked) mode and the menu mode, and the scripts of operations
//! for each transition.
use vstd::prelude::*;
use crate::text::concat_str;

verus! {

/// What the program has asked of the terminal: raw input, a visible cursor,
/// automatic line wrapping.
#[derive(Debug, Clone, Copy, PartialEq, Eq, Structural)]
pub struct TermMode {
    pub raw: bool,
    pub cursor_visible: bool,
    pub line_wrap: bool,
}

/// The mode a shell expects: cooked input, cursor shown, lines wrapped.
pub open spec fn normal_mode() -> TermMode {
    TermMode { raw: false, cursor_visible: true, line_wrap: true }
}

/// The mode the menu is shown in: raw input, cursor hidden, no wrapping.
pub open spec fn menu_mode() -> TermMode {
    TermMode { raw: true, cursor_visible: false, line_wrap: false }
}

/// One thing to do to the terminal.
#[derive(Debug, Clone, PartialEq, Eq)]
pub enum TermOp {
    EnableRaw,
    DisableRaw,
    HideCursor,
    ShowCursor,
    DisableLineWrap,
    EnableLineWrap,
    /// Clear the whole screen and move the cursor to the top left corner.
    ClearScreen,
    /// Write this text.
    Print(String),
    /// Block until one input event arrives.
    WaitForKey,
}

/// The mode after `op`.
pub open spec fn apply_op(m: TermMode, op: TermOp) -> TermMode {
    match op {
        TermOp::EnableRaw => TermMode { raw: true, ..m },
        TermOp::DisableRaw => TermMode { raw: false, ..m },
        TermOp::HideCursor => TermMode { cursor_visible: false, ..m },
        TermOp::ShowCursor => TermMode { cursor_visible: true, ..m },
        TermOp::DisableLineWrap => TermMode { line_wrap: false, ..m },
        TermOp::EnableLineWrap => TermMode { line_wrap: true, ..m },
        _ => m,
    }
}

/// The mode after the operations `ops`, in order.
pub open spec fn apply_ops(m: TermMode, ops: Seq<TermOp>) -> TermMode
    decreases ops.len(),
{
    if ops.len() == 0 {
        m
    } else {
        apply_ops(apply_op(m, ops[0]), ops.drop_first())
    }
}

/// Performing two scripts one after the other is performing their
/// concatenation.
pub proof fn lemma_apply_ops_concat(m: TermMode, a: Seq<TermOp>, b: Seq<TermOp>)
    ensures
        apply_ops(m, a + b) == apply_ops(apply_ops(m, a), b),
    decreases a.len(),
{
    if a.len() == 0 {
        assert(a + b =~= b);
    } else {
        assert((a + b).drop_first() =~= a.drop_first() + b);
        assert((a + b)[0] == a[0]);
        lemma_apply_ops_concat(apply_op(m, a[0]), a.drop_first(), b);
    }
}

/// Entering the menu mode.
pub open spec fn menu_mode_ops() -> Seq<TermOp> {
    seq![TermOp::EnableRaw, TermOp::HideCursor, TermOp::DisableLineWrap]
}

/// Leaving the menu for a child process or a prompt: a clean screen in the
/// normal mode.
pub open spec fn normal_mode_ops() -> Seq<TermOp> {
    seq![TermOp::ShowCursor, TermOp::EnableLineWrap, TermOp::ClearScreen, TermOp::DisableRaw]
}

/// Restoring the terminal on the way out.
pub open spec fn shutdown_ops() -> Seq<TermOp> {
    seq![TermOp::ShowCursor, TermOp::EnableLineWrap, TermOp::DisableRaw]
}

/// Showing `text` in the normal mode and waiting for one key, read in raw
/// mode, before going back to the normal mode.
pub open spec fn is_pause(ops: Seq<TermOp>, text: Seq<char>) -> bool {
    &&& ops.len() == 4
    &&& ops[0] matches TermOp::Print(s) && s@ == text
    &&& ops[1] == TermOp::EnableRaw
    &&& ops[2] == TermOp::WaitForKey
    &&& ops[3] == TermOp::DisableRaw
}

/// A blocking error prompt that shows `message`: leave the menu mode, show
/// the message and wait for a key, return to the menu mode.
pub open spec fn is_error_prompt(ops: Seq<TermOp>, message: Seq<char>) -> bool {
    &&& ops.len() == 11
    &&& ops.subrange(0, 4) == normal_mode_ops()
    &&& is_pause(ops.subrange(4, 8), error_text(message))
    &&& ops.subrange(8, 11) == menu_mode_ops()
}

/// The text of an error prompt.
pub open spec fn error_text(message: Seq<char>) -> Seq<char> {
    "Error: "@ + message + "\nPress any key to continue...\n"@
}

/// The text shown after a child process ends.
pub open spec fn continue_text() -> Seq<char> {
    "\nPress any key to continue...\n"@
}

/// The operations that put the terminal in the menu mode.
pub fn menu_mode_script() -> (r: Vec<TermOp>)
    ensures
        r@ == menu_mode_ops(),
        forall|m: TermMode| apply_ops(m, r@) == menu_mode(),
{
    let r = vec![TermOp::EnableRaw, TermOp::HideCursor, TermOp::DisableLineWrap];
    assert(r@ =~= menu_mode_ops());
    proof {
        assert forall|m: TermMode| apply_ops(m, r@) == menu_mode() by {
            reveal_with_fuel(apply_ops, 4);
        }
    }
    r
}

/// The operations that put the terminal in the normal mode on a clean
/// screen.
pub fn normal_mode_script() -> (r: Vec<TermOp>)
    ensures
        r@ == normal_mode_ops(),
        forall|m: TermMode| apply_ops(m, r@) == normal_mode(),
{
    let r = vec![TermOp::ShowCursor, TermOp::EnableLineWrap, TermOp::ClearScreen, TermOp::DisableRaw];
    assert(r@ =~= normal_mode_ops());
    proof {
        assert forall|m: TermMode| apply_ops(m, r@) == normal_mode() by {
            reveal_with_fuel(apply_ops, 5);
        }
    }
    r
}

/// The operations that leave the terminal usable, from whatever mode it is
/// in.
pub fn shutdown_script() -> (r: Vec<TermOp>)
    ensures
        r@ == shutdown_ops(),
        forall|m: TermMode| apply_ops(m, r@) == normal_mode(),
{
    let r = vec![TermOp::ShowCursor, TermOp::EnableLineWrap, TermOp::DisableRaw];
    assert(r@ =~= shutdown_ops());
    proof {
        assert forall|m: TermMode| apply_ops(m, r@) == normal_mode() by {
            lemma_shutdown_restores(m);
        }
    }
    r
}

/// Restoring the terminal on the way out leaves it in the normal mode,
/// whatever mode it was in.
pub proof fn lemma_shutdown_restores(m: TermMode)
    ensures
        apply_ops(m, shutdown_ops()) == normal_mode(),
{
    reveal_with_fuel(apply_ops, 4);
}

/// Appends a pause that shows `text` to `ops`; the mode is normal afterwards
/// when it was normal before.
pub fn push_pause(ops: &mut Vec<TermOp>, text: String)
    ensures
        final(ops)@.len() == old(ops)@.len() + 4,
        final(ops)@.subrange(0, old(ops)@.len() as int) == old(ops)@,
        is_pause(final(ops)@.subrange(old(ops)@.len() as int, final(ops)@.len() as int), text@),
        forall|m: TermMode| apply_ops(m, final(ops)@) == apply_ops(
            apply_ops(m, old(ops)@), final(ops)@.subrange(old(ops)@.len() as int, final(ops)@.len() as int)),
        forall|m: TermMode| m == normal_mode() ==> apply_ops(m, final(ops)@.subrange(
            old(ops)@.len() as int, final(ops)@.len() as int)) == normal_mode(),
{
    let ghost o = ops@;
    ops.push(TermOp::Print(text));
    ops.push(TermOp::EnableRaw);
    ops.push(TermOp::WaitForKey);
    ops.push(TermOp::DisableRaw);
    let ghost tail = ops@.subrange(o.len() as int, ops@.len() as int);
    assert(ops@ =~= o + tail);
    assert(ops@.subrange(0, o.len() as int) =~= o);
    proof {
        assert forall|m: TermMode| apply_ops(m, ops@) == apply_ops(apply_ops(m, o), tail) by {
            lemma_apply_ops_concat(m, o, tail);
        }
        reveal_with_fuel(apply_ops, 5);
    }
}

/// The blocking error prompt that shows `message`. It ends in the menu mode
/// whatever the mode before it.
pub fn error_prompt_script(message: &str) -> (r: Vec<TermOp>)
    ensures
        is_error_prompt(r@, message@),
        forall|m: TermMode| apply_ops(m, r@) == menu_mode(),
{
    let mut r = normal_mode_script();
    let t1 = concat_str("Error: ", message);
    let text = concat_str(t1.as_str(), "\nPress any key to continue...\n");
    push_pause(&mut r, text);
    let tail = menu_mode_script();
    let ghost head = r@;
    let mut tail = tail;
    r.append(&mut tail);
    proof {
        assert(r@.subrange(0, 8) =~= head);
        assert(head.subrange(0, 4) =~= normal_mode_ops());
        assert(r@.subrange(0, 4) =~= normal_mode_ops());
        assert(r@.subrange(4, 8) =~= head.subrange(4, 8));
        assert(r@.subrange(8, 11) =~= menu_mode_ops());
        assert forall|m: TermMode| apply_ops(m, r@) == menu_mode() by {
            lemma_apply_ops_concat(m, head, menu_mode_ops());
            assert(head + menu_mode_ops() =~= r@);
        }
    }
    r
}

} // verus!
