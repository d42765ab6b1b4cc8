//! What holds of the window manager whatever the mouse does.

use vstd::prelude::*;
use crate::window_manager::{
    is_permutation, lemma_raise_permutation, lemma_removed_wf, MouseInput, WindowView, WmView,
    MIN_HEIGHT, MIN_WIDTH,
};

verus! {

/// No drag makes a window narrower than 6 columns or lower than 4 rows,
/// however far the mouse has gone, and a well-formed window stays so.
pub proof fn lemma_drag_keeps_floors(w: WindowView, px: int, py: int)
    requires
        w.width >= MIN_WIDTH,
        w.height >= MIN_HEIGHT,
    ensures
        w.dragged(px, py).width >= MIN_WIDTH,
        w.dragged(px, py).height >= MIN_HEIGHT,
        w.wf() ==> w.dragged(px, py).wf(),
{
}

/// Adding a well-formed window keeps the manager well-formed: the focus
/// order stays a permutation of the windows.
pub proof fn lemma_added_wf(v: WmView, w: WindowView)
    requires
        v.wf(),
        w.wf(),
    ensures
        v.added(w).wf(),
        is_permutation(v.added(w).focus_order, v.windows.len() as int + 1),
{
    let a = v.added(w);
    assert forall|i: int, j: int| 0 <= i < j < a.focus_order.len() implies a.focus_order[i]
        != a.focus_order[j] by {
        if i > 0 {
            assert(v.focus_order[i - 1] != v.focus_order[j - 1]);
        }
    }
}

/// The topmost hit is a window that holds the position, and no window in
/// front of it does.
pub proof fn lemma_top_hit(v: WmView, px: int, py: int, upto: int)
    requires
        0 <= upto <= v.focus_order.len(),
    ensures
        -1 <= v.top_hit(px, py, upto) < upto,
        v.top_hit(px, py, upto) >= 0 ==> v.window_at(v.top_hit(px, py, upto)).contains(px, py),
        forall|q: int|
            v.top_hit(px, py, upto) < q < upto ==> !(#[trigger] v.window_at(q)).contains(px, py),
    decreases upto,
{
    if upto > 0 && !v.window_at(upto - 1).contains(px, py) {
        lemma_top_hit(v, px, py, upto - 1);
    }
}

/// After a press at `(px, py)` on a window that no window in front of it
/// covers at that position, that window has the focus, whatever else went on
/// in the frame.
pub proof fn lemma_press_focuses(v: WmView, input: MouseInput, px: i32, py: i32, pos: int)
    requires
        v.wf(),
        input.pressed == Some((px, py)),
        0 <= pos < v.focus_order.len(),
        v.window_at(pos).contains(px as int, py as int),
        forall|q: int|
            pos < q < v.focus_order.len() ==> !(#[trigger] v.window_at(q)).contains(
                px as int,
                py as int,
            ),
    ensures
        v.after_input(input).focus_order.len() == v.focus_order.len(),
        v.after_input(input).focus_order.last() == v.focus_order[pos],
        is_permutation(v.after_input(input).focus_order, v.windows.len() as int),
{
    lemma_top_hit(v, px as int, py as int, v.focus_order.len() as int);
    let hit = v.hit(px as int, py as int);
    if hit < pos {
        assert(!v.window_at(pos).contains(px as int, py as int));
    }
    assert(hit == pos);
    lemma_raise_permutation(v.focus_order, v.windows.len() as int, pos);
}

/// The first window marked for closing, if there is one, is a window of the
/// manager that is so marked.
pub proof fn lemma_first_closing(v: WmView, from: int)
    requires
        0 <= from,
    ensures
        v.first_closing(from) == -1 || (from <= v.first_closing(from) < v.focus_order.len()
            && v.window_at(v.first_closing(from)).close),
    decreases v.focus_order.len() - from,
{
    if from < v.focus_order.len() && !v.window_at(from).close {
        lemma_first_closing(v, from + 1);
    }
}

/// One render pass removes one window at most: where some window is marked
/// for closing, exactly one leaves, however many are marked; where none is,
/// nothing changes.
pub proof fn lemma_sweep_removes_one(v: WmView)
    requires
        v.wf(),
    ensures
        v.swept().wf(),
        v.first_closing(0) >= 0 ==> v.swept().windows.len() == v.windows.len() - 1,
        v.first_closing(0) < 0 ==> v.swept() == v,
{
    lemma_first_closing(v, 0);
    if v.first_closing(0) >= 0 {
        lemma_removed_wf(v, v.first_closing(0));
    }
}

/// Closing a window that does not have the focus leaves the focus with the
/// window that had it: the focus order names that window by another number
/// where the list of windows moved up, and by the same number elsewhere.
pub proof fn lemma_close_keeps_focus(v: WmView)
    requires
        v.wf(),
        0 <= v.first_closing(0) < v.focus_order.len() - 1,
    ensures
        v.swept().focus_order.len() == v.focus_order.len() - 1,
        v.swept().window_at(v.swept().focus_order.len() - 1) == v.window_at(
            v.focus_order.len() - 1,
        ),
{
    let pos = v.first_closing(0);
    let last = v.focus_order.len() - 1;
    let rest = v.focus_order.remove(pos);
    assert(rest[last - 1] == v.focus_order[last]);
    assert(v.focus_order[pos] != v.focus_order[last]);
}

} // verus!
