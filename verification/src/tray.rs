//! The icon in the status bar: what its menu asks for, and the pixels it is
//! drawn with.
//!
//! A program that sits in the background with no window of its own is
//! invisible without one: there is nothing to click, and no way to close it.

use vstd::prelude::*;

verus! {

/// What the menu asks the interface to do. The tray lives on its own thread,
/// so it can only send; the interface does the work.
#[derive(Debug, Clone, Copy, PartialEq, Eq, Structural)]
pub enum Command {
    Toggle,
    Position,
    Settings,
    Quit,
}

/// The icon's name in the theme, given only when there are no pixels to give.
///
/// A bar that is handed both prefers the name, and then draws whatever its
/// icon theme happens to hold — which, for a program installed into
/// `~/.local`, is often a stale copy or nothing at all.
pub fn icon_name(has_pixels: bool) -> (r: &'static str)
    ensures
        has_pixels ==> r@ == Seq::<char>::empty(),
        !has_pixels ==> r@ == "lyricslens"@,
{
    if has_pixels {
        proof {
            reveal_strlit("");
        }
        ""
    } else {
        "lyricslens"
    }
}

/// The pixels as the status bar protocol asks for them: ARGB32, most
/// significant byte first, from 8-bit RGBA. Every whole pixel is moved; a
/// trailing piece of one is left out.
pub fn argb(rgba: &[u8]) -> (out: Vec<u8>)
    ensures
        out@.len() == rgba@.len() / 4 * 4,
        forall|p: int|
            0 <= p < rgba@.len() / 4 ==> {
                &&& #[trigger] out@[4 * p] == rgba@[4 * p + 3]
                &&& out@[4 * p + 1] == rgba@[4 * p]
                &&& out@[4 * p + 2] == rgba@[4 * p + 1]
                &&& out@[4 * p + 3] == rgba@[4 * p + 2]
            },
{
    let mut out: Vec<u8> = Vec::new();
    let mut at: usize = 0;
    let ghost mut k: int = 0;
    while rgba.len() - at >= 4
        invariant
            at == 4 * k,
            0 <= k,
            at <= rgba@.len(),
            out@.len() == at,
            forall|p: int|
                0 <= p < k ==> {
                    &&& #[trigger] out@[4 * p] == rgba@[4 * p + 3]
                    &&& out@[4 * p + 1] == rgba@[4 * p]
                    &&& out@[4 * p + 2] == rgba@[4 * p + 1]
                    &&& out@[4 * p + 3] == rgba@[4 * p + 2]
                },
        decreases rgba@.len() - at,
    {
        let ghost before = out@;
        let (r, g, b, a) = (rgba[at], rgba[at + 1], rgba[at + 2], rgba[at + 3]);
        out.push(a);
        out.push(r);
        out.push(g);
        out.push(b);
        assert forall|p: int| 0 <= p < k + 1 implies {
            &&& #[trigger] out@[4 * p] == rgba@[4 * p + 3]
            &&& out@[4 * p + 1] == rgba@[4 * p]
            &&& out@[4 * p + 2] == rgba@[4 * p + 1]
            &&& out@[4 * p + 3] == rgba@[4 * p + 2]
        } by {
            if p < k {
                assert(out@[4 * p] == before[4 * p]);
                assert(out@[4 * p + 1] == before[4 * p + 1]);
                assert(out@[4 * p + 2] == before[4 * p + 2]);
                assert(out@[4 * p + 3] == before[4 * p + 3]);
            }
        }
        at = at + 4;
        proof {
            k = k + 1;
        }
    }
    assert(k == rgba@.len() / 4) by (nonlinear_arith)
        requires
            at == 4 * k,
            at <= rgba@.len(),
            rgba@.len() - at < 4,
    ;
    out
}

} // verus!
