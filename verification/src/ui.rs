//! Texts of the heads-up display and the stacking of pickup popups.

use vstd::prelude::*;

use crate::text::{decimal, labelled_number};

verus! {

/// The floating number shown where damage was dealt: a minus sign and the
/// amount.
pub fn damage_text(damage: i32) -> (t: String)
    ensures
        t@ == "-"@ + decimal(damage as int),
{
    labelled_number("-", damage as i64)
}

/// The player's health as "current / maximum".
pub fn health_text(current: i32, max: i32) -> (t: String)
    ensures
        t@ == decimal(current as int) + " / "@ + decimal(max as int),
{
    let mut t = labelled_number("", current as i64);
    let rest = labelled_number(" / ", max as i64);
    t.append(rest.as_str());
    proof {
        reveal_strlit("");
        assert(t@ =~= decimal(current as int) + " / "@ + decimal(max as int));
    }
    t
}

/// The title line of the stats screen when no modifier is active.
pub fn no_modifiers_text() -> (t: &'static str)
    ensures
        t@ == "No modifiers active"@,
{
    "No modifiers active"
}

/// Which row the next pickup popup goes to. Rows count up while popups are
/// on screen and start over once none is left.
#[derive(Copy, Clone, Debug, PartialEq, Eq, Structural)]
pub struct RunePopupManager {
    pub next_slot: u32,
}

impl Default for RunePopupManager {
    fn default() -> (m: Self)
        ensures
            m.next_slot == 0,
    {
        RunePopupManager { next_slot: 0 }
    }
}

impl RunePopupManager {
    /// The row for a new popup; the next one goes one row further.
    pub fn claim_slot(&mut self) -> (slot: u32)
        requires
            old(self).next_slot < u32::MAX,
        ensures
            slot == old(self).next_slot,
            final(self).next_slot == old(self).next_slot + 1,
    {
        let slot = self.next_slot;
        self.next_slot = self.next_slot + 1;
        slot
    }

    /// Starts the rows over when no popup is left on screen.
    pub fn release_when_empty(&mut self, active_popups: usize)
        ensures
            final(self).next_slot == if active_popups == 0 {
                0
            } else {
                old(self).next_slot
            },
    {
        if active_popups == 0 {
            self.next_slot = 0;
        }
    }
}

/// What to do with the stats screen this frame.
#[derive(Copy, Clone, Debug, PartialEq, Eq, Structural)]
pub enum ScreenChange {
    Show,
    Hide,
    Keep,
}

/// The stats screen is shown while its key is held: it opens when the key
/// is held and no screen is up, and closes when the key is released while
/// one is up.
pub fn stats_screen_change(key_held: bool, screen_exists: bool) -> (c: ScreenChange)
    ensures
        c == if key_held && !screen_exists {
            ScreenChange::Show
        } else if !key_held && screen_exists {
            ScreenChange::Hide
        } else {
            ScreenChange::Keep
        },
{
    match (key_held, screen_exists) {
        (true, false) => ScreenChange::Show,
        (false, true) => ScreenChange::Hide,
        _ => ScreenChange::Keep,
    }
}

/// Popup `j` comes before popup `i` when it sits higher up (a smaller key),
/// or at the same height but earlier in the list.
pub open spec fn placed_before(keys: Seq<u32>, j: int, i: int) -> bool {
    keys[j] < keys[i] || (keys[j] == keys[i] && j < i)
}

/// How many of the first `upto` popups come before popup `i`.
pub open spec fn rank_among(keys: Seq<u32>, i: int, upto: int) -> nat
    decreases upto,
{
    if upto <= 0 {
        0
    } else {
        rank_among(keys, i, upto - 1) + if placed_before(keys, upto - 1, i) {
            1nat
        } else {
            0nat
        }
    }
}

/// The row each popup moves to when the popups close ranks: popups keep
/// their order from top to bottom (popups at the same height keep their
/// order in the list) and fill the rows from the first. `keys` are the
/// rows' starting heights, as keys that order as the heights do.
pub fn popup_rows(keys: &Vec<u32>) -> (rows: Vec<usize>)
    ensures
        rows@.len() == keys@.len(),
        forall|i: int| 0 <= i < keys@.len() ==> #[trigger] rows@[i] == rank_among(keys@, i, keys@.len() as int),
{
    let n = keys.len();
    let mut rows: Vec<usize> = Vec::new();
    let mut i: usize = 0;
    while i < n
        invariant
            n == keys@.len(),
            i <= n,
            rows@.len() == i,
            forall|x: int| 0 <= x < i ==> #[trigger] rows@[x] == rank_among(keys@, x, n as int),
        decreases n - i,
    {
        let mut count: usize = 0;
        let mut j: usize = 0;
        while j < n
            invariant
                n == keys@.len(),
                i < n,
                j <= n,
                count == rank_among(keys@, i as int, j as int),
                count <= j,
            decreases n - j,
        {
            if keys[j] < keys[i] || (keys[j] == keys[i] && j < i) {
                count = count + 1;
            }
            j = j + 1;
        }
        rows.push(count);
        i = i + 1;
    }
    rows
}

proof fn lemma_rank_below(keys: Seq<u32>, i: int, upto: int)
    requires
        0 <= upto <= keys.len(),
        0 <= i < keys.len(),
    ensures
        rank_among(keys, i, upto) + (if i < upto {
            1int
        } else {
            0int
        }) <= upto,
    decreases upto,
{
    if upto > 0 {
        lemma_rank_below(keys, i, upto - 1);
    }
}

proof fn lemma_rank_grows(keys: Seq<u32>, i: int, k: int, upto: int)
    requires
        0 <= upto <= keys.len(),
        0 <= i < keys.len(),
        0 <= k < keys.len(),
        placed_before(keys, i, k),
    ensures
        rank_among(keys, k, upto) >= rank_among(keys, i, upto) + (if i < upto {
            1int
        } else {
            0int
        }),
    decreases upto,
{
    if upto > 0 {
        lemma_rank_grows(keys, i, k, upto - 1);
    }
}

/// The popups fill rows `0` to `n - 1`, each row taken by exactly one
/// popup: no two popups get the same row, and every row is below `n`.
pub proof fn law_popup_rows_are_a_permutation(keys: Seq<u32>, i: int, k: int)
    requires
        0 <= i < keys.len(),
        0 <= k < keys.len(),
        i != k,
    ensures
        rank_among(keys, i, keys.len() as int) < keys.len(),
        rank_among(keys, i, keys.len() as int) != rank_among(keys, k, keys.len() as int),
{
    lemma_rank_below(keys, i, keys.len() as int);
    if placed_before(keys, i, k) {
        lemma_rank_grows(keys, i, k, keys.len() as int);
    } else {
        lemma_rank_grows(keys, k, i, keys.len() as int);
    }
}

} // verus!
