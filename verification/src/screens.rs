//! What each screen does with a key press. The terminal code reads a key
//! and performs the step that comes back; the choice itself is made
//! here.

use vstd::prelude::*;

verus! {

/// A key press, as the screens tell keys apart.
#[derive(Debug, Clone, Copy, PartialEq, Eq, Structural)]
pub enum Key {
    Char(char),
    Up,
    Down,
    Esc,
    Enter,
    /// Any other key.
    Other,
}

/// How the dashboard is left.
#[derive(Debug, Clone, Copy, PartialEq, Eq, Structural)]
pub enum DashboardAction {
    Quit,
    /// `s`: go to the Sources screen without leaving the program.
    GoToSources,
}

/// How the spending history screen is left.
#[derive(Debug, Clone, Copy, PartialEq, Eq, Structural)]
pub enum MonthlySpendAction {
    Quit,
    /// `v`: back to the dashboard.
    GoToDashboard,
}

/// How the recommendations screen is left.
#[derive(Debug, Clone, Copy, PartialEq, Eq, Structural)]
pub enum RecommendationsAction {
    Quit,
    /// `v`: back to the dashboard.
    GoToDashboard,
}

/// How the Sources screen is left.
#[derive(Debug, Clone, Copy, PartialEq, Eq, Structural)]
pub enum SourcesAction {
    Quit,
    /// `v`: to the dashboard.
    GoToDashboard,
}

/// The dashboard waits for one key: `s` goes to the Sources screen, any
/// other key quits.
pub fn dashboard_action(key: Key) -> (r: DashboardAction)
    ensures
        r == (if key == Key::Char('s') {
            DashboardAction::GoToSources
        } else {
            DashboardAction::Quit
        }),
{
    match key {
        Key::Char('s') => DashboardAction::GoToSources,
        _ => DashboardAction::Quit,
    }
}

/// The spending history screen waits for one key: `v` goes back to the
/// dashboard, any other key quits.
pub fn monthly_spend_action(key: Key) -> (r: MonthlySpendAction)
    ensures
        r == (if key == Key::Char('v') {
            MonthlySpendAction::GoToDashboard
        } else {
            MonthlySpendAction::Quit
        }),
{
    match key {
        Key::Char('v') => MonthlySpendAction::GoToDashboard,
        _ => MonthlySpendAction::Quit,
    }
}

/// The cursor of a list of `len` rows after the list may have shrunk:
/// kept on the last row at most (left alone on an empty list).
pub fn clamp_cursor(cursor: usize, len: usize) -> (r: usize)
    ensures
        len > 0 ==> r == (if cursor < len {
            cursor
        } else {
            (len - 1) as usize
        }),
        len == 0 ==> r == cursor,
{
    if len > 0 && cursor >= len {
        len - 1
    } else {
        cursor
    }
}

/// A key is a move down the list.
pub open spec fn is_down(key: Key) -> bool {
    key == Key::Down || key == Key::Char('j')
}

/// A key is a move up the list.
pub open spec fn is_up(key: Key) -> bool {
    key == Key::Up || key == Key::Char('k')
}

/// A key leaves the screen for good.
pub open spec fn is_quit(key: Key) -> bool {
    key == Key::Char('q') || key == Key::Esc
}

/// The row below `cursor` in a list of `len`, wrapping to the top.
pub open spec fn row_below(cursor: int, len: int) -> int {
    if cursor + 1 >= len { 0 } else { cursor + 1 }
}

/// The row above `cursor` in a list of `len`, wrapping to the bottom.
pub open spec fn row_above(cursor: int, len: int) -> int {
    if cursor <= 0 { len - 1 } else { cursor - 1 }
}

/// The cursor one row down a list of `len` rows, wrapping to the top.
pub fn cursor_down(cursor: usize, len: usize) -> (r: usize)
    requires
        cursor < len,
    ensures
        r == row_below(cursor as int, len as int),
{
    if cursor + 1 == len { 0 } else { cursor + 1 }
}

/// The cursor one row up a list of `len` rows, wrapping to the bottom.
pub fn cursor_up(cursor: usize, len: usize) -> (r: usize)
    requires
        cursor < len,
    ensures
        r == row_above(cursor as int, len as int),
{
    if cursor == 0 { len - 1 } else { cursor - 1 }
}

/// What a key does on the recommendations screen.
#[derive(Debug, Clone, Copy, PartialEq, Eq, Structural)]
pub enum RecommendationsStep {
    Leave(RecommendationsAction),
    /// Put the cursor on this row.
    MoveTo(usize),
    /// Cycle the status of the item on this row.
    Cycle(usize),
    /// Nothing happens.
    Stay,
}

/// The step a key makes on the recommendations screen, with the cursor
/// on row `cursor` (below `len`) of `len` checklist items: `q` or Esc
/// quits, `v` goes to the dashboard, up and down (or `k` and `j`) move
/// the cursor round the list, space cycles the item under it.
pub fn recommendations_step(key: Key, cursor: usize, len: usize) -> (r: RecommendationsStep)
    requires
        cursor < len || len == 0,
    ensures
        r == (if is_quit(key) {
            RecommendationsStep::Leave(RecommendationsAction::Quit)
        } else if key == Key::Char('v') {
            RecommendationsStep::Leave(RecommendationsAction::GoToDashboard)
        } else if is_down(key) && len > 0 {
            RecommendationsStep::MoveTo(row_below(cursor as int, len as int) as usize)
        } else if is_up(key) && len > 0 {
            RecommendationsStep::MoveTo(row_above(cursor as int, len as int) as usize)
        } else if key == Key::Char(' ') && cursor < len {
            RecommendationsStep::Cycle(cursor)
        } else {
            RecommendationsStep::Stay
        }),
{
    let down = key == Key::Down || key == Key::Char('j');
    let up = key == Key::Up || key == Key::Char('k');
    if key == Key::Char('q') || key == Key::Esc {
        RecommendationsStep::Leave(RecommendationsAction::Quit)
    } else if key == Key::Char('v') {
        RecommendationsStep::Leave(RecommendationsAction::GoToDashboard)
    } else if down && len > 0 {
        RecommendationsStep::MoveTo(cursor_down(cursor, len))
    } else if up && len > 0 {
        RecommendationsStep::MoveTo(cursor_up(cursor, len))
    } else if key == Key::Char(' ') && cursor < len {
        RecommendationsStep::Cycle(cursor)
    } else {
        RecommendationsStep::Stay
    }
}

/// What a key does on the Sources screen.
#[derive(Debug, Clone, Copy, PartialEq, Eq, Structural)]
pub enum SourcesStep {
    Leave(SourcesAction),
    /// Put the cursor on this row.
    MoveTo(usize),
    /// Add a source through the form.
    Add,
    /// Edit the source on this row.
    Edit(usize),
    /// Remove the source on this row, after a confirmation.
    Remove(usize),
    /// Connect accounts through Plaid.
    ConnectPlaid,
    /// Nothing happens.
    Stay,
}

/// The step a key makes on the Sources screen, with the cursor on row
/// `cursor` of `len` sources: `q` or Esc quits, `v` goes to the
/// dashboard, up and down (or `k` and `j`) move round the list, `a`
/// adds, `e` edits and `d` or `r` removes the source under the cursor
/// (when there is one), `p` connects through Plaid.
pub fn sources_step(key: Key, cursor: usize, len: usize) -> (r: SourcesStep)
    requires
        cursor < len || len == 0,
    ensures
        r == (if is_quit(key) {
            SourcesStep::Leave(SourcesAction::Quit)
        } else if key == Key::Char('v') {
            SourcesStep::Leave(SourcesAction::GoToDashboard)
        } else if is_down(key) && len > 0 {
            SourcesStep::MoveTo(row_below(cursor as int, len as int) as usize)
        } else if is_up(key) && len > 0 {
            SourcesStep::MoveTo(row_above(cursor as int, len as int) as usize)
        } else if key == Key::Char('a') {
            SourcesStep::Add
        } else if key == Key::Char('e') && cursor < len {
            SourcesStep::Edit(cursor)
        } else if (key == Key::Char('d') || key == Key::Char('r')) && cursor < len {
            SourcesStep::Remove(cursor)
        } else if key == Key::Char('p') {
            SourcesStep::ConnectPlaid
        } else {
            SourcesStep::Stay
        }),
{
    let down = key == Key::Down || key == Key::Char('j');
    let up = key == Key::Up || key == Key::Char('k');
    if key == Key::Char('q') || key == Key::Esc {
        SourcesStep::Leave(SourcesAction::Quit)
    } else if key == Key::Char('v') {
        SourcesStep::Leave(SourcesAction::GoToDashboard)
    } else if down && len > 0 {
        SourcesStep::MoveTo(cursor_down(cursor, len))
    } else if up && len > 0 {
        SourcesStep::MoveTo(cursor_up(cursor, len))
    } else if key == Key::Char('a') {
        SourcesStep::Add
    } else if key == Key::Char('e') && cursor < len {
        SourcesStep::Edit(cursor)
    } else if (key == Key::Char('d') || key == Key::Char('r')) && cursor < len {
        SourcesStep::Remove(cursor)
    } else if key == Key::Char('p') {
        SourcesStep::ConnectPlaid
    } else {
        SourcesStep::Stay
    }
}

/// What a key does in the list of accounts offered for tracking.
#[derive(Debug)]
pub enum SelectStep {
    /// Enter with at least one account ticked: these rows, in order.
    Confirm(Vec<usize>),
    /// Esc: nothing is tracked.
    Cancel,
    /// Put the cursor on this row.
    MoveTo(usize),
    /// Stay on the list (after a toggle, or a key that does nothing).
    Stay,
}

/// The rows of `s` that are ticked, in increasing order.
pub open spec fn ticked_rows(s: Seq<bool>) -> Seq<int>
    decreases s.len(),
{
    if s.len() == 0 {
        seq![]
    } else if s.last() {
        ticked_rows(s.drop_last()).push(s.len() - 1)
    } else {
        ticked_rows(s.drop_last())
    }
}

/// The rows `ticked_rows` gives are exactly the ticked rows, each once,
/// in increasing order.
pub proof fn lemma_ticked_rows(s: Seq<bool>)
    ensures
        forall|k: int| 0 <= k < ticked_rows(s).len() ==> 0 <= #[trigger] ticked_rows(s)[k] < s.len()
            && s[ticked_rows(s)[k]],
        forall|k: int, l: int| 0 <= k < l < ticked_rows(s).len() ==> #[trigger] ticked_rows(s)[k]
            < #[trigger] ticked_rows(s)[l],
        forall|i: int| 0 <= i < s.len() && s[i] ==> #[trigger] ticked_rows(s).contains(i),
    decreases s.len(),
{
    if s.len() > 0 {
        let p = s.drop_last();
        lemma_ticked_rows(p);
        assert forall|i: int| 0 <= i < s.len() && s[i] implies #[trigger] ticked_rows(s).contains(i) by {
            if i < s.len() - 1 {
                assert(p[i] == s[i]);
                assert(ticked_rows(p).contains(i));
                let k = choose|k: int| 0 <= k < ticked_rows(p).len() && ticked_rows(p)[k] == i;
                assert(ticked_rows(s)[k] == i);
            } else {
                assert(ticked_rows(s).last() == i);
            }
        }
        assert forall|k: int| 0 <= k < ticked_rows(s).len() implies 0 <= #[trigger] ticked_rows(
            s,
        )[k] < s.len() && s[ticked_rows(s)[k]] by {
            if k < ticked_rows(p).len() {
                assert(ticked_rows(s)[k] == ticked_rows(p)[k]);
                assert(p[ticked_rows(p)[k]] == s[ticked_rows(p)[k]]);
            }
        }
    }
}

/// No row is ticked exactly when `ticked_rows` is empty.
proof fn lemma_ticked_rows_empty(s: Seq<bool>)
    ensures
        (ticked_rows(s).len() == 0) == (forall|i: int| 0 <= i < s.len() ==> !s[i]),
{
    lemma_ticked_rows(s);
    if ticked_rows(s).len() > 0 {
        assert(s[ticked_rows(s)[0]]);
    } else {
        assert forall|i: int| 0 <= i < s.len() implies !s[i] by {
            if s[i] {
                assert(ticked_rows(s).contains(i));
            }
        }
    }
}

/// The step a key makes in the list of accounts offered for tracking,
/// with the cursor on row `cursor` and `selected` telling which rows are
/// ticked: space ticks or unticks the row under the cursor and nothing
/// else; Enter confirms the ticked rows in increasing order, but only
/// when at least one is ticked; Esc cancels; up and down (or `k` and
/// `j`) move round the list.
pub fn multi_select_step(key: Key, selected: &mut Vec<bool>, cursor: usize) -> (r: SelectStep)
    requires
        cursor < old(selected).len(),
    ensures
        key == Key::Char(' ') ==> r is Stay && final(selected)@ == old(selected)@.update(
            cursor as int,
            !old(selected)@[cursor as int],
        ),
        key != Key::Char(' ') ==> final(selected)@ == old(selected)@,
        key == Key::Enter ==> {
            if exists|i: int| 0 <= i < old(selected)@.len() && old(selected)@[i] {
                r matches SelectStep::Confirm(rows) && rows@.map_values(|i: usize| i as int)
                    == ticked_rows(old(selected)@)
            } else {
                r is Stay
            }
        },
        key == Key::Esc ==> r is Cancel,
        is_down(key) ==> (r matches SelectStep::MoveTo(c) && c == row_below(
            cursor as int,
            old(selected)@.len() as int,
        )),
        is_up(key) ==> (r matches SelectStep::MoveTo(c) && c == row_above(
            cursor as int,
            old(selected)@.len() as int,
        )),
        !(key == Key::Char(' ') || key == Key::Enter || key == Key::Esc || is_down(key) || is_up(
            key,
        )) ==> r is Stay,
{
    let len = selected.len();
    if key == Key::Char(' ') {
        let was = selected[cursor];
        selected.set(cursor, !was);
        SelectStep::Stay
    } else if key == Key::Enter {
        let ghost s = selected@;
        let mut rows: Vec<usize> = Vec::new();
        let mut i: usize = 0;
        while i < len
            invariant
                i <= len,
                len == s.len(),
                s == selected@,
                rows@.map_values(|j: usize| j as int) == ticked_rows(s.take(i as int)),
            decreases len - i,
        {
            assert(s.take(i + 1).drop_last() =~= s.take(i as int));
            let ghost before = rows@;
            if selected[i] {
                rows.push(i);
                assert(rows@.map_values(|j: usize| j as int) =~= before.map_values(
                    |j: usize| j as int,
                ).push(i as int));
            }
            i = i + 1;
        }
        assert(s.take(len as int) =~= s);
        proof {
            lemma_ticked_rows_empty(s);
        }
        if rows.len() > 0 {
            SelectStep::Confirm(rows)
        } else {
            SelectStep::Stay
        }
    } else if key == Key::Esc {
        SelectStep::Cancel
    } else if key == Key::Down || key == Key::Char('j') {
        SelectStep::MoveTo(cursor_down(cursor, len))
    } else if key == Key::Up || key == Key::Char('k') {
        SelectStep::MoveTo(cursor_up(cursor, len))
    } else {
        SelectStep::Stay
    }
}

/// A move always lands on a row of the list, and moving down then up
/// (or up then down) comes back to the starting row.
pub proof fn lemma_moves_stay_on_the_list(cursor: int, len: int)
    requires
        0 <= cursor < len,
    ensures
        0 <= row_below(cursor, len) < len,
        0 <= row_above(cursor, len) < len,
        row_above(row_below(cursor, len), len) == cursor,
        row_below(row_above(cursor, len), len) == cursor,
{
}

} // verus!
