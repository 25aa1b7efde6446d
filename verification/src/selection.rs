//! The highlighted and the selected row of the process table.
//!
//! Both are kept as names, not as positions: the snapshot is replaced as a
//! whole on every refresh, so a name is looked up again in the current rows
//! each time the cursor moves. A name that is no longer found is dropped at
//! that moment and not before.

use crate::process::ProcessMeta;
use vstd::prelude::*;

verus! {

/// The cursor (`highlighted`) and the pinned row (`selected`), by name.
#[derive(Debug, Clone, PartialEq, Eq)]
pub struct Selection {
    pub highlighted: Option<String>,
    pub selected: Option<String>,
}

/// How a row of the table is to be drawn.
#[derive(Debug, Copy, Clone, PartialEq, Eq, Structural)]
pub enum RowStyle {
    /// The pinned row: bold and set apart by colour.
    Selected,
    /// The row under the cursor: bold.
    Highlighted,
    /// Any other row.
    Plain,
}

/// The characters of an optional name.
pub open spec fn text(name: Option<String>) -> Option<Seq<char>> {
    match name {
        Some(s) => Some(s@),
        None => None,
    }
}

/// The names of the rows, top to bottom.
pub open spec fn row_names(rows: Seq<ProcessMeta>) -> Seq<Seq<char>> {
    rows.map_values(|m: ProcessMeta| m.name@)
}

/// The name directly below the topmost row named `h`, if there is such a
/// row and it is not the bottom one.
pub open spec fn after_first(names: Seq<Seq<char>>, h: Seq<char>) -> Option<Seq<char>>
    decreases names.len(),
{
    if names.len() == 0 {
        None
    } else if names.first() == h {
        if names.len() >= 2 {
            Some(names[1])
        } else {
            None
        }
    } else {
        after_first(names.drop_first(), h)
    }
}

/// The name directly above the bottommost row named `h`, if there is such a
/// row and it is not the top one.
pub open spec fn before_last(names: Seq<Seq<char>>, h: Seq<char>) -> Option<Seq<char>>
    decreases names.len(),
{
    if names.len() == 0 {
        None
    } else if names.last() == h {
        if names.len() >= 2 {
            Some(names[names.len() - 2])
        } else {
            None
        }
    } else {
        before_last(names.drop_last(), h)
    }
}

/// The cursor after a move up.
pub open spec fn moved_up(names: Seq<Seq<char>>, highlighted: Option<Seq<char>>) -> Option<
    Seq<char>,
> {
    match highlighted {
        None => None,
        Some(h) => before_last(names, h),
    }
}

/// The cursor after a move down.
pub open spec fn moved_down(names: Seq<Seq<char>>, highlighted: Option<Seq<char>>) -> Option<
    Seq<char>,
> {
    match highlighted {
        None => if names.len() > 0 {
            Some(names[0])
        } else {
            None
        },
        Some(h) => after_first(names, h),
    }
}

/// The pinned row after a confirm.
pub open spec fn confirmed(highlighted: Option<Seq<char>>, selected: Option<Seq<char>>) -> Option<
    Seq<char>,
> {
    match highlighted {
        None => selected,
        Some(h) => if selected == Some(h) {
            None
        } else {
            Some(h)
        },
    }
}

/// The style of the row named `name`. Where the cursor is on the pinned
/// row, the row is drawn as pinned.
pub open spec fn style_of(
    name: Seq<char>,
    highlighted: Option<Seq<char>>,
    selected: Option<Seq<char>>,
) -> RowStyle {
    if selected == Some(name) {
        RowStyle::Selected
    } else if highlighted == Some(name) {
        RowStyle::Highlighted
    } else {
        RowStyle::Plain
    }
}

/// The topmost row named `name`, if there is one.
pub open spec fn first_named(rows: Seq<ProcessMeta>, name: Seq<char>) -> Option<ProcessMeta>
    decreases rows.len(),
{
    if rows.len() == 0 {
        None
    } else if rows.first().name@ == name {
        Some(rows.first())
    } else {
        first_named(rows.drop_first(), name)
    }
}

/// Where `name` first occurs at row `i`, that row is the topmost so named.
pub proof fn lemma_first_named_at(rows: Seq<ProcessMeta>, name: Seq<char>, i: int)
    requires
        0 <= i < rows.len(),
        rows[i].name@ == name,
        forall|j: int| 0 <= j < i ==> rows[j].name@ != name,
    ensures
        first_named(rows, name) == Some(rows[i]),
    decreases rows.len(),
{
    if i > 0 {
        assert(rows[0].name@ != name);
        let rest = rows.drop_first();
        assert forall|j: int| 0 <= j < i - 1 implies rest[j].name@ != name by {
            assert(rest[j] == rows[j + 1]);
        }
        lemma_first_named_at(rest, name, i - 1);
    }
}

/// Where no row is named `name`, there is no topmost such row.
pub proof fn lemma_first_named_absent(rows: Seq<ProcessMeta>, name: Seq<char>)
    requires
        forall|j: int| 0 <= j < rows.len() ==> rows[j].name@ != name,
    ensures
        first_named(rows, name) is None,
    decreases rows.len(),
{
    if rows.len() > 0 {
        assert(rows[0].name@ != name);
        let rest = rows.drop_first();
        assert forall|j: int| 0 <= j < rest.len() implies rest[j].name@ != name by {
            assert(rest[j] == rows[j + 1]);
        }
        lemma_first_named_absent(rest, name);
    }
}

/// The topmost row named `name`.
pub fn find_row<'a>(rows: &'a Vec<ProcessMeta>, name: &String) -> (found: Option<&'a ProcessMeta>)
    ensures
        match found {
            Some(row) => first_named(rows@, name@) == Some(*row),
            None => first_named(rows@, name@) is None,
        },
{
    let mut i: usize = 0;
    while i < rows.len()
        invariant
            0 <= i <= rows@.len(),
            forall|j: int| 0 <= j < i ==> rows@[j].name@ != name@,
        decreases rows@.len() - i,
    {
        if rows[i].name == *name {
            proof {
                lemma_first_named_at(rows@, name@, i as int);
            }
            return Some(&rows[i]);
        }
        i = i + 1;
    }
    proof {
        lemma_first_named_absent(rows@, name@);
    }
    None
}

/// Where `h` first occurs at row `i`, a move down lands on row `i + 1`, or
/// on nothing if row `i` is the bottom one.
pub proof fn lemma_after_first_at(names: Seq<Seq<char>>, h: Seq<char>, i: int)
    requires
        0 <= i < names.len(),
        names[i] == h,
        forall|j: int| 0 <= j < i ==> names[j] != h,
    ensures
        after_first(names, h) == if i + 1 < names.len() {
            Some(names[i + 1])
        } else {
            None
        },
    decreases names.len(),
{
    if i > 0 {
        assert(names[0] != h);
        let rest = names.drop_first();
        assert forall|j: int| 0 <= j < i - 1 implies rest[j] != h by {
            assert(rest[j] == names[j + 1]);
        }
        lemma_after_first_at(rest, h, i - 1);
    }
}

/// Where `h` last occurs at row `i`, a move up lands on row `i - 1`, or on
/// nothing if row `i` is the top one.
pub proof fn lemma_before_last_at(names: Seq<Seq<char>>, h: Seq<char>, i: int)
    requires
        0 <= i < names.len(),
        names[i] == h,
        forall|j: int| i < j < names.len() ==> names[j] != h,
    ensures
        before_last(names, h) == if i > 0 {
            Some(names[i - 1])
        } else {
            None
        },
    decreases names.len(),
{
    if i < names.len() - 1 {
        assert(names[names.len() - 1] != h);
        lemma_before_last_at(names.drop_last(), h, i);
    }
}

/// A name that no row carries is dropped by the next move, up or down.
pub proof fn lemma_absent_name_resets(names: Seq<Seq<char>>, h: Seq<char>)
    requires
        !names.contains(h),
    ensures
        moved_up(names, Some(h)) == None::<Seq<char>>,
        moved_down(names, Some(h)) == None::<Seq<char>>,
    decreases names.len(),
{
    if names.len() > 0 {
        assert(names[0] != h);
        assert(names[names.len() - 1] != h);
        let tail = names.drop_first();
        let init = names.drop_last();
        assert forall|j: int| 0 <= j < tail.len() implies tail[j] != h by {
            assert(tail[j] == names[j + 1]);
        }
        assert forall|j: int| 0 <= j < init.len() implies init[j] != h by {
            assert(init[j] == names[j]);
        }
        lemma_absent_name_resets(tail, h);
        lemma_absent_name_resets(init, h);
    }
}

/// With no cursor set, a move up changes nothing, and a move down lands on
/// the top row, or on nothing where there are no rows.
pub proof fn lemma_moves_from_unset(names: Seq<Seq<char>>)
    ensures
        moved_up(names, None) == None::<Seq<char>>,
        names.len() > 0 ==> moved_down(names, None) == Some(names[0]),
        names.len() == 0 ==> moved_down(names, None) == None::<Seq<char>>,
{
}

/// Confirming twice on the same cursor pins its row and then releases it.
pub proof fn lemma_confirm_twice(h: Seq<char>, selected: Option<Seq<char>>)
    requires
        selected != Some(h),
    ensures
        confirmed(Some(h), selected) == Some(h),
        confirmed(Some(h), confirmed(Some(h), selected)) == None::<Seq<char>>,
{
}

/// The name of the row below the topmost row named `h`.
fn name_after(rows: &Vec<ProcessMeta>, h: &String) -> (next: Option<String>)
    ensures
        text(next) == after_first(row_names(rows@), h@),
{
    let ghost names = row_names(rows@);
    let mut i: usize = 0;
    while i < rows.len()
        invariant
            0 <= i <= rows@.len(),
            names == row_names(rows@),
            forall|j: int| 0 <= j < i ==> names[j] != h@,
        decreases rows@.len() - i,
    {
        if rows[i].name == *h {
            proof {
                lemma_after_first_at(names, h@, i as int);
            }
            if i + 1 < rows.len() {
                return Some(rows[i + 1].name.clone());
            } else {
                return None;
            }
        }
        i = i + 1;
    }
    proof {
        lemma_absent_name_resets(names, h@);
    }
    None
}

/// The name of the row above the bottommost row named `h`.
fn name_before(rows: &Vec<ProcessMeta>, h: &String) -> (next: Option<String>)
    ensures
        text(next) == before_last(row_names(rows@), h@),
{
    let ghost names = row_names(rows@);
    let mut i: usize = rows.len();
    while i > 0
        invariant
            0 <= i <= rows@.len(),
            names == row_names(rows@),
            forall|j: int| i <= j < rows@.len() ==> names[j] != h@,
        decreases i,
    {
        i = i - 1;
        if rows[i].name == *h {
            proof {
                lemma_before_last_at(names, h@, i as int);
            }
            if i > 0 {
                return Some(rows[i - 1].name.clone());
            } else {
                return None;
            }
        }
    }
    proof {
        lemma_absent_name_resets(names, h@);
    }
    None
}

impl Selection {
    /// Nothing highlighted, nothing selected.
    pub fn new() -> (s: Selection)
        ensures
            s.highlighted is None,
            s.selected is None,
    {
        Selection { highlighted: None, selected: None }
    }

    /// Moves the cursor to the row above the one it names. The cursor is
    /// dropped when it is on the top row or names no row; an unset cursor
    /// stays unset.
    pub fn move_up(&mut self, rows: &Vec<ProcessMeta>)
        ensures
            text(final(self).highlighted) == moved_up(
                row_names(rows@),
                text(old(self).highlighted),
            ),
            final(self).selected == old(self).selected,
    {
        let next = match &self.highlighted {
            Some(h) => name_before(rows, h),
            None => None,
        };
        self.highlighted = next;
    }

    /// Moves the cursor to the row below the one it names. The cursor is
    /// dropped when it is on the bottom row or names no row; an unset
    /// cursor goes to the top row, if there is one.
    pub fn move_down(&mut self, rows: &Vec<ProcessMeta>)
        ensures
            text(final(self).highlighted) == moved_down(
                row_names(rows@),
                text(old(self).highlighted),
            ),
            final(self).selected == old(self).selected,
    {
        let next = match &self.highlighted {
            Some(h) => name_after(rows, h),
            None => if rows.len() > 0 {
                Some(rows[0].name.clone())
            } else {
                None
            },
        };
        self.highlighted = next;
    }

    /// How the row named `name` is to be drawn.
    pub fn row_style(&self, name: &String) -> (style: RowStyle)
        ensures
            style == style_of(name@, text(self.highlighted), text(self.selected)),
    {
        let is_selected = match &self.selected {
            Some(s) => *s == *name,
            None => false,
        };
        let is_highlighted = match &self.highlighted {
            Some(h) => *h == *name,
            None => false,
        };
        if is_selected {
            RowStyle::Selected
        } else if is_highlighted {
            RowStyle::Highlighted
        } else {
            RowStyle::Plain
        }
    }

    /// Pins the highlighted row, or releases it if it is the pinned one.
    /// Without a cursor nothing changes.
    pub fn confirm(&mut self)
        ensures
            text(final(self).selected) == confirmed(
                text(old(self).highlighted),
                text(old(self).selected),
            ),
            final(self).highlighted == old(self).highlighted,
    {
        if let Some(h) = &self.highlighted {
            let pinned = match &self.selected {
                Some(s) => *h == *s,
                None => false,
            };
            let next = if pinned {
                None
            } else {
                Some(h.clone())
            };
            self.selected = next;
        }
    }
}

} // verus!
