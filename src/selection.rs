//! The selection model: grouped search results, one cursor per group, the
//! active group, and the package the user finally picked.
use vstd::prelude::*;

use crate::result::SearchResult;

verus! {

/// One transition of the selection model.
#[derive(Clone, Copy, Debug, PartialEq, Eq, Structural)]
pub enum Action {
    MoveDown,
    MoveUp,
    JumpTop,
    JumpBottom,
    NextGroup,
    PrevGroup,
    Confirm,
    Quit,
}

/// The mathematical state of an [`AppState`].
pub struct SelectionModel {
    /// One `(package manager name, records)` pair per group, in registration order.
    pub sections: Seq<(String, Vec<SearchResult>)>,
    /// The cursor of each group; `None` for a group without records.
    pub cursors: Seq<Option<usize>>,
    /// Index of the group that receives up/down movement.
    pub active: usize,
    /// The package picked by the user, once one is confirmed.
    pub chosen: Option<SearchResult>,
    /// True once the user has confirmed a package or quit.
    pub finished: bool,
}

impl SelectionModel {
    pub open spec fn group_count(self) -> int {
        self.sections.len() as int
    }

    pub open spec fn records(self, g: int) -> Seq<SearchResult> {
        self.sections[g].1@
    }

    /// The model is well formed: one cursor per group, each inside its group,
    /// present exactly when the group has records, and an active group in range.
    pub open spec fn wf(self) -> bool {
        &&& self.cursors.len() == self.sections.len()
        &&& self.sections.len() <= usize::MAX
        &&& if self.sections.len() == 0 { self.active == 0 } else { self.active < self.sections.len() }
        &&& forall|g: int|
            0 <= g < self.sections.len() ==> {
                &&& (#[trigger] self.cursors[g] is None <==> self.records(g).len() == 0)
                &&& (self.cursors[g] matches Some(c) ==> c < self.records(g).len())
            }
        &&& !self.finished ==> self.chosen is None
    }

    /// The state built from freshly grouped results.
    pub open spec fn initial(sections: Seq<(String, Vec<SearchResult>)>) -> SelectionModel {
        SelectionModel {
            sections,
            cursors: Seq::new(
                sections.len(),
                |g: int|
                    if sections[g].1@.len() == 0 {
                        None
                    } else {
                        Some(0usize)
                    },
            ),
            active: 0,
            chosen: None,
            finished: false,
        }
    }

    pub open spec fn cursor(self) -> Option<usize> {
        self.cursors[self.active as int]
    }

    pub open spec fn active_len(self) -> int {
        self.records(self.active as int).len() as int
    }

    pub open spec fn with_cursor(self, c: usize) -> SelectionModel {
        SelectionModel { cursors: self.cursors.update(self.active as int, Some(c)), ..self }
    }

    pub open spec fn move_down(self) -> SelectionModel {
        match self.cursor() {
            Some(c) if c + 1 < self.active_len() => self.with_cursor((c + 1) as usize),
            _ => self,
        }
    }

    pub open spec fn move_up(self) -> SelectionModel {
        match self.cursor() {
            Some(c) if c > 0 => self.with_cursor((c - 1) as usize),
            _ => self,
        }
    }

    pub open spec fn jump_top(self) -> SelectionModel {
        if self.active_len() > 0 {
            self.with_cursor(0)
        } else {
            self
        }
    }

    pub open spec fn jump_bottom(self) -> SelectionModel {
        if self.active_len() > 0 {
            self.with_cursor((self.active_len() - 1) as usize)
        } else {
            self
        }
    }

    pub open spec fn next_group(self) -> SelectionModel {
        SelectionModel { active: ((self.active + 1) % self.group_count()) as usize, ..self }
    }

    pub open spec fn prev_group(self) -> SelectionModel {
        if self.active == 0 {
            SelectionModel { active: (self.group_count() - 1) as usize, ..self }
        } else {
            SelectionModel { active: (self.active - 1) as usize, ..self }
        }
    }

    /// The record under the cursor of the active group, if any.
    pub open spec fn selected(self) -> Option<SearchResult> {
        if self.sections.len() == 0 {
            None
        } else {
            match self.cursor() {
                Some(c) if c < self.active_len() => Some(self.records(self.active as int)[c as int]),
                _ => None,
            }
        }
    }

    pub open spec fn confirm(self) -> SelectionModel {
        match self.selected() {
            Some(r) => SelectionModel { chosen: Some(r), finished: true, ..self },
            None => self,
        }
    }

    pub open spec fn quit(self) -> SelectionModel {
        SelectionModel { chosen: None, finished: true, ..self }
    }

    /// The state after `a`. A finished state does not change any more; without
    /// groups only `Quit` has an effect.
    pub open spec fn step(self, a: Action) -> SelectionModel {
        if self.finished {
            self
        } else if a is Quit {
            self.quit()
        } else if self.sections.len() == 0 {
            self
        } else {
            match a {
                Action::MoveDown => self.move_down(),
                Action::MoveUp => self.move_up(),
                Action::JumpTop => self.jump_top(),
                Action::JumpBottom => self.jump_bottom(),
                Action::NextGroup => self.next_group(),
                Action::PrevGroup => self.prev_group(),
                Action::Confirm => self.confirm(),
                Action::Quit => self.quit(),
            }
        }
    }

    /// The state after `a` applied `n` times.
    pub open spec fn repeat(self, a: Action, n: nat) -> SelectionModel
        decreases n,
    {
        if n == 0 {
            self
        } else {
            self.step(a).repeat(a, (n - 1) as nat)
        }
    }
}

/// Grouped search results and where the user stands in them.
pub struct AppState {
    /// One `(package manager name, records)` pair per group.
    pub sections: Vec<(String, Vec<SearchResult>)>,
    /// The cursor of each group.
    pub section_states: Vec<Option<usize>>,
    /// Index of the active group.
    pub active_section: usize,
    /// The package the user confirmed.
    pub selected_result: Option<SearchResult>,
    /// True once the user has confirmed a package or quit.
    pub finished: bool,
}

impl View for AppState {
    type V = SelectionModel;

    open spec fn view(&self) -> SelectionModel {
        SelectionModel {
            sections: self.sections@,
            cursors: self.section_states@,
            active: self.active_section,
            chosen: self.selected_result,
            finished: self.finished,
        }
    }
}

impl AppState {
    /// The initial state: every non-empty group has its cursor on its first
    /// record, and the first group is active.
    pub fn new(sections: Vec<(String, Vec<SearchResult>)>) -> (r: AppState)
        ensures
            r@ == SelectionModel::initial(sections@),
            r@.wf(),
    {
        let mut states: Vec<Option<usize>> = Vec::new();
        let n = sections.len();
        for i in 0..n
            invariant
                n == sections.len(),
                states.len() == i,
                forall|g: int|
                    0 <= g < i ==> states@[g] == (if sections@[g].1@.len() == 0 {
                        None
                    } else {
                        Some(0usize)
                    }),
        {
            if sections[i].1.len() == 0 {
                states.push(None);
            } else {
                states.push(Some(0));
            }
        }
        let r = AppState {
            sections,
            section_states: states,
            active_section: 0,
            selected_result: None,
            finished: false,
        };
        assert(r@.cursors =~= SelectionModel::initial(r@.sections).cursors);
        r
    }

    /// The record under the cursor of the active group, if any.
    pub fn get_selected_item(&self) -> (r: Option<SearchResult>)
        requires
            self@.wf(),
        ensures
            r == self@.selected(),
    {
        if self.sections.len() == 0 {
            return None;
        }
        let g = self.active_section;
        let items = &self.sections[g].1;
        match self.section_states[g] {
            Some(c) => {
                if c < items.len() {
                    Some(items[c].duplicate())
                } else {
                    None
                }
            },
            None => None,
        }
    }

    /// Applies one transition of the selection model.
    pub fn apply(&mut self, a: Action)
        requires
            old(self)@.wf(),
        ensures
            final(self)@ == old(self)@.step(a),
            final(self)@.wf(),
    {
        proof { lemma_step_wf(self@, a); }
        if self.finished {
            return;
        }
        if self.sections.len() == 0 {
            if let Action::Quit = a {
                self.selected_result = None;
                self.finished = true;
            }
            return;
        }
        match a {
            Action::Quit => {
                self.selected_result = None;
                self.finished = true;
            },
            Action::MoveDown => move_down(self),
            Action::MoveUp => move_up(self),
            Action::JumpTop => jump_top(self),
            Action::JumpBottom => jump_bottom(self),
            Action::NextGroup => next_section(self),
            Action::PrevGroup => prev_section(self),
            Action::Confirm => {
                let item = self.get_selected_item();
                if let Some(r) = item {
                    self.selected_result = Some(r);
                    self.finished = true;
                }
            },
        }
    }
}

/// Makes the next group active, wrapping from the last to the first.
pub fn next_section(app: &mut AppState)
    requires
        old(app)@.wf(),
    ensures
        final(app)@ == (if old(app)@.sections.len() == 0 { old(app)@ } else { old(app)@.next_group() }),
{
    let n = app.sections.len();
    if n == 0 {
        return;
    }
    app.active_section = (app.active_section + 1) % n;
}

/// Makes the previous group active, wrapping from the first to the last.
pub fn prev_section(app: &mut AppState)
    requires
        old(app)@.wf(),
    ensures
        final(app)@ == (if old(app)@.sections.len() == 0 { old(app)@ } else { old(app)@.prev_group() }),
{
    let n = app.sections.len();
    if n == 0 {
        return;
    }
    if app.active_section == 0 {
        app.active_section = n - 1;
    } else {
        app.active_section = app.active_section - 1;
    }
}

/// Moves the cursor of the active group one record down; stops at the last.
pub fn move_down(app: &mut AppState)
    requires
        old(app)@.wf(),
        old(app)@.sections.len() > 0,
    ensures
        final(app)@ == old(app)@.move_down(),
{
    let g = app.active_section;
    let len = app.sections[g].1.len();
    if len == 0 {
        return;
    }
    match app.section_states[g] {
        Some(c) => {
            if c + 1 < len {
                app.section_states.set(g, Some(c + 1));
            }
        },
        None => {},
    }
}

/// Moves the cursor of the active group one record up; stops at the first.
pub fn move_up(app: &mut AppState)
    requires
        old(app)@.wf(),
        old(app)@.sections.len() > 0,
    ensures
        final(app)@ == old(app)@.move_up(),
{
    let g = app.active_section;
    let len = app.sections[g].1.len();
    if len == 0 {
        return;
    }
    match app.section_states[g] {
        Some(c) => {
            if c > 0 {
                app.section_states.set(g, Some(c - 1));
            }
        },
        None => {},
    }
}

/// Puts the cursor of the active group on its first record.
pub fn jump_top(app: &mut AppState)
    requires
        old(app)@.wf(),
        old(app)@.sections.len() > 0,
    ensures
        final(app)@ == old(app)@.jump_top(),
{
    let g = app.active_section;
    if app.sections[g].1.len() == 0 {
        return;
    }
    app.section_states.set(g, Some(0));
}

/// Puts the cursor of the active group on its last record.
pub fn jump_bottom(app: &mut AppState)
    requires
        old(app)@.wf(),
        old(app)@.sections.len() > 0,
    ensures
        final(app)@ == old(app)@.jump_bottom(),
{
    let g = app.active_section;
    let len = app.sections[g].1.len();
    if len == 0 {
        return;
    }
    app.section_states.set(g, Some(len - 1));
}

/// Every transition keeps the model well formed.
pub proof fn lemma_step_wf(m: SelectionModel, a: Action)
    requires
        m.wf(),
    ensures
        m.step(a).wf(),
{
    let r = m.step(a);
    assert forall|g: int| 0 <= g < r.sections.len() implies {
        &&& (#[trigger] r.cursors[g] is None <==> r.records(g).len() == 0)
        &&& (r.cursors[g] matches Some(c) ==> c < r.records(g).len())
    } by {
        assert(m.cursors[g] is None <==> m.records(g).len() == 0);
    }
}

/// Moving down or up keeps the cursor on a record of the active group and
/// never wraps: down from the last record and up from the first change nothing.
/// Jumping to the top or the bottom changes nothing once the cursor is there.
pub proof fn lemma_cursor_moves(m: SelectionModel, a: Action)
    requires
        m.wf(),
        !m.finished,
        m.sections.len() > 0,
    ensures
        m.step(a).cursor() matches Some(c) ==> 0 <= c < m.step(a).active_len(),
        a is MoveDown && (m.cursor() matches Some(c) && c + 1 == m.active_len()) ==> m.step(a) == m,
        a is MoveUp && m.cursor() == Some(0usize) ==> m.step(a) == m,
        a is JumpTop && (m.cursor() is None || m.cursor() == Some(0usize)) ==> m.step(a) == m,
        a is JumpBottom && (m.cursor() is None || (m.cursor() matches Some(c) && c + 1
            == m.active_len())) ==> m.step(a) == m,
        (a is JumpTop || a is JumpBottom) ==> m.step(a).step(a) == m.step(a),
{
    lemma_step_wf(m, a);
    let r = m.step(a);
    assert(r.cursors[r.active as int] is None <==> r.records(r.active as int).len() == 0);
    assert(m.cursors[m.active as int] is None <==> m.records(m.active as int).len() == 0);
    if a is JumpTop || a is JumpBottom {
        assert(r.step(a).cursors =~= r.cursors);
    }
    if a is JumpTop && m.cursor() == Some(0usize) {
        assert(m.with_cursor(0).cursors =~= m.cursors);
    }
    if a is JumpBottom && (m.cursor() matches Some(c) && c + 1 == m.active_len()) {
        assert(m.with_cursor((m.active_len() - 1) as usize).cursors =~= m.cursors);
    }
}

proof fn lemma_next_group_repeat(m: SelectionModel, k: nat)
    requires
        m.wf(),
        !m.finished,
        m.sections.len() > 0,
    ensures
        m.repeat(Action::NextGroup, k) == (SelectionModel {
            active: ((m.active + k) % m.group_count()) as usize,
            ..m
        }),
    decreases k,
{
    let n = m.group_count();
    if k == 0 {
        assert((m.active + 0) % n == m.active) by {
            vstd::arithmetic::div_mod::lemma_small_mod(m.active as nat, n as nat);
        }
    } else {
        let m1 = m.step(Action::NextGroup);
        lemma_step_wf(m, Action::NextGroup);
        lemma_next_group_repeat(m1, (k - 1) as nat);
        assert(((m.active + 1) % n + (k - 1)) % n == (m.active + k) % n) by {
            lemma_sub_mod_left(m.active + 1, -(k - 1), n);
        }
    }
}

proof fn lemma_prev_group_repeat(m: SelectionModel, k: nat)
    requires
        m.wf(),
        !m.finished,
        m.sections.len() > 0,
    ensures
        m.repeat(Action::PrevGroup, k) == (SelectionModel {
            active: ((m.active - k) % m.group_count()) as usize,
            ..m
        }),
    decreases k,
{
    let n = m.group_count();
    if k == 0 {
        assert((m.active - 0) % n == m.active) by {
            vstd::arithmetic::div_mod::lemma_small_mod(m.active as nat, n as nat);
        }
    } else {
        let m1 = m.step(Action::PrevGroup);
        lemma_step_wf(m, Action::PrevGroup);
        lemma_prev_group_repeat(m1, (k - 1) as nat);
        assert(m1.active == (m.active - 1) % n) by {
            if m.active == 0 {
                vstd::arithmetic::div_mod::lemma_mod_add_multiples_vanish(-1, n);
                vstd::arithmetic::div_mod::lemma_small_mod((n - 1) as nat, n as nat);
            } else {
                vstd::arithmetic::div_mod::lemma_small_mod((m.active - 1) as nat, n as nat);
            }
        }
        assert(((m.active - 1) % n - (k - 1)) % n == (m.active - k) % n) by {
            lemma_sub_mod_left(m.active - 1, (k - 1) as int, n);
        }
    }
}

proof fn lemma_sub_mod_left(x: int, y: int, n: int)
    requires
        n > 0,
    ensures
        ((x % n) - y) % n == (x - y) % n,
{
    vstd::arithmetic::div_mod::lemma_fundamental_div_mod(x, n);
    let q = x / n;
    assert(x - y == (x % n - y) + n * q);
    vstd::arithmetic::div_mod::lemma_mod_multiples_vanish(q, x % n - y, n);
}

/// Moving to the next group, or to the previous one, as many times as there
/// are groups comes back to the same state, empty groups included.
pub proof fn lemma_group_cycle(m: SelectionModel)
    requires
        m.wf(),
        !m.finished,
        m.sections.len() > 0,
    ensures
        m.repeat(Action::NextGroup, m.sections.len()) == m,
        m.repeat(Action::PrevGroup, m.sections.len()) == m,
{
    let n = m.group_count();
    lemma_next_group_repeat(m, m.sections.len());
    lemma_prev_group_repeat(m, m.sections.len());
    assert((m.active + n) % n == m.active) by {
        vstd::arithmetic::div_mod::lemma_mod_add_multiples_vanish(m.active as int, n);
        vstd::arithmetic::div_mod::lemma_small_mod(m.active as nat, n as nat);
    }
    assert((m.active - n) % n == m.active) by {
        vstd::arithmetic::div_mod::lemma_mod_sub_multiples_vanish(m.active as int, n);
        vstd::arithmetic::div_mod::lemma_small_mod(m.active as nat, n as nat);
    }
}

/// Confirming in an empty group changes nothing; confirming in a non-empty
/// group finishes with the record under the cursor as the choice.
pub proof fn lemma_confirm(m: SelectionModel)
    requires
        m.wf(),
        !m.finished,
        m.sections.len() > 0,
    ensures
        m.active_len() == 0 ==> m.step(Action::Confirm) == m,
        m.active_len() > 0 ==> {
            &&& m.step(Action::Confirm).finished
            &&& m.cursor() is Some
            &&& m.step(Action::Confirm).chosen == Some(
                m.records(m.active as int)[m.cursor().unwrap() as int],
            )
        },
{
    assert(m.cursors[m.active as int] is None <==> m.records(m.active as int).len() == 0);
}

/// Quitting from any state that is not finished finishes with no choice.
pub proof fn lemma_quit(m: SelectionModel)
    requires
        !m.finished,
    ensures
        m.step(Action::Quit).finished,
        m.step(Action::Quit).chosen is None,
        m.step(Action::Quit).sections == m.sections,
        m.step(Action::Quit).cursors == m.cursors,
        m.step(Action::Quit).active == m.active,
{
}

} // verus!
