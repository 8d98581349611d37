use vstd::prelude::*;
use vstd::string::{StrSliceExecFns, StringExecFns};

use crate::errors::AppError;
use crate::launch::{
    creations,
    game_app_path,
    launch_args,
    launch_args_spec,
    link_names,
    plan_links,
    real_names,
    GameDirEntry,
    GAME_APP,
    OPENER,
};
use crate::manager::{marked, Mod, ModManager};
use crate::paginator::{page_start, Paginator};
use crate::text::{decimal, decimal_string, join, join_path};

verus! {

/// What the session is doing.
#[derive(Debug, Clone, Copy, PartialEq, Eq)]
pub enum Mode {
    /// Browsing the list of mods.
    ListView,
    /// Editing the launch arguments.
    ParameterEdit,
}

/// A key as the terminal reports it.
#[derive(Debug, Clone, Copy, PartialEq, Eq)]
pub enum KeyCode {
    Char(char),
    Up,
    Down,
    Left,
    Right,
    Enter,
    Backspace,
    Esc,
    Other,
}

/// One key press: the key, and whether Control (and nothing else) was held.
#[derive(Debug, Clone, Copy, PartialEq, Eq)]
pub struct KeyPress {
    pub code: KeyCode,
    pub control: bool,
}

/// What a key asks for in the list view.
#[derive(Debug, Clone, Copy, PartialEq, Eq)]
pub enum Command {
    Up,
    Down,
    PrevPage,
    NextPage,
    ToggleAll,
    Toggle,
    Refresh,
    EditParameters,
    Launch,
    Quit,
    Ignore,
}

/// What the caller must do after a key press.
#[derive(Debug, Clone, Copy, PartialEq, Eq)]
pub enum Action {
    /// Nothing changed; wait for the next key.
    Ignore,
    /// Draw the screen again.
    Render,
    /// Scan the workshop directory, hand the result to `apply_refresh`,
    /// then draw.
    Refresh,
    /// Call `start_game` and carry out its plan, then draw.
    Launch,
    /// Save the configuration, then draw.
    Save,
    /// End the session.
    Quit,
}

/// The keyboard bindings of the list view: WASD, HJKL or the arrows to
/// move, space to toggle (with Control: all), R, F, P, and Escape.
pub open spec fn command_of(k: KeyPress) -> Command {
    match k.code {
        KeyCode::Char(c) => {
            if c == 'w' || c == 'k' {
                Command::Up
            } else if c == 's' || c == 'j' {
                Command::Down
            } else if c == 'a' || c == 'h' {
                Command::PrevPage
            } else if c == 'd' || c == 'l' {
                Command::NextPage
            } else if c == ' ' {
                if k.control {
                    Command::ToggleAll
                } else {
                    Command::Toggle
                }
            } else if c == 'r' {
                Command::Refresh
            } else if c == 'f' {
                Command::EditParameters
            } else if c == 'p' {
                Command::Launch
            } else {
                Command::Ignore
            }
        },
        KeyCode::Up => Command::Up,
        KeyCode::Down => Command::Down,
        KeyCode::Left => Command::PrevPage,
        KeyCode::Right => Command::NextPage,
        KeyCode::Esc => Command::Quit,
        _ => Command::Ignore,
    }
}

pub fn command_for(k: KeyPress) -> (r: Command)
    ensures
        r == command_of(k),
{
    match k.code {
        KeyCode::Char(c) => {
            if c == 'w' || c == 'k' {
                Command::Up
            } else if c == 's' || c == 'j' {
                Command::Down
            } else if c == 'a' || c == 'h' {
                Command::PrevPage
            } else if c == 'd' || c == 'l' {
                Command::NextPage
            } else if c == ' ' {
                if k.control {
                    Command::ToggleAll
                } else {
                    Command::Toggle
                }
            } else if c == 'r' {
                Command::Refresh
            } else if c == 'f' {
                Command::EditParameters
            } else if c == 'p' {
                Command::Launch
            } else {
                Command::Ignore
            }
        },
        KeyCode::Up => Command::Up,
        KeyCode::Down => Command::Down,
        KeyCode::Left => Command::PrevPage,
        KeyCode::Right => Command::NextPage,
        KeyCode::Esc => Command::Quit,
        _ => Command::Ignore,
    }
}

/// Every mod is enabled.
pub open spec fn all_enabled(s: Seq<Mod>) -> bool {
    forall|i: int| 0 <= i < s.len() ==> (#[trigger] s[i]).enabled
}

/// `new` holds the mods of `old`, each with `enabled` set to `on`.
pub open spec fn all_set(old: Seq<Mod>, new: Seq<Mod>, on: bool) -> bool {
    &&& new.len() == old.len()
    &&& forall|i: int|
        0 <= i < old.len() ==> {
            &&& (#[trigger] new[i]).id == old[i].id
            &&& new[i].name == old[i].name
            &&& new[i].enabled == on
        }
}

/// `new` is `old` with the mod at `idx` switched.
pub open spec fn flipped_at(old: Seq<Mod>, new: Seq<Mod>, idx: int) -> bool {
    &&& new.len() == old.len()
    &&& forall|i: int|
        0 <= i < old.len() && i != idx ==> #[trigger] new[i] == old[i]
    &&& new[idx].id == old[idx].id
    &&& new[idx].name == old[idx].name
    &&& new[idx].enabled == !old[idx].enabled
}

/// The ids of the enabled mods, in list order.
pub open spec fn enabled_ids(s: Seq<Mod>) -> Seq<u64>
    decreases s.len(),
{
    if s.len() == 0 {
        Seq::empty()
    } else {
        let rest = enabled_ids(s.drop_last());
        if s.last().enabled {
            rest.push(s.last().id)
        } else {
            rest
        }
    }
}

/// What a launch must do, in this order: remove the stale links, make the
/// new ones (link path, then target), save the configuration, and run
/// `program` with `args`.
#[derive(Debug, Clone)]
pub struct LaunchPlan {
    pub remove: Vec<String>,
    pub links: Vec<(String, String)>,
    pub enabled_ids: Vec<u64>,
    pub program: String,
    pub args: Vec<String>,
}

/// The interactive session over a mod manager: the selection within the
/// visible page, the mode, and the text being edited.
pub struct Terminal<'a> {
    pub mod_manager: &'a mut ModManager,
    pub selected_index: usize,
    pub mode: Mode,
    pub buffer: String,
}

impl<'a> Terminal<'a> {
    pub open spec fn pager(&self) -> Paginator<Mod> {
        self.mod_manager.loaded_mods
    }

    pub open spec fn items(&self) -> Seq<Mod> {
        self.mod_manager.loaded_mods.items()
    }

    pub open spec fn page(&self) -> Seq<Mod> {
        self.mod_manager.loaded_mods.spec_page()
    }

    /// The selection points into the visible page, or is 0 on an empty page.
    pub open spec fn selection_ok(&self) -> bool {
        if self.page().len() == 0 {
            self.selected_index == 0
        } else {
            self.selected_index < self.page().len()
        }
    }

    pub open spec fn wf(&self) -> bool {
        &&& self.pager().wf()
        &&& self.pager().page_in_range()
        &&& self.selection_ok()
    }

    /// The absolute index of the selected mod.
    pub open spec fn selected_abs(&self) -> int {
        self.pager().current_page * self.pager().page_size + self.selected_index
    }

    /// Only the selection moved.
    pub open spec fn moved_to(&self, next: &Self, sel: int) -> bool {
        &&& *next.mod_manager == *self.mod_manager
        &&& next.selected_index == sel
        &&& next.mode == self.mode
        &&& next.buffer == self.buffer
    }

    /// Only the list (and, with it, the selection) changed; settings kept.
    pub open spec fn list_changed(&self, next: &Self) -> bool {
        &&& next.mod_manager.config == self.mod_manager.config
        &&& next.mode == self.mode
        &&& next.buffer == self.buffer
        &&& next.pager().page_size == self.pager().page_size
    }

    pub open spec fn up_done(&self, next: &Self) -> bool {
        self.moved_to(
            next,
            if self.selected_index > 0 {
                self.selected_index - 1
            } else {
                0
            },
        )
    }

    pub open spec fn down_done(&self, next: &Self) -> bool {
        self.moved_to(
            next,
            if self.selected_index + 1 < self.page().len() {
                self.selected_index + 1
            } else {
                self.selected_index as int
            },
        )
    }

    pub open spec fn prev_done(&self, next: &Self) -> bool {
        &&& self.list_changed(next)
        &&& next.items() == self.items()
        &&& next.pager().current_page == if self.pager().current_page > 0 {
            self.pager().current_page - 1
        } else {
            0
        }
        &&& next.selected_index == 0
    }

    pub open spec fn next_done(&self, next: &Self) -> bool {
        &&& self.list_changed(next)
        &&& next.items() == self.items()
        &&& next.pager().current_page == if self.pager().current_page + 1
            < self.pager().spec_total_pages() {
            self.pager().current_page + 1
        } else {
            self.pager().current_page as int
        }
        &&& next.selected_index == 0
    }

    pub open spec fn toggle_all_done(&self, next: &Self) -> bool {
        &&& self.list_changed(next)
        &&& all_set(self.items(), next.items(), !all_enabled(self.items()))
        &&& next.pager().current_page == self.pager().current_page
        &&& next.selected_index == self.selected_index
    }

    pub open spec fn toggle_done(&self, next: &Self) -> bool {
        &&& self.list_changed(next)
        &&& next.pager().current_page == self.pager().current_page
        &&& next.selected_index == self.selected_index
        &&& if self.page().len() > 0 {
            flipped_at(self.items(), next.items(), self.selected_abs())
        } else {
            next.items() == self.items()
        }
    }

    pub open spec fn edit_begun(&self, next: &Self) -> bool {
        &&& *next.mod_manager == *self.mod_manager
        &&& next.selected_index == self.selected_index
        &&& next.mode == Mode::ParameterEdit
        &&& next.buffer@ == self.mod_manager.config.default_args@
    }

    /// What a key does in the text-entry mode.
    pub open spec fn edit_done(&self, next: &Self, code: KeyCode) -> bool {
        &&& next.selected_index == self.selected_index
        &&& next.pager() == self.pager()
        &&& next.mod_manager.config.game_path == self.mod_manager.config.game_path
        &&& next.mod_manager.config.workshop_path == self.mod_manager.config.workshop_path
        &&& next.mod_manager.config.enabled_mods@ == self.mod_manager.config.enabled_mods@
        &&& match code {
            KeyCode::Char(c) => {
                &&& next.mode == Mode::ParameterEdit
                &&& next.buffer@ == self.buffer@.push(c)
                &&& next.mod_manager.config.default_args == self.mod_manager.config.default_args
            },
            KeyCode::Backspace => {
                &&& next.mode == Mode::ParameterEdit
                &&& next.buffer@ == if self.buffer@.len() > 0 {
                    self.buffer@.drop_last()
                } else {
                    self.buffer@
                }
                &&& next.mod_manager.config.default_args == self.mod_manager.config.default_args
            },
            KeyCode::Enter => {
                &&& next.mode == Mode::ListView
                &&& next.mod_manager.config.default_args@ == self.buffer@
            },
            KeyCode::Esc => {
                &&& next.mode == Mode::ListView
                &&& next.mod_manager.config.default_args == self.mod_manager.config.default_args
            },
            _ => {
                &&& next.mode == Mode::ParameterEdit
                &&& next.buffer == self.buffer
                &&& next.mod_manager.config.default_args == self.mod_manager.config.default_args
            },
        }
    }

    pub fn new(mod_manager: &'a mut ModManager) -> (r: Self)
        ensures
            *r.mod_manager == *old(mod_manager),
            *final(mod_manager) == *final(r.mod_manager),
            r.selected_index == 0,
            r.mode == Mode::ListView,
            r.buffer@.len() == 0,
    {
        Terminal { mod_manager, selected_index: 0, mode: Mode::ListView, buffer: String::new() }
    }

    pub fn select_up(&mut self)
        requires
            old(self).wf(),
        ensures
            old(self).up_done(final(self)),
            final(self).wf(),
    {
        if self.selected_index > 0 {
            self.selected_index = self.selected_index - 1;
        }
    }

    pub fn select_down(&mut self)
        requires
            old(self).wf(),
        ensures
            old(self).down_done(final(self)),
            final(self).wf(),
    {
        let length = self.mod_manager.loaded_mods.current_page_items().len();
        if length > 0 && self.selected_index < length - 1 {
            self.selected_index = self.selected_index + 1;
        }
    }

    pub fn page_prev(&mut self)
        requires
            old(self).wf(),
        ensures
            old(self).prev_done(final(self)),
            final(self).wf(),
    {
        self.mod_manager.loaded_mods.prev_page();
        self.selected_index = 0;
    }

    pub fn page_next(&mut self)
        requires
            old(self).wf(),
        ensures
            old(self).next_done(final(self)),
            final(self).wf(),
    {
        self.mod_manager.loaded_mods.next_page();
        self.selected_index = 0;
    }

    /// Enables every mod, or disables every mod when all are enabled.
    pub fn toggle_all(&mut self)
        requires
            old(self).wf(),
        ensures
            old(self).toggle_all_done(final(self)),
            final(self).wf(),
    {
        let ghost start = self.items();
        let n = self.mod_manager.loaded_mods.items.len();
        let mut all = true;
        let mut i: usize = 0;
        while i < n
            invariant
                i <= n,
                n == self.mod_manager.loaded_mods.items@.len(),
                all == forall|j: int| 0 <= j < i ==> (#[trigger] self.mod_manager.loaded_mods.items@[j]).enabled,
            decreases n - i,
        {
            if !self.mod_manager.loaded_mods.items[i].enabled {
                all = false;
            }
            i = i + 1;
        }
        let value = !all;
        let mut k: usize = 0;
        while k < n
            invariant
                k <= n,
                n == start.len(),
                self.mod_manager.loaded_mods.items@.len() == n,
                self.mod_manager.loaded_mods.page_size == old(self).mod_manager.loaded_mods.page_size,
                self.mod_manager.loaded_mods.current_page == old(self).mod_manager.loaded_mods.current_page,
                self.mod_manager.config == old(self).mod_manager.config,
                self.selected_index == old(self).selected_index,
                self.mode == old(self).mode,
                self.buffer == old(self).buffer,
                start == old(self).items(),
                value == !all_enabled(start),
                forall|j: int|
                    0 <= j < n ==> {
                        &&& (#[trigger] self.mod_manager.loaded_mods.items@[j]).id == start[j].id
                        &&& self.mod_manager.loaded_mods.items@[j].name == start[j].name
                        &&& self.mod_manager.loaded_mods.items@[j].enabled == if j < k {
                            value
                        } else {
                            start[j].enabled
                        }
                    },
            decreases n - k,
        {
            self.mod_manager.loaded_mods.items[k].enabled = value;
            k = k + 1;
        }
        proof {
            lemma_same_shape_same_page(old(self).pager(), self.pager());
        }
    }

    /// Switches the selected mod.
    pub fn toggle_selected(&mut self)
        requires
            old(self).wf(),
        ensures
            old(self).toggle_done(final(self)),
            final(self).wf(),
    {
        let length = self.mod_manager.loaded_mods.current_page_items().len();
        if length == 0 {
            return;
        }
        let n = self.mod_manager.loaded_mods.items.len();
        let page = self.mod_manager.loaded_mods.current_page;
        let size = self.mod_manager.loaded_mods.page_size;
        proof {
            let p = self.pager();
            let start = page_start(p.current_page as nat, p.page_size as nat);
            assert(start < p.items().len());
            assert(page * size + self.selected_index < p.items().len());
        }
        let index = page * size + self.selected_index;
        let on = self.mod_manager.loaded_mods.items[index].enabled;
        self.mod_manager.loaded_mods.items[index].enabled = !on;
        proof {
            lemma_same_shape_same_page(old(self).pager(), self.pager());
        }
    }

    /// Takes a fresh scan: the list is replaced, back on its first page,
    /// with the first row selected.
    pub fn apply_refresh(&mut self, mods: Vec<Mod>)
        requires
            old(self).wf(),
        ensures
            old(self).list_changed(final(self)),
            marked(mods@, final(self).items(), old(self).mod_manager.config.enabled_mods@),
            final(self).pager().current_page == 0,
            final(self).selected_index == 0,
            final(self).wf(),
    {
        self.mod_manager.refresh_mods(mods);
        self.selected_index = 0;
    }

    /// Enters the text-entry mode with the saved launch arguments.
    pub fn begin_edit(&mut self)
        requires
            old(self).wf(),
        ensures
            old(self).edit_begun(final(self)),
            final(self).wf(),
    {
        self.buffer = String::from_str(self.mod_manager.config.get_default_args());
        self.mode = Mode::ParameterEdit;
    }

    /// Handles a key in the text-entry mode. Enter keeps the text as the
    /// new launch arguments; Escape drops it.
    pub fn edit_key(&mut self, code: KeyCode) -> (r: Action)
        requires
            old(self).wf(),
            old(self).mode == Mode::ParameterEdit,
        ensures
            old(self).edit_done(final(self), code),
            r == if code == KeyCode::Enter {
                Action::Save
            } else {
                Action::Render
            },
            final(self).wf(),
    {
        match code {
            KeyCode::Char(c) => {
                let mut text = self.buffer.clone();
                push_char(&mut text, c);
                self.buffer = text;
                Action::Render
            },
            KeyCode::Backspace => {
                let n = self.buffer.as_str().unicode_len();
                if n > 0 {
                    let kept = String::from_str(self.buffer.as_str().substring_char(0, n - 1));
                    self.buffer = kept;
                    assert(self.buffer@ =~= old(self).buffer@.drop_last());
                }
                Action::Render
            },
            KeyCode::Enter => {
                let text = String::from_str(self.buffer.as_str());
                self.mod_manager.config.set_default_args(text);
                self.mode = Mode::ListView;
                Action::Save
            },
            KeyCode::Esc => {
                self.mode = Mode::ListView;
                Action::Render
            },
            _ => Action::Render,
        }
    }

    /// One step of the session: what a key press does in the current mode,
    /// and what the caller must do next.
    pub fn handle_key(&mut self, key: KeyPress) -> (r: Action)
        requires
            old(self).wf(),
        ensures
            final(self).wf(),
            old(self).mode == Mode::ParameterEdit ==> {
                &&& old(self).edit_done(final(self), key.code)
                &&& r == if key.code == KeyCode::Enter {
                    Action::Save
                } else {
                    Action::Render
                }
            },
            old(self).mode == Mode::ListView ==> match command_of(key) {
                Command::Up => r == Action::Render && old(self).up_done(final(self)),
                Command::Down => r == Action::Render && old(self).down_done(final(self)),
                Command::PrevPage => r == Action::Render && old(self).prev_done(final(self)),
                Command::NextPage => r == Action::Render && old(self).next_done(final(self)),
                Command::ToggleAll => r == Action::Render && old(self).toggle_all_done(final(self)),
                Command::Toggle => r == Action::Render && old(self).toggle_done(final(self)),
                Command::EditParameters => r == Action::Render && old(self).edit_begun(final(self)),
                Command::Refresh => r == Action::Refresh && old(self).moved_to(
                    final(self),
                    old(self).selected_index as int,
                ),
                Command::Launch => r == Action::Launch && old(self).moved_to(
                    final(self),
                    old(self).selected_index as int,
                ),
                Command::Quit => r == Action::Quit && old(self).moved_to(
                    final(self),
                    old(self).selected_index as int,
                ),
                Command::Ignore => r == Action::Ignore && old(self).moved_to(
                    final(self),
                    old(self).selected_index as int,
                ),
            },
    {
        match self.mode {
            Mode::ParameterEdit => self.edit_key(key.code),
            Mode::ListView => match command_for(key) {
                Command::Up => {
                    self.select_up();
                    Action::Render
                },
                Command::Down => {
                    self.select_down();
                    Action::Render
                },
                Command::PrevPage => {
                    self.page_prev();
                    Action::Render
                },
                Command::NextPage => {
                    self.page_next();
                    Action::Render
                },
                Command::ToggleAll => {
                    self.toggle_all();
                    Action::Render
                },
                Command::Toggle => {
                    self.toggle_selected();
                    Action::Render
                },
                Command::EditParameters => {
                    self.begin_edit();
                    Action::Render
                },
                Command::Refresh => Action::Refresh,
                Command::Launch => Action::Launch,
                Command::Quit => Action::Quit,
                Command::Ignore => Action::Ignore,
            },
        }
    }

    /// The launch spec of the current state: what `start_game` plans when
    /// the game bundle exists.
    pub open spec fn plan_matches(&self, entries: Seq<GameDirEntry>, plan: LaunchPlan) -> bool {
        let ids = enabled_ids(self.items());
        let game = self.mod_manager.config.game_path@;
        let workshop = self.mod_manager.config.workshop_path@;
        let made = creations(real_names(entries), ids);
        &&& plan.enabled_ids@ == ids
        &&& plan.program@ == OPENER@
        &&& plan.args@.map_values(|a: String| a@) == launch_args_spec(
            join_path(game, GAME_APP@),
            self.mod_manager.config.default_args@,
            ids,
        )
        &&& plan.remove@.map_values(|a: String| a@) == link_names(entries).map_values(
            |n: Seq<char>| join_path(game, n),
        )
        &&& plan.links@.len() == made.len()
        &&& forall|t: int|
            0 <= t < made.len() ==> {
                &&& (#[trigger] plan.links@[t]).0@ == join_path(game, decimal(made[t] as nat))
                &&& plan.links@[t].1@ == join_path(workshop, decimal(made[t] as nat))
            }
    }

    /// Prepares a launch. Fails when the game bundle is missing; otherwise
    /// records the enabled mods in the configuration and returns what must
    /// be done on disk and which process to start. `entries` is the listing
    /// of the game directory.
    pub fn start_game(&mut self, app_exists: bool, entries: &Vec<GameDirEntry>) -> (r: Result<LaunchPlan, AppError>)
        requires
            old(self).wf(),
        ensures
            final(self).wf(),
            !app_exists ==> {
                &&& r matches Err(AppError::InvalidPath(p)) && p@ == join_path(
                    old(self).mod_manager.config.game_path@,
                    GAME_APP@,
                )
                &&& *final(self).mod_manager == *old(self).mod_manager
            },
            app_exists ==> {
                &&& r matches Ok(plan) && old(self).plan_matches(entries@, plan)
                &&& final(self).mod_manager.config.enabled_mods@ == enabled_ids(old(self).items())
                &&& final(self).mod_manager.config.game_path == old(self).mod_manager.config.game_path
                &&& final(self).mod_manager.config.workshop_path == old(self).mod_manager.config.workshop_path
                &&& final(self).mod_manager.config.default_args == old(self).mod_manager.config.default_args
                &&& final(self).pager() == old(self).pager()
            },
            final(self).selected_index == old(self).selected_index,
            final(self).mode == old(self).mode,
            final(self).buffer == old(self).buffer,
    {
        let app = game_app_path(self.mod_manager.config.get_game_path());
        if !app_exists {
            return Err(AppError::InvalidPath(app));
        }
        let ghost items = self.items();
        let mut ids: Vec<u64> = Vec::new();
        let mut i: usize = 0;
        while i < self.mod_manager.loaded_mods.items.len()
            invariant
                items == self.items(),
                i <= items.len(),
                ids@ == enabled_ids(items.take(i as int)),
            decreases items.len() - i,
        {
            let ghost cur = items.take(i as int + 1);
            assert(cur.drop_last() =~= items.take(i as int));
            assert(cur.last() == items[i as int]);
            if self.mod_manager.loaded_mods.items[i].enabled {
                ids.push(self.mod_manager.loaded_mods.items[i].id);
            }
            i = i + 1;
        }
        assert(items.take(items.len() as int) =~= items);
        let game = self.mod_manager.config.get_game_path();
        let workshop = self.mod_manager.config.get_workshop_path();
        let plan = plan_links(entries, &ids);
        let mut remove: Vec<String> = Vec::new();
        let mut k: usize = 0;
        while k < plan.remove.len()
            invariant
                k <= plan.remove@.len(),
                remove@.len() == k,
                forall|t: int| 0 <= t < k ==> (#[trigger] remove@[t])@ == join_path(game@, plan.remove@[t]@),
            decreases plan.remove@.len() - k,
        {
            remove.push(join(game, plan.remove[k].as_str()));
            k = k + 1;
        }
        let ghost names = link_names(entries@);
        assert(remove@.map_values(|a: String| a@) =~= names.map_values(|n: Seq<char>| join_path(game@, n))) by {
            assert(plan.remove@.map_values(|s: String| s@) == names);
            assert forall|t: int| 0 <= t < names.len() implies plan.remove@[t]@ == names[t] by {
                assert(plan.remove@.map_values(|s: String| s@)[t] == plan.remove@[t]@);
            }
        }
        let mut links: Vec<(String, String)> = Vec::new();
        let mut j: usize = 0;
        while j < plan.create.len()
            invariant
                j <= plan.create@.len(),
                links@.len() == j,
                forall|t: int|
                    0 <= t < j ==> {
                        &&& (#[trigger] links@[t]).0@ == join_path(game@, decimal(plan.create@[t] as nat))
                        &&& links@[t].1@ == join_path(workshop@, decimal(plan.create@[t] as nat))
                    },
            decreases plan.create@.len() - j,
        {
            let name = decimal_string(plan.create[j]);
            links.push((join(game, name.as_str()), join(workshop, name.as_str())));
            j = j + 1;
        }
        let args = launch_args(app.as_str(), self.mod_manager.config.get_default_args(), &ids);
        let program = String::from_str(OPENER);
        self.mod_manager.config.update_mods(ids.clone());
        Ok(LaunchPlan { remove, links, enabled_ids: ids, program, args })
    }
}

/// Two paginators with the same length, page size and page show pages of
/// the same length.
proof fn lemma_same_shape_same_page(a: Paginator<Mod>, b: Paginator<Mod>)
    requires
        a.items().len() == b.items().len(),
        a.page_size == b.page_size,
        a.current_page == b.current_page,
    ensures
        a.spec_page().len() == b.spec_page().len(),
        a.spec_total_pages() == b.spec_total_pages(),
{
}

/// Relies on `String::push`: appends one character.
#[verifier::external_body]
fn push_char(s: &mut String, c: char)
    ensures
        final(s)@ == old(s)@.push(c),
{
    s.push(c);
}

/// All mods are enabled, or none is.
pub open spec fn uniform(s: Seq<Mod>) -> bool {
    all_enabled(s) || forall|i: int| 0 <= i < s.len() ==> !(#[trigger] s[i]).enabled
}

/// Toggling all twice in a row gives every mod back its `enabled` value,
/// when all of them started out alike (all enabled or all disabled). From a
/// mixed list the first toggle enables all and the second disables all.
pub proof fn lemma_toggle_all_twice(a: &Terminal, b: &Terminal, c: &Terminal)
    requires
        a.toggle_all_done(b),
        b.toggle_all_done(c),
        uniform(a.items()),
    ensures
        c.items().len() == a.items().len(),
        forall|i: int|
            0 <= i < a.items().len() ==> {
                &&& (#[trigger] c.items()[i]).id == a.items()[i].id
                &&& c.items()[i].name == a.items()[i].name
                &&& c.items()[i].enabled == a.items()[i].enabled
            },
{
    let s = a.items();
    if s.len() > 0 {
        if all_enabled(s) {
            assert(!b.items()[0].enabled);
        } else {
            assert(all_enabled(b.items()));
        }
    }
}

} // verus!
