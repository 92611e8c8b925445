use vstd::pervasive::VecAdditionalExecFns;
use vstd::prelude::*;

use crate::manager::ModManager;
use crate::mods::Mod;
use crate::paginator::spec_min;
use crate::strutil::{join_strings, join_with};
use crate::utils::{joined_path, Platform};

verus! {

/// One interactive command, after the keyboard layer has decoded it.
#[derive(Clone, Copy, Debug, PartialEq, Eq, Structural)]
pub enum Key {
    Up,
    Down,
    PrevPage,
    NextPage,
    ToggleSelected,
    ToggleAll,
    Refresh,
    EditArgs,
    EditExecutable,
    CheckDependencies,
    Launch,
    Quit,
    Other,
}

/// What the caller must do after a key was handled: the session mutates its
/// own state and hands anything needing the outside world back as an action.
#[derive(Clone, Copy, Debug, PartialEq, Eq, Structural)]
pub enum Action {
    Idle,
    Refresh,
    EditArgs,
    EditExecutable,
    CheckDependencies,
    Launch,
    Quit,
}

/// The interactive session over a manager: the mod list, and a selection
/// cursor within the current page.
pub struct Terminal {
    pub mod_manager: ModManager,
    pub selected_index: usize,
}

/// Whether every mod of the list is enabled.
pub open spec fn all_enabled(s: Seq<Mod>) -> bool {
    forall|i: int| 0 <= i < s.len() ==> s[i].enabled
}

/// How many mods of the list are enabled.
pub open spec fn count_enabled(s: Seq<Mod>) -> int
    decreases s.len(),
{
    if s.len() == 0 {
        0
    } else {
        count_enabled(s.drop_last()) + if s.last().enabled {
            1int
        } else {
            0int
        }
    }
}

/// The identifiers of the enabled mods, in list order.
pub open spec fn enabled_ids_spec(s: Seq<Mod>) -> Seq<Seq<char>>
    decreases s.len(),
{
    if s.len() == 0 {
        Seq::empty()
    } else {
        let rest = enabled_ids_spec(s.drop_last());
        if s.last().enabled {
            rest.push(s.last().identifier@)
        } else {
            rest
        }
    }
}

/// The symlink sources of the enabled mods: nothing for a Creator DLC
/// (its content already sits inside the game directory), the custom
/// directory for a custom mod (nothing without one), the workshop
/// directory otherwise.
pub open spec fn source_paths_spec(
    s: Seq<Mod>,
    workshop: Seq<char>,
    custom: Option<Seq<char>>,
) -> Seq<Seq<char>>
    decreases s.len(),
{
    if s.len() == 0 {
        Seq::empty()
    } else {
        let rest = source_paths_spec(s.drop_last(), workshop, custom);
        let m = s.last();
        if m.enabled && !m.is_cdlc {
            if m.is_custom {
                match custom {
                    Some(c) => rest.push(joined_path(c, m.identifier@)),
                    None => rest,
                }
            } else {
                rest.push(joined_path(workshop, m.identifier@))
            }
        } else {
            rest
        }
    }
}

/// Where the game's executable sits, by platform convention.
pub open spec fn executable_path_spec(game: Seq<char>, name: Seq<char>, p: Platform) -> Seq<
    char,
> {
    if p == Platform::MacOs {
        joined_path(joined_path(joined_path(game, name + ".app"@), "Contents/MacOS"@), name)
    } else {
        joined_path(game, name)
    }
}

/// One row of the mod list as the presentation layer shows it.
pub struct RowView {
    pub selected: bool,
    pub enabled: bool,
    pub is_cdlc: bool,
    pub name: String,
}

/// Everything the presentation layer needs to draw the main list.
pub struct ScreenView {
    pub enabled_count: usize,
    pub total_count: usize,
    pub page_number: usize,
    pub total_pages: usize,
    pub rows: Vec<RowView>,
    pub show_prev: bool,
    pub show_next: bool,
}

/// Everything the launch step decides before touching the outside world:
/// the executable, the symlink sources, the identifiers to persist, and the
/// process arguments.
pub struct LaunchPlan {
    pub executable_path: String,
    pub sources: Vec<String>,
    pub enabled_ids: Vec<String>,
    pub mod_arg: Option<String>,
    pub use_default_args: bool,
}

impl Terminal {
    /// The position of the current page's first item.
    pub open spec fn page_start(self) -> int {
        self.mod_manager.loaded_mods.current_page as int
            * self.mod_manager.loaded_mods.page_size as int
    }

    /// The position after the current page's last item.
    pub open spec fn page_end(self) -> int {
        spec_min(
            self.page_start() + self.mod_manager.loaded_mods.page_size as int,
            self.mod_manager.loaded_mods.items@.len() as int,
        )
    }

    /// How many items the current page shows.
    pub open spec fn page_len(self) -> int {
        self.page_end() - self.page_start()
    }

    /// The structural invariant: a well-formed manager, and a cursor inside
    /// the current page (on its first row when the page is empty).
    pub open spec fn wf(self) -> bool {
        &&& self.mod_manager.wf()
        &&& self.page_len() == 0 ==> self.selected_index == 0
        &&& self.page_len() > 0 ==> (self.selected_index as int) < self.page_len()
    }

    /// A session over the manager, with the cursor on the first row.
    pub fn new(mod_manager: ModManager) -> (r: Terminal)
        requires
            mod_manager.wf(),
        ensures
            r.mod_manager == mod_manager,
            r.selected_index == 0,
            r.wf(),
    {
        let r = Terminal { mod_manager, selected_index: 0 };
        proof {
            crate::paginator::lemma_page_start_le_len(r.mod_manager.loaded_mods);
        }
        r
    }

    /// Where the game's executable sits: on the Mac platform inside the
    /// application bundle, elsewhere directly under the game directory.
    pub fn get_executable_path(game_path: &str, executable_name: &str, platform: Platform) -> (r:
        String)
        ensures
            r@ == executable_path_spec(game_path@, executable_name@, platform),
    {
        match platform {
            Platform::MacOs => {
                let mut s = game_path.to_owned();
                s.append("/");
                s.append(executable_name);
                s.append(".app");
                s.append("/");
                s.append("Contents/MacOS");
                s.append("/");
                s.append(executable_name);
                s
            },
            _ => {
                let mut s = game_path.to_owned();
                s.append("/");
                s.append(executable_name);
                s
            },
        }
    }

    /// Moves the cursor one row up; a no-op on the first row.
    pub fn move_up(&mut self)
        requires
            old(self).wf(),
        ensures
            final(self).wf(),
            *final(self) == (Terminal {
                selected_index: if old(self).selected_index > 0 {
                    (old(self).selected_index - 1) as usize
                } else {
                    0usize
                },
                ..*old(self)
            }),
    {
        if self.selected_index > 0 {
            self.selected_index = self.selected_index - 1;
        }
    }

    /// Moves the cursor one row down; a no-op on the page's last row (it
    /// never slips onto the next page).
    pub fn move_down(&mut self)
        requires
            old(self).wf(),
        ensures
            final(self).wf(),
            *final(self) == (Terminal {
                selected_index: if old(self).selected_index as int + 1 < old(self).page_len() {
                    (old(self).selected_index + 1) as usize
                } else {
                    old(self).selected_index
                },
                ..*old(self)
            }),
    {
        let length = self.mod_manager.loaded_mods.current_page_items().len();
        proof {
            crate::paginator::lemma_page_start_le_len(self.mod_manager.loaded_mods);
            assert(length as int == old(self).page_len());
        }
        if length > 0 && self.selected_index < length - 1 {
            self.selected_index = self.selected_index + 1;
        }
    }

    /// Turns one page back and puts the cursor on the first row.
    pub fn page_left(&mut self)
        requires
            old(self).wf(),
        ensures
            final(self).wf(),
            final(self).selected_index == 0,
            final(self).mod_manager.config == old(self).mod_manager.config,
            final(self).mod_manager.loaded_mods.items@ == old(self).mod_manager.loaded_mods.items@,
            final(self).mod_manager.loaded_mods.page_size == old(self).mod_manager.loaded_mods.page_size,
            final(self).mod_manager.loaded_mods.current_page == if old(self).mod_manager.loaded_mods.current_page > 0 {
                old(self).mod_manager.loaded_mods.current_page as int - 1
            } else {
                0int
            },
    {
        self.mod_manager.loaded_mods.prev_page();
        self.selected_index = 0;
        proof {
            crate::paginator::lemma_page_start_le_len(self.mod_manager.loaded_mods);
        }
    }

    /// Turns one page forward and puts the cursor on the first row.
    pub fn page_right(&mut self)
        requires
            old(self).wf(),
        ensures
            final(self).wf(),
            final(self).selected_index == 0,
            final(self).mod_manager.config == old(self).mod_manager.config,
            final(self).mod_manager.loaded_mods.items@ == old(self).mod_manager.loaded_mods.items@,
            final(self).mod_manager.loaded_mods.page_size == old(self).mod_manager.loaded_mods.page_size,
            final(self).mod_manager.loaded_mods.current_page == if old(self).mod_manager.loaded_mods.current_page as int + 1 < old(self).mod_manager.loaded_mods.spec_total_pages() {
                old(self).mod_manager.loaded_mods.current_page as int + 1
            } else {
                old(self).mod_manager.loaded_mods.current_page as int
            },
    {
        self.mod_manager.loaded_mods.next_page();
        self.selected_index = 0;
        proof {
            crate::paginator::lemma_page_start_le_len(self.mod_manager.loaded_mods);
        }
    }

    /// Flips the selected mod's enabled flag; a no-op on an empty page.
    pub fn toggle_selected(&mut self)
        requires
            old(self).wf(),
        ensures
            final(self).wf(),
            final(self).selected_index == old(self).selected_index,
            final(self).mod_manager.config == old(self).mod_manager.config,
            final(self).mod_manager.loaded_mods.page_size == old(self).mod_manager.loaded_mods.page_size,
            final(self).mod_manager.loaded_mods.current_page == old(self).mod_manager.loaded_mods.current_page,
            old(self).page_len() == 0 ==> final(self).mod_manager.loaded_mods.items@ == old(self).mod_manager.loaded_mods.items@,
            old(self).page_len() > 0 ==> final(self).mod_manager.loaded_mods.items@ == old(self).mod_manager.loaded_mods.items@.update(
                old(self).page_start() + old(self).selected_index,
                (Mod {
                    enabled: !old(self).mod_manager.loaded_mods.items@[old(self).page_start() + old(self).selected_index].enabled,
                    ..old(self).mod_manager.loaded_mods.items@[old(self).page_start() + old(self).selected_index]
                }),
            ),
    {
        let length = self.mod_manager.loaded_mods.current_page_items().len();
        if length == 0 {
            return ;
        }
        let n = self.mod_manager.loaded_mods.items.len();
        proof {
            crate::paginator::lemma_page_start_le_len(self.mod_manager.loaded_mods);
        }
        let start = self.mod_manager.loaded_mods.current_page
            * self.mod_manager.loaded_mods.page_size;
        let index = start + self.selected_index;
        let m = &self.mod_manager.loaded_mods.items[index];
        let toggled = Mod {
            identifier: m.identifier.clone(),
            name: m.name.clone(),
            enabled: !m.enabled,
            is_cdlc: m.is_cdlc,
            is_custom: m.is_custom,
        };
        self.mod_manager.loaded_mods.items.set(index, toggled);
    }

    /// Toggles every mod at once: where all are already enabled it disables
    /// them all, else (mixed or all disabled) it enables them all.
    pub fn toggle_all(&mut self)
        requires
            old(self).wf(),
        ensures
            final(self).wf(),
            final(self).selected_index == old(self).selected_index,
            final(self).mod_manager.config == old(self).mod_manager.config,
            final(self).mod_manager.loaded_mods.page_size == old(self).mod_manager.loaded_mods.page_size,
            final(self).mod_manager.loaded_mods.current_page == old(self).mod_manager.loaded_mods.current_page,
            final(self).mod_manager.loaded_mods.items@.len() == old(self).mod_manager.loaded_mods.items@.len(),
            forall|i: int|
                0 <= i < old(self).mod_manager.loaded_mods.items@.len() ==> final(self).mod_manager.loaded_mods.items@[i] == (Mod {
                    enabled: !all_enabled(old(self).mod_manager.loaded_mods.items@),
                    ..old(self).mod_manager.loaded_mods.items@[i]
                }),
    {
        let ghost old_items = self.mod_manager.loaded_mods.items@;
        let mut probe: usize = 0;
        let mut every: bool = true;
        while probe < self.mod_manager.loaded_mods.items.len()
            invariant
                probe <= old_items.len(),
                self.mod_manager.loaded_mods.items@ == old_items,
                *self == *old(self),
                every == (forall|i: int| 0 <= i < probe ==> old_items[i].enabled),
            decreases old_items.len() - probe,
        {
            if !self.mod_manager.loaded_mods.items[probe].enabled {
                every = false;
            }
            probe = probe + 1;
        }
        let value = !every;
        let mut t: usize = 0;
        while t < self.mod_manager.loaded_mods.items.len()
            invariant
                t <= old_items.len(),
                value == !all_enabled(old_items),
                self.selected_index == old(self).selected_index,
                self.mod_manager.config == old(self).mod_manager.config,
                self.mod_manager.loaded_mods.page_size == old(self).mod_manager.loaded_mods.page_size,
                self.mod_manager.loaded_mods.current_page == old(self).mod_manager.loaded_mods.current_page,
                self.mod_manager.loaded_mods.items@.len() == old_items.len(),
                forall|i: int|
                    t <= i < old_items.len() ==> self.mod_manager.loaded_mods.items@[i]
                        == old_items[i],
                forall|i: int|
                    0 <= i < t ==> self.mod_manager.loaded_mods.items@[i] == (Mod {
                        enabled: value,
                        ..old_items[i]
                    }),
            decreases old_items.len() - t,
        {
            let m = &self.mod_manager.loaded_mods.items[t];
            let updated = Mod {
                identifier: m.identifier.clone(),
                name: m.name.clone(),
                enabled: value,
                is_cdlc: m.is_cdlc,
                is_custom: m.is_custom,
            };
            self.mod_manager.loaded_mods.items.set(t, updated);
            t = t + 1;
        }
        proof {
            crate::paginator::lemma_page_start_le_len(self.mod_manager.loaded_mods);
        }
    }

    /// Handles one decoded key: navigation and toggles mutate the session
    /// here; everything that needs the outside world comes back as an
    /// action for the caller.
    pub fn handle_key(&mut self, key: Key) -> (a: Action)
        requires
            old(self).wf(),
        ensures
            final(self).wf(),
            a == match key {
                Key::Refresh => Action::Refresh,
                Key::EditArgs => Action::EditArgs,
                Key::EditExecutable => Action::EditExecutable,
                Key::CheckDependencies => Action::CheckDependencies,
                Key::Launch => Action::Launch,
                Key::Quit => Action::Quit,
                _ => Action::Idle,
            },
            key == Key::Up ==> *final(self) == (Terminal {
                selected_index: if old(self).selected_index > 0 {
                    (old(self).selected_index - 1) as usize
                } else {
                    0usize
                },
                ..*old(self)
            }),
            key == Key::Down ==> *final(self) == (Terminal {
                selected_index: if old(self).selected_index as int + 1 < old(self).page_len() {
                    (old(self).selected_index + 1) as usize
                } else {
                    old(self).selected_index
                },
                ..*old(self)
            }),
            key == Key::PrevPage ==> {
                &&& final(self).selected_index == 0
                &&& final(self).mod_manager.config == old(self).mod_manager.config
                &&& final(self).mod_manager.loaded_mods.items@ == old(self).mod_manager.loaded_mods.items@
                &&& final(self).mod_manager.loaded_mods.page_size == old(self).mod_manager.loaded_mods.page_size
                &&& final(self).mod_manager.loaded_mods.current_page == if old(self).mod_manager.loaded_mods.current_page > 0 {
                    old(self).mod_manager.loaded_mods.current_page as int - 1
                } else {
                    0int
                }
            },
            key == Key::NextPage ==> {
                &&& final(self).selected_index == 0
                &&& final(self).mod_manager.config == old(self).mod_manager.config
                &&& final(self).mod_manager.loaded_mods.items@ == old(self).mod_manager.loaded_mods.items@
                &&& final(self).mod_manager.loaded_mods.page_size == old(self).mod_manager.loaded_mods.page_size
                &&& final(self).mod_manager.loaded_mods.current_page == if old(self).mod_manager.loaded_mods.current_page as int + 1 < old(self).mod_manager.loaded_mods.spec_total_pages() {
                    old(self).mod_manager.loaded_mods.current_page as int + 1
                } else {
                    old(self).mod_manager.loaded_mods.current_page as int
                }
            },
            key == Key::ToggleSelected ==> {
                &&& final(self).selected_index == old(self).selected_index
                &&& final(self).mod_manager.config == old(self).mod_manager.config
                &&& final(self).mod_manager.loaded_mods.page_size == old(self).mod_manager.loaded_mods.page_size
                &&& final(self).mod_manager.loaded_mods.current_page == old(self).mod_manager.loaded_mods.current_page
                &&& old(self).page_len() == 0 ==> final(self).mod_manager.loaded_mods.items@
                    == old(self).mod_manager.loaded_mods.items@
                &&& old(self).page_len() > 0 ==> final(self).mod_manager.loaded_mods.items@ == old(self).mod_manager.loaded_mods.items@.update(
                    old(self).page_start() + old(self).selected_index,
                    (Mod {
                        enabled: !old(self).mod_manager.loaded_mods.items@[old(self).page_start()
                            + old(self).selected_index].enabled,
                        ..old(self).mod_manager.loaded_mods.items@[old(self).page_start() + old(self).selected_index]
                    }),
                )
            },
            key == Key::ToggleAll ==> {
                &&& final(self).selected_index == old(self).selected_index
                &&& final(self).mod_manager.config == old(self).mod_manager.config
                &&& final(self).mod_manager.loaded_mods.page_size == old(self).mod_manager.loaded_mods.page_size
                &&& final(self).mod_manager.loaded_mods.current_page == old(self).mod_manager.loaded_mods.current_page
                &&& final(self).mod_manager.loaded_mods.items@.len() == old(self).mod_manager.loaded_mods.items@.len()
                &&& forall|i: int|
                    0 <= i < old(self).mod_manager.loaded_mods.items@.len() ==> final(self).mod_manager.loaded_mods.items@[i] == (Mod {
                        enabled: !all_enabled(old(self).mod_manager.loaded_mods.items@),
                        ..old(self).mod_manager.loaded_mods.items@[i]
                    })
            },
            (key == Key::Refresh || key == Key::EditArgs || key == Key::EditExecutable || key
                == Key::Launch || key == Key::Quit || key == Key::Other) ==> *final(self) == *old(self),
    {
        match key {
            Key::Up => {
                self.move_up();
                Action::Idle
            },
            Key::Down => {
                self.move_down();
                Action::Idle
            },
            Key::PrevPage => {
                self.page_left();
                Action::Idle
            },
            Key::NextPage => {
                self.page_right();
                Action::Idle
            },
            Key::ToggleSelected => {
                self.toggle_selected();
                Action::Idle
            },
            Key::ToggleAll => {
                self.toggle_all();
                Action::Idle
            },
            Key::Refresh => Action::Refresh,
            Key::EditArgs => Action::EditArgs,
            Key::EditExecutable => Action::EditExecutable,
            Key::CheckDependencies => Action::CheckDependencies,
            Key::Launch => Action::Launch,
            Key::Quit => Action::Quit,
            Key::Other => Action::Idle,
        }
    }

    /// Everything the main list shows, pinned field by field: the counts,
    /// the page numbers, one row per item of the current page with the
    /// cursor on the selected one, and the page-turn hints.
    pub fn view(&self) -> (r: ScreenView)
        requires
            self.wf(),
        ensures
            r.enabled_count as int == count_enabled(self.mod_manager.loaded_mods.items@),
            r.total_count == self.mod_manager.loaded_mods.items@.len(),
            r.page_number as int == self.mod_manager.loaded_mods.current_page as int + 1,
            r.total_pages as int == self.mod_manager.loaded_mods.spec_total_pages(),
            r.show_prev == (r.page_number > 1),
            r.show_next == ((r.page_number as int) < r.total_pages as int),
            r.rows@.len() == self.page_len(),
            forall|i: int|
                0 <= i < r.rows@.len() ==> {
                    let m = self.mod_manager.loaded_mods.items@[self.page_start() + i];
                    &&& (#[trigger] r.rows@[i]).selected == (i == self.selected_index as int)
                    &&& r.rows@[i].enabled == m.enabled
                    &&& r.rows@[i].is_cdlc == m.is_cdlc
                    &&& r.rows@[i].name@ == m.name@
                },
    {
        let items = &self.mod_manager.loaded_mods.items;
        let mut enabled_count: usize = 0;
        let mut i: usize = 0;
        while i < items.len()
            invariant
                i <= items@.len(),
                enabled_count as int == count_enabled(items@.take(i as int)),
                enabled_count <= i,
            decreases items@.len() - i,
        {
            if items[i].enabled {
                enabled_count = enabled_count + 1;
            }
            proof {
                assert(items@.take(i as int + 1).drop_last() =~= items@.take(i as int));
            }
            i = i + 1;
        }
        proof {
            assert(items@.take(items@.len() as int) =~= items@);
        }
        let total_count = items.len();
        let total_pages = self.mod_manager.loaded_mods.total_pages();
        let page_number = self.mod_manager.loaded_mods.current_page + 1;
        proof {
            crate::paginator::lemma_page_start_le_len(self.mod_manager.loaded_mods);
        }
        let page = self.mod_manager.loaded_mods.current_page_items();
        let mut rows: Vec<RowView> = Vec::new();
        let mut k: usize = 0;
        while k < page.len()
            invariant
                self.wf(),
                0 <= self.page_start() <= self.page_end()
                    <= self.mod_manager.loaded_mods.items@.len(),
                k <= page@.len(),
                page@ == self.mod_manager.loaded_mods.items@.subrange(
                    self.page_start(),
                    self.page_end(),
                ),
                rows@.len() == k,
                forall|i: int|
                    0 <= i < k ==> {
                        let m = self.mod_manager.loaded_mods.items@[self.page_start() + i];
                        &&& (#[trigger] rows@[i]).selected == (i == self.selected_index as int)
                        &&& rows@[i].enabled == m.enabled
                        &&& rows@[i].is_cdlc == m.is_cdlc
                        &&& rows@[i].name@ == m.name@
                    },
            decreases page@.len() - k,
        {
            let m = vstd::slice::slice_index_get(page, k);
            proof {
                assert(page@[k as int] == self.mod_manager.loaded_mods.items@[self.page_start()
                    + k]);
            }
            rows.push(
                RowView {
                    selected: k == self.selected_index,
                    enabled: m.enabled,
                    is_cdlc: m.is_cdlc,
                    name: m.name.clone(),
                },
            );
            k = k + 1;
        }
        ScreenView {
            enabled_count,
            total_count,
            page_number,
            total_pages,
            rows,
            show_prev: page_number > 1,
            show_next: page_number < total_pages,
        }
    }

    /// Decides everything about a launch before any of it happens: where
    /// the executable must be, which symlinks to create, which identifiers
    /// to persist into the active preset, and the process arguments.  With
    /// no mod enabled the plan carries no sources, no identifiers and no
    /// mod argument: the launch then only sweeps.
    pub fn launch_plan(&self, platform: Platform) -> (r: LaunchPlan)
        ensures
            r.executable_path@ == executable_path_spec(
                self.mod_manager.config.game_path@,
                self.mod_manager.config.executable_name@,
                platform,
            ),
            r.enabled_ids.deep_view() == enabled_ids_spec(self.mod_manager.loaded_mods.items@),
            r.sources.deep_view() == source_paths_spec(
                self.mod_manager.loaded_mods.items@,
                self.mod_manager.config.workshop_path@,
                match self.mod_manager.config.custom_mods_path {
                    Some(c) => Some(c@),
                    None => None,
                },
            ),
            enabled_ids_spec(self.mod_manager.loaded_mods.items@).len() == 0 <==> r.mod_arg
                is None,
            r.mod_arg matches Some(arg) ==> arg@ == "-mod="@ + join_with(
                enabled_ids_spec(self.mod_manager.loaded_mods.items@),
                ";"@,
            ),
            r.use_default_args == (self.mod_manager.config.default_args@.len() > 0),
    {
        let executable_path = Terminal::get_executable_path(
            self.mod_manager.config.get_game_path(),
            self.mod_manager.config.get_executable_name(),
            platform,
        );
        let items = &self.mod_manager.loaded_mods.items;
        let ghost custom_view: Option<Seq<char>> = match &self.mod_manager.config.custom_mods_path {
            Some(c) => Some(c@),
            None => None,
        };
        let mut enabled_ids: Vec<String> = Vec::new();
        let mut sources: Vec<String> = Vec::new();
        let mut i: usize = 0;
        proof {
            assert(items@.take(0) =~= Seq::<Mod>::empty());
            assert(enabled_ids.deep_view() =~= enabled_ids_spec(items@.take(0)));
            assert(sources.deep_view() =~= source_paths_spec(
                items@.take(0),
                self.mod_manager.config.workshop_path@,
                custom_view,
            ));
        }
        while i < items.len()
            invariant
                i <= items@.len(),
                custom_view == (match self.mod_manager.config.custom_mods_path {
                    Some(c) => Some(c@),
                    None => None,
                }),
                enabled_ids.deep_view() == enabled_ids_spec(items@.take(i as int)),
                sources.deep_view() == source_paths_spec(
                    items@.take(i as int),
                    self.mod_manager.config.workshop_path@,
                    custom_view,
                ),
            decreases items@.len() - i,
        {
            let m = &items[i];
            let ghost ids_before = enabled_ids.deep_view();
            let ghost sources_before = sources.deep_view();
            if m.enabled {
                enabled_ids.push(m.identifier.clone());
                proof {
                    assert(enabled_ids.deep_view() =~= ids_before.push(m.identifier@));
                }
                if !m.is_cdlc {
                    if m.is_custom {
                        match self.mod_manager.config.get_custom_mods_path() {
                            Some(custom) => {
                                sources.push(m.get_path(custom));
                                proof {
                                    assert(sources.deep_view() =~= sources_before.push(
                                        joined_path(custom@, m.identifier@),
                                    ));
                                }
                            },
                            None => {},
                        }
                    } else {
                        sources.push(m.get_path(self.mod_manager.config.get_workshop_path()));
                        proof {
                            assert(sources.deep_view() =~= sources_before.push(
                                joined_path(
                                    self.mod_manager.config.workshop_path@,
                                    m.identifier@,
                                ),
                            ));
                        }
                    }
                }
            }
            proof {
                assert(items@.take(i as int + 1).drop_last() =~= items@.take(i as int));
                assert(items@.take(i as int + 1).last() == items@[i as int]);
                assert(enabled_ids.deep_view() =~= enabled_ids_spec(items@.take(i as int + 1)));
                assert(sources.deep_view() =~= source_paths_spec(
                    items@.take(i as int + 1),
                    self.mod_manager.config.workshop_path@,
                    custom_view,
                ));
            }
            i = i + 1;
        }
        proof {
            assert(items@.take(items@.len() as int) =~= items@);
        }
        let mod_arg = if enabled_ids.len() == 0 {
            None
        } else {
            let list = join_strings(&enabled_ids, ";");
            let mut arg = "-mod=".to_owned();
            arg.append(list.as_str());
            Some(arg)
        };
        let use_default_args = self.mod_manager.config.get_default_args().unicode_len() > 0;
        LaunchPlan { executable_path, sources, enabled_ids, mod_arg, use_default_args }
    }
}

/// The first-run setup state: two editable path fields, seeded with the
/// platform's best-effort defaults, that must both point at existing
/// directories before a configuration is created.
pub struct SetupWizard {
    pub workshop_path: String,
    pub game_path: String,
    pub editing_game: bool,
}

impl SetupWizard {
    /// A wizard over the detected default paths, with the workshop field
    /// active first.
    pub fn new(workshop_seed: String, game_seed: String) -> (r: SetupWizard)
        ensures
            r.workshop_path == workshop_seed,
            r.game_path == game_seed,
            !r.editing_game,
    {
        SetupWizard { workshop_path: workshop_seed, game_path: game_seed, editing_game: false }
    }

    /// Moves the focus to the other path field.
    pub fn toggle_field(&mut self)
        ensures
            *final(self) == (SetupWizard { editing_game: !old(self).editing_game, ..*old(self) }),
    {
        self.editing_game = !self.editing_game;
    }

    /// The text of the focused field.
    pub fn active_text(&self) -> (r: &str)
        ensures
            self.editing_game ==> r@ == self.game_path@,
            !self.editing_game ==> r@ == self.workshop_path@,
    {
        if self.editing_game {
            self.game_path.as_str()
        } else {
            self.workshop_path.as_str()
        }
    }

    /// Replaces the text of the focused field (after an edit commits).
    pub fn set_active_text(&mut self, text: String)
        ensures
            old(self).editing_game ==> *final(self) == (SetupWizard {
                game_path: text,
                ..*old(self)
            }),
            !old(self).editing_game ==> *final(self) == (SetupWizard {
                workshop_path: text,
                ..*old(self)
            }),
    {
        if self.editing_game {
            self.game_path = text;
        } else {
            self.workshop_path = text;
        }
    }

    /// Confirms the wizard, given whether each entered path exists: both
    /// must, the workshop path reported first, and success yields a fresh
    /// configuration over the entered paths, ready to persist.
    pub fn confirm(&self, workshop_exists: bool, game_exists: bool, custom_mods_path: Option<
        String,
    >) -> (r: crate::errors::AppResult<crate::config::Config>)
        ensures
            r is Ok <==> workshop_exists && game_exists,
            !workshop_exists ==> (r matches Err(e) && e matches crate::errors::AppError::InvalidPath(
                p,
            ) && p@ == self.workshop_path@),
            workshop_exists && !game_exists ==> (r matches Err(e)
                && e matches crate::errors::AppError::InvalidPath(p) && p@ == self.game_path@),
            r matches Ok(c) ==> {
                &&& c.wf()
                &&& c.workshop_path@ == self.workshop_path@
                &&& c.game_path@ == self.game_path@
                &&& c.custom_mods_path == custom_mods_path
                &&& c.executable_name@ == "arma3"@
                &&& c.enabled_mods@.len() == 0
                &&& c.presets_view() =~~= seq![
                    (crate::config::PresetView { name: "Default"@, mods: Seq::empty() }),
                ]
                &&& c.active_preset@ == "Default"@
            },
    {
        if !workshop_exists {
            return Err(crate::errors::AppError::InvalidPath(self.workshop_path.clone()));
        }
        if !game_exists {
            return Err(crate::errors::AppError::InvalidPath(self.game_path.clone()));
        }
        crate::config::Config::new(
            self.game_path.clone(),
            self.workshop_path.clone(),
            custom_mods_path,
        )
    }
}

/// How one keystroke changes a single-line editor.
#[derive(Clone, Copy, Debug, PartialEq, Eq, Structural)]
pub enum EditorKey {
    Insert(char),
    Backspace,
    Submit,
    Cancel,
    Ignore,
}

/// What the editor's caller does next.
#[derive(Clone, Copy, Debug, PartialEq, Eq, Structural)]
pub enum EditorOutcome {
    Editing,
    Committed,
    Cancelled,
}

/// A single-line text editor: the modal edit screens all run this state
/// machine, each with its own title and commit action.
pub struct LineEditor {
    pub buffer: String,
}

impl LineEditor {
    /// An editor over the given starting text.
    pub fn new(initial: String) -> (r: LineEditor)
        ensures
            r.buffer == initial,
    {
        LineEditor { buffer: initial }
    }

    /// Applies one keystroke: characters append, backspace removes the last
    /// character (nothing on an empty buffer), submit commits the buffer,
    /// cancel discards the session's edits; anything else changes nothing.
    pub fn apply(&mut self, key: EditorKey) -> (o: EditorOutcome)
        ensures
            key matches EditorKey::Insert(c) ==> final(self).buffer@ == old(self).buffer@.push(c)
                && o == EditorOutcome::Editing,
            key == EditorKey::Backspace ==> final(self).buffer@ == (if old(self).buffer@.len() == 0 {
                old(self).buffer@
            } else {
                old(self).buffer@.drop_last()
            }) && o == EditorOutcome::Editing,
            key == EditorKey::Submit ==> *final(self) == *old(self) && o
                == EditorOutcome::Committed,
            key == EditorKey::Cancel ==> *final(self) == *old(self) && o
                == EditorOutcome::Cancelled,
            key == EditorKey::Ignore ==> *final(self) == *old(self) && o
                == EditorOutcome::Editing,
    {
        match key {
            EditorKey::Insert(c) => {
                crate::strutil::push_char(&mut self.buffer, c);
                EditorOutcome::Editing
            },
            EditorKey::Backspace => {
                let _ = crate::strutil::pop_char(&mut self.buffer);
                EditorOutcome::Editing
            },
            EditorKey::Submit => EditorOutcome::Committed,
            EditorKey::Cancel => EditorOutcome::Cancelled,
            EditorKey::Ignore => EditorOutcome::Editing,
        }
    }
}

} // verus!
