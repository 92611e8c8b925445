use vstd::pervasive::VecAdditionalExecFns;
use vstd::prelude::*;

use crate::errors::{AppError, AppResult};
use crate::strutil::dec_rep;
use crate::utils::joined_path;

verus! {

/// One named, persisted list of mod identifiers.
#[derive(Debug)]
pub struct Preset {
    pub name: String,
    pub mods: Vec<String>,
}

/// The mathematical image of a `Preset`.
#[verifier::ext_equal]
pub struct PresetView {
    pub name: Seq<char>,
    pub mods: Seq<Seq<char>>,
}

impl View for Preset {
    type V = PresetView;

    open spec fn view(&self) -> PresetView {
        PresetView { name: self.name@, mods: self.mods.deep_view() }
    }
}

impl DeepView for Preset {
    type V = PresetView;

    open spec fn deep_view(&self) -> PresetView {
        self.view()
    }
}

/// No two presets share a name.
pub open spec fn unique_names(s: Seq<PresetView>) -> bool {
    forall|i: int, j: int| 0 <= i < j < s.len() ==> s[i].name != s[j].name
}

/// Whether a preset of that name exists.
pub open spec fn has_preset(s: Seq<PresetView>, n: Seq<char>) -> bool {
    exists|i: int| 0 <= i < s.len() && s[i].name == n
}

/// The position of the preset of that name (meaningful when one exists and
/// names are unique).
pub open spec fn idx_of(s: Seq<PresetView>, n: Seq<char>) -> int {
    choose|i: int| 0 <= i < s.len() && s[i].name == n
}

/// The mod list of the preset of that name.
pub open spec fn mods_of(s: Seq<PresetView>, n: Seq<char>) -> Seq<Seq<char>> {
    s[idx_of(s, n)].mods
}

/// Under unique names, any position holding the name is its position.
pub proof fn lemma_idx_unique(s: Seq<PresetView>, n: Seq<char>, k: int)
    requires
        unique_names(s),
        0 <= k < s.len(),
        s[k].name == n,
    ensures
        has_preset(s, n),
        idx_of(s, n) == k,
        s[idx_of(s, n)].name == n,
{
    assert(has_preset(s, n));
    let i = idx_of(s, n);
    assert(0 <= i < s.len() && s[i].name == n);
    if i < k {
        assert(s[i].name != s[k].name);
    } else if k < i {
        assert(s[k].name != s[i].name);
    }
}

/// One entry of a persisted enabled-mods array, which for backward
/// compatibility may hold strings or plain numbers; anything else in the
/// array is ignored.
pub enum RawModId {
    Text(String),
    Number(u64),
    Other,
}

/// The identifier strings of a raw enabled-mods array: strings kept,
/// numbers rendered in decimal, anything else dropped.
pub open spec fn normalized_ids(s: Seq<RawModId>) -> Seq<Seq<char>>
    decreases s.len(),
{
    if s.len() == 0 {
        Seq::empty()
    } else {
        let rest = normalized_ids(s.drop_last());
        match s.last() {
            RawModId::Text(t) => rest.push(t@),
            RawModId::Number(n) => rest.push(dec_rep(n as int)),
            RawModId::Other => rest,
        }
    }
}

/// A persisted configuration as it comes off disk, before migration:
/// optional fields may be absent and the enabled-mods array still has its
/// raw shape.
pub struct RawConfig {
    pub game_path: String,
    pub workshop_path: String,
    pub custom_mods_path: Option<String>,
    pub executable_name: Option<String>,
    pub enabled_mods: Vec<RawModId>,
    pub default_args: String,
    pub presets: Option<Vec<Preset>>,
    pub active_preset: Option<String>,
}

/// The manager's persisted settings: paths, launch arguments, and the named
/// presets of enabled mods.  `enabled_mods` mirrors the active preset's
/// list for backward compatibility.
#[derive(Debug)]
pub struct Config {
    pub game_path: String,
    pub workshop_path: String,
    pub custom_mods_path: Option<String>,
    pub executable_name: String,
    pub enabled_mods: Vec<String>,
    pub default_args: String,
    pub presets: Vec<Preset>,
    pub active_preset: String,
}

/// The default executable name of the game.
pub fn default_executable_name() -> (r: String)
    ensures
        r@ == "arma3"@,
{
    "arma3".to_owned()
}

/// Clones a vector of strings.
fn clone_strings(v: &Vec<String>) -> (r: Vec<String>)
    ensures
        r@ == v@,
{
    let mut r: Vec<String> = Vec::new();
    let mut i: usize = 0;
    while i < v.len()
        invariant
            i <= v@.len(),
            r@ == v@.take(i as int),
        decreases v@.len() - i,
    {
        r.push(v[i].clone());
        proof {
            assert(r@ =~= v@.take(i as int + 1));
        }
        i = i + 1;
    }
    proof {
        assert(v@.take(v@.len() as int) =~= v@);
    }
    r
}

/// The position of the preset of that name, or None: the first match.
fn find_by_name(presets: &Vec<Preset>, name: &String) -> (r: Option<usize>)
    ensures
        r is Some <==> has_preset(presets.deep_view(), name@),
        r matches Some(i) ==> i < presets@.len() && presets.deep_view()[i as int].name == name@,
{
    let mut i: usize = 0;
    while i < presets.len()
        invariant
            i <= presets@.len(),
            forall|k: int| 0 <= k < i ==> presets.deep_view()[k].name != name@,
        decreases presets@.len() - i,
    {
        if presets[i].name.eq(name) {
            proof {
                assert(presets.deep_view()[i as int].name == name@);
            }
            return Some(i);
        }
        i = i + 1;
    }
    proof {
        assert forall|k: int| 0 <= k < presets.deep_view().len() implies presets.deep_view()[k].name
            != name@ by {}
    }
    None
}

impl Config {
    /// The presets, as a sequence of their images.
    pub open spec fn presets_view(self) -> Seq<PresetView> {
        self.presets.deep_view()
    }

    /// The structural invariant: at least one preset, unique names, an
    /// active preset that exists, and the flat enabled-mods mirror equal to
    /// the active preset's list.
    pub open spec fn wf(self) -> bool {
        &&& self.presets_view().len() > 0
        &&& unique_names(self.presets_view())
        &&& has_preset(self.presets_view(), self.active_preset@)
        &&& self.enabled_mods.deep_view() == mods_of(self.presets_view(), self.active_preset@)
    }

    /// Whether two configurations agree on everything but presets, the
    /// active preset and the enabled-mods mirror.
    pub open spec fn same_settings(self, other: Config) -> bool {
        &&& self.game_path == other.game_path
        &&& self.workshop_path == other.workshop_path
        &&& self.custom_mods_path == other.custom_mods_path
        &&& self.executable_name == other.executable_name
        &&& self.default_args == other.default_args
    }

    /// Where the configuration is persisted, inside the given home
    /// directory.
    pub fn get_save_path(home_path: &str) -> (r: String)
        ensures
            r@ == joined_path(home_path@, "arma3-mod-manager-console-config.json"@),
    {
        let mut s = home_path.to_owned();
        s.append("/");
        s.append("arma3-mod-manager-console-config.json");
        s
    }

    /// A fresh configuration: given paths, the default executable name and
    /// launch arguments, no enabled mods, and a single empty preset named
    /// `Default`.
    pub fn new(game_path: String, workshop_path: String, custom_mods_path: Option<String>) -> (r:
        AppResult<Config>)
        ensures
            r matches Ok(c) ==> {
                &&& c.game_path == game_path
                &&& c.workshop_path == workshop_path
                &&& c.custom_mods_path == custom_mods_path
                &&& c.executable_name@ == "arma3"@
                &&& c.enabled_mods@.len() == 0
                &&& c.default_args@ == "-noSplash -skipIntro -world=empty"@
                &&& c.presets_view() =~~= seq![
                    PresetView { name: "Default"@, mods: Seq::empty() },
                ]
                &&& c.active_preset@ == "Default"@
                &&& c.wf()
            },
            r is Ok,
    {
        let preset = Preset { name: "Default".to_owned(), mods: Vec::new() };
        let mut presets: Vec<Preset> = Vec::new();
        presets.push(preset);
        let c = Config {
            game_path,
            workshop_path,
            custom_mods_path,
            executable_name: default_executable_name(),
            enabled_mods: Vec::new(),
            default_args: "-noSplash -skipIntro -world=empty".to_owned(),
            presets,
            active_preset: "Default".to_owned(),
        };
        proof {
            lemma_idx_unique(c.presets_view(), c.active_preset@, 0);
            assert(c.enabled_mods.deep_view() =~= mods_of(c.presets_view(), c.active_preset@));
        }
        Ok(c)
    }

    /// Checks the two mandatory paths, given whether each exists on disk;
    /// the workshop path is reported first.
    pub fn valid(&self, workshop_exists: bool, game_exists: bool) -> (r: AppResult<()>)
        ensures
            r is Ok <==> workshop_exists && game_exists,
            !workshop_exists ==> (r matches Err(e) && e matches AppError::InvalidPath(p)
                && p@ == self.workshop_path@),
            workshop_exists && !game_exists ==> (r matches Err(e)
                && e matches AppError::InvalidPath(p) && p@ == self.game_path@),
    {
        if !workshop_exists {
            return Err(AppError::InvalidPath(self.workshop_path.clone()));
        }
        if !game_exists {
            return Err(AppError::InvalidPath(self.game_path.clone()));
        }
        Ok(())
    }

    /// The enabled-mods list (the active preset's list).
    pub fn get_enabled_mods(&self) -> (r: Vec<String>)
        ensures
            r@ == self.enabled_mods@,
    {
        clone_strings(&self.enabled_mods)
    }

    /// Writes the list into the active preset and its flat mirror.
    pub fn update_mods(&mut self, mods: Vec<String>)
        requires
            old(self).wf(),
        ensures
            final(self).wf(),
            final(self).same_settings(*old(self)),
            final(self).active_preset == old(self).active_preset,
            final(self).enabled_mods@ == mods@,
            final(self).presets_view() == old(self).presets_view().update(
                idx_of(old(self).presets_view(), old(self).active_preset@),
                PresetView {
                    name: old(self).active_preset@,
                    mods: mods.deep_view(),
                },
            ),
    {
        let idx = match find_by_name(&self.presets, &self.active_preset) {
            Some(i) => i,
            None => {
                proof {
                    assert(false);
                }
                0
            },
        };
        proof {
            lemma_idx_unique(self.presets_view(), self.active_preset@, idx as int);
        }
        let entry = Preset { name: self.active_preset.clone(), mods: clone_strings(&mods) };
        self.presets.set(idx, entry);
        self.enabled_mods = mods;
        proof {
            let s = old(self).presets_view();
            let i = idx_of(s, old(self).active_preset@);
            assert(self.presets_view() =~= s.update(
                i,
                PresetView {
                    name: old(self).active_preset@,
                    mods: self.enabled_mods.deep_view(),
                },
            ));
            lemma_idx_unique(self.presets_view(), self.active_preset@, i);
        }
    }

    /// The game installation directory.
    pub fn get_game_path(&self) -> (r: &str)
        ensures
            r@ == self.game_path@,
    {
        self.game_path.as_str()
    }

    /// The workshop content directory.
    pub fn get_workshop_path(&self) -> (r: &str)
        ensures
            r@ == self.workshop_path@,
    {
        self.workshop_path.as_str()
    }

    /// The custom mods directory, where one is configured.
    pub fn get_custom_mods_path(&self) -> (r: Option<&str>)
        ensures
            r is Some <==> self.custom_mods_path is Some,
            r matches Some(p) ==> self.custom_mods_path matches Some(q) && p@ == q@,
    {
        match &self.custom_mods_path {
            Some(p) => Some(p.as_str()),
            None => None,
        }
    }

    /// The executable's configured name.
    pub fn get_executable_name(&self) -> (r: &str)
        ensures
            r@ == self.executable_name@,
    {
        self.executable_name.as_str()
    }

    /// Replaces the executable's configured name.
    pub fn set_executable_name(&mut self, name: String)
        ensures
            *final(self) == (Config { executable_name: name, ..*old(self) }),
    {
        self.executable_name = name;
    }

    /// The free-form launch arguments.
    pub fn get_default_args(&self) -> (r: &str)
        ensures
            r@ == self.default_args@,
    {
        self.default_args.as_str()
    }

    /// Replaces the free-form launch arguments.
    pub fn set_default_args(&mut self, args: String)
        ensures
            *final(self) == (Config { default_args: args, ..*old(self) }),
    {
        self.default_args = args;
    }

    /// Inserts a preset, or overwrites the one of that name; the mirror
    /// follows when the active preset is the one written.
    pub fn save_preset(&mut self, name: String, mods: Vec<String>)
        requires
            old(self).wf(),
        ensures
            final(self).wf(),
            final(self).same_settings(*old(self)),
            final(self).active_preset == old(self).active_preset,
            has_preset(old(self).presets_view(), name@) ==> final(self).presets_view() == old(self).presets_view().update(
                idx_of(old(self).presets_view(), name@),
                PresetView { name: name@, mods: mods.deep_view() },
            ),
            !has_preset(old(self).presets_view(), name@) ==> final(self).presets_view() == old(self).presets_view().push(PresetView { name: name@, mods: mods.deep_view() }),
            name@ == old(self).active_preset@ ==> final(self).enabled_mods@ == mods@,
            name@ != old(self).active_preset@ ==> final(self).enabled_mods == old(self).enabled_mods,
    {
        let ghost opv = self.presets_view();
        let is_active = name.eq(&self.active_preset);
        match find_by_name(&self.presets, &name) {
            Some(i) => {
                proof {
                    lemma_idx_unique(opv, name@, i as int);
                }
                let entry = Preset { name: name.clone(), mods: clone_strings(&mods) };
                self.presets.set(i, entry);
                proof {
                    assert(self.presets_view() =~~= opv.update(
                        i as int,
                        PresetView { name: name@, mods: mods.deep_view() },
                    ));
                }
            },
            None => {
                let entry = Preset { name: name.clone(), mods: clone_strings(&mods) };
                self.presets.push(entry);
                proof {
                    assert(self.presets_view() =~~= opv.push(
                        PresetView { name: name@, mods: mods.deep_view() },
                    ));
                }
            },
        }
        if is_active {
            self.enabled_mods = mods;
        }
        proof {
            let npv = self.presets_view();
            assert(unique_names(npv)) by {
                assert forall|a: int, b: int| 0 <= a < b < npv.len() implies npv[a].name
                    != npv[b].name by {
                    if has_preset(opv, name@) {
                        let i = idx_of(opv, name@);
                        lemma_idx_unique(opv, name@, i);
                    } else {
                        if b == npv.len() - 1 && npv.len() == opv.len() + 1 {
                            assert(npv[a] == opv[a]);
                            assert(!has_preset(opv, name@));
                            if npv[a].name == name@ {
                                assert(has_preset(opv, name@));
                            }
                        }
                    }
                }
            }
            if self.active_preset@ == name@ {
                if has_preset(opv, name@) {
                    lemma_idx_unique(npv, name@, idx_of(opv, name@));
                } else {
                    lemma_idx_unique(npv, name@, npv.len() - 1);
                }
                assert(self.enabled_mods.deep_view() =~= mods_of(npv, self.active_preset@));
            } else {
                let k = idx_of(opv, self.active_preset@);
                lemma_idx_unique(opv, self.active_preset@, k);
                assert(npv[k].name == self.active_preset@);
                lemma_idx_unique(npv, self.active_preset@, k);
                assert(self.enabled_mods.deep_view() =~= mods_of(npv, self.active_preset@));
            }
        }
    }

    /// Moves the mod list under the new name.  Fails, changing nothing,
    /// when the old name is unknown; renaming onto an existing name
    /// replaces that preset.  The active preset follows a rename of itself,
    /// and the mirror follows the list that lands under the active name.
    pub fn rename_preset(&mut self, old_name: &String, new_name: String) -> (r: bool)
        requires
            old(self).wf(),
        ensures
            final(self).wf(),
            final(self).same_settings(*old(self)),
            r == has_preset(old(self).presets_view(), old_name@),
            !r ==> *final(self) == *old(self),
            r && old_name@ == new_name@ ==> *final(self) == *old(self),
            r && old_name@ != new_name@ && !has_preset(old(self).presets_view(), new_name@) ==> {
                let opv = old(self).presets_view();
                let i = idx_of(opv, old_name@);
                &&& final(self).presets_view() == opv.update(
                    i,
                    PresetView { name: new_name@, mods: opv[i].mods },
                )
                &&& final(self).active_preset@ == if old(self).active_preset@ == old_name@ {
                    new_name@
                } else {
                    old(self).active_preset@
                }
                &&& final(self).enabled_mods.deep_view() == old(self).enabled_mods.deep_view()
            },
            r && old_name@ != new_name@ && has_preset(old(self).presets_view(), new_name@) ==> {
                let opv = old(self).presets_view();
                let i = idx_of(opv, old_name@);
                let j = idx_of(opv, new_name@);
                &&& final(self).presets_view() == opv.update(
                    i,
                    PresetView { name: new_name@, mods: opv[i].mods },
                ).remove(j)
                &&& final(self).active_preset@ == if old(self).active_preset@ == old_name@ {
                    new_name@
                } else {
                    old(self).active_preset@
                }
                &&& final(self).enabled_mods.deep_view() == if old(self).active_preset@
                    == old_name@ || old(self).active_preset@ == new_name@ {
                    opv[i].mods
                } else {
                    old(self).enabled_mods.deep_view()
                }
            },
    {
        let ghost opv = self.presets_view();
        let i = match find_by_name(&self.presets, old_name) {
            Some(i) => i,
            None => { return false },
        };
        proof {
            lemma_idx_unique(opv, old_name@, i as int);
        }
        if old_name.eq(&new_name) {
            return true;
        }
        let j_found = find_by_name(&self.presets, &new_name);
        let moved_mods = clone_strings(&self.presets[i].mods);
        let was_active_old = self.active_preset.eq(old_name);
        let was_active_new = self.active_preset.eq(&new_name);
        let entry = Preset { name: new_name.clone(), mods: moved_mods };
        self.presets.set(i, entry);
        proof {
            assert(self.presets_view() =~~= opv.update(
                i as int,
                PresetView { name: new_name@, mods: opv[i as int].mods },
            ));
        }
        let ghost upd = self.presets_view();
        match j_found {
            Some(j) => {
                proof {
                    lemma_idx_unique(opv, new_name@, j as int);
                    assert(i != j);
                }
                self.presets.remove(j);
                proof {
                    assert(self.presets_view() =~~= upd.remove(j as int));
                }
            },
            None => {},
        }
        if was_active_old {
            self.active_preset = new_name;
        }
        if was_active_old || was_active_new {
            let a = match find_by_name(&self.presets, &self.active_preset) {
                Some(a) => a,
                None => {
                    proof {
                        lemma_rename_shape(
                            opv,
                            old_name@,
                            new_name@,
                            self.presets_view(),
                            i as int,
                            j_found matches Some(_),
                        );
                        assert(false);
                    }
                    0
                },
            };
            self.enabled_mods = clone_strings(&self.presets[a].mods);
        }
        proof {
            lemma_rename_shape(
                opv,
                old_name@,
                new_name@,
                self.presets_view(),
                i as int,
                j_found matches Some(_),
            );
            let npv = self.presets_view();
            if was_active_old || was_active_new {
                let a0 = choose|a0: int| 0 <= a0 < npv.len() && npv[a0].name == new_name@;
                lemma_idx_unique(npv, new_name@, a0);
                assert(self.enabled_mods.deep_view() =~= mods_of(npv, self.active_preset@));
            } else {
                let k = idx_of(opv, self.active_preset@);
                lemma_idx_unique(opv, self.active_preset@, k);
                assert(has_preset(npv, self.active_preset@) && mods_of(npv, self.active_preset@)
                    == opv[k].mods) by {
                    lemma_rename_keeps_others(
                        opv,
                        old_name@,
                        new_name@,
                        npv,
                        i as int,
                        j_found matches Some(_),
                        self.active_preset@,
                    );
                }
                assert(self.enabled_mods.deep_view() =~= mods_of(npv, self.active_preset@));
            }
        }
        true
    }

    /// Removes a preset.  Fails, changing nothing, when it is the sole
    /// remaining preset or when the name is unknown.  Deleting the active
    /// preset re-points activity at the first remaining preset and resyncs
    /// the mirror.
    pub fn delete_preset(&mut self, name: &String) -> (r: bool)
        requires
            old(self).wf(),
        ensures
            final(self).wf(),
            final(self).same_settings(*old(self)),
            r == (old(self).presets_view().len() > 1 && has_preset(
                old(self).presets_view(),
                name@,
            )),
            !r ==> *final(self) == *old(self),
            r ==> final(self).presets_view() == old(self).presets_view().remove(
                idx_of(old(self).presets_view(), name@),
            ),
            r && old(self).active_preset@ == name@ ==> {
                &&& final(self).active_preset@ == final(self).presets_view()[0].name
                &&& final(self).enabled_mods.deep_view() == final(self).presets_view()[0].mods
            },
            r && old(self).active_preset@ != name@ ==> {
                &&& final(self).active_preset == old(self).active_preset
                &&& final(self).enabled_mods == old(self).enabled_mods
            },
    {
        let ghost opv = self.presets_view();
        if self.presets.len() <= 1 {
            return false;
        }
        let i = match find_by_name(&self.presets, name) {
            Some(i) => i,
            None => { return false },
        };
        proof {
            lemma_idx_unique(opv, name@, i as int);
        }
        self.presets.remove(i);
        proof {
            assert(self.presets_view() =~~= opv.remove(i as int));
        }
        let ghost npv = self.presets_view();
        proof {
            assert(unique_names(npv)) by {
                assert forall|a: int, b: int| 0 <= a < b < npv.len() implies npv[a].name
                    != npv[b].name by {
                    let a0 = if a < i as int {
                        a
                    } else {
                        a + 1
                    };
                    let b0 = if b < i as int {
                        b
                    } else {
                        b + 1
                    };
                    assert(npv[a] == opv[a0] && npv[b] == opv[b0]);
                }
            }
        }
        if self.active_preset.eq(name) {
            self.active_preset = self.presets[0].name.clone();
            self.enabled_mods = clone_strings(&self.presets[0].mods);
            proof {
                lemma_idx_unique(npv, npv[0].name, 0);
                assert(self.enabled_mods.deep_view() =~= mods_of(npv, self.active_preset@));
            }
        } else {
            proof {
                let k = idx_of(opv, self.active_preset@);
                lemma_idx_unique(opv, self.active_preset@, k);
                let k1 = if k < i as int {
                    k
                } else {
                    k - 1
                };
                assert(npv[k1] == opv[k]);
                lemma_idx_unique(npv, self.active_preset@, k1);
                assert(self.enabled_mods.deep_view() =~= mods_of(npv, self.active_preset@));
            }
        }
        true
    }

    /// Switches the active preset and resyncs the mirror; a no-op when the
    /// name is unknown.
    pub fn set_active_preset(&mut self, name: &String) -> (r: bool)
        requires
            old(self).wf(),
        ensures
            final(self).wf(),
            final(self).same_settings(*old(self)),
            r == has_preset(old(self).presets_view(), name@),
            !r ==> *final(self) == *old(self),
            r ==> {
                &&& final(self).presets_view() == old(self).presets_view()
                &&& final(self).active_preset@ == name@
                &&& final(self).enabled_mods.deep_view() == mods_of(
                    old(self).presets_view(),
                    name@,
                )
            },
    {
        let ghost opv = self.presets_view();
        let i = match find_by_name(&self.presets, name) {
            Some(i) => i,
            None => { return false },
        };
        proof {
            lemma_idx_unique(opv, name@, i as int);
        }
        self.active_preset = name.clone();
        self.enabled_mods = clone_strings(&self.presets[i].mods);
        proof {
            lemma_idx_unique(self.presets_view(), name@, i as int);
            assert(self.enabled_mods.deep_view() =~= mods_of(opv, name@));
        }
        true
    }
}

/// Renders a raw enabled-mods array as identifier strings: strings kept,
/// numbers rendered in decimal, anything else dropped.
pub fn normalize_mod_ids(ids: &Vec<RawModId>) -> (r: Vec<String>)
    ensures
        r.deep_view() == normalized_ids(ids@),
{
    let mut r: Vec<String> = Vec::new();
    let mut t: usize = 0;
    proof {
        assert(ids@.take(0) =~= Seq::<RawModId>::empty());
        assert(r.deep_view() =~= normalized_ids(ids@.take(0)));
    }
    while t < ids.len()
        invariant
            t <= ids@.len(),
            r.deep_view() == normalized_ids(ids@.take(t as int)),
        decreases ids@.len() - t,
    {
        let ghost before = r.deep_view();
        match &ids[t] {
            RawModId::Text(s) => {
                r.push(s.clone());
                proof {
                    assert(r.deep_view() =~= before.push(s@));
                }
            },
            RawModId::Number(n) => {
                r.push(crate::strutil::decimal_string(*n));
                proof {
                    assert(r.deep_view() =~= before.push(dec_rep(*n as int)));
                }
            },
            RawModId::Other => {},
        }
        proof {
            assert(ids@.take(t as int + 1).drop_last() =~= ids@.take(t as int));
            assert(ids@.take(t as int + 1).last() == ids@[t as int]);
            assert(r.deep_view() =~= normalized_ids(ids@.take(t as int + 1)));
        }
        t = t + 1;
    }
    proof {
        assert(ids@.take(ids@.len() as int) =~= ids@);
    }
    r
}

impl Config {
    /// A persisted configuration after migration: absent fields filled with
    /// their defaults, the raw enabled-mods array normalized, a legacy
    /// shape (no presets) upgraded to a single `Default` preset holding the
    /// legacy list, and an unknown active name corrected to the first
    /// preset.
    pub fn from_raw(raw: RawConfig) -> (c: Config)
        requires
            raw.presets matches Some(ps) ==> unique_names(ps.deep_view()),
        ensures
            c.wf(),
            c.game_path == raw.game_path,
            c.workshop_path == raw.workshop_path,
            c.custom_mods_path == raw.custom_mods_path,
            c.default_args == raw.default_args,
            c.executable_name@ == match raw.executable_name {
                Some(n) => n@,
                None => "arma3"@,
            },
            raw.executable_name matches Some(n) ==> c.executable_name == n,
            (match raw.presets {
                None => true,
                Some(ps) => ps.deep_view().len() == 0,
            }) ==> {
                &&& c.presets_view() =~~= seq![
                    PresetView { name: "Default"@, mods: normalized_ids(raw.enabled_mods@) },
                ]
                &&& c.active_preset@ == "Default"@
                &&& c.enabled_mods.deep_view() == normalized_ids(raw.enabled_mods@)
            },
            (raw.presets matches Some(ps) && ps.deep_view().len() > 0) ==> {
                let ps = raw.presets->0;
                let cand = match raw.active_preset {
                    Some(a) => a@,
                    None => "Default"@,
                };
                &&& c.presets_view() == ps.deep_view()
                &&& has_preset(ps.deep_view(), cand) ==> c.active_preset@ == cand
                &&& !has_preset(ps.deep_view(), cand) ==> c.active_preset@ == ps.deep_view()[0].name
                &&& c.enabled_mods.deep_view() == mods_of(ps.deep_view(), c.active_preset@)
            },
    {
        let RawConfig {
            game_path,
            workshop_path,
            custom_mods_path,
            executable_name,
            enabled_mods,
            default_args,
            presets,
            active_preset,
        } = raw;
        let executable_name = match executable_name {
            Some(n) => n,
            None => default_executable_name(),
        };
        let legacy = match &presets {
            None => true,
            Some(ps) => ps.len() == 0,
        };
        if legacy {
            let normalized = normalize_mod_ids(&enabled_mods);
            let mirror = clone_strings(&normalized);
            let mut new_presets: Vec<Preset> = Vec::new();
            new_presets.push(Preset { name: "Default".to_owned(), mods: normalized });
            let c = Config {
                game_path,
                workshop_path,
                custom_mods_path,
                executable_name,
                enabled_mods: mirror,
                default_args,
                presets: new_presets,
                active_preset: "Default".to_owned(),
            };
            proof {
                assert(c.presets_view() =~~= seq![
                    PresetView { name: "Default"@, mods: normalized_ids(enabled_mods@) },
                ]);
                lemma_idx_unique(c.presets_view(), c.active_preset@, 0);
                assert(c.enabled_mods.deep_view() =~= mods_of(c.presets_view(), c.active_preset@));
            }
            c
        } else {
            let ps = match presets {
                Some(ps) => ps,
                None => Vec::new(),
            };
            let cand = match active_preset {
                Some(a) => a,
                None => "Default".to_owned(),
            };
            let (active, mirror) = match find_by_name(&ps, &cand) {
                Some(i) => {
                    proof {
                        lemma_idx_unique(ps.deep_view(), cand@, i as int);
                    }
                    let m = clone_strings(&ps[i].mods);
                    (cand, m)
                },
                None => {
                    proof {
                        lemma_idx_unique(ps.deep_view(), ps.deep_view()[0].name, 0);
                    }
                    let m = clone_strings(&ps[0].mods);
                    (ps[0].name.clone(), m)
                },
            };
            let c = Config {
                game_path,
                workshop_path,
                custom_mods_path,
                executable_name,
                enabled_mods: mirror,
                default_args,
                presets: ps,
                active_preset: active,
            };
            proof {
                assert(c.enabled_mods.deep_view() =~= mods_of(c.presets_view(), c.active_preset@));
            }
            c
        }
    }
}

impl Config {
    /// The raw shape this configuration persists as: every optional field
    /// present, the enabled-mods array all strings.
    pub fn to_raw(&self) -> (r: RawConfig)
        ensures
            r.game_path == self.game_path,
            r.workshop_path == self.workshop_path,
            r.custom_mods_path == self.custom_mods_path,
            r.executable_name == Some(self.executable_name),
            r.default_args == self.default_args,
            normalized_ids(r.enabled_mods@) == self.enabled_mods.deep_view(),
            r.presets matches Some(ps) && ps.deep_view() == self.presets_view(),
            r.active_preset == Some(self.active_preset),
    {
        let mut enabled_mods: Vec<RawModId> = Vec::new();
        let mut i: usize = 0;
        proof {
            assert(enabled_mods@.take(0) =~= Seq::<RawModId>::empty());
            assert(normalized_ids(enabled_mods@) =~= self.enabled_mods.deep_view().take(0));
        }
        while i < self.enabled_mods.len()
            invariant
                i <= self.enabled_mods@.len(),
                normalized_ids(enabled_mods@) == self.enabled_mods.deep_view().take(i as int),
            decreases self.enabled_mods@.len() - i,
        {
            let ghost before = enabled_mods@;
            enabled_mods.push(RawModId::Text(self.enabled_mods[i].clone()));
            proof {
                assert(enabled_mods@.drop_last() =~= before);
                assert(normalized_ids(enabled_mods@) =~= self.enabled_mods.deep_view().take(
                    i as int + 1,
                ));
            }
            i = i + 1;
        }
        proof {
            assert(self.enabled_mods.deep_view().take(self.enabled_mods.deep_view().len() as int)
                =~= self.enabled_mods.deep_view());
        }
        let mut presets: Vec<Preset> = Vec::new();
        let mut p: usize = 0;
        while p < self.presets.len()
            invariant
                p <= self.presets@.len(),
                presets@.len() == p,
                forall|k: int| 0 <= k < p ==> presets@[k]@ == self.presets@[k]@,
            decreases self.presets@.len() - p,
        {
            presets.push(
                Preset {
                    name: self.presets[p].name.clone(),
                    mods: clone_strings(&self.presets[p].mods),
                },
            );
            p = p + 1;
        }
        proof {
            assert(presets.deep_view() =~~= self.presets_view());
        }
        let custom_mods_path = match &self.custom_mods_path {
            Some(path) => Some(path.clone()),
            None => None,
        };
        RawConfig {
            game_path: self.game_path.clone(),
            workshop_path: self.workshop_path.clone(),
            custom_mods_path,
            executable_name: Some(self.executable_name.clone()),
            enabled_mods,
            default_args: self.default_args.clone(),
            presets: Some(presets),
            active_preset: Some(self.active_preset.clone()),
        }
    }

    /// The persistence round trip: the configuration that migration yields
    /// from this configuration's own raw shape.  It agrees with the
    /// original on every observable field, so a save followed by a reload
    /// restores the configuration.
    pub fn reloaded(&self) -> (r: Config)
        requires
            self.wf(),
        ensures
            r.wf(),
            r.same_settings(*self),
            r.presets_view() == self.presets_view(),
            r.active_preset@ == self.active_preset@,
            r.enabled_mods.deep_view() == self.enabled_mods.deep_view(),
    {
        let raw = self.to_raw();
        let r = Config::from_raw(raw);
        proof {
            let k = idx_of(self.presets_view(), self.active_preset@);
            lemma_idx_unique(self.presets_view(), self.active_preset@, k);
        }
        r
    }
}

/// The preset invariant: a well-formed configuration always has at least
/// one preset, and its active name is always one of them.  Every operation
/// that changes presets keeps well-formedness, so this holds after any
/// sequence of saves, renames and deletes.
pub proof fn lemma_preset_invariant(c: Config)
    requires
        c.wf(),
    ensures
        c.presets_view().len() > 0,
        has_preset(c.presets_view(), c.active_preset@),
{
}

/// After a rename, the new presets hold the new name exactly once (at the
/// old entry's position, adjusted for a removed clobbered entry), the old
/// name nowhere, and names stay unique.
proof fn lemma_rename_shape(
    opv: Seq<PresetView>,
    n_old: Seq<char>,
    n_new: Seq<char>,
    npv: Seq<PresetView>,
    i: int,
    clobbered: bool,
)
    requires
        unique_names(opv),
        0 <= i < opv.len(),
        opv[i].name == n_old,
        n_old != n_new,
        clobbered == has_preset(opv, n_new),
        clobbered ==> npv == opv.update(
            i,
            PresetView { name: n_new, mods: opv[i].mods },
        ).remove(idx_of(opv, n_new)),
        !clobbered ==> npv == opv.update(i, PresetView { name: n_new, mods: opv[i].mods }),
    ensures
        unique_names(npv),
        has_preset(npv, n_new),
        mods_of(npv, n_new) == opv[i].mods,
        !has_preset(npv, n_old),
{
    let upd = opv.update(i, PresetView { name: n_new, mods: opv[i].mods });
    lemma_idx_unique(opv, n_old, i);
    if clobbered {
        let j = idx_of(opv, n_new);
        lemma_idx_unique(opv, n_new, j);
        assert(i != j);
        assert(unique_names(npv)) by {
            assert forall|a: int, b: int| 0 <= a < b < npv.len() implies npv[a].name
                != npv[b].name by {
                let a0 = if a < j {
                    a
                } else {
                    a + 1
                };
                let b0 = if b < j {
                    b
                } else {
                    b + 1
                };
                assert(npv[a] == upd[a0] && npv[b] == upd[b0]);
            }
        }
        let i1 = if i < j {
            i
        } else {
            i - 1
        };
        assert(npv[i1] == upd[i]);
        lemma_idx_unique(npv, n_new, i1);
        assert forall|k: int| 0 <= k < npv.len() implies npv[k].name != n_old by {
            let k0 = if k < j {
                k
            } else {
                k + 1
            };
            assert(npv[k] == upd[k0]);
            if k0 != i {
                assert(upd[k0] == opv[k0]);
                if opv[k0].name == n_old {
                    lemma_idx_unique(opv, n_old, k0);
                }
            }
        }
    } else {
        assert(unique_names(npv)) by {
            assert forall|a: int, b: int| 0 <= a < b < npv.len() implies npv[a].name
                != npv[b].name by {
                if a != i && b != i {
                } else if a == i {
                    if npv[b].name == n_new {
                        lemma_idx_unique(opv, n_new, b);
                    }
                } else {
                    if npv[a].name == n_new {
                        lemma_idx_unique(opv, n_new, a);
                    }
                }
            }
        }
        lemma_idx_unique(npv, n_new, i);
        assert forall|k: int| 0 <= k < npv.len() implies npv[k].name != n_old by {
            if k != i {
                if opv[k].name == n_old {
                    lemma_idx_unique(opv, n_old, k);
                }
            }
        }
    }
}

/// A rename leaves every preset of another name in place, with its mods.
proof fn lemma_rename_keeps_others(
    opv: Seq<PresetView>,
    n_old: Seq<char>,
    n_new: Seq<char>,
    npv: Seq<PresetView>,
    i: int,
    clobbered: bool,
    other: Seq<char>,
)
    requires
        unique_names(opv),
        0 <= i < opv.len(),
        opv[i].name == n_old,
        n_old != n_new,
        clobbered == has_preset(opv, n_new),
        clobbered ==> npv == opv.update(
            i,
            PresetView { name: n_new, mods: opv[i].mods },
        ).remove(idx_of(opv, n_new)),
        !clobbered ==> npv == opv.update(i, PresetView { name: n_new, mods: opv[i].mods }),
        other != n_old,
        other != n_new,
        has_preset(opv, other),
    ensures
        has_preset(npv, other),
        mods_of(npv, other) == mods_of(opv, other),
{
    lemma_rename_shape(opv, n_old, n_new, npv, i, clobbered);
    let k = idx_of(opv, other);
    lemma_idx_unique(opv, other, k);
    assert(k != i);
    let upd = opv.update(i, PresetView { name: n_new, mods: opv[i].mods });
    if clobbered {
        let j = idx_of(opv, n_new);
        lemma_idx_unique(opv, n_new, j);
        assert(k != j);
        let k1 = if k < j {
            k
        } else {
            k - 1
        };
        assert(npv[k1] == upd[k]);
        lemma_idx_unique(npv, other, k1);
    } else {
        lemma_idx_unique(npv, other, k);
    }
}

} // verus!
