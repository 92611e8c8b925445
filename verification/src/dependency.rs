use vstd::pervasive::VecAdditionalExecFns;
use vstd::prelude::*;

use crate::mods::{Mod, ModView};

verus! {

/// One required item of a mod, as the online listing reports it: ephemeral,
/// never persisted.
pub struct Dependency {
    pub id: String,
    pub name: String,
}

/// The mathematical image of a `Dependency`.
#[verifier::ext_equal]
pub struct DependencyView {
    pub id: Seq<char>,
    pub name: Seq<char>,
}

impl View for Dependency {
    type V = DependencyView;

    open spec fn view(&self) -> DependencyView {
        DependencyView { id: self.id@, name: self.name@ }
    }
}

impl DeepView for Dependency {
    type V = DependencyView;

    open spec fn deep_view(&self) -> DependencyView {
        self.view()
    }
}

/// How a required item relates to the local mod list.
#[derive(Clone, Copy, Debug, PartialEq, Eq, Structural)]
pub enum DependencyStatus {
    Missing,
    Disabled,
    Enabled,
}

/// Whether an online dependency check makes sense for a mod: only workshop
/// mods have a canonical online listing, Creator DLC and custom mods do not.
pub fn can_check_dependencies(m: &Mod) -> (r: bool)
    ensures
        r == (!m.is_cdlc && !m.is_custom),
{
    !m.is_cdlc && !m.is_custom
}

/// The identifiers of a dependency list.
pub open spec fn dep_ids(deps: Seq<Dependency>) -> Seq<Seq<char>> {
    deps.map_values(|d: Dependency| d.id@)
}

/// Classifies one required item against the local mod list: absent, or
/// present and disabled, or present and enabled (the first mod of that
/// identifier decides).
pub fn dependency_status(dep: &Dependency, mods: &Vec<Mod>) -> (r: DependencyStatus)
    ensures
        r == DependencyStatus::Missing <==> (forall|i: int|
            0 <= i < mods@.len() ==> mods@[i].identifier@ != dep.id@),
        r != DependencyStatus::Missing ==> exists|i: int|
            {
                &&& 0 <= i < mods@.len()
                &&& mods@[i].identifier@ == dep.id@
                &&& (r == DependencyStatus::Enabled <==> mods@[i].enabled)
                &&& forall|j: int| 0 <= j < i ==> #[trigger] mods@[j].identifier@ != dep.id@
            },
{
    let mut i: usize = 0;
    while i < mods.len()
        invariant
            i <= mods@.len(),
            forall|j: int| 0 <= j < i ==> mods@[j].identifier@ != dep.id@,
        decreases mods@.len() - i,
    {
        if mods[i].identifier.eq(&dep.id) {
            if mods[i].enabled {
                return DependencyStatus::Enabled;
            } else {
                return DependencyStatus::Disabled;
            }
        }
        i = i + 1;
    }
    DependencyStatus::Missing
}

/// Whether the dependency list names this identifier.
fn deps_contain(deps: &Vec<Dependency>, id: &String) -> (r: bool)
    ensures
        r == dep_ids(deps@).contains(id@),
{
    let mut i: usize = 0;
    while i < deps.len()
        invariant
            i <= deps@.len(),
            forall|j: int| 0 <= j < i ==> deps@[j].id@ != id@,
        decreases deps@.len() - i,
    {
        if deps[i].id.eq(id) {
            proof {
                assert(dep_ids(deps@)[i as int] == id@);
            }
            return true;
        }
        i = i + 1;
    }
    proof {
        assert forall|k: int| 0 <= k < dep_ids(deps@).len() implies dep_ids(deps@)[k] != id@ by {}
    }
    false
}

/// Enables, in memory, every installed mod that the dependency list names;
/// everything else about every mod stays as it was.  Nothing is persisted
/// here.
pub fn enable_installed_dependencies(mods: &mut Vec<Mod>, deps: &Vec<Dependency>)
    ensures
        final(mods)@.len() == old(mods)@.len(),
        forall|i: int|
            0 <= i < old(mods)@.len() ==> final(mods)@[i]@ == (ModView {
                enabled: old(mods)@[i].enabled || dep_ids(deps@).contains(
                    old(mods)@[i].identifier@,
                ),
                ..old(mods)@[i]@
            }),
{
    let mut i: usize = 0;
    while i < mods.len()
        invariant
            i <= mods@.len(),
            mods@.len() == old(mods)@.len(),
            forall|k: int| i <= k < mods@.len() ==> mods@[k] == old(mods)@[k],
            forall|k: int|
                0 <= k < i ==> mods@[k]@ == (ModView {
                    enabled: old(mods)@[k].enabled || dep_ids(deps@).contains(
                        old(mods)@[k].identifier@,
                    ),
                    ..old(mods)@[k]@
                }),
        decreases mods@.len() - i,
    {
        let required = deps_contain(deps, &mods[i].identifier);
        if required && !mods[i].enabled {
            let updated = Mod {
                identifier: mods[i].identifier.clone(),
                name: mods[i].name.clone(),
                enabled: true,
                is_cdlc: mods[i].is_cdlc,
                is_custom: mods[i].is_custom,
            };
            mods.set(i, updated);
        }
        i = i + 1;
    }
}

} // verus!
