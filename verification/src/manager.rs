use vstd::prelude::*;

use crate::config::Config;
use crate::mods::Mod;
use crate::paginator::Paginator;

verus! {

/// The configuration and the paginated mod list of one session.
pub struct ModManager {
    pub config: Config,
    pub loaded_mods: Paginator<Mod>,
}

impl ModManager {
    /// The structural invariant: a well-formed configuration and a
    /// well-formed paginator.
    pub open spec fn wf(self) -> bool {
        &&& self.config.wf()
        &&& self.loaded_mods.wf()
    }

    /// A manager over a configuration and the mods one discovery pass
    /// found, paged at the given size.
    pub fn new(config: Config, installed: Vec<Mod>, page_size: usize) -> (r: ModManager)
        requires
            page_size > 0,
            config.wf(),
        ensures
            r.config == config,
            r.loaded_mods.items@ == installed@,
            r.loaded_mods.page_size == page_size,
            r.loaded_mods.current_page == 0,
            r.wf(),
    {
        ModManager { config, loaded_mods: Paginator::new(installed, page_size) }
    }

    /// Replaces the mod list wholesale after a new discovery pass: the page
    /// size survives, the current page resets to the first.
    pub fn refresh_mods(&mut self, installed: Vec<Mod>)
        requires
            old(self).wf(),
        ensures
            final(self).wf(),
            final(self).config == old(self).config,
            final(self).loaded_mods.items@ == installed@,
            final(self).loaded_mods.page_size == old(self).loaded_mods.page_size,
            final(self).loaded_mods.current_page == 0,
    {
        let page_size = self.loaded_mods.page_size;
        self.loaded_mods = Paginator::new(installed, page_size);
    }
}

} // verus!
