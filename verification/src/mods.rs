use vstd::prelude::*;

verus! {

/// One unit of optional content, identified by its directory name.
#[derive(Debug, Clone)]
pub struct Mod {
    pub identifier: String,
    pub name: String,
    pub enabled: bool,
    pub is_cdlc: bool,
    pub is_custom: bool,
}

/// The mathematical image of a `Mod`.
#[verifier::ext_equal]
pub struct ModView {
    pub identifier: Seq<char>,
    pub name: Seq<char>,
    pub enabled: bool,
    pub is_cdlc: bool,
    pub is_custom: bool,
}

impl View for Mod {
    type V = ModView;

    open spec fn view(&self) -> ModView {
        ModView {
            identifier: self.identifier@,
            name: self.name@,
            enabled: self.enabled,
            is_cdlc: self.is_cdlc,
            is_custom: self.is_custom,
        }
    }
}

impl DeepView for Mod {
    type V = ModView;

    open spec fn deep_view(&self) -> ModView {
        self.view()
    }
}

impl Mod {
    /// A freshly discovered mod: not enabled yet.
    pub fn new(identifier: String, name: String, is_cdlc: bool, is_custom: bool) -> (r: Mod)
        ensures
            r@ == (ModView {
                identifier: identifier@,
                name: name@,
                enabled: false,
                is_cdlc,
                is_custom,
            }),
    {
        Mod { identifier, name, enabled: false, is_cdlc, is_custom }
    }

    /// The directory of this mod's content inside the given base directory.
    pub fn get_path(&self, path: &str) -> (r: String)
        ensures
            r@ == crate::utils::joined_path(path@, self.identifier@),
    {
        let mut s = path.to_owned();
        s.append("/");
        s.append(self.identifier.as_str());
        s
    }

    /// A copy of this mod with the same fields.
    pub fn duplicate(&self) -> (r: Mod)
        ensures
            r == *self,
    {
        Mod {
            identifier: self.identifier.clone(),
            name: self.name.clone(),
            enabled: self.enabled,
            is_cdlc: self.is_cdlc,
            is_custom: self.is_custom,
        }
    }
}

/// The display title of a Creator DLC short code, for the codes the game
/// knows; such content ships inside the game installation and takes part in
/// launch arguments but never gets a symlink.
pub open spec fn cdlc_title(code: Seq<char>) -> Option<Seq<char>> {
    if code == "GM"@ {
        Some("Global Mobilization"@)
    } else if code == "VN"@ {
        Some("S.O.G. Prairie Fire"@)
    } else if code == "CSLA"@ {
        Some("CSLA Iron Curtain"@)
    } else if code == "WS"@ {
        Some("Western Sahara"@)
    } else if code == "SPE"@ {
        Some("Spearhead 1944"@)
    } else if code == "RF"@ {
        Some("Reaction Forces"@)
    } else if code == "EF"@ {
        Some("Expeditionary Forces"@)
    } else {
        None
    }
}

/// Looks a directory name up in the Creator DLC table.
pub fn cdlc_name(code: &str) -> (r: Option<String>)
    ensures
        r is Some <==> cdlc_title(code@) is Some,
        r matches Some(n) ==> cdlc_title(code@) == Some(n@),
{
    if crate::strutil::str_eq(code, "GM") {
        Some("Global Mobilization".to_owned())
    } else if crate::strutil::str_eq(code, "VN") {
        Some("S.O.G. Prairie Fire".to_owned())
    } else if crate::strutil::str_eq(code, "CSLA") {
        Some("CSLA Iron Curtain".to_owned())
    } else if crate::strutil::str_eq(code, "WS") {
        Some("Western Sahara".to_owned())
    } else if crate::strutil::str_eq(code, "SPE") {
        Some("Spearhead 1944".to_owned())
    } else if crate::strutil::str_eq(code, "RF") {
        Some("Reaction Forces".to_owned())
    } else if crate::strutil::str_eq(code, "EF") {
        Some("Expeditionary Forces".to_owned())
    } else {
        None
    }
}

} // verus!
