use vstd::multiset::Multiset;
use vstd::prelude::*;

use crate::mods::{cdlc_name, cdlc_title, Mod, ModView};
use crate::strutil::{contains_string, lex_le, push_char, str_lex_le};
use crate::strutil::{lemma_lex_le_total, lemma_lex_le_trans};
use crate::utils::{titleize, titleized};

verus! {

/// Whether a character counts as whitespace for the metadata scan: the
/// characters with the Unicode White_Space property.
pub open spec fn is_ws(c: char) -> bool {
    let u = c as u32;
    ||| u == 0x9
    ||| u == 0xA
    ||| u == 0xB
    ||| u == 0xC
    ||| u == 0xD
    ||| u == 0x20
    ||| u == 0x85
    ||| u == 0xA0
    ||| u == 0x1680
    ||| (0x2000 <= u && u <= 0x200A)
    ||| u == 0x2028
    ||| u == 0x2029
    ||| u == 0x202F
    ||| u == 0x205F
    ||| u == 0x3000
}

fn is_ws_char(c: char) -> (r: bool)
    ensures
        r == is_ws(c),
{
    let u = c as u32;
    u == 0x9 || u == 0xA || u == 0xB || u == 0xC || u == 0xD || u == 0x20 || u == 0x85 || u == 0xA0
        || u == 0x1680 || (0x2000 <= u && u <= 0x200A) || u == 0x2028 || u == 0x2029 || u == 0x202F
        || u == 0x205F || u == 0x3000
}

/// The first position at or after `i` whose character is not whitespace, or
/// the end of the sequence.
pub open spec fn skip_ws(s: Seq<char>, i: int) -> int
    decreases s.len() - i,
{
    if i < 0 || i >= s.len() {
        i
    } else if is_ws(s[i]) {
        skip_ws(s, i + 1)
    } else {
        i
    }
}

/// `skip_ws` is the unique position after a whitespace run.
proof fn lemma_skip_ws_char(s: Seq<char>, i: int, j: int)
    requires
        0 <= i <= j <= s.len(),
        forall|k: int| i <= k < j ==> is_ws(s[k]),
        j == s.len() || !is_ws(s[j]),
    ensures
        skip_ws(s, i) == j,
    decreases j - i,
{
    if i < j {
        lemma_skip_ws_char(s, i + 1, j);
    }
}

/// The first position at or after `i` holding a double quote, or the end of
/// the sequence.
pub open spec fn quote_end(s: Seq<char>, i: int) -> int
    decreases s.len() - i,
{
    if i < 0 || i >= s.len() {
        i
    } else if s[i] == '"' {
        i
    } else {
        quote_end(s, i + 1)
    }
}

/// `quote_end` is the unique position after a quote-free run.
proof fn lemma_quote_end_char(s: Seq<char>, i: int, j: int)
    requires
        0 <= i <= j <= s.len(),
        forall|k: int| i <= k < j ==> s[k] != '"',
        j == s.len() || s[j] == '"',
    ensures
        quote_end(s, i) == j,
    decreases j - i,
{
    if i < j {
        lemma_quote_end_char(s, i + 1, j);
    }
}

/// Whether a `name = "..."` assignment with a non-empty quoted value starts
/// at position `i`: the word `name`, optional whitespace, `=`, optional
/// whitespace, then a quoted run of at least one non-quote character.
pub open spec fn match_at(s: Seq<char>, i: int) -> bool {
    let j = skip_ws(s, i + 4);
    let k = skip_ws(s, j + 1);
    let m = quote_end(s, k + 1);
    &&& 0 <= i
    &&& i + 4 <= s.len()
    &&& s.subrange(i, i + 4) == "name"@
    &&& j < s.len() && s[j] == '='
    &&& k < s.len() && s[k] == '"'
    &&& m < s.len() && m > k + 1
}

/// The quoted value of the assignment starting at `i`.
pub open spec fn capture_at(s: Seq<char>, i: int) -> Seq<char>
    recommends
        match_at(s, i),
{
    let j = skip_ws(s, i + 4);
    let k = skip_ws(s, j + 1);
    let m = quote_end(s, k + 1);
    s.subrange(k + 1, m)
}

/// Whether the text holds a `name = "..."` assignment anywhere.
pub open spec fn has_name_match(s: Seq<char>) -> bool {
    exists|i: int| match_at(s, i)
}

/// The position of the first `name = "..."` assignment.
pub open spec fn first_match_index(s: Seq<char>) -> int {
    choose|i: int| match_at(s, i) && (forall|j: int| 0 <= j < i ==> !match_at(s, j))
}

/// A position that matches, before which none matches, is the first one.
proof fn lemma_first_match_at(s: Seq<char>, i0: int)
    requires
        match_at(s, i0),
        forall|j: int| 0 <= j < i0 ==> !match_at(s, j),
    ensures
        has_name_match(s),
        first_match_index(s) == i0,
{
    assert(match_at(s, i0) && (forall|j: int| 0 <= j < i0 ==> !match_at(s, j)));
    let i1 = first_match_index(s);
    assert(match_at(s, i1) && (forall|j: int| 0 <= j < i1 ==> !match_at(s, j)));
    if i1 < i0 {
        assert(!match_at(s, i1));
    } else if i0 < i1 {
        assert(!match_at(s, i0));
    }
}

/// Tries to read a `name = "..."` assignment starting exactly at `i`.
fn try_match_at(s: &str, i: usize, len: usize) -> (r: Option<String>)
    requires
        len == s@.len(),
        i <= len,
    ensures
        r is Some <==> match_at(s@, i as int),
        r matches Some(c) ==> c@ == capture_at(s@, i as int),
{
    proof {
        reveal_strlit("name");
    }
    if len - i < 4 {
        return None;
    }
    if s.get_char(i) != 'n' || s.get_char(i + 1) != 'a' || s.get_char(i + 2) != 'm' || s.get_char(
        i + 3,
    ) != 'e' {
        proof {
            assert(s@.subrange(i as int, i as int + 4) != "name"@) by {
                if s@.subrange(i as int, i as int + 4) == "name"@ {
                    assert(s@.subrange(i as int, i as int + 4)[0] == s@[i as int]);
                    assert(s@.subrange(i as int, i as int + 4)[1] == s@[i as int + 1]);
                    assert(s@.subrange(i as int, i as int + 4)[2] == s@[i as int + 2]);
                    assert(s@.subrange(i as int, i as int + 4)[3] == s@[i as int + 3]);
                }
            }
        }
        return None;
    }
    proof {
        assert(s@.subrange(i as int, i as int + 4) =~= "name"@);
    }
    let mut p = i + 4;
    loop
        invariant
            len == s@.len(),
            i + 4 <= p <= len,
            forall|k: int| i + 4 <= k < p ==> is_ws(s@[k]),
        ensures
            i + 4 <= p <= len,
            forall|k: int| i + 4 <= k < p ==> is_ws(s@[k]),
            p == len || !is_ws(s@[p as int]),
        decreases len - p,
    {
        if p >= len {
            break ;
        }
        if !is_ws_char(s.get_char(p)) {
            break ;
        }
        p = p + 1;
    }
    proof {
        lemma_skip_ws_char(s@, i as int + 4, p as int);
    }
    if p >= len {
        return None;
    }
    if s.get_char(p) != '=' {
        return None;
    }
    let mut k = p + 1;
    loop
        invariant
            len == s@.len(),
            p + 1 <= k <= len,
            forall|t: int| p + 1 <= t < k ==> is_ws(s@[t]),
        ensures
            p + 1 <= k <= len,
            forall|t: int| p + 1 <= t < k ==> is_ws(s@[t]),
            k == len || !is_ws(s@[k as int]),
        decreases len - k,
    {
        if k >= len {
            break ;
        }
        if !is_ws_char(s.get_char(k)) {
            break ;
        }
        k = k + 1;
    }
    proof {
        lemma_skip_ws_char(s@, p as int + 1, k as int);
    }
    if k >= len {
        return None;
    }
    if s.get_char(k) != '"' {
        return None;
    }
    let mut cap = String::new();
    let mut m = k + 1;
    proof {
        assert(cap@ =~= s@.subrange(k as int + 1, k as int + 1));
    }
    loop
        invariant
            len == s@.len(),
            k + 1 <= m <= len,
            cap@ == s@.subrange(k as int + 1, m as int),
            forall|t: int| k + 1 <= t < m ==> s@[t] != '"',
        ensures
            k + 1 <= m <= len,
            cap@ == s@.subrange(k as int + 1, m as int),
            forall|t: int| k + 1 <= t < m ==> s@[t] != '"',
            m == len || s@[m as int] == '"',
        decreases len - m,
    {
        if m >= len {
            break ;
        }
        let c = s.get_char(m);
        if c == '"' {
            break ;
        }
        push_char(&mut cap, c);
        proof {
            assert(cap@ =~= s@.subrange(k as int + 1, m as int + 1));
        }
        m = m + 1;
    }
    proof {
        lemma_quote_end_char(s@, k as int + 1, m as int);
    }
    if m >= len {
        return None;
    }
    if m == k + 1 {
        return None;
    }
    Some(cap)
}

/// Scans a metadata text for its first `name = "..."` assignment and returns
/// the quoted value.
pub fn extract_meta_name(s: &str) -> (r: Option<String>)
    ensures
        r is None ==> !has_name_match(s@),
        r matches Some(c) ==> has_name_match(s@) && c@ == capture_at(s@, first_match_index(s@)),
{
    let len = s.unicode_len();
    let mut i: usize = 0;
    while i < len
        invariant
            len == s@.len(),
            i <= len,
            forall|j: int| 0 <= j < i ==> !match_at(s@, j),
        decreases len - i,
    {
        let attempt = try_match_at(s, i, len);
        match attempt {
            Some(c) => {
                proof {
                    lemma_first_match_at(s@, i as int);
                }
                return Some(c);
            },
            None => {},
        }
        i = i + 1;
    }
    proof {
        assert forall|j: int| !match_at(s@, j) by {
            if 0 <= j < len {
                assert(!match_at(s@, j));
            } else if j >= len {
                assert(j + 4 > s@.len());
            }
        }
    }
    None
}

/// One directory found while scanning a mod source location: its name and
/// the contents of its metadata file, where one could be read.
pub struct ModDir {
    pub dir_name: String,
    pub meta: Option<String>,
}

/// The mathematical image of a `ModDir`.
#[verifier::ext_equal]
pub struct ModDirView {
    pub dir_name: Seq<char>,
    pub meta: Option<Seq<char>>,
}

impl View for ModDir {
    type V = ModDirView;

    open spec fn view(&self) -> ModDirView {
        ModDirView {
            dir_name: self.dir_name@,
            meta: match self.meta {
                Some(t) => Some(t@),
                None => None,
            },
        }
    }
}

impl DeepView for ModDir {
    type V = ModDirView;

    open spec fn deep_view(&self) -> ModDirView {
        self.view()
    }
}

/// The display name a mod gets: the title-cased quoted value of the first
/// `name = "..."` assignment of its metadata, or, without one, the
/// title-cased directory name.
pub open spec fn derived_name(dir_name: Seq<char>, meta: Seq<char>) -> Seq<char> {
    if has_name_match(meta) {
        titleized(capture_at(meta, first_match_index(meta)))
    } else {
        titleized(dir_name)
    }
}

/// The mod record one scanned directory yields: nothing without readable
/// metadata, else a disabled workshop or custom mod named after the
/// metadata or the directory.
pub open spec fn process_spec(e: ModDirView, is_custom: bool) -> Option<ModView> {
    match e.meta {
        None => None,
        Some(text) => Some(
            ModView {
                identifier: e.dir_name,
                name: derived_name(e.dir_name, text),
                enabled: false,
                is_cdlc: false,
                is_custom,
            },
        ),
    }
}

/// Builds the mod record of one scanned directory.
pub fn process_mod_dir(dir_name: String, meta_content: Option<String>, is_custom: bool) -> (r:
    Option<Mod>)
    ensures
        r.deep_view() == process_spec(
            ModDirView {
                dir_name: dir_name@,
                meta: match meta_content {
                    Some(t) => Some(t@),
                    None => None,
                },
            },
            is_custom,
        ),
{
    match meta_content {
        None => None,
        Some(text) => {
            let name = match extract_meta_name(text.as_str()) {
                Some(quoted) => titleize(quoted.as_str()),
                None => titleize(dir_name.as_str()),
            };
            Some(Mod::new(dir_name, name, false, is_custom))
        },
    }
}

/// The mod records of one source location's directories, in scan order.
pub open spec fn category_mods(entries: Seq<ModDirView>, is_custom: bool) -> Seq<ModView>
    decreases entries.len(),
{
    if entries.len() == 0 {
        Seq::empty()
    } else {
        let rest = category_mods(entries.drop_last(), is_custom);
        match process_spec(entries.last(), is_custom) {
            Some(mv) => rest.push(mv),
            None => rest,
        }
    }
}

/// The Creator DLC records of the game directory's subdirectories, in scan
/// order: one per directory whose name the table knows.
pub open spec fn cdlc_mods(dirs: Seq<Seq<char>>) -> Seq<ModView>
    decreases dirs.len(),
{
    if dirs.len() == 0 {
        Seq::empty()
    } else {
        let rest = cdlc_mods(dirs.drop_last());
        match cdlc_title(dirs.last()) {
            Some(title) => rest.push(
                ModView {
                    identifier: dirs.last(),
                    name: title,
                    enabled: false,
                    is_cdlc: true,
                    is_custom: false,
                },
            ),
            None => rest,
        }
    }
}

/// A mod view with its enabled flag set from the enabled-identifier list.
pub open spec fn stamped_view(m: ModView, enabled: Seq<Seq<char>>) -> ModView {
    ModView { enabled: enabled.contains(m.identifier), ..m }
}

/// All views with their enabled flags set from the enabled-identifier list.
pub open spec fn stamp_all(s: Seq<ModView>, enabled: Seq<Seq<char>>) -> Seq<ModView> {
    s.map_values(|m: ModView| stamped_view(m, enabled))
}

/// Whether the mods are ordered by display name.
pub open spec fn mods_sorted(s: Seq<Mod>) -> bool {
    forall|i: int, j: int| 0 <= i < j < s.len() ==> lex_le(s[i].name@, s[j].name@)
}

/// Whether some record of the list carries this identifier.
pub open spec fn has_ident(s: Seq<ModView>, id: Seq<char>) -> bool {
    exists|k: int| 0 <= k < s.len() && s[k].identifier == id
}

/// The list with every record dropped whose identifier occurred earlier:
/// the first record of each identifier survives.
pub open spec fn dedup_ids(s: Seq<ModView>) -> Seq<ModView>
    decreases s.len(),
{
    if s.len() == 0 {
        Seq::empty()
    } else {
        let rest = dedup_ids(s.drop_last());
        if has_ident(s.drop_last(), s.last().identifier) {
            rest
        } else {
            rest.push(s.last())
        }
    }
}

/// Whether the mods carry pairwise distinct identifiers: the invariant of
/// one discovery pass.
pub open spec fn distinct_identifiers(s: Seq<Mod>) -> bool {
    forall|i: int, j: int| 0 <= i < j < s.len() ==> s[i].identifier@ != s[j].identifier@
}

/// Deduplication keeps exactly the identifiers of its input.
proof fn lemma_dedup_keeps_idents(s: Seq<ModView>, id: Seq<char>)
    ensures
        has_ident(dedup_ids(s), id) == has_ident(s, id),
    decreases s.len(),
{
    if s.len() == 0 {
    } else {
        lemma_dedup_keeps_idents(s.drop_last(), id);
        let rest = dedup_ids(s.drop_last());
        if has_ident(s, id) {
            let k = choose|k: int| 0 <= k < s.len() && s[k].identifier == id;
            if k < s.len() - 1 {
                assert(s.drop_last()[k] == s[k]);
                assert(has_ident(s.drop_last(), id));
                let k1 = choose|k1: int| 0 <= k1 < rest.len() && rest[k1].identifier == id;
                if !has_ident(s.drop_last(), s.last().identifier) {
                    assert(rest.push(s.last())[k1] == rest[k1]);
                }
                assert(has_ident(dedup_ids(s), id));
            } else {
                assert(id == s.last().identifier);
                if has_ident(s.drop_last(), id) {
                    let k1 = choose|k1: int| 0 <= k1 < rest.len() && rest[k1].identifier == id;
                    assert(has_ident(dedup_ids(s), id));
                } else {
                    assert(rest.push(s.last())[rest.len() as int].identifier == id);
                    assert(has_ident(dedup_ids(s), id));
                }
            }
        }
        if has_ident(dedup_ids(s), id) {
            let k = choose|k: int|
                0 <= k < dedup_ids(s).len() && dedup_ids(s)[k].identifier == id;
            if has_ident(s.drop_last(), s.last().identifier) {
                assert(has_ident(rest, id));
            } else {
                if k < rest.len() {
                    assert(rest.push(s.last())[k] == rest[k]);
                    assert(has_ident(rest, id));
                    assert(has_ident(s.drop_last(), id));
                } else {
                    assert(id == s.last().identifier);
                }
            }
            if has_ident(s.drop_last(), id) {
                let k2 = choose|k2: int|
                    0 <= k2 < s.drop_last().len() && s.drop_last()[k2].identifier == id;
                assert(s[k2] == s.drop_last()[k2]);
            }
            assert(has_ident(s, id));
        }
    }
}

/// Whether one of the mods carries this identifier.
fn contains_ident(mods: &Vec<Mod>, id: &String) -> (r: bool)
    ensures
        r == has_ident(mods@.map_values(|m: Mod| m@), id@),
{
    let ghost views = mods@.map_values(|m: Mod| m@);
    let mut k: usize = 0;
    while k < mods.len()
        invariant
            k <= mods@.len(),
            views == mods@.map_values(|m: Mod| m@),
            forall|t: int| 0 <= t < k ==> views[t].identifier != id@,
        decreases mods@.len() - k,
    {
        if mods[k].identifier.eq(id) {
            proof {
                assert(views[k as int].identifier == id@);
            }
            return true;
        }
        k = k + 1;
    }
    false
}

/// Keeps the first record of each identifier and drops later ones, so that
/// one discovery pass never yields two mods of the same identifier.
fn dedup_mods(mods: Vec<Mod>) -> (r: Vec<Mod>)
    ensures
        r@.map_values(|m: Mod| m@) == dedup_ids(mods@.map_values(|m: Mod| m@)),
        distinct_identifiers(r@),
{
    let ghost views = mods@.map_values(|m: Mod| m@);
    let mut r: Vec<Mod> = Vec::new();
    let mut i: usize = 0;
    proof {
        assert(views.take(0) =~= Seq::<ModView>::empty());
        assert(r@.map_values(|m: Mod| m@) =~= dedup_ids(views.take(0)));
    }
    while i < mods.len()
        invariant
            i <= mods@.len(),
            views == mods@.map_values(|m: Mod| m@),
            r@.map_values(|m: Mod| m@) == dedup_ids(views.take(i as int)),
            distinct_identifiers(r@),
        decreases mods@.len() - i,
    {
        let ghost before = r@.map_values(|m: Mod| m@);
        let present = contains_ident(&r, &mods[i].identifier);
        proof {
            lemma_dedup_keeps_idents(views.take(i as int), views[i as int].identifier);
            assert(views.take(i as int + 1).drop_last() =~= views.take(i as int));
            assert(views.take(i as int + 1).last() == views[i as int]);
        }
        if !present {
            let ghost old_r = r@;
            r.push(mods[i].duplicate());
            proof {
                assert(r@.map_values(|m: Mod| m@) =~= before.push(views[i as int]));
                assert forall|a: int, b: int| 0 <= a < b < r@.len() implies r@[a].identifier@
                    != r@[b].identifier@ by {
                    if b == old_r.len() {
                        assert(before[a].identifier == r@[a].identifier@);
                    }
                }
            }
        }
        proof {
            assert(r@.map_values(|m: Mod| m@) =~= dedup_ids(views.take(i as int + 1)));
        }
        i = i + 1;
    }
    proof {
        assert(views.take(views.len() as int) =~= views);
    }
    r
}

/// A permutation of mods with pairwise distinct identifiers has pairwise
/// distinct identifiers too.
proof fn lemma_distinct_ids_preserved(s1: Seq<Mod>, s2: Seq<Mod>)
    requires
        s1.to_multiset() == s2.to_multiset(),
        distinct_identifiers(s1),
    ensures
        distinct_identifiers(s2),
{
    let idf = |m: Mod| m.identifier@;
    lemma_map_to_multiset(s1, s2, idf);
    let ids1 = s1.map_values(idf);
    let ids2 = s2.map_values(idf);
    assert(ids1.no_duplicates()) by {
        assert forall|i: int, j: int|
            0 <= i < ids1.len() && 0 <= j < ids1.len() && i != j implies ids1[i] != ids1[j] by {
            if i < j {
                assert(s1[i].identifier@ != s1[j].identifier@);
            } else {
                assert(s1[j].identifier@ != s1[i].identifier@);
            }
        }
    }
    ids1.lemma_multiset_has_no_duplicates();
    ids2.lemma_multiset_has_no_duplicates_conv();
    assert forall|i: int, j: int| 0 <= i < j < s2.len() implies s2[i].identifier@
        != s2[j].identifier@ by {
        assert(ids2[i] != ids2[j]);
    }
}

/// Sets every mod's enabled flag from the enabled-identifier list.
pub fn stamp_enabled(mods: Vec<Mod>, enabled: &Vec<String>) -> (r: Vec<Mod>)
    ensures
        r@.len() == mods@.len(),
        forall|i: int| 0 <= i < mods@.len() ==> r@[i]@ == stamped_view(mods@[i]@, enabled.deep_view()),
        forall|i: int| 0 <= i < mods@.len() ==> r@[i].name@ == mods@[i].name@,
{
    let mut r: Vec<Mod> = Vec::new();
    let mut idx: usize = 0;
    while idx < mods.len()
        invariant
            idx <= mods@.len(),
            r@.len() == idx,
            forall|i: int|
                0 <= i < idx ==> r@[i]@ == stamped_view(mods@[i]@, enabled.deep_view()),
            forall|i: int| 0 <= i < idx ==> r@[i].name@ == mods@[i].name@,
        decreases mods@.len() - idx,
    {
        let m = &mods[idx];
        let e = contains_string(enabled, &m.identifier);
        r.push(
            Mod {
                identifier: m.identifier.clone(),
                name: m.name.clone(),
                enabled: e,
                is_cdlc: m.is_cdlc,
                is_custom: m.is_custom,
            },
        );
        idx = idx + 1;
    }
    r
}

/// Sorts mods by display name (code-point order), keeping the collection's
/// contents.
pub fn sort_mods(mods: Vec<Mod>) -> (r: Vec<Mod>)
    ensures
        mods_sorted(r@),
        r@.to_multiset() == mods@.to_multiset(),
{
    broadcast use vstd::seq_lib::group_to_multiset_ensures;
    broadcast use vstd::seq_lib::to_multiset_insert;

    let mut r: Vec<Mod> = Vec::new();
    let mut i: usize = 0;
    proof {
        assert(mods@.take(0) =~= Seq::<Mod>::empty());
        assert(Seq::<Mod>::empty().to_multiset() =~= Multiset::<Mod>::empty());
        assert(r@.to_multiset() =~= mods@.take(0).to_multiset());
    }
    while i < mods.len()
        invariant
            i <= mods@.len(),
            mods_sorted(r@),
            r@.to_multiset() == mods@.take(i as int).to_multiset(),
        decreases mods@.len() - i,
    {
        let m = mods[i].duplicate();
        let mut pos: usize = 0;
        loop
            invariant
                pos <= r@.len(),
                forall|t: int| 0 <= t < pos ==> lex_le(r@[t].name@, m.name@),
            ensures
                pos <= r@.len(),
                forall|t: int| 0 <= t < pos ==> lex_le(r@[t].name@, m.name@),
                pos == r@.len() || !lex_le(r@[pos as int].name@, m.name@),
            decreases r@.len() - pos,
        {
            if pos >= r.len() {
                break ;
            }
            if !str_lex_le(r[pos].name.as_str(), m.name.as_str()) {
                break ;
            }
            pos = pos + 1;
        }
        let ghost old_r = r@;
        r.insert(pos, m);
        proof {
            assert(r@ == old_r.insert(pos as int, m));
            if (pos as int) < old_r.len() {
                lemma_lex_le_total(m.name@, old_r[pos as int].name@);
            }
            assert forall|a: int, b: int| 0 <= a < b < r@.len() implies lex_le(
                r@[a].name@,
                r@[b].name@,
            ) by {
                if a == pos && b > pos {
                    assert(r@[b] == old_r[b - 1]);
                    if b - 1 > pos {
                        lemma_lex_le_trans(m.name@, old_r[pos as int].name@, old_r[b - 1].name@);
                    }
                }
            }
            vstd::seq_lib::to_multiset_insert(old_r, pos as int, m);
            assert(mods@.take(i as int + 1).drop_last() =~= mods@.take(i as int));
            assert(mods@.take(i as int + 1) =~= mods@.take(i as int).push(mods@[i as int]));
            mods@.take(i as int).to_multiset_ensures();
            assert(mods@.take(i as int).push(mods@[i as int]).to_multiset() =~= mods@.take(
                i as int,
            ).to_multiset().insert(mods@[i as int]));
        }
        i = i + 1;
    }
    proof {
        assert(mods@.take(mods@.len() as int) =~= mods@);
    }
    r
}

/// Multiset-equal sequences stay multiset-equal under a pointwise map.
pub proof fn lemma_map_to_multiset<A, B>(s1: Seq<A>, s2: Seq<A>, f: spec_fn(A) -> B)
    requires
        s1.to_multiset() == s2.to_multiset(),
    ensures
        s1.map_values(f).to_multiset() == s2.map_values(f).to_multiset(),
    decreases s1.len(),
{
    broadcast use vstd::multiset::group_multiset_axioms;

    s1.to_multiset_ensures();
    s2.to_multiset_ensures();
    if s1.len() == 0 {
        assert(s2.len() == 0);
        assert(s1.map_values(f) =~= Seq::<B>::empty());
        assert(s2.map_values(f) =~= Seq::<B>::empty());
    } else {
        let n1 = s1.len() - 1;
        let x = s1.last();
        assert(s1.contains(x));
        assert(s1.to_multiset().count(x) > 0);
        assert(s2.to_multiset().count(x) > 0);
        assert(s2.contains(x));
        let j = choose|j: int| 0 <= j < s2.len() && s2[j] == x;
        let s1r = s1.remove(n1);
        let s2r = s2.remove(j);
        vstd::seq_lib::to_multiset_remove(s1, n1);
        vstd::seq_lib::to_multiset_remove(s2, j);
        assert(s1r.to_multiset() == s1.to_multiset().remove(x));
        assert(s2r.to_multiset() == s2.to_multiset().remove(x));
        assert(s1r.to_multiset() =~= s2r.to_multiset());
        lemma_map_to_multiset(s1r, s2r, f);
        assert(s1r.map_values(f) =~= s1.map_values(f).remove(n1));
        assert(s2r.map_values(f) =~= s2.map_values(f).remove(j));
        vstd::seq_lib::to_multiset_remove(s1.map_values(f), n1);
        vstd::seq_lib::to_multiset_remove(s2.map_values(f), j);
        assert(s1.map_values(f).remove(n1).to_multiset() == s1.map_values(f).to_multiset().remove(
            f(x),
        ));
        assert(s2.map_values(f).remove(j).to_multiset() == s2.map_values(f).to_multiset().remove(
            f(x),
        ));
        s1.map_values(f).to_multiset_ensures();
        s2.map_values(f).to_multiset_ensures();
        let mx = s1.map_values(f).to_multiset();
        let my = s2.map_values(f).to_multiset();
        assert(s1.map_values(f)[n1] == f(x));
        assert(s2.map_values(f)[j] == f(x));
        assert(mx.count(f(x)) > 0) by {
            assert(s1.map_values(f).contains(f(x)));
        }
        assert(my.count(f(x)) > 0) by {
            assert(s2.map_values(f).contains(f(x)));
        }
        assert(mx.remove(f(x)) == my.remove(f(x)));
        assert forall|b: B| mx.count(b) == my.count(b) by {
            assert(mx.remove(f(x)).count(b) == my.remove(f(x)).count(b));
            if b == f(x) {
                assert(mx.remove(f(x)).count(b) + 1 == mx.count(b));
                assert(my.remove(f(x)).count(b) + 1 == my.count(b));
            } else {
                assert(Multiset::singleton(f(x)).count(b) == 0);
                assert(mx.remove(f(x)).count(b) == mx.count(b));
                assert(my.remove(f(x)).count(b) == my.count(b));
            }
        }
        assert(mx =~= my);
    }
}

/// The merged, deduplicated, stamped record list of one whole discovery
/// pass.
pub open spec fn discovered(
    workshop: Seq<ModDirView>,
    custom: Seq<ModDirView>,
    game_dirs: Seq<Seq<char>>,
    enabled: Seq<Seq<char>>,
) -> Seq<ModView> {
    stamp_all(
        dedup_ids(
            category_mods(workshop, false) + category_mods(custom, true) + cdlc_mods(game_dirs),
        ),
        enabled,
    )
}

/// Merges one discovery pass: workshop directories, custom directories and
/// the game directory's Creator DLC entries, stamped with the enabled set
/// and sorted by display name.  Identifiers come out pairwise distinct:
/// where two locations share a directory name, the first record in scan
/// order (workshop, then custom, then Creator DLC) wins.
pub fn build_mod_list(
    workshop: Vec<ModDir>,
    custom: Vec<ModDir>,
    game_dirs: Vec<String>,
    enabled: &Vec<String>,
) -> (r: Vec<Mod>)
    ensures
        mods_sorted(r@),
        distinct_identifiers(r@),
        r@.map_values(|m: Mod| m@).to_multiset() == discovered(
            workshop.deep_view(),
            custom.deep_view(),
            game_dirs.deep_view(),
            enabled.deep_view(),
        ).to_multiset(),
{
    let mut merged: Vec<Mod> = Vec::new();
    let mut w: usize = 0;
    proof {
        assert(workshop.deep_view().take(0) =~= Seq::<ModDirView>::empty());
        assert(merged@.map_values(|m: Mod| m@) =~= category_mods(
            workshop.deep_view().take(0),
            false,
        ));
    }
    while w < workshop.len()
        invariant
            w <= workshop@.len(),
            workshop.deep_view().len() == workshop@.len(),
            merged@.map_values(|m: Mod| m@) == category_mods(
                workshop.deep_view().take(w as int),
                false,
            ),
        decreases workshop@.len() - w,
    {
        let entry = &workshop[w];
        let dir = entry.dir_name.clone();
        let meta = match &entry.meta {
            Some(t) => Some(t.clone()),
            None => None,
        };
        let ghost before = merged@.map_values(|m: Mod| m@);
        match process_mod_dir(dir, meta, false) {
            Some(m) => {
                merged.push(m);
                proof {
                    assert(merged@.map_values(|m: Mod| m@) =~= before.push(merged@.last()@));
                }
            },
            None => {},
        }
        proof {
            assert(workshop.deep_view().take(w as int + 1).drop_last() =~= workshop.deep_view()
                .take(w as int));
            assert(workshop.deep_view().take(w as int + 1).last() == workshop@[w as int]@);
            assert(merged@.map_values(|m: Mod| m@) =~= category_mods(
                workshop.deep_view().take(w as int + 1),
                false,
            ));
        }
        w = w + 1;
    }
    proof {
        assert(workshop.deep_view().take(workshop.deep_view().len() as int) =~= workshop
            .deep_view());
    }
    let ghost workshop_part = merged@.map_values(|m: Mod| m@);
    let mut c: usize = 0;
    proof {
        assert(custom.deep_view().take(0) =~= Seq::<ModDirView>::empty());
        assert(category_mods(custom.deep_view().take(0), true) =~= Seq::<ModView>::empty());
        assert(merged@.map_values(|m: Mod| m@) =~= workshop_part + category_mods(
            custom.deep_view().take(0),
            true,
        ));
    }
    while c < custom.len()
        invariant
            c <= custom@.len(),
            custom.deep_view().len() == custom@.len(),
            merged@.map_values(|m: Mod| m@) == workshop_part + category_mods(
                custom.deep_view().take(c as int),
                true,
            ),
        decreases custom@.len() - c,
    {
        let entry = &custom[c];
        let dir = entry.dir_name.clone();
        let meta = match &entry.meta {
            Some(t) => Some(t.clone()),
            None => None,
        };
        let ghost before = merged@.map_values(|m: Mod| m@);
        match process_mod_dir(dir, meta, true) {
            Some(m) => {
                merged.push(m);
                proof {
                    assert(merged@.map_values(|m: Mod| m@) =~= before.push(merged@.last()@));
                }
            },
            None => {},
        }
        proof {
            assert(custom.deep_view().take(c as int + 1).drop_last() =~= custom.deep_view().take(
                c as int,
            ));
            assert(custom.deep_view().take(c as int + 1).last() == custom@[c as int]@);
            assert(merged@.map_values(|m: Mod| m@) =~= workshop_part + category_mods(
                custom.deep_view().take(c as int + 1),
                true,
            ));
        }
        c = c + 1;
    }
    proof {
        assert(custom.deep_view().take(custom.deep_view().len() as int) =~= custom.deep_view());
    }
    let ghost two_parts = merged@.map_values(|m: Mod| m@);
    let mut g: usize = 0;
    proof {
        assert(game_dirs.deep_view().take(0) =~= Seq::<Seq<char>>::empty());
        assert(cdlc_mods(game_dirs.deep_view().take(0)) =~= Seq::<ModView>::empty());
        assert(merged@.map_values(|m: Mod| m@) =~= two_parts + cdlc_mods(
            game_dirs.deep_view().take(0),
        ));
    }
    while g < game_dirs.len()
        invariant
            g <= game_dirs@.len(),
            game_dirs.deep_view().len() == game_dirs@.len(),
            merged@.map_values(|m: Mod| m@) == two_parts + cdlc_mods(
                game_dirs.deep_view().take(g as int),
            ),
        decreases game_dirs@.len() - g,
    {
        let code = game_dirs[g].clone();
        let ghost before = merged@.map_values(|m: Mod| m@);
        match cdlc_name(code.as_str()) {
            Some(title) => {
                merged.push(Mod::new(code, title, true, false));
                proof {
                    assert(merged@.map_values(|m: Mod| m@) =~= before.push(merged@.last()@));
                }
            },
            None => {},
        }
        proof {
            assert(game_dirs.deep_view().take(g as int + 1).drop_last() =~= game_dirs.deep_view()
                .take(g as int));
            assert(game_dirs.deep_view().take(g as int + 1).last() == game_dirs@[g as int]@);
            assert(merged@.map_values(|m: Mod| m@) =~= two_parts + cdlc_mods(
                game_dirs.deep_view().take(g as int + 1),
            ));
        }
        g = g + 1;
    }
    proof {
        assert(game_dirs.deep_view().take(game_dirs.deep_view().len() as int) =~= game_dirs
            .deep_view());
    }
    let ghost merged_views = merged@.map_values(|m: Mod| m@);
    let deduped = dedup_mods(merged);
    let ghost deduped_views = deduped@.map_values(|m: Mod| m@);
    let stamped = stamp_enabled(deduped, enabled);
    proof {
        assert(stamped@.map_values(|m: Mod| m@) =~= stamp_all(
            deduped_views,
            enabled.deep_view(),
        ));
        assert(distinct_identifiers(stamped@)) by {
            assert forall|a: int, b: int| 0 <= a < b < stamped@.len() implies stamped@[
                a
            ].identifier@ != stamped@[b].identifier@ by {
                assert(stamped@[a]@ == stamped_view(deduped@[a]@, enabled.deep_view()));
                assert(stamped@[b]@ == stamped_view(deduped@[b]@, enabled.deep_view()));
                assert(deduped@[a].identifier@ != deduped@[b].identifier@);
            }
        }
    }
    let r = sort_mods(stamped);
    proof {
        lemma_map_to_multiset(r@, stamped@, |m: Mod| m@);
        lemma_distinct_ids_preserved(stamped@, r@);
    }
    r
}

} // verus!
