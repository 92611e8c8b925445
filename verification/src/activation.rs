use vstd::prelude::*;

verus! {

/// One entry of the link root's directory listing, as far as the engine
/// cares: its name, and whether it is a symlink.
#[derive(Debug, Clone, PartialEq, Eq)]
pub struct LinkEntry {
    pub name: String,
    pub is_symlink: bool,
}

/// The mathematical image of a `LinkEntry`.
#[verifier::ext_equal]
pub struct LinkEntryView {
    pub name: Seq<char>,
    pub is_symlink: bool,
}

impl View for LinkEntry {
    type V = LinkEntryView;

    open spec fn view(&self) -> LinkEntryView {
        LinkEntryView { name: self.name@, is_symlink: self.is_symlink }
    }
}

impl DeepView for LinkEntry {
    type V = LinkEntryView;

    open spec fn deep_view(&self) -> LinkEntryView {
        self.view()
    }
}

/// The position of the last separator in a path, or -1 where it has none.
pub open spec fn last_slash(p: Seq<char>) -> int
    decreases p.len(),
{
    if p.len() == 0 {
        -1
    } else if p.last() == '/' {
        p.len() - 1
    } else {
        last_slash(p.drop_last())
    }
}

/// The final component of a path: everything after its last separator.
pub open spec fn last_component(p: Seq<char>) -> Seq<char> {
    p.subrange(last_slash(p) + 1, p.len() as int)
}

/// A position holding a separator, after which none occurs, is the last
/// separator (and without any separator it is -1).
proof fn lemma_last_slash_char(p: Seq<char>, j: int)
    requires
        -1 <= j < p.len(),
        j >= 0 ==> p[j] == '/',
        forall|k: int| j < k < p.len() ==> p[k] != '/',
    ensures
        last_slash(p) == j,
    decreases p.len(),
{
    if p.len() == 0 {
    } else if j == p.len() - 1 {
    } else {
        lemma_last_slash_char(p.drop_last(), j);
    }
}

/// The final path component of a source: the name its symlink gets.
pub fn link_name(source: &str) -> (r: String)
    ensures
        r@ == last_component(source@),
{
    let len = source.unicode_len();
    let mut j: usize = len;
    loop
        invariant
            len == source@.len(),
            j <= len,
            forall|k: int| j <= k < len ==> source@[k] != '/',
        ensures
            j <= len,
            forall|k: int| j <= k < len ==> source@[k] != '/',
            j == 0 || source@[j - 1] == '/',
        decreases j,
    {
        if j == 0 {
            break ;
        }
        if source.get_char(j - 1) == '/' {
            break ;
        }
        j = j - 1;
    }
    proof {
        lemma_last_slash_char(source@, j as int - 1);
    }
    source.substring_char(j, len).to_owned()
}

/// The entries that a sweep leaves alone: everything that is not a symlink,
/// in listing order.
pub open spec fn kept_entries(s: Seq<LinkEntryView>) -> Seq<LinkEntryView>
    decreases s.len(),
{
    if s.len() == 0 {
        Seq::empty()
    } else {
        let rest = kept_entries(s.drop_last());
        if s.last().is_symlink {
            rest
        } else {
            rest.push(s.last())
        }
    }
}

/// The symlink entries that creation adds: one per source, named after the
/// source's final component.
pub open spec fn created_links(sources: Seq<Seq<char>>) -> Seq<LinkEntryView> {
    sources.map_values(
        |p: Seq<char>| LinkEntryView { name: last_component(p), is_symlink: true },
    )
}

/// The link root's listing after one sweep-and-create pass: the non-symlink
/// entries survive, and exactly the sources' links exist.
pub open spec fn after_activation(
    listing: Seq<LinkEntryView>,
    sources: Seq<Seq<char>>,
) -> Seq<LinkEntryView> {
    kept_entries(listing) + created_links(sources)
}

/// Splitting a listing splits what the sweep keeps.
proof fn lemma_kept_distributes(a: Seq<LinkEntryView>, b: Seq<LinkEntryView>)
    ensures
        kept_entries(a + b) == kept_entries(a) + kept_entries(b),
    decreases b.len(),
{
    if b.len() == 0 {
        assert(a + b =~= a);
        assert(kept_entries(a) + kept_entries(b) =~= kept_entries(a));
    } else {
        lemma_kept_distributes(a, b.drop_last());
        assert((a + b).drop_last() =~= a + b.drop_last());
        assert((a + b).last() == b.last());
        if b.last().is_symlink {
        } else {
            assert(kept_entries(a) + kept_entries(b) =~= (kept_entries(a) + kept_entries(
                b.drop_last(),
            )).push(b.last()));
        }
    }
}

/// A sweep removes every created link.
proof fn lemma_kept_created(sources: Seq<Seq<char>>)
    ensures
        kept_entries(created_links(sources)) == Seq::<LinkEntryView>::empty(),
    decreases sources.len(),
{
    if sources.len() == 0 {
    } else {
        lemma_kept_created(sources.drop_last());
        assert(created_links(sources).drop_last() =~= created_links(sources.drop_last()));
        assert(created_links(sources).last().is_symlink);
    }
}

/// What a sweep keeps, a second sweep keeps too.
proof fn lemma_kept_idempotent(s: Seq<LinkEntryView>)
    ensures
        kept_entries(kept_entries(s)) == kept_entries(s),
    decreases s.len(),
{
    if s.len() == 0 {
    } else {
        lemma_kept_idempotent(s.drop_last());
        if s.last().is_symlink {
        } else {
            assert(kept_entries(s).drop_last() =~= kept_entries(s.drop_last()));
        }
    }
}

/// Idempotence of the activation engine: running sweep-and-create a second
/// time with the same sources leaves the very listing the first run
/// produced.
pub proof fn lemma_activation_idempotent(listing: Seq<LinkEntryView>, sources: Seq<Seq<char>>)
    ensures
        after_activation(after_activation(listing, sources), sources) == after_activation(
            listing,
            sources,
        ),
{
    lemma_kept_distributes(kept_entries(listing), created_links(sources));
    lemma_kept_created(sources);
    lemma_kept_idempotent(listing);
    assert(kept_entries(after_activation(listing, sources)) =~= kept_entries(listing));
}

/// The names of the symlinks a sweep removes, in listing order.
pub open spec fn symlink_names(s: Seq<LinkEntryView>) -> Seq<Seq<char>>
    decreases s.len(),
{
    if s.len() == 0 {
        Seq::empty()
    } else {
        let rest = symlink_names(s.drop_last());
        if s.last().is_symlink {
            rest.push(s.last().name)
        } else {
            rest
        }
    }
}

/// The names of the symlinks inside the link root: what a sweep removes.
pub fn sweep_targets(listing: &Vec<LinkEntry>) -> (r: Vec<String>)
    ensures
        r.deep_view() == symlink_names(listing.deep_view()),
{
    let mut r: Vec<String> = Vec::new();
    let mut i: usize = 0;
    proof {
        assert(listing.deep_view().take(0) =~= Seq::<LinkEntryView>::empty());
        assert(r.deep_view() =~= symlink_names(listing.deep_view().take(0)));
    }
    while i < listing.len()
        invariant
            i <= listing@.len(),
            listing.deep_view().len() == listing@.len(),
            r.deep_view() == symlink_names(listing.deep_view().take(i as int)),
        decreases listing@.len() - i,
    {
        let ghost before = r.deep_view();
        if listing[i].is_symlink {
            r.push(listing[i].name.clone());
            proof {
                assert(r.deep_view() =~= before.push(listing@[i as int].name@));
            }
        }
        proof {
            assert(listing.deep_view().take(i as int + 1).drop_last() =~= listing.deep_view()
                .take(i as int));
            assert(listing.deep_view().take(i as int + 1).last() == listing@[i as int]@);
            assert(r.deep_view() =~= symlink_names(listing.deep_view().take(i as int + 1)));
        }
        i = i + 1;
    }
    proof {
        assert(listing.deep_view().take(listing.deep_view().len() as int) =~= listing.deep_view());
    }
    r
}

/// One symlink to create: its name inside the link root, and the source it
/// points at.
pub struct LinkSpec {
    pub link_name: String,
    pub target: String,
}

/// The mathematical image of a `LinkSpec`.
#[verifier::ext_equal]
pub struct LinkSpecView {
    pub link_name: Seq<char>,
    pub target: Seq<char>,
}

impl View for LinkSpec {
    type V = LinkSpecView;

    open spec fn view(&self) -> LinkSpecView {
        LinkSpecView { link_name: self.link_name@, target: self.target@ }
    }
}

impl DeepView for LinkSpec {
    type V = LinkSpecView;

    open spec fn deep_view(&self) -> LinkSpecView {
        self.view()
    }
}

/// The symlinks to create for the given sources, in order: each named after
/// its source's final component.
pub fn make_links(sources: &Vec<String>) -> (r: Vec<LinkSpec>)
    ensures
        r@.len() == sources@.len(),
        forall|i: int|
            0 <= i < sources@.len() ==> r@[i]@ == (LinkSpecView {
                link_name: last_component(sources@[i]@),
                target: sources@[i]@,
            }),
{
    let mut r: Vec<LinkSpec> = Vec::new();
    let mut i: usize = 0;
    while i < sources.len()
        invariant
            i <= sources@.len(),
            r@.len() == i,
            forall|k: int|
                0 <= k < i ==> r@[k]@ == (LinkSpecView {
                    link_name: last_component(sources@[k]@),
                    target: sources@[k]@,
                }),
        decreases sources@.len() - i,
    {
        let name = link_name(sources[i].as_str());
        r.push(LinkSpec { link_name: name, target: sources[i].clone() });
        i = i + 1;
    }
    r
}

/// One sweep-and-create pass over a modelled listing: what the link root
/// holds afterwards.  The engine's filesystem effect follows this model;
/// `lemma_activation_idempotent` shows a second pass changes nothing.
pub fn apply_activation(listing: &Vec<LinkEntry>, sources: &Vec<String>) -> (r: Vec<LinkEntry>)
    ensures
        r.deep_view() == after_activation(listing.deep_view(), sources.deep_view()),
{
    let mut r: Vec<LinkEntry> = Vec::new();
    let mut i: usize = 0;
    proof {
        assert(listing.deep_view().take(0) =~= Seq::<LinkEntryView>::empty());
        assert(r.deep_view() =~= kept_entries(listing.deep_view().take(0)));
    }
    while i < listing.len()
        invariant
            i <= listing@.len(),
            listing.deep_view().len() == listing@.len(),
            r.deep_view() == kept_entries(listing.deep_view().take(i as int)),
        decreases listing@.len() - i,
    {
        let ghost before = r.deep_view();
        if !listing[i].is_symlink {
            r.push(LinkEntry { name: listing[i].name.clone(), is_symlink: false });
            proof {
                assert(r.deep_view() =~= before.push(listing@[i as int]@));
            }
        }
        proof {
            assert(listing.deep_view().take(i as int + 1).drop_last() =~= listing.deep_view()
                .take(i as int));
            assert(listing.deep_view().take(i as int + 1).last() == listing@[i as int]@);
            assert(r.deep_view() =~= kept_entries(listing.deep_view().take(i as int + 1)));
        }
        i = i + 1;
    }
    proof {
        assert(listing.deep_view().take(listing.deep_view().len() as int) =~= listing.deep_view());
    }
    let ghost swept = r.deep_view();
    let mut j: usize = 0;
    proof {
        assert(sources.deep_view().take(0) =~= Seq::<Seq<char>>::empty());
        assert(created_links(sources.deep_view().take(0)) =~= Seq::<LinkEntryView>::empty());
        assert(r.deep_view() =~= swept + created_links(sources.deep_view().take(0)));
    }
    while j < sources.len()
        invariant
            j <= sources@.len(),
            sources.deep_view().len() == sources@.len(),
            r.deep_view() == swept + created_links(sources.deep_view().take(j as int)),
        decreases sources@.len() - j,
    {
        let ghost before = r.deep_view();
        let name = link_name(sources[j].as_str());
        r.push(LinkEntry { name, is_symlink: true });
        proof {
            assert(r.deep_view() =~= before.push(
                LinkEntryView {
                    name: last_component(sources@[j as int]@),
                    is_symlink: true,
                },
            ));
            assert(sources.deep_view().take(j as int + 1).drop_last() =~= sources.deep_view()
                .take(j as int));
            assert(created_links(sources.deep_view().take(j as int + 1)) =~= created_links(
                sources.deep_view().take(j as int),
            ).push(
                LinkEntryView {
                    name: last_component(sources@[j as int]@),
                    is_symlink: true,
                },
            ));
            assert(r.deep_view() =~= swept + created_links(
                sources.deep_view().take(j as int + 1),
            ));
        }
        j = j + 1;
    }
    proof {
        assert(sources.deep_view().take(sources.deep_view().len() as int) =~= sources.deep_view());
    }
    r
}

} // verus!
