//! The plugin registry: manifests and directories of the loaded plugins,
//! keyed by plugin id, with intent matching and lookups over them.

use vstd::prelude::*;
use crate::text::str_eq;
use crate::plugin::api::{
    plugin_score, supports_url_spec, PluginCapability, PluginManifest, PluginManifestView,
    RuntimeType,
};

verus! {

/// A reference to a plugin: its id, directory and runtime.
#[derive(Debug)]
pub struct PluginRef {
    pub id: String,
    pub path: String,
    pub runtime: RuntimeType,
}

/// One registered plugin.
pub struct PluginEntryView {
    pub manifest: PluginManifestView,
    pub path: Seq<char>,
}

struct PluginEntry {
    manifest: PluginManifest,
    path: String,
}

impl View for PluginEntry {
    type V = PluginEntryView;

    closed spec fn view(&self) -> PluginEntryView {
        PluginEntryView { manifest: self.manifest@, path: self.path@ }
    }
}

/// No two entries share a plugin id.
pub open spec fn ids_distinct(es: Seq<PluginEntryView>) -> bool {
    forall|i: int, j: int|
        0 <= i < es.len() && 0 <= j < es.len() && i != j ==> #[trigger] es[i].manifest.id
            != #[trigger] es[j].manifest.id
}

/// The manifests of the entries, in order.
pub open spec fn manifests_of(es: Seq<PluginEntryView>) -> Seq<PluginManifestView> {
    es.map_values(|e: PluginEntryView| e.manifest)
}

/// No two of the manifests share a plugin id.
pub open spec fn manifest_ids_distinct(ms: Seq<PluginManifestView>) -> bool {
    forall|i: int, j: int|
        0 <= i < ms.len() && 0 <= j < ms.len() && i != j ==> #[trigger] ms[i].id != #[trigger] ms[j].id
}

/// The position of the entry with plugin id `id`, if any.
pub open spec fn has_id_at(es: Seq<PluginEntryView>, id: Seq<char>, i: int) -> bool {
    0 <= i < es.len() && es[i].manifest.id == id
}

/// The registry after loading `m` from `path`: an entry with the same id is
/// replaced in place, otherwise the entry is appended.
pub open spec fn after_load(es: Seq<PluginEntryView>, m: PluginManifestView, path: Seq<char>) -> Seq<
    PluginEntryView,
> {
    let e = PluginEntryView { manifest: m, path };
    if exists|i: int| has_id_at(es, m.id, i) {
        es.update(choose|i: int| has_id_at(es, m.id, i), e)
    } else {
        es.push(e)
    }
}

/// `id` is the result of intent matching over `ms` for `q`: the first
/// manifest with the highest score, when that score is positive.
pub open spec fn is_best_match(ms: Seq<PluginManifestView>, q: Seq<char>, b: int) -> bool {
    &&& 0 <= b < ms.len()
    &&& plugin_score(ms[b], q) > 0
    &&& forall|j: int| 0 <= j < ms.len() ==> plugin_score(#[trigger] ms[j], q) <= plugin_score(ms[b], q)
    &&& forall|j: int| 0 <= j < b ==> plugin_score(#[trigger] ms[j], q) < plugin_score(ms[b], q)
}

/// No manifest scores above zero for `q`.
pub open spec fn no_match(ms: Seq<PluginManifestView>, q: Seq<char>) -> bool {
    forall|j: int| 0 <= j < ms.len() ==> plugin_score(#[trigger] ms[j], q) == 0
}

/// The plugin registry.
pub struct PluginRegistry {
    entries: Vec<PluginEntry>,
}

impl View for PluginRegistry {
    type V = Seq<PluginEntryView>;

    closed spec fn view(&self) -> Seq<PluginEntryView> {
        self.entries@.map_values(|e: PluginEntry| e@)
    }
}

impl Default for PluginRegistry {
    /// An empty registry.
    fn default() -> (r: Self)
        ensures
            r@ == Seq::<PluginEntryView>::empty(),
    {
        PluginRegistry::new()
    }
}

impl PluginRegistry {
    #[verifier::type_invariant]
    spec fn wf(self) -> bool {
        ids_distinct(self@)
    }

    /// An empty registry.
    pub fn new() -> (r: Self)
        ensures
            r@ == Seq::<PluginEntryView>::empty(),
    {
        let r = PluginRegistry { entries: Vec::new() };
        assert(r@ =~= Seq::<PluginEntryView>::empty());
        r
    }

    fn find_index(&self, id: &str) -> (r: Option<usize>)
        ensures
            match r {
                Some(i) => has_id_at(self@, id@, i as int),
                None => forall|i: int| !has_id_at(self@, id@, i),
            },
    {
        let mut i: usize = 0;
        while i < self.entries.len()
            invariant
                i <= self@.len(),
                self@.len() == self.entries@.len(),
                forall|k: int| 0 <= k < i ==> !has_id_at(self@, id@, k),
            decreases self@.len() - i,
        {
            if str_eq(self.entries[i].manifest.id.as_str(), id) {
                assert(self@[i as int] == self.entries@[i as int]@);
                return Some(i);
            }
            assert(self@[i as int] == self.entries@[i as int]@);
            i = i + 1;
        }
        None
    }

    /// Registers a parsed manifest found in `plugin_dir` (the directory of
    /// its `extension.yaml`) and returns a copy of it. A plugin with the same
    /// id is replaced.
    pub fn load_plugin(&mut self, manifest: PluginManifest, plugin_dir: String) -> (r:
        PluginManifest)
        ensures
            r@ == manifest@,
            final(self)@ == after_load(old(self)@, manifest@, plugin_dir@),
            ids_distinct(final(self)@),
            exists|i: int| has_id_at(final(self)@, manifest@.id, i),
            forall|i: int| has_id_at(final(self)@, manifest@.id, i)
                ==> final(self)@[i].manifest == manifest@ && final(self)@[i].path == plugin_dir@,
    {
        proof {
            use_type_invariant(&*self);
        }
        let copy = manifest.clone();
        let ghost e = PluginEntryView { manifest: manifest@, path: plugin_dir@ };
        let found = self.find_index(manifest.id.as_str());
        let entry = PluginEntry { manifest, path: plugin_dir };
        let mut entries: Vec<PluginEntry> = Vec::new();
        std::mem::swap(&mut entries, &mut self.entries);
        match found {
            Some(i) => {
                proof {
                    assert(has_id_at(old(self)@, e.manifest.id, i as int));
                    let c = choose|k: int| has_id_at(old(self)@, e.manifest.id, k);
                    assert(c == i as int);
                }
                entries.set(i, entry);
                assert(entries@.map_values(|x: PluginEntry| x@) =~= old(self)@.update(i as int, e));
                let ghost ns = old(self)@.update(i as int, e);
                assert(forall|k: int| 0 <= k < old(self)@.len() ==> #[trigger] ns[k].manifest.id == old(self)@[k].manifest.id);
                assert(ids_distinct(ns)) by {
                    assert forall|a: int, b: int| 0 <= a < ns.len() && 0 <= b < ns.len() && a != b implies ns[a].manifest.id != ns[b].manifest.id by {
                        assert(ns[a].manifest.id == old(self)@[a].manifest.id);
                        assert(ns[b].manifest.id == old(self)@[b].manifest.id);
                    }
                }
            },
            None => {
                entries.push(entry);
                assert(entries@.map_values(|x: PluginEntry| x@) =~= old(self)@.push(e));
                assert(forall|k: int| 0 <= k < old(self)@.len() ==> !has_id_at(old(self)@, e.manifest.id, k));
                let ghost ns = old(self)@.push(e);
                assert(ids_distinct(ns)) by {
                    assert forall|a: int, b: int| 0 <= a < ns.len() && 0 <= b < ns.len() && a != b implies ns[a].manifest.id != ns[b].manifest.id by {
                        if a < old(self)@.len() && b < old(self)@.len() {
                            assert(ns[a] == old(self)@[a]);
                            assert(ns[b] == old(self)@[b]);
                        } else if a < old(self)@.len() {
                            assert(ns[a] == old(self)@[a]);
                            assert(!has_id_at(old(self)@, e.manifest.id, a));
                        } else {
                            assert(ns[b] == old(self)@[b]);
                            assert(!has_id_at(old(self)@, e.manifest.id, b));
                        }
                    }
                }
            },
        }
        self.entries = entries;
        proof {
            law_load_then_get(old(self)@, e.manifest, e.path, e.manifest.id);
        }
        copy
    }

    /// Copies of all registered manifests, in registry order.
    pub fn get_all_manifests(&self) -> (r: Vec<PluginManifest>)
        ensures
            r@.map_values(|m: PluginManifest| m@) == manifests_of(self@),
            ids_distinct(self@),
            manifest_ids_distinct(r@.map_values(|m: PluginManifest| m@)),
    {
        proof {
            use_type_invariant(self);
        }
        let mut r: Vec<PluginManifest> = Vec::new();
        let mut i: usize = 0;
        while i < self.entries.len()
            invariant
                i <= self@.len(),
                self@.len() == self.entries@.len(),
                r@.map_values(|m: PluginManifest| m@) == manifests_of(self@).subrange(0, i as int),
            decreases self@.len() - i,
        {
            let m = self.entries[i].manifest.clone();
            let ghost before = r@;
            r.push(m);
            assert(r@.map_values(|m: PluginManifest| m@) =~= before.map_values(
                |m: PluginManifest| m@,
            ).push(self@[i as int].manifest));
            i = i + 1;
            assert(r@.map_values(|m: PluginManifest| m@) =~= manifests_of(self@).subrange(0, i as int));
        }
        assert(manifests_of(self@).subrange(0, i as int) =~= manifests_of(self@));
        proof {
            law_selection_ids_distinct(self@, |m: PluginManifestView| true);
        }
        r
    }

    /// The manifest of the plugin with id `id`.
    pub fn get_manifest(&self, id: &str) -> (r: Option<&PluginManifest>)
        ensures
            match r {
                Some(m) => exists|i: int| has_id_at(self@, id@, i) && self@[i].manifest == m@,
                None => forall|i: int| !has_id_at(self@, id@, i),
            },
    {
        match self.find_index(id) {
            Some(i) => {
                assert(self@[i as int] == self.entries@[i as int]@);
                Some(&self.entries[i].manifest)
            },
            None => None,
        }
    }

    /// The directory of the plugin with id `id`.
    pub fn get_path(&self, id: &str) -> (r: Option<&str>)
        ensures
            match r {
                Some(p) => exists|i: int| has_id_at(self@, id@, i) && self@[i].path == p@,
                None => forall|i: int| !has_id_at(self@, id@, i),
            },
    {
        match self.find_index(id) {
            Some(i) => {
                assert(self@[i as int] == self.entries@[i as int]@);
                Some(self.entries[i].path.as_str())
            },
            None => None,
        }
    }

    /// Intent matching: the id of the plugin whose manifest scores highest
    /// for `query` (the first such one), or `None` when no plugin scores
    /// above zero.
    pub fn match_intent(&self, query: &str) -> (r: Option<String>)
        ensures
            match r {
                Some(id) => exists|b: int|
                    is_best_match(manifests_of(self@), query@, b) && manifests_of(self@)[b].id
                        == id@,
                None => no_match(manifests_of(self@), query@),
            },
    {
        let ghost ms = manifests_of(self@);
        let mut best_score: u128 = 0;
        let mut best: Option<usize> = None;
        let mut i: usize = 0;
        while i < self.entries.len()
            invariant
                i <= self@.len(),
                self@.len() == self.entries@.len(),
                ms == manifests_of(self@),
                match best {
                    Some(b) => {
                        &&& b < i
                        &&& plugin_score(ms[b as int], query@) == best_score
                        &&& best_score > 0
                        &&& forall|j: int| 0 <= j < i ==> plugin_score(#[trigger] ms[j], query@) <= best_score
                        &&& forall|j: int| 0 <= j < b ==> plugin_score(#[trigger] ms[j], query@) < best_score
                    },
                    None => best_score == 0 && forall|j: int|
                        0 <= j < i ==> plugin_score(#[trigger] ms[j], query@) == 0,
                },
            decreases self@.len() - i,
        {
            assert(ms[i as int] == self.entries@[i as int].manifest@);
            let score = self.entries[i].manifest.match_score(query);
            if score > best_score {
                best_score = score;
                best = Some(i);
            }
            i = i + 1;
        }
        match best {
            Some(b) => {
                assert(ms[b as int] == self.entries@[b as int].manifest@);
                assert(is_best_match(ms, query@, b as int));
                Some(self.entries[b].manifest.id.clone())
            },
            None => None,
        }
    }

    /// The manifests of the plugins that handle `url`, in registry order.
    pub fn find_by_platform(&self, url: &str) -> (r: Vec<&PluginManifest>)
        ensures
            r@.map_values(|m: &PluginManifest| m@) == manifests_of(self@).filter(
                |m: PluginManifestView| supports_url_spec(m, url@),
            ),
            ids_distinct(self@),
            manifest_ids_distinct(r@.map_values(|m: &PluginManifest| m@)),
            r@.len() <= self@.len(),
    {
        proof {
            use_type_invariant(self);
        }
        let ghost f = |m: PluginManifestView| supports_url_spec(m, url@);
        let mut r: Vec<&PluginManifest> = Vec::new();
        let mut i: usize = 0;
        while i < self.entries.len()
            invariant
                i <= self@.len(),
                self@.len() == self.entries@.len(),
                f == (|m: PluginManifestView| supports_url_spec(m, url@)),
                r@.map_values(|m: &PluginManifest| m@) == manifests_of(self@).subrange(
                    0,
                    i as int,
                ).filter(f),
            decreases self@.len() - i,
        {
            proof {
                reveal(Seq::filter);
                assert(manifests_of(self@).subrange(0, i + 1).drop_last() =~= manifests_of(
                    self@,
                ).subrange(0, i as int));
            }
            let m = &self.entries[i].manifest;
            assert(manifests_of(self@)[i as int] == m@);
            if m.supports_url(url) {
                let ghost before = r@;
                r.push(m);
                assert(r@.map_values(|m: &PluginManifest| m@) =~= before.map_values(
                    |m: &PluginManifest| m@,
                ).push(m@));
            }
            i = i + 1;
        }
        assert(manifests_of(self@).subrange(0, i as int) =~= manifests_of(self@));
        proof {
            law_selection_ids_distinct(self@, f);
        }
        r
    }

    /// The manifests of the plugins that declare capability `cap`, in
    /// registry order.
    pub fn find_by_capability(&self, cap: &PluginCapability) -> (r: Vec<&PluginManifest>)
        ensures
            r@.map_values(|m: &PluginManifest| m@) == manifests_of(self@).filter(
                |m: PluginManifestView| m.capabilities.contains(*cap),
            ),
            ids_distinct(self@),
            manifest_ids_distinct(r@.map_values(|m: &PluginManifest| m@)),
            r@.len() <= self@.len(),
    {
        proof {
            use_type_invariant(self);
        }
        let ghost f = |m: PluginManifestView| m.capabilities.contains(*cap);
        let mut r: Vec<&PluginManifest> = Vec::new();
        let mut i: usize = 0;
        while i < self.entries.len()
            invariant
                i <= self@.len(),
                self@.len() == self.entries@.len(),
                f == (|m: PluginManifestView| m.capabilities.contains(*cap)),
                r@.map_values(|m: &PluginManifest| m@) == manifests_of(self@).subrange(
                    0,
                    i as int,
                ).filter(f),
            decreases self@.len() - i,
        {
            proof {
                reveal(Seq::filter);
                assert(manifests_of(self@).subrange(0, i + 1).drop_last() =~= manifests_of(
                    self@,
                ).subrange(0, i as int));
            }
            let m = &self.entries[i].manifest;
            assert(manifests_of(self@)[i as int] == m@);
            if has_capability(&m.capabilities, cap) {
                let ghost before = r@;
                r.push(m);
                assert(r@.map_values(|m: &PluginManifest| m@) =~= before.map_values(
                    |m: &PluginManifest| m@,
                ).push(m@));
            }
            i = i + 1;
        }
        assert(manifests_of(self@).subrange(0, i as int) =~= manifests_of(self@));
        proof {
            law_selection_ids_distinct(self@, f);
        }
        r
    }

    /// The number of registered plugins.
    pub fn len(&self) -> (r: usize)
        ensures
            r == self@.len(),
            ids_distinct(self@),
    {
        proof {
            use_type_invariant(self);
        }
        self.entries.len()
    }

    /// Whether no plugin is registered.
    pub fn is_empty(&self) -> (r: bool)
        ensures
            r == (self@.len() == 0),
    {
        self.entries.len() == 0
    }
}

/// Law: the manifests of a registry have distinct plugin ids, and so has
/// every selection of them in registry order (as `find_by_platform` and
/// `find_by_capability` make), which holds at most as many manifests as the
/// registry has entries.
pub proof fn law_selection_ids_distinct(es: Seq<PluginEntryView>, f: spec_fn(PluginManifestView) -> bool)
    requires
        ids_distinct(es),
    ensures
        manifest_ids_distinct(manifests_of(es)),
        manifest_ids_distinct(manifests_of(es).filter(f)),
        manifests_of(es).filter(f).len() <= es.len(),
{
    let ms = manifests_of(es);
    assert forall|i: int, j: int| 0 <= i < ms.len() && 0 <= j < ms.len() && i != j implies #[trigger] ms[i].id != #[trigger] ms[j].id by {
        assert(ms[i] == es[i].manifest && ms[j] == es[j].manifest);
    }
    lemma_filter_distinct(ms, f);
    ms.lemma_filter_len(f);
}

/// A selection from manifests with distinct ids has distinct ids.
proof fn lemma_filter_distinct(ms: Seq<PluginManifestView>, f: spec_fn(PluginManifestView) -> bool)
    requires
        manifest_ids_distinct(ms),
    ensures
        manifest_ids_distinct(ms.filter(f)),
    decreases ms.len(),
{
    reveal(Seq::filter);
    if ms.len() > 0 {
        let dl = ms.drop_last();
        assert forall|i: int, j: int| 0 <= i < dl.len() && 0 <= j < dl.len() && i != j implies #[trigger] dl[i].id != #[trigger] dl[j].id by {
            assert(dl[i] == ms[i] && dl[j] == ms[j]);
        }
        lemma_filter_distinct(dl, f);
        let sub = dl.filter(f);
        if f(ms.last()) {
            let out = sub.push(ms.last());
            assert forall|j: int| 0 <= j < sub.len() implies #[trigger] sub[j].id != ms.last().id by {
                assert(sub.contains(sub[j]));
                dl.lemma_filter_contains_rev(f, sub[j]);
                let k = choose|k: int| 0 <= k < dl.len() && dl[k] == sub[j];
                assert(ms[k] == dl[k]);
                assert(ms[ms.len() - 1] == ms.last());
            }
            assert forall|i: int, j: int| 0 <= i < out.len() && 0 <= j < out.len() && i != j implies #[trigger] out[i].id != #[trigger] out[j].id by {
                if i < sub.len() && j < sub.len() {
                    assert(out[i] == sub[i] && out[j] == sub[j]);
                } else if i < sub.len() {
                    assert(out[i] == sub[i] && out[j] == ms.last());
                } else {
                    assert(out[j] == sub[j] && out[i] == ms.last());
                }
            }
        }
    }
}

/// Loading a plugin keeps plugin ids unique; looking its id up afterwards
/// finds the manifest and directory just loaded, and every other id finds
/// what it found before.
pub proof fn law_load_then_get(es: Seq<PluginEntryView>, m: PluginManifestView, path: Seq<char>, id: Seq<char>)
    requires
        ids_distinct(es),
    ensures
        ids_distinct(after_load(es, m, path)),
        exists|i: int| has_id_at(after_load(es, m, path), m.id, i),
        forall|i: int| has_id_at(after_load(es, m, path), m.id, i)
            ==> after_load(es, m, path)[i].manifest == m && after_load(es, m, path)[i].path == path,
        id != m.id ==> forall|i: int| #[trigger] has_id_at(after_load(es, m, path), id, i)
            ==> exists|j: int| has_id_at(es, id, j) && es[j] == after_load(es, m, path)[i],
        id != m.id ==> forall|j: int| #[trigger] has_id_at(es, id, j)
            ==> exists|i: int| has_id_at(after_load(es, m, path), id, i) && after_load(es, m, path)[i] == es[j],
{
    let a = after_load(es, m, path);
    let e = PluginEntryView { manifest: m, path };
    if exists|i: int| has_id_at(es, m.id, i) {
        let c = choose|i: int| has_id_at(es, m.id, i);
        assert(a == es.update(c, e));
        assert(has_id_at(a, m.id, c));
        assert forall|i: int| has_id_at(a, m.id, i) implies a[i].manifest == m && a[i].path == path by {
            if i != c {
                assert(a[i] == es[i]);
                assert(es[i].manifest.id == es[c].manifest.id);
            }
        }
        assert forall|x: int, y: int| 0 <= x < a.len() && 0 <= y < a.len() && x != y implies #[trigger] a[x].manifest.id != #[trigger] a[y].manifest.id by {
            assert(a[x].manifest.id == es[x].manifest.id && a[y].manifest.id == es[y].manifest.id);
        }
        if id != m.id {
            assert forall|i: int| #[trigger] has_id_at(a, id, i) implies exists|j: int| has_id_at(es, id, j) && es[j] == a[i] by {
                assert(i != c);
                assert(has_id_at(es, id, i));
            }
            assert forall|j: int| #[trigger] has_id_at(es, id, j) implies exists|i: int| has_id_at(a, id, i) && a[i] == es[j] by {
                assert(j != c);
                assert(has_id_at(a, id, j));
            }
        }
    } else {
        assert(a == es.push(e));
        assert(has_id_at(a, m.id, es.len() as int));
        assert forall|i: int| has_id_at(a, m.id, i) implies a[i].manifest == m && a[i].path == path by {
            if i < es.len() {
                assert(has_id_at(es, m.id, i));
            }
        }
        assert forall|x: int, y: int| 0 <= x < a.len() && 0 <= y < a.len() && x != y implies #[trigger] a[x].manifest.id != #[trigger] a[y].manifest.id by {
            if x < es.len() && y < es.len() {
                assert(a[x] == es[x] && a[y] == es[y]);
            } else if x < es.len() {
                assert(a[x] == es[x]);
                assert(!has_id_at(es, m.id, x));
            } else {
                assert(a[y] == es[y]);
                assert(!has_id_at(es, m.id, y));
            }
        }
        if id != m.id {
            assert forall|i: int| #[trigger] has_id_at(a, id, i) implies exists|j: int| has_id_at(es, id, j) && es[j] == a[i] by {
                assert(has_id_at(es, id, i));
            }
            assert forall|j: int| #[trigger] has_id_at(es, id, j) implies exists|i: int| has_id_at(a, id, i) && a[i] == es[j] by {
                assert(has_id_at(a, id, j));
            }
        }
    }
}

/// Loading a plugin whose id is new adds one entry; reloading a known id
/// keeps the count.
pub proof fn law_load_count(es: Seq<PluginEntryView>, m: PluginManifestView, path: Seq<char>)
    ensures
        after_load(es, m, path).len() == if exists|i: int| has_id_at(es, m.id, i) { es.len() } else { es.len() + 1 },
{
}

/// An empty registry matches no query.
pub proof fn law_empty_matches_nothing(q: Seq<char>)
    ensures
        no_match(manifests_of(Seq::<PluginEntryView>::empty()), q),
{
}

/// Whether `caps` lists `cap`.
fn has_capability(caps: &Vec<PluginCapability>, cap: &PluginCapability) -> (r: bool)
    ensures
        r == caps@.contains(*cap),
{
    let mut i: usize = 0;
    while i < caps.len()
        invariant
            i <= caps@.len(),
            forall|k: int| 0 <= k < i ==> caps@[k] != *cap,
        decreases caps@.len() - i,
    {
        if caps[i] == *cap {
            return true;
        }
        i = i + 1;
    }
    false
}

} // verus!
