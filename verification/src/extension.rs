//! Extensions: manifests read from `extension.yaml`, extension instances,
//! and the registry that matches queries against them.

use vstd::prelude::*;
use vstd::string::StringExecFns;
use crate::sync::TaskMetadata;
use crate::text::{
    any_contained, any_contained_exec, chars_of, clone_strings, contains_chars, contains_seq,
    count_hits, count_lower_hits, count_stripped_hits, lemma_count_hits_positive,
    lemma_count_hits_push, lower_norm, lowercase, remove_chars_seq, str_eq, strip_lower_norm,
    to_lowercase, views,
};

verus! {

/// The self-description of an extension that intent matching reads.
#[derive(Debug)]
pub struct AIManifest {
    pub description: String,
    pub keywords: Vec<String>,
    pub examples: Vec<String>,
    pub intent_patterns: Vec<String>,
    /// Keyword lists by confidence level, as (level, keywords) pairs.
    pub confidence_keywords: Vec<(String, Vec<String>)>,
}

/// The manifest of an extension.
#[derive(Debug)]
pub struct ExtensionManifest {
    pub name: String,
    pub version: String,
    pub description: String,
    pub ai_manifest: Option<AIManifest>,
    pub capabilities: Vec<String>,
    pub platforms: Vec<String>,
}

pub struct AIManifestView {
    pub description: Seq<char>,
    pub keywords: Seq<Seq<char>>,
    pub examples: Seq<Seq<char>>,
    pub intent_patterns: Seq<Seq<char>>,
    pub confidence_keywords: Seq<(Seq<char>, Seq<Seq<char>>)>,
}

pub struct ExtensionManifestView {
    pub name: Seq<char>,
    pub version: Seq<char>,
    pub description: Seq<char>,
    pub ai_manifest: Option<AIManifestView>,
    pub capabilities: Seq<Seq<char>>,
    pub platforms: Seq<Seq<char>>,
}

pub open spec fn level_views(v: Seq<(String, Vec<String>)>) -> Seq<(Seq<char>, Seq<Seq<char>>)> {
    v.map_values(|p: (String, Vec<String>)| (p.0@, views(p.1@)))
}

impl View for AIManifest {
    type V = AIManifestView;

    open spec fn view(&self) -> AIManifestView {
        AIManifestView {
            description: self.description@,
            keywords: views(self.keywords@),
            examples: views(self.examples@),
            intent_patterns: views(self.intent_patterns@),
            confidence_keywords: level_views(self.confidence_keywords@),
        }
    }
}

impl View for ExtensionManifest {
    type V = ExtensionManifestView;

    open spec fn view(&self) -> ExtensionManifestView {
        ExtensionManifestView {
            name: self.name@,
            version: self.version@,
            description: self.description@,
            ai_manifest: match self.ai_manifest {
                Some(a) => Some(a@),
                None => None,
            },
            capabilities: views(self.capabilities@),
            platforms: views(self.platforms@),
        }
    }
}

fn clone_levels(v: &Vec<(String, Vec<String>)>) -> (r: Vec<(String, Vec<String>)>)
    ensures
        level_views(r@) == level_views(v@),
{
    let mut r: Vec<(String, Vec<String>)> = Vec::new();
    let mut i: usize = 0;
    while i < v.len()
        invariant
            i <= v@.len(),
            level_views(r@) == level_views(v@).subrange(0, i as int),
        decreases v@.len() - i,
    {
        let p = (v[i].0.clone(), clone_strings(&v[i].1));
        let ghost before = r@;
        r.push(p);
        assert(level_views(r@) =~= level_views(before).push((v@[i as int].0@, views(v@[i as int].1@))));
        i = i + 1;
        assert(level_views(r@) =~= level_views(v@).subrange(0, i as int));
    }
    assert(level_views(v@).subrange(0, i as int) =~= level_views(v@));
    r
}

impl Clone for AIManifest {
    fn clone(&self) -> (r: Self)
        ensures
            r@ == self@,
    {
        AIManifest {
            description: self.description.clone(),
            keywords: clone_strings(&self.keywords),
            examples: clone_strings(&self.examples),
            intent_patterns: clone_strings(&self.intent_patterns),
            confidence_keywords: clone_levels(&self.confidence_keywords),
        }
    }
}

impl Clone for ExtensionManifest {
    fn clone(&self) -> (r: Self)
        ensures
            r@ == self@,
    {
        ExtensionManifest {
            name: self.name.clone(),
            version: self.version.clone(),
            description: self.description.clone(),
            ai_manifest: match &self.ai_manifest {
                Some(a) => Some(a.clone()),
                None => None,
            },
            capabilities: clone_strings(&self.capabilities),
            platforms: clone_strings(&self.platforms),
        }
    }
}

/// The intent score of an extension manifest for a query, in half points:
/// with `q` the lowercased query, when the manifest has an AI part each
/// keyword found in `q` gives 1 point, each intent pattern (without `*`)
/// found 0.5 and each platform found 1.5; a description that contains `q`
/// adds 0.5.
pub open spec fn extension_score(m: ExtensionManifestView, query: Seq<char>) -> nat {
    extension_score_lower(m, lowercase(query))
}

/// The same score for a query already in lower case `q`.
pub open spec fn extension_score_lower(m: ExtensionManifestView, q: Seq<char>) -> nat {
    let ai_part: nat = match m.ai_manifest {
        Some(ai) => 2 * count_hits(q, ai.keywords, lower_norm(), false) + count_hits(
            q,
            ai.intent_patterns,
            strip_lower_norm(seq!['*']),
            false,
        ) + 3 * count_hits(q, m.platforms, lower_norm(), false),
        None => 0,
    };
    ai_part + (if contains_seq(lowercase(m.description), q) {
        1nat
    } else {
        0nat
    })
}

impl ExtensionManifest {
    /// The intent score for `query`, in half points (a score of 1.5 is 3).
    pub fn match_score(&self, query: &str) -> (r: u128)
        ensures
            r == extension_score(self@, query@),
    {
        let ql = to_lowercase(query);
        self.match_score_lower(ql.as_str())
    }

    /// The intent score for a query already in lower case.
    pub fn match_score_lower(&self, ql: &str) -> (r: u128)
        ensures
            r == extension_score_lower(self@, ql@),
    {
        let q = chars_of(ql);
        let mut score: u128 = 0;
        match &self.ai_manifest {
            Some(ai) => {
                let kw = count_lower_hits(&q, &ai.keywords);
                let mut star: Vec<char> = Vec::new();
                star.push('*');
                assert(star@ =~= seq!['*']);
                let pat = count_stripped_hits(&q, &ai.intent_patterns, &star, false);
                let plat = count_lower_hits(&q, &self.platforms);
                score = 2 * (kw as u128) + (pat as u128) + 3 * (plat as u128);
            },
            None => {},
        }
        let desc = to_lowercase(self.description.as_str());
        if contains_chars(&chars_of(desc.as_str()), &q) {
            score = score + 1;
        }
        score
    }
}

/// Whether an extension with manifest `m` handles `url`: whether one of its
/// platforms occurs in it.
pub fn manifest_supports(m: &ExtensionManifest, url: &str) -> (r: bool)
    ensures
        r == any_contained(url@, m@.platforms),
{
    any_contained_exec(url, &m.platforms)
}

/// What an extension offers beyond downloading, written by the authors of
/// extensions: its manifest and the URLs it handles.
pub trait DownloadExtension {
    /// The manifest of the extension.
    fn manifest(&self) -> &ExtensionManifest;

    /// Whether the extension handles `url`: by default, whether one of the
    /// platforms of its manifest occurs in it.
    fn supports(&self, url: &str) -> (r: bool)
        default_ensures
            exists|m: &ExtensionManifest| call_ensures(Self::manifest, (self,), m) && r == any_contained(url@, m@.platforms),
    {
        let m = self.manifest();
        assert(call_ensures(Self::manifest, (self,), m));
        manifest_supports(m, url)
    }
}

/// A loaded extension: its manifest and the directory it was found in.
#[derive(Debug)]
pub struct ExtInstance {
    pub manifest: ExtensionManifest,
    pub path: String,
}

pub struct ExtInstanceView {
    pub manifest: ExtensionManifestView,
    pub path: Seq<char>,
}

impl View for ExtInstance {
    type V = ExtInstanceView;

    open spec fn view(&self) -> ExtInstanceView {
        ExtInstanceView { manifest: self.manifest@, path: self.path@ }
    }
}

impl ExtInstance {
    pub fn new(manifest: ExtensionManifest, path: String) -> (r: Self)
        ensures
            r@ == (ExtInstanceView { manifest: manifest@, path: path@ }),
    {
        ExtInstance { manifest, path }
    }
}

impl ExtInstance {
    /// Downloading through a manifest alone is not available: always the
    /// error "扩展下载未实现: " with the extension's name.
    pub fn download(&self, url: &str, dest: &str) -> (r: Result<String, String>)
        ensures
            r matches Err(m) && m@ == "扩展下载未实现: "@ + self.manifest.name@,
    {
        let mut m = String::from_str("扩展下载未实现: ");
        m.append(self.manifest.name.as_str());
        Err(m)
    }

    /// Reading metadata through a manifest alone is not available: always
    /// the error "扩展元信息获取未实现: " with the extension's name.
    pub fn get_metadata(&self, url: &str) -> (r: Result<TaskMetadata, String>)
        ensures
            r matches Err(m) && m@ == "扩展元信息获取未实现: "@ + self.manifest.name@,
    {
        let mut m = String::from_str("扩展元信息获取未实现: ");
        m.append(self.manifest.name.as_str());
        Err(m)
    }
}

impl DownloadExtension for ExtInstance {
    fn manifest(&self) -> (r: &ExtensionManifest)
        ensures
            r@ == self.manifest@,
    {
        &self.manifest
    }
}

/// The registry's view: the loaded extensions, one per name, and every
/// manifest registered, in order of registration (a name registered twice
/// appears twice).
pub struct ExtensionRegistryView {
    pub extensions: Seq<ExtInstanceView>,
    pub manifests: Seq<ExtensionManifestView>,
}

/// The loaded extensions and the registered manifests name the same
/// extensions: each loaded one was registered, and each registered name is
/// loaded.
pub open spec fn names_agree(es: Seq<ExtInstanceView>, ms: Seq<ExtensionManifestView>) -> bool {
    &&& forall|i: int| 0 <= i < es.len() ==> exists|j: int| 0 <= j < ms.len() && (#[trigger] ms[j]).name == (#[trigger] es[i]).manifest.name
    &&& forall|j: int| 0 <= j < ms.len() ==> exists|i: int| #[trigger] has_name_at(es, (#[trigger] ms[j]).name, i)
}

/// The names of the manifests.
pub open spec fn manifest_names(ms: Seq<ExtensionManifestView>) -> Seq<Seq<char>> {
    ms.map_values(|m: ExtensionManifestView| m.name)
}

/// The names of the loaded extensions.
pub open spec fn instance_names(es: Seq<ExtInstanceView>) -> Seq<Seq<char>> {
    es.map_values(|e: ExtInstanceView| e.manifest.name)
}

/// No two extensions share a name.
pub open spec fn names_distinct(es: Seq<ExtInstanceView>) -> bool {
    forall|i: int, j: int|
        0 <= i < es.len() && 0 <= j < es.len() && i != j ==> #[trigger] es[i].manifest.name
            != #[trigger] es[j].manifest.name
}

pub open spec fn has_name_at(es: Seq<ExtInstanceView>, name: Seq<char>, i: int) -> bool {
    0 <= i < es.len() && es[i].manifest.name == name
}

/// The extensions after registering `e`: one with the same name is replaced
/// in place, otherwise `e` is appended.
pub open spec fn after_add(es: Seq<ExtInstanceView>, e: ExtInstanceView) -> Seq<ExtInstanceView> {
    if exists|i: int| has_name_at(es, e.manifest.name, i) {
        es.update(choose|i: int| has_name_at(es, e.manifest.name, i), e)
    } else {
        es.push(e)
    }
}

/// `b` is the result of intent matching over `ms` for `q`: the first
/// manifest with the highest score, when that score is positive.
pub open spec fn is_best_extension(ms: Seq<ExtensionManifestView>, q: Seq<char>, b: int) -> bool {
    &&& 0 <= b < ms.len()
    &&& extension_score(ms[b], q) > 0
    &&& forall|j: int| 0 <= j < ms.len() ==> extension_score(#[trigger] ms[j], q) <= extension_score(ms[b], q)
    &&& forall|j: int| 0 <= j < b ==> extension_score(#[trigger] ms[j], q) < extension_score(ms[b], q)
}

/// No manifest scores above zero for `q`.
pub open spec fn no_extension_match(ms: Seq<ExtensionManifestView>, q: Seq<char>) -> bool {
    forall|j: int| 0 <= j < ms.len() ==> extension_score(#[trigger] ms[j], q) == 0
}

/// The extension registry.
pub struct ExtensionRegistry {
    extensions: Vec<ExtInstance>,
    manifests: Vec<ExtensionManifest>,
}

pub open spec fn instance_views(v: Seq<ExtInstance>) -> Seq<ExtInstanceView> {
    v.map_values(|e: ExtInstance| e@)
}

pub open spec fn manifest_views(v: Seq<ExtensionManifest>) -> Seq<ExtensionManifestView> {
    v.map_values(|m: ExtensionManifest| m@)
}

impl View for ExtensionRegistry {
    type V = ExtensionRegistryView;

    closed spec fn view(&self) -> ExtensionRegistryView {
        ExtensionRegistryView {
            extensions: instance_views(self.extensions@),
            manifests: manifest_views(self.manifests@),
        }
    }
}

impl Default for ExtensionRegistry {
    /// An empty registry.
    fn default() -> (r: Self)
        ensures
            r@.extensions.len() == 0,
            r@.manifests.len() == 0,
    {
        ExtensionRegistry::new()
    }
}

impl ExtensionRegistry {
    #[verifier::type_invariant]
    spec fn wf(self) -> bool {
        &&& names_distinct(instance_views(self.extensions@))
        &&& names_agree(instance_views(self.extensions@), manifest_views(self.manifests@))
    }

    /// An empty registry.
    pub fn new() -> (r: Self)
        ensures
            r@.extensions.len() == 0,
            r@.manifests.len() == 0,
    {
        let r = ExtensionRegistry { extensions: Vec::new(), manifests: Vec::new() };
        r
    }

    fn find_index(&self, name: &str) -> (r: Option<usize>)
        ensures
            match r {
                Some(i) => has_name_at(self@.extensions, name@, i as int),
                None => forall|i: int| !has_name_at(self@.extensions, name@, i),
            },
    {
        let mut i: usize = 0;
        while i < self.extensions.len()
            invariant
                i <= self@.extensions.len(),
                self@.extensions == instance_views(self.extensions@),
                forall|k: int| 0 <= k < i ==> !has_name_at(self@.extensions, name@, k),
            decreases self@.extensions.len() - i,
        {
            if str_eq(self.extensions[i].manifest.name.as_str(), name) {
                return Some(i);
            }
            i = i + 1;
        }
        None
    }

    /// Registers a parsed manifest found in `dir` (the directory of its
    /// `extension.yaml`): the extension of that name becomes an instance of
    /// it, and the manifest is added to the list of manifests.
    pub fn add_extension(&mut self, manifest: ExtensionManifest, dir: String)
        ensures
            final(self)@.extensions == after_add(
                old(self)@.extensions,
                (ExtInstanceView { manifest: manifest@, path: dir@ }),
            ),
            final(self)@.manifests == old(self)@.manifests.push(manifest@),
            names_distinct(final(self)@.extensions),
            exists|i: int| has_name_at(final(self)@.extensions, manifest@.name, i),
            forall|i: int| has_name_at(final(self)@.extensions, manifest@.name, i)
                ==> final(self)@.extensions[i].manifest == manifest@ && final(self)@.extensions[i].path == dir@,
    {
        proof {
            use_type_invariant(&*self);
        }
        let ghost old_es = self@.extensions;
        let ghost old_ms = self@.manifests;
        let ghost e = ExtInstanceView { manifest: manifest@, path: dir@ };
        let copy = manifest.clone();
        let found = self.find_index(manifest.name.as_str());
        let inst = ExtInstance::new(copy, dir);
        let mut taken = ExtensionRegistry::new();
        std::mem::swap(&mut taken, self);
        let ExtensionRegistry { extensions, manifests } = taken;
        let mut extensions = extensions;
        assert(instance_views(extensions@) == old_es);
        assert(manifest_views(manifests@) == old_ms);
        match found {
            Some(i) => {
                proof {
                    let c = choose|k: int| has_name_at(old_es, e.manifest.name, k);
                    assert(c == i as int);
                }
                extensions.set(i, inst);
                let ghost ns = old_es.update(i as int, e);
                assert(instance_views(extensions@) =~= ns);
                assert(names_distinct(ns)) by {
                    assert forall|a: int, b: int|
                        0 <= a < ns.len() && 0 <= b < ns.len() && a != b implies ns[a].manifest.name
                        != ns[b].manifest.name by {
                        assert(ns[a].manifest.name == old_es[a].manifest.name);
                        assert(ns[b].manifest.name == old_es[b].manifest.name);
                    }
                }
            },
            None => {
                extensions.push(inst);
                let ghost ns = old_es.push(e);
                assert(instance_views(extensions@) =~= ns);
                assert(names_distinct(ns)) by {
                    assert forall|a: int, b: int|
                        0 <= a < ns.len() && 0 <= b < ns.len() && a != b implies ns[a].manifest.name
                        != ns[b].manifest.name by {
                        if a < old_es.len() && b < old_es.len() {
                            assert(ns[a] == old_es[a]);
                            assert(ns[b] == old_es[b]);
                        } else if a < old_es.len() {
                            assert(ns[a] == old_es[a]);
                            assert(!has_name_at(old_es, e.manifest.name, a));
                        } else {
                            assert(ns[b] == old_es[b]);
                            assert(!has_name_at(old_es, e.manifest.name, b));
                        }
                    }
                }
            },
        }
        let mut manifests = manifests;
        let ghost before = manifests@;
        manifests.push(manifest);
        assert(manifest_views(manifests@) =~= manifest_views(before).push(e.manifest));
        proof {
            law_add_then_get(old_es, e.manifest, e.path, e.manifest.name);
            lemma_add_keeps_names_agree(old_es, old_ms, e);
        }
        *self = ExtensionRegistry { extensions, manifests };
    }

    /// Copies of all registered manifests, in order of registration.
    pub fn get_all_manifests(&self) -> (r: Vec<ExtensionManifest>)
        ensures
            manifest_views(r@) == self@.manifests,
    {
        let mut r: Vec<ExtensionManifest> = Vec::new();
        let mut i: usize = 0;
        while i < self.manifests.len()
            invariant
                i <= self.manifests@.len(),
                self@.manifests == manifest_views(self.manifests@),
                manifest_views(r@) == self@.manifests.subrange(0, i as int),
            decreases self.manifests@.len() - i,
        {
            let m = self.manifests[i].clone();
            let ghost before = r@;
            r.push(m);
            assert(manifest_views(r@) =~= manifest_views(before).push(self@.manifests[i as int]));
            i = i + 1;
            assert(manifest_views(r@) =~= self@.manifests.subrange(0, i as int));
        }
        assert(self@.manifests.subrange(0, i as int) =~= self@.manifests);
        r
    }

    /// The extension named `name`.
    pub fn get(&self, name: &str) -> (r: Option<&ExtInstance>)
        ensures
            match r {
                Some(e) => exists|i: int| has_name_at(self@.extensions, name@, i) && self@.extensions[i] == e@,
                None => forall|i: int| !has_name_at(self@.extensions, name@, i),
            },
    {
        match self.find_index(name) {
            Some(i) => Some(&self.extensions[i]),
            None => None,
        }
    }

    /// Intent matching: the name of the manifest that scores highest for
    /// `query` (the first such one), or `None` when none scores above zero.
    pub fn match_intent(&self, query: &str) -> (r: Option<String>)
        ensures
            match r {
                Some(name) => exists|b: int|
                    is_best_extension(self@.manifests, query@, b) && self@.manifests[b].name
                        == name@,
                None => no_extension_match(self@.manifests, query@),
            },
    {
        let ghost ms = self@.manifests;
        let mut best_score: u128 = 0;
        let mut best: Option<usize> = None;
        let mut i: usize = 0;
        while i < self.manifests.len()
            invariant
                i <= ms.len(),
                ms == manifest_views(self.manifests@),
                match best {
                    Some(b) => {
                        &&& b < i
                        &&& extension_score(ms[b as int], query@) == best_score
                        &&& best_score > 0
                        &&& forall|j: int| 0 <= j < i ==> extension_score(#[trigger] ms[j], query@) <= best_score
                        &&& forall|j: int| 0 <= j < b ==> extension_score(#[trigger] ms[j], query@) < best_score
                    },
                    None => best_score == 0 && forall|j: int|
                        0 <= j < i ==> extension_score(#[trigger] ms[j], query@) == 0,
                },
            decreases ms.len() - i,
        {
            let score = self.manifests[i].match_score(query);
            if score > best_score {
                best_score = score;
                best = Some(i);
            }
            i = i + 1;
        }
        match best {
            Some(b) => {
                assert(is_best_extension(ms, query@, b as int));
                Some(self.manifests[b].name.clone())
            },
            None => None,
        }
    }

    /// The number of loaded extensions (one per name).
    pub fn len(&self) -> (r: usize)
        ensures
            r == self@.extensions.len(),
            r == manifest_names(self@.manifests).to_set().len(),
            r <= self@.manifests.len(),
    {
        proof {
            use_type_invariant(self);
            law_loaded_count(self@.extensions, self@.manifests);
        }
        self.extensions.len()
    }

    /// Whether no extension is loaded; that is, whether no manifest was
    /// registered.
    pub fn is_empty(&self) -> (r: bool)
        ensures
            r == (self@.extensions.len() == 0),
            r == (self@.manifests.len() == 0),
    {
        proof {
            use_type_invariant(self);
            if self@.manifests.len() > 0 {
                assert(manifest_views(self.manifests@)[0] == self@.manifests[0]);
                let i = choose|i: int| has_name_at(self@.extensions, self@.manifests[0].name, i);
            }
            if self@.extensions.len() > 0 {
                assert(instance_views(self.extensions@)[0] == self@.extensions[0]);
            }
        }
        self.extensions.len() == 0
    }
}

/// Adding an extension keeps names unique; looking its name up afterwards
/// finds the manifest and directory just added, and every other name finds
/// what it found before.
pub proof fn law_add_then_get(es: Seq<ExtInstanceView>, m: ExtensionManifestView, path: Seq<char>, name: Seq<char>)
    requires
        names_distinct(es),
    ensures
        names_distinct(after_add(es, (ExtInstanceView { manifest: m, path }))),
        exists|i: int| has_name_at(after_add(es, (ExtInstanceView { manifest: m, path })), m.name, i),
        forall|i: int| has_name_at(after_add(es, (ExtInstanceView { manifest: m, path })), m.name, i)
            ==> after_add(es, (ExtInstanceView { manifest: m, path }))[i].manifest == m && after_add(es, (ExtInstanceView { manifest: m, path }))[i].path == path,
        name != m.name ==> forall|i: int| #[trigger] has_name_at(after_add(es, (ExtInstanceView { manifest: m, path })), name, i)
            ==> exists|j: int| has_name_at(es, name, j) && es[j] == after_add(es, (ExtInstanceView { manifest: m, path }))[i],
        name != m.name ==> forall|j: int| #[trigger] has_name_at(es, name, j)
            ==> exists|i: int| has_name_at(after_add(es, (ExtInstanceView { manifest: m, path })), name, i) && after_add(es, (ExtInstanceView { manifest: m, path }))[i] == es[j],
{
    let e = ExtInstanceView { manifest: m, path };
    let a = after_add(es, e);
    if exists|i: int| has_name_at(es, m.name, i) {
        let c = choose|i: int| has_name_at(es, m.name, i);
        assert(a == es.update(c, e));
        assert(has_name_at(a, m.name, c));
        assert forall|i: int| has_name_at(a, m.name, i) implies a[i].manifest == m && a[i].path == path by {
            if i != c {
                assert(a[i] == es[i]);
                assert(es[i].manifest.name == es[c].manifest.name);
            }
        }
        assert forall|x: int, y: int| 0 <= x < a.len() && 0 <= y < a.len() && x != y implies #[trigger] a[x].manifest.name != #[trigger] a[y].manifest.name by {
            assert(a[x].manifest.name == es[x].manifest.name && a[y].manifest.name == es[y].manifest.name);
        }
        if name != m.name {
            assert forall|i: int| #[trigger] has_name_at(a, name, i) implies exists|j: int| has_name_at(es, name, j) && es[j] == a[i] by {
                assert(i != c);
                assert(has_name_at(es, name, i));
            }
            assert forall|j: int| #[trigger] has_name_at(es, name, j) implies exists|i: int| has_name_at(a, name, i) && a[i] == es[j] by {
                assert(j != c);
                assert(has_name_at(a, name, j));
            }
        }
    } else {
        assert(a == es.push(e));
        assert(has_name_at(a, m.name, es.len() as int));
        assert forall|i: int| has_name_at(a, m.name, i) implies a[i].manifest == m && a[i].path == path by {
            if i < es.len() {
                assert(has_name_at(es, m.name, i));
            }
        }
        assert forall|x: int, y: int| 0 <= x < a.len() && 0 <= y < a.len() && x != y implies #[trigger] a[x].manifest.name != #[trigger] a[y].manifest.name by {
            if x < es.len() && y < es.len() {
                assert(a[x] == es[x] && a[y] == es[y]);
            } else if x < es.len() {
                assert(a[x] == es[x]);
                assert(!has_name_at(es, m.name, x));
            } else {
                assert(a[y] == es[y]);
                assert(!has_name_at(es, m.name, y));
            }
        }
        if name != m.name {
            assert forall|i: int| #[trigger] has_name_at(a, name, i) implies exists|j: int| has_name_at(es, name, j) && es[j] == a[i] by {
                assert(has_name_at(es, name, i));
            }
            assert forall|j: int| #[trigger] has_name_at(es, name, j) implies exists|i: int| has_name_at(a, name, i) && a[i] == es[j] by {
                assert(has_name_at(a, name, j));
            }
        }
    }
}

/// An empty registry matches no query.
pub proof fn law_empty_matches_nothing(q: Seq<char>)
    ensures
        no_extension_match(Seq::<ExtensionManifestView>::empty(), q),
{
}

/// Adding an extension keeps the loaded extensions and the registered
/// manifests naming the same extensions.
proof fn lemma_add_keeps_names_agree(es: Seq<ExtInstanceView>, ms: Seq<ExtensionManifestView>, e: ExtInstanceView)
    requires
        names_distinct(es),
        names_agree(es, ms),
    ensures
        names_agree(after_add(es, e), ms.push(e.manifest)),
{
    let a = after_add(es, e);
    let ms2 = ms.push(e.manifest);
    law_add_then_get(es, e.manifest, e.path, e.manifest.name);
    assert forall|i: int| 0 <= i < a.len() implies exists|j: int| 0 <= j < ms2.len() && (#[trigger] ms2[j]).name == (#[trigger] a[i]).manifest.name by {
        if a[i].manifest.name == e.manifest.name {
            assert(ms2[ms.len() as int].name == a[i].manifest.name);
        } else {
            law_add_then_get(es, e.manifest, e.path, a[i].manifest.name);
            assert(has_name_at(a, a[i].manifest.name, i));
            let k = choose|k: int| has_name_at(es, a[i].manifest.name, k) && es[k] == a[i];
            assert(exists|j: int| 0 <= j < ms.len() && (#[trigger] ms[j]).name == (#[trigger] es[k]).manifest.name);
            let j = choose|j: int| 0 <= j < ms.len() && (#[trigger] ms[j]).name == es[k].manifest.name;
            assert(ms2[j] == ms[j]);
        }
    }
    assert forall|j: int| 0 <= j < ms2.len() implies exists|i: int| #[trigger] has_name_at(a, (#[trigger] ms2[j]).name, i) by {
        if j < ms.len() {
            assert(ms2[j] == ms[j]);
            let nm = ms[j].name;
            if nm != e.manifest.name {
                law_add_then_get(es, e.manifest, e.path, nm);
                let k = choose|k: int| #[trigger] has_name_at(es, nm, k);
                assert(has_name_at(es, nm, k));
            }
        }
    }
}

/// The number of loaded extensions is the number of distinct names among
/// the registered manifests, so never more than the manifests.
pub proof fn law_loaded_count(es: Seq<ExtInstanceView>, ms: Seq<ExtensionManifestView>)
    requires
        names_distinct(es),
        names_agree(es, ms),
    ensures
        es.len() == manifest_names(ms).to_set().len(),
        es.len() <= ms.len(),
{
    let en = instance_names(es);
    let mn = manifest_names(ms);
    assert(en.no_duplicates()) by {
        assert forall|i: int, j: int| 0 <= i < en.len() && 0 <= j < en.len() && i != j implies en[i] != en[j] by {
            assert(en[i] == es[i].manifest.name && en[j] == es[j].manifest.name);
        }
    }
    en.unique_seq_to_set();
    assert(en.to_set() =~= mn.to_set()) by {
        assert forall|x: Seq<char>| en.to_set().contains(x) implies mn.to_set().contains(x) by {
            let i = choose|i: int| 0 <= i < en.len() && en[i] == x;
            assert(en[i] == es[i].manifest.name);
            let j = choose|j: int| 0 <= j < ms.len() && (#[trigger] ms[j]).name == es[i].manifest.name;
            assert(mn[j] == ms[j].name);
        }
        assert forall|x: Seq<char>| mn.to_set().contains(x) implies en.to_set().contains(x) by {
            let j = choose|j: int| 0 <= j < mn.len() && mn[j] == x;
            assert(mn[j] == ms[j].name);
            let i = choose|i: int| #[trigger] has_name_at(es, ms[j].name, i);
            assert(en[i] == es[i].manifest.name);
        }
    }
    mn.lemma_cardinality_of_set();
}

/// `m` with keyword `x` added to its AI part.
pub open spec fn ext_with_keyword(m: ExtensionManifestView, x: Seq<char>) -> ExtensionManifestView {
    let ai = m.ai_manifest->0;
    ExtensionManifestView { ai_manifest: Some(AIManifestView { keywords: ai.keywords.push(x), ..ai }), ..m }
}

/// `m` with intent pattern `x` added to its AI part.
pub open spec fn ext_with_pattern(m: ExtensionManifestView, x: Seq<char>) -> ExtensionManifestView {
    let ai = m.ai_manifest->0;
    ExtensionManifestView { ai_manifest: Some(AIManifestView { intent_patterns: ai.intent_patterns.push(x), ..ai }), ..m }
}

/// `m` with platform `x` added.
pub open spec fn ext_with_platform(m: ExtensionManifestView, x: Seq<char>) -> ExtensionManifestView {
    ExtensionManifestView { platforms: m.platforms.push(x), ..m }
}

/// Law: what each part of an extension manifest adds to its intent score
/// for a query in lower case `q`, in half points. With an AI part, a
/// keyword that occurs, lowercased, in `q` adds 2; an intent pattern that,
/// with '*' removed and lowercased, occurs adds 1; a platform that occurs,
/// lowercased, adds 3. Without an AI part a platform adds nothing. A part
/// that does not occur adds nothing. A description, lowercased, that
/// contains `q` adds 1.
pub proof fn law_extension_score_parts(m: ExtensionManifestView, q: Seq<char>, x: Seq<char>)
    ensures
        m.ai_manifest is Some ==> extension_score_lower(ext_with_keyword(m, x), q) == extension_score_lower(m, q)
            + if contains_seq(q, lowercase(x)) { 2nat } else { 0nat },
        m.ai_manifest is Some ==> extension_score_lower(ext_with_pattern(m, x), q) == extension_score_lower(m, q)
            + if contains_seq(q, lowercase(remove_chars_seq(x, seq!['*']))) { 1nat } else { 0nat },
        m.ai_manifest is Some ==> extension_score_lower(ext_with_platform(m, x), q) == extension_score_lower(m, q)
            + if contains_seq(q, lowercase(x)) { 3nat } else { 0nat },
        m.ai_manifest is None ==> extension_score_lower(ext_with_platform(m, x), q) == extension_score_lower(m, q),
        !contains_seq(lowercase(m.description), q) && contains_seq(lowercase(x), q) ==>
            extension_score_lower(ExtensionManifestView { description: x, ..m }, q) == extension_score_lower(m, q) + 1,
{
    if m.ai_manifest is Some {
        let ai = m.ai_manifest->0;
        lemma_count_hits_push(q, ai.keywords, x, lower_norm(), false);
        lemma_count_hits_push(q, ai.intent_patterns, x, strip_lower_norm(seq!['*']), false);
    }
    lemma_count_hits_push(q, m.platforms, x, lower_norm(), false);
}

/// Law: an extension with an AI part whose platform occurs, lowercased, in
/// the lower case query scores at least 3 half points for it, so a URL on
/// one of its platforms gives it a positive score; such a keyword gives at
/// least 2.
pub proof fn law_extension_score_positive(m: ExtensionManifestView, q: Seq<char>, i: int)
    ensures
        m.ai_manifest is Some && 0 <= i < m.platforms.len() && contains_seq(q, lowercase(m.platforms[i]))
            ==> extension_score_lower(m, q) >= 3,
        m.ai_manifest is Some && 0 <= i < m.ai_manifest->0.keywords.len()
            && contains_seq(q, lowercase(m.ai_manifest->0.keywords[i])) ==> extension_score_lower(m, q) >= 2,
{
    if m.ai_manifest is Some {
        if 0 <= i < m.platforms.len() && contains_seq(q, lowercase(m.platforms[i])) {
            lemma_count_hits_positive(q, m.platforms, lower_norm(), false, i);
        }
        let ai = m.ai_manifest->0;
        if 0 <= i < ai.keywords.len() && contains_seq(q, lowercase(ai.keywords[i])) {
            lemma_count_hits_positive(q, ai.keywords, lower_norm(), false, i);
        }
    }
}

} // verus!
