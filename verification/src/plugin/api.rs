//! Plugin manifests and the intent score computed from them.

use vstd::prelude::*;
use crate::text::{
    clone_opt_string, clone_strings, opt_view, any_contained, any_contained_exec, chars_of, contains_chars, contains_seq, count_hits,
    count_lower_hits, count_stripped_hits, lemma_count_hits_positive, lemma_count_hits_push, lower_norm,
    lowercase, remove_chars_seq, strip_lower_norm, to_lowercase, views,
};
use crate::json::clone_json;

verus! {

/// What a plugin can do.
#[derive(Clone, Copy, Debug, PartialEq, Eq, Structural)]
pub enum PluginCapability {
    Download,
    LiveRecord,
    BatchDownload,
    Compress,
    Convert,
    Merge,
    Parse,
    Resolve,
    Extract,
    RequiresAuth,
    RequiresProxy,
    SupportsCookies,
    AIMatchable,
}

/// The runtime a plugin is written for.
#[derive(Clone, Copy, Debug, PartialEq, Eq, Structural)]
pub enum RuntimeType {
    Python,
    JavaScript,
    Native,
    Wasm,
}

/// The lifecycle state of a plugin.
#[derive(Clone, Copy, Debug, PartialEq, Eq, Structural)]
pub enum PluginStatus {
    Unloaded,
    Loading,
    Loaded,
    Error,
    Disabled,
}

/// The type of a configuration item.
#[derive(Debug)]
pub enum ConfigType {
    String,
    Number,
    Boolean,
    Enum(Vec<String>),
}

/// A configuration item of a plugin.
#[derive(Debug)]
pub struct ConfigItem {
    pub key: String,
    pub value_type: ConfigType,
    pub default: serde_json::Value,
    pub required: bool,
    pub description: Option<String>,
}

/// Keywords by the confidence they carry.
#[derive(Debug)]
pub struct ConfidenceConfig {
    pub high: Vec<String>,
    pub medium: Vec<String>,
    pub low: Vec<String>,
}

/// The self-description of a plugin that intent matching reads.
#[derive(Debug)]
pub struct AIManifest {
    pub description: String,
    pub keywords: Vec<String>,
    pub examples: Vec<String>,
    pub intent_patterns: Vec<String>,
    pub confidence: ConfidenceConfig,
}

/// The manifest of a plugin.
#[derive(Debug)]
pub struct PluginManifest {
    pub id: String,
    pub name: String,
    pub version: String,
    pub description: String,
    pub author: Option<String>,
    pub license: Option<String>,
    pub runtime: RuntimeType,
    pub entry: String,
    pub platforms: Vec<String>,
    pub capabilities: Vec<PluginCapability>,
    pub priority: i32,
    pub ai: Option<AIManifest>,
    pub config: Vec<ConfigItem>,
}

/// What a plugin is asked to handle: the parameters, the user and session,
/// and extra metadata as (key, value) pairs.
#[derive(Debug)]
pub struct PluginContext {
    pub params: serde_json::Value,
    pub user_id: Option<String>,
    pub session_id: Option<String>,
    pub metadata: Vec<(String, String)>,
}

/// A change a plugin made besides its result.
#[derive(Debug)]
pub struct SideEffect {
    pub effect_type: String,
    pub data: serde_json::Value,
}

/// What a plugin answers.
#[derive(Debug)]
pub struct PluginResult {
    pub success: bool,
    pub data: Option<serde_json::Value>,
    pub error: Option<String>,
    pub side_effects: Vec<SideEffect>,
}

/// A plugin written in Rust, implemented by plugin authors: its manifest,
/// what it does on loading and unloading, how it handles a request, and
/// whether it is healthy. Errors are reported as messages.
pub trait Plugin {
    /// The manifest of the plugin.
    fn manifest(&self) -> &PluginManifest;

    /// Prepares the plugin; by default there is nothing to do.
    fn on_load(&mut self) -> (r: Result<(), String>)
        default_ensures
            r is Ok,
    {
        Ok(())
    }

    /// Releases the plugin; by default there is nothing to do.
    fn on_unload(&mut self) -> (r: Result<(), String>)
        default_ensures
            r is Ok,
    {
        Ok(())
    }

    /// Handles a request.
    fn handle(&self, ctx: &PluginContext) -> Result<PluginResult, String>;

    /// Whether the plugin works; by default it does.
    fn health_check(&self) -> (r: Result<bool, String>)
        default_ensures
            r == Ok::<bool, String>(true),
    {
        Ok(true)
    }
}

// ---------------------------------------------------------------------------
// Views
// ---------------------------------------------------------------------------

pub enum ConfigTypeView {
    String,
    Number,
    Boolean,
    Enum(Seq<Seq<char>>),
}

pub struct ConfigItemView {
    pub key: Seq<char>,
    pub value_type: ConfigTypeView,
    pub default: serde_json::Value,
    pub required: bool,
    pub description: Option<Seq<char>>,
}

pub struct ConfidenceConfigView {
    pub high: Seq<Seq<char>>,
    pub medium: Seq<Seq<char>>,
    pub low: Seq<Seq<char>>,
}

pub struct AIManifestView {
    pub description: Seq<char>,
    pub keywords: Seq<Seq<char>>,
    pub examples: Seq<Seq<char>>,
    pub intent_patterns: Seq<Seq<char>>,
    pub confidence: ConfidenceConfigView,
}

pub struct PluginManifestView {
    pub id: Seq<char>,
    pub name: Seq<char>,
    pub version: Seq<char>,
    pub description: Seq<char>,
    pub author: Option<Seq<char>>,
    pub license: Option<Seq<char>>,
    pub runtime: RuntimeType,
    pub entry: Seq<char>,
    pub platforms: Seq<Seq<char>>,
    pub capabilities: Seq<PluginCapability>,
    pub priority: i32,
    pub ai: Option<AIManifestView>,
    pub config: Seq<ConfigItemView>,
}

impl View for ConfigType {
    type V = ConfigTypeView;

    open spec fn view(&self) -> ConfigTypeView {
        match self {
            ConfigType::String => ConfigTypeView::String,
            ConfigType::Number => ConfigTypeView::Number,
            ConfigType::Boolean => ConfigTypeView::Boolean,
            ConfigType::Enum(v) => ConfigTypeView::Enum(views(v@)),
        }
    }
}

impl View for ConfigItem {
    type V = ConfigItemView;

    open spec fn view(&self) -> ConfigItemView {
        ConfigItemView {
            key: self.key@,
            value_type: self.value_type@,
            default: self.default,
            required: self.required,
            description: opt_view(self.description),
        }
    }
}

impl View for ConfidenceConfig {
    type V = ConfidenceConfigView;

    open spec fn view(&self) -> ConfidenceConfigView {
        ConfidenceConfigView { high: views(self.high@), medium: views(self.medium@), low: views(self.low@) }
    }
}

impl View for AIManifest {
    type V = AIManifestView;

    open spec fn view(&self) -> AIManifestView {
        AIManifestView {
            description: self.description@,
            keywords: views(self.keywords@),
            examples: views(self.examples@),
            intent_patterns: views(self.intent_patterns@),
            confidence: self.confidence@,
        }
    }
}

pub open spec fn config_views(v: Seq<ConfigItem>) -> Seq<ConfigItemView> {
    v.map_values(|c: ConfigItem| c@)
}

impl View for PluginManifest {
    type V = PluginManifestView;

    open spec fn view(&self) -> PluginManifestView {
        PluginManifestView {
            id: self.id@,
            name: self.name@,
            version: self.version@,
            description: self.description@,
            author: opt_view(self.author),
            license: opt_view(self.license),
            runtime: self.runtime,
            entry: self.entry@,
            platforms: views(self.platforms@),
            capabilities: self.capabilities@,
            priority: self.priority,
            ai: match self.ai {
                Some(a) => Some(a@),
                None => None,
            },
            config: config_views(self.config@),
        }
    }
}

// ---------------------------------------------------------------------------
// Copies
// ---------------------------------------------------------------------------

impl Clone for ConfigType {
    fn clone(&self) -> (r: Self)
        ensures
            r@ == self@,
    {
        match self {
            ConfigType::String => ConfigType::String,
            ConfigType::Number => ConfigType::Number,
            ConfigType::Boolean => ConfigType::Boolean,
            ConfigType::Enum(v) => ConfigType::Enum(clone_strings(v)),
        }
    }
}

impl Clone for ConfigItem {
    fn clone(&self) -> (r: Self)
        ensures
            r@ == self@,
    {
        ConfigItem {
            key: self.key.clone(),
            value_type: self.value_type.clone(),
            default: clone_json(&self.default),
            required: self.required,
            description: clone_opt_string(&self.description),
        }
    }
}

impl Clone for ConfidenceConfig {
    fn clone(&self) -> (r: Self)
        ensures
            r@ == self@,
    {
        ConfidenceConfig {
            high: clone_strings(&self.high),
            medium: clone_strings(&self.medium),
            low: clone_strings(&self.low),
        }
    }
}

impl Clone for AIManifest {
    fn clone(&self) -> (r: Self)
        ensures
            r@ == self@,
    {
        AIManifest {
            description: self.description.clone(),
            keywords: clone_strings(&self.keywords),
            examples: clone_strings(&self.examples),
            intent_patterns: clone_strings(&self.intent_patterns),
            confidence: self.confidence.clone(),
        }
    }
}

fn clone_config(v: &Vec<ConfigItem>) -> (r: Vec<ConfigItem>)
    ensures
        config_views(r@) == config_views(v@),
{
    let mut r: Vec<ConfigItem> = Vec::new();
    let mut i: usize = 0;
    while i < v.len()
        invariant
            i <= v@.len(),
            config_views(r@) == config_views(v@).subrange(0, i as int),
        decreases v@.len() - i,
    {
        let c = v[i].clone();
        assert(c@ == v@[i as int]@);
        let ghost before = r@;
        r.push(c);
        assert(r@ == before.push(c));
        assert(config_views(r@) =~= config_views(before).push(c@));
        i = i + 1;
        assert(config_views(r@) =~= config_views(v@).subrange(0, i as int));
    }
    assert(config_views(v@).subrange(0, i as int) =~= config_views(v@));
    r
}

impl Clone for PluginManifest {
    fn clone(&self) -> (r: Self)
        ensures
            r@ == self@,
    {
        let caps = self.capabilities.clone();
        assert(caps@ =~= self.capabilities@);
        PluginManifest {
            id: self.id.clone(),
            name: self.name.clone(),
            version: self.version.clone(),
            description: self.description.clone(),
            author: clone_opt_string(&self.author),
            license: clone_opt_string(&self.license),
            runtime: self.runtime,
            entry: self.entry.clone(),
            platforms: clone_strings(&self.platforms),
            capabilities: caps,
            priority: self.priority,
            ai: match &self.ai {
                Some(a) => Some(a.clone()),
                None => None,
            },
            config: clone_config(&self.config),
        }
    }
}

impl ConfidenceConfig {
    /// A configuration with no keywords.
    pub fn default() -> (r: Self)
        ensures
            r@.high.len() == 0,
            r@.medium.len() == 0,
            r@.low.len() == 0,
    {
        ConfidenceConfig { high: Vec::new(), medium: Vec::new(), low: Vec::new() }
    }
}

/// The priority a manifest gets when it names none.
pub fn default_priority() -> (r: i32)
    ensures
        r == 50,
{
    50
}

// ---------------------------------------------------------------------------
// Matching
// ---------------------------------------------------------------------------

/// Whether the plugin handles `url`: a plugin that names no platform handles
/// every URL, any other one the URLs that contain one of its platforms.
pub open spec fn supports_url_spec(m: PluginManifestView, url: Seq<char>) -> bool {
    m.platforms.len() == 0 || any_contained(url, m.platforms)
}

/// The intent score of a manifest for a query, in half points: with `q` the
/// lowercased query, each keyword found in `q` gives 2 points, each intent
/// pattern (without `*` and `?`, not empty) found 1.5, each high-confidence
/// keyword 3, each medium one 1.5, each platform 5; a description that
/// contains `q` adds 1 and a name that contains `q` adds 2.
pub open spec fn plugin_score(m: PluginManifestView, query: Seq<char>) -> nat {
    plugin_score_lower(m, lowercase(query))
}

/// The same score for a query already in lower case `q`.
pub open spec fn plugin_score_lower(m: PluginManifestView, q: Seq<char>) -> nat {
    let ai_part: nat = match m.ai {
        Some(ai) => 4 * count_hits(q, ai.keywords, lower_norm(), false) + 3 * count_hits(
            q,
            ai.intent_patterns,
            strip_lower_norm(seq!['*', '?']),
            true,
        ) + 6 * count_hits(q, ai.confidence.high, lower_norm(), false) + 3 * count_hits(
            q,
            ai.confidence.medium,
            lower_norm(),
            false,
        ),
        None => 0,
    };
    ai_part + 10 * count_hits(q, m.platforms, lower_norm(), false) + (if contains_seq(
        lowercase(m.description),
        q,
    ) {
        2nat
    } else {
        0nat
    }) + (if contains_seq(lowercase(m.name), q) {
        4nat
    } else {
        0nat
    })
}

impl PluginManifest {
    /// Whether the plugin handles `url`.
    pub fn supports_url(&self, url: &str) -> (r: bool)
        ensures
            r == supports_url_spec(self@, url@),
    {
        if self.platforms.len() == 0 {
            return true;
        }
        any_contained_exec(url, &self.platforms)
    }

    /// The intent score for `query`, in half points (a score of 2.5 is 5).
    pub fn match_score(&self, query: &str) -> (r: u128)
        ensures
            r == plugin_score(self@, query@),
    {
        let ql = to_lowercase(query);
        self.match_score_lower(ql.as_str())
    }

    /// The intent score for a query already in lower case.
    pub fn match_score_lower(&self, ql: &str) -> (r: u128)
        ensures
            r == plugin_score_lower(self@, ql@),
    {
        let q = chars_of(ql);
        let mut score: u128 = 0;
        match &self.ai {
            Some(ai) => {
                let kw = count_lower_hits(&q, &ai.keywords);
                let mut wild: Vec<char> = Vec::new();
                wild.push('*');
                wild.push('?');
                assert(wild@ =~= seq!['*', '?']);
                let pat = count_stripped_hits(&q, &ai.intent_patterns, &wild, true);
                let high = count_lower_hits(&q, &ai.confidence.high);
                let medium = count_lower_hits(&q, &ai.confidence.medium);
                score = 4 * (kw as u128) + 3 * (pat as u128) + 6 * (high as u128) + 3 * (
                medium as u128);
            },
            None => {},
        }
        let plat = count_lower_hits(&q, &self.platforms);
        score = score + 10 * (plat as u128);
        let desc = to_lowercase(self.description.as_str());
        if contains_chars(&chars_of(desc.as_str()), &q) {
            score = score + 2;
        }
        let name = to_lowercase(self.name.as_str());
        if contains_chars(&chars_of(name.as_str()), &q) {
            score = score + 4;
        }
        score
    }
}

/// `m` with keyword `x` added to its AI part.
pub open spec fn with_keyword(m: PluginManifestView, x: Seq<char>) -> PluginManifestView {
    let ai = m.ai->0;
    PluginManifestView { ai: Some(AIManifestView { keywords: ai.keywords.push(x), ..ai }), ..m }
}

/// `m` with intent pattern `x` added to its AI part.
pub open spec fn with_pattern(m: PluginManifestView, x: Seq<char>) -> PluginManifestView {
    let ai = m.ai->0;
    PluginManifestView { ai: Some(AIManifestView { intent_patterns: ai.intent_patterns.push(x), ..ai }), ..m }
}

/// `m` with high-confidence keyword `x` added to its AI part.
pub open spec fn with_high(m: PluginManifestView, x: Seq<char>) -> PluginManifestView {
    let ai = m.ai->0;
    PluginManifestView {
        ai: Some(AIManifestView { confidence: ConfidenceConfigView { high: ai.confidence.high.push(x), ..ai.confidence }, ..ai }),
        ..m
    }
}

/// `m` with medium-confidence keyword `x` added to its AI part.
pub open spec fn with_medium(m: PluginManifestView, x: Seq<char>) -> PluginManifestView {
    let ai = m.ai->0;
    PluginManifestView {
        ai: Some(AIManifestView { confidence: ConfidenceConfigView { medium: ai.confidence.medium.push(x), ..ai.confidence }, ..ai }),
        ..m
    }
}

/// `m` with low-confidence keyword `x` added to its AI part.
pub open spec fn with_low(m: PluginManifestView, x: Seq<char>) -> PluginManifestView {
    let ai = m.ai->0;
    PluginManifestView {
        ai: Some(AIManifestView { confidence: ConfidenceConfigView { low: ai.confidence.low.push(x), ..ai.confidence }, ..ai }),
        ..m
    }
}

/// `m` with platform `x` added.
pub open spec fn with_platform(m: PluginManifestView, x: Seq<char>) -> PluginManifestView {
    PluginManifestView { platforms: m.platforms.push(x), ..m }
}

/// Law: what each part of a manifest adds to its intent score for a query
/// in lower case `q`, in half points. A keyword of the AI part that occurs,
/// lowercased, in `q` adds 4; an intent pattern that, with '*' and '?'
/// removed and lowercased, is not empty and occurs adds 3; a high-confidence
/// keyword adds 6 and a medium-confidence one 3; a low-confidence keyword
/// adds nothing; a platform adds 10. A part that does not occur adds
/// nothing. A description, lowercased, that contains `q` adds 2, a name 4.
pub proof fn law_plugin_score_parts(m: PluginManifestView, q: Seq<char>, x: Seq<char>)
    ensures
        m.ai is Some ==> plugin_score_lower(with_keyword(m, x), q) == plugin_score_lower(m, q)
            + if contains_seq(q, lowercase(x)) { 4nat } else { 0nat },
        m.ai is Some ==> plugin_score_lower(with_pattern(m, x), q) == plugin_score_lower(m, q)
            + if lowercase(remove_chars_seq(x, seq!['*', '?'])).len() > 0
                && contains_seq(q, lowercase(remove_chars_seq(x, seq!['*', '?']))) { 3nat } else { 0nat },
        m.ai is Some ==> plugin_score_lower(with_high(m, x), q) == plugin_score_lower(m, q)
            + if contains_seq(q, lowercase(x)) { 6nat } else { 0nat },
        m.ai is Some ==> plugin_score_lower(with_medium(m, x), q) == plugin_score_lower(m, q)
            + if contains_seq(q, lowercase(x)) { 3nat } else { 0nat },
        m.ai is Some ==> plugin_score_lower(with_low(m, x), q) == plugin_score_lower(m, q),
        plugin_score_lower(with_platform(m, x), q) == plugin_score_lower(m, q)
            + if contains_seq(q, lowercase(x)) { 10nat } else { 0nat },
        !contains_seq(lowercase(m.description), q) && contains_seq(lowercase(x), q) ==>
            plugin_score_lower(PluginManifestView { description: x, ..m }, q) == plugin_score_lower(m, q) + 2,
        !contains_seq(lowercase(m.name), q) && contains_seq(lowercase(x), q) ==>
            plugin_score_lower(PluginManifestView { name: x, ..m }, q) == plugin_score_lower(m, q) + 4,
{
    if m.ai is Some {
        let ai = m.ai->0;
        lemma_count_hits_push(q, ai.keywords, x, lower_norm(), false);
        lemma_count_hits_push(q, ai.intent_patterns, x, strip_lower_norm(seq!['*', '?']), true);
        lemma_count_hits_push(q, ai.confidence.high, x, lower_norm(), false);
        lemma_count_hits_push(q, ai.confidence.medium, x, lower_norm(), false);
    }
    lemma_count_hits_push(q, m.platforms, x, lower_norm(), false);
}

/// Law: a manifest with a platform that occurs, lowercased, in the lower
/// case query scores at least 10 half points for it; one whose AI part has
/// such a high-confidence keyword at least 6; such a keyword at least 4.
pub proof fn law_plugin_score_positive(m: PluginManifestView, q: Seq<char>, i: int)
    ensures
        0 <= i < m.platforms.len() && contains_seq(q, lowercase(m.platforms[i])) ==> plugin_score_lower(m, q) >= 10,
        m.ai is Some && 0 <= i < m.ai->0.confidence.high.len() && contains_seq(q, lowercase(m.ai->0.confidence.high[i]))
            ==> plugin_score_lower(m, q) >= 6,
        m.ai is Some && 0 <= i < m.ai->0.keywords.len() && contains_seq(q, lowercase(m.ai->0.keywords[i]))
            ==> plugin_score_lower(m, q) >= 4,
{
    if 0 <= i < m.platforms.len() && contains_seq(q, lowercase(m.platforms[i])) {
        lemma_count_hits_positive(q, m.platforms, lower_norm(), false, i);
    }
    if m.ai is Some {
        let ai = m.ai->0;
        if 0 <= i < ai.confidence.high.len() && contains_seq(q, lowercase(ai.confidence.high[i])) {
            lemma_count_hits_positive(q, ai.confidence.high, lower_norm(), false, i);
        }
        if 0 <= i < ai.keywords.len() && contains_seq(q, lowercase(ai.keywords[i])) {
            lemma_count_hits_positive(q, ai.keywords, lower_norm(), false, i);
        }
    }
}

/// Law: a plugin with no platforms handles every URL; one with platforms
/// handles exactly the URLs that contain one of them.
pub proof fn law_supports_url(m: PluginManifestView, url: Seq<char>)
    ensures
        m.platforms.len() == 0 ==> supports_url_spec(m, url),
        forall|i: int| 0 <= i < m.platforms.len() && contains_seq(url, #[trigger] m.platforms[i]) ==> supports_url_spec(m, url),
        m.platforms.len() > 0 && (forall|i: int| 0 <= i < m.platforms.len() ==> !contains_seq(url, #[trigger] m.platforms[i]))
            ==> !supports_url_spec(m, url),
{
}

} // verus!
