//! Compiling raw policy and catalog documents into the bitmask-indexed fast
//! forms the engine routes with.  Both compilations are deterministic and
//! side-effect-free.

use vstd::prelude::*;

verus! {

use crate::assoc::{assoc_find, assoc_get};
use crate::errors::{code_of, dup_strings, ErrorCode, RouterError};
use crate::masks::{caps_of_names, caps_from_strings, regions_of_names, regions_from_strings,
    CAP_JSON, CAP_PROMPT_CACHE, CAP_STRUCTURED, CAP_TEXT, CAP_TOOLS, CAP_VISION, REGION_ALL,
    REGION_GLOBAL};
use crate::text::{eq_ignore_case, lower_eq, str_eq};
use crate::types::{AliasEntry, CatalogDocument, CatalogModel, CatalogModelCapabilities,
    HeaderEntry, PolicyAliasRule, PolicyDocument, UpstreamMode};
use vstd::string::StringExecFns;

#[derive(Clone, Copy, Debug, PartialEq, Eq, Structural)]
pub enum ModelStatus {
    Healthy,
    Degraded,
    Offline,
}

/// A catalog model in fast form: masks, clamped limits, derived prices.
#[derive(Clone, Debug)]
pub struct CompiledModel {
    pub id: String,
    pub provider: String,
    pub base_url: String,
    pub mode: UpstreamMode,
    pub auth_env: Option<String>,
    pub headers: Vec<HeaderEntry>,
    pub capabilities: u32,
    pub regions: u32,
    pub context_tokens: u32,
    pub input_price: u64,
    pub output_price: u64,
    pub cached_price: u64,
    pub target_latency_ms: u32,
    pub base_latency_ms: u32,
    pub status: ModelStatus,
    pub policy_tags: Vec<String>,
}

#[derive(Clone, Debug)]
pub struct CompiledCatalog {
    pub revision: String,
    pub models: Vec<CompiledModel>,
    pub index: Vec<(String, usize)>,
    pub raw: CatalogDocument,
}

#[derive(Clone, Debug)]
pub struct CompiledAlias {
    pub candidates: Vec<usize>,
    pub require_caps: u32,
    pub allowed_regions: u32,
}

#[derive(Clone, Debug)]
pub struct CompiledPolicy {
    pub doc: PolicyDocument,
    pub alias_map: Vec<(String, CompiledAlias)>,
}

/// The capability bit a modality name contributes: only `text` and `vision`
/// are modalities; other names are ignored.
pub open spec fn modality_bit(s: Seq<char>) -> u32 {
    if lower_eq(s, "text"@) {
        CAP_TEXT
    } else if lower_eq(s, "vision"@) {
        CAP_VISION
    } else {
        0
    }
}

pub open spec fn modality_bits(vs: Seq<String>) -> u32
    decreases vs.len(),
{
    if vs.len() == 0 {
        0u32
    } else {
        modality_bits(vs.drop_last()) | modality_bit(vs.last()@)
    }
}

/// The capability mask a model's capabilities compile to.
pub open spec fn model_caps_spec(c: CatalogModelCapabilities) -> u32 {
    modality_bits(c.modalities@) | (if c.tools {
        CAP_TOOLS
    } else {
        0u32
    }) | (if c.json_mode {
        CAP_JSON
    } else {
        0u32
    }) | (if c.structured_output {
        CAP_STRUCTURED
    } else {
        0u32
    }) | (if c.prompt_cache {
        CAP_PROMPT_CACHE
    } else {
        0u32
    })
}

/// The region mask of a model: the union of its regions, global when none
/// are named.
pub open spec fn model_regions_spec(regions: Seq<String>) -> u32 {
    if regions.len() == 0 {
        REGION_GLOBAL
    } else {
        regions_of_names(regions)
    }
}

/// The status a status string compiles to: `degraded` and `offline`/`drained`
/// are recognized ignoring case; anything else is healthy.
pub open spec fn status_spec(status: Option<String>) -> ModelStatus {
    match status {
        Some(s) => {
            if lower_eq(s@, "degraded"@) {
                ModelStatus::Degraded
            } else if lower_eq(s@, "offline"@) || lower_eq(s@, "drained"@) {
                ModelStatus::Offline
            } else {
                ModelStatus::Healthy
            }
        },
        None => ModelStatus::Healthy,
    }
}

/// The upstream mode of a model: `chat` (ignoring case) or the default.
pub open spec fn mode_spec(mode: Option<String>) -> UpstreamMode {
    match mode {
        Some(s) => {
            if lower_eq(s@, "chat"@) {
                UpstreamMode::Chat
            } else {
                UpstreamMode::Responses
            }
        },
        None => UpstreamMode::Responses,
    }
}

pub open spec fn headers_eqv(a: Seq<HeaderEntry>, b: Seq<HeaderEntry>) -> bool {
    a.len() == b.len() && forall|i: int|
        0 <= i < a.len() ==> (#[trigger] a[i]).name@ == b[i].name@ && a[i].value@ == b[i].value@
}

pub open spec fn strings_eqv(a: Seq<String>, b: Seq<String>) -> bool {
    a.len() == b.len() && forall|i: int| 0 <= i < a.len() ==> (#[trigger] a[i])@ == b[i]@
}

/// What compiling one catalog model yields, field by field.
pub open spec fn model_matches(cm: CompiledModel, m: CatalogModel) -> bool {
    &&& m.metadata.base_url matches Some(u) && cm.base_url@ == u@
    &&& cm.id@ == m.id@
    &&& cm.provider@ == m.provider@
    &&& cm.mode == mode_spec(m.metadata.mode)
    &&& match (cm.auth_env, m.metadata.auth_env) {
        (Some(a), Some(b)) => a@ == b@,
        (None, None) => true,
        _ => false,
    }
    &&& headers_eqv(cm.headers@, m.metadata.headers@)
    &&& cm.capabilities == model_caps_spec(m.capabilities)
    &&& cm.regions == model_regions_spec(m.region@)
    &&& cm.context_tokens == (if m.capabilities.context_tokens >= 1024 {
        m.capabilities.context_tokens
    } else {
        1024u32
    })
    &&& cm.input_price == m.cost.input_per_million_micro
    &&& cm.output_price == m.cost.output_per_million_micro
    &&& cm.cached_price == (match m.cost.cached_per_million_micro {
        Some(p) => p,
        None => m.cost.input_per_million_micro / 2,
    })
    &&& cm.target_latency_ms == m.slos.target_p95_ms
    &&& cm.base_latency_ms == (match m.slos.recent {
        Some(r) => match r.p50_ms {
            Some(p) => p,
            None => (m.slos.target_p95_ms as int * 2 / 5) as u32,
        },
        None => (m.slos.target_p95_ms as int * 2 / 5) as u32,
    })
    &&& cm.status == status_spec(m.status)
    &&& strings_eqv(cm.policy_tags@, m.policy_tags@)
}

/// A whole compiled catalog corresponds to its document: same revision, one
/// compiled model per document model, and an index binding each id to its
/// position.
pub open spec fn catalog_matches(c: CompiledCatalog, doc: CatalogDocument) -> bool {
    &&& c.revision@ == doc.revision@
    &&& c.models@.len() == doc.models@.len()
    &&& forall|i: int|
        0 <= i < doc.models@.len() ==> model_matches(#[trigger] c.models@[i], doc.models@[i])
    &&& c.index@.len() == c.models@.len()
    &&& forall|i: int|
        0 <= i < c.index@.len() ==> (#[trigger] c.index@[i]).0@ == c.models@[i].id@
            && c.index@[i].1 == i
}

/// Every index entry points inside the model list.
pub open spec fn index_bounded(index: Seq<(String, usize)>, n: int) -> bool {
    forall|i: int| 0 <= i < index.len() ==> (#[trigger] index[i]).1 < n
}

pub proof fn lemma_index_bounded_find(index: Seq<(String, usize)>, n: int, id: Seq<char>)
    requires
        index_bounded(index, n),
    ensures
        assoc_find(index, id) matches Some(i) ==> i < n,
    decreases index.len(),
{
    if index.len() > 0 && index.first().0@ != id {
        assert(index_bounded(index.drop_first(), n)) by {
            assert(forall|i: int|
                0 <= i < index.drop_first().len() ==> index.drop_first()[i] == index[i + 1]);
        }
        lemma_index_bounded_find(index.drop_first(), n, id);
    }
}

fn modalities_mask(values: &Vec<String>) -> (r: u32)
    ensures
        r == modality_bits(values@),
{
    let mut mask: u32 = 0;
    let mut i: usize = 0;
    while i < values.len()
        invariant
            i <= values@.len(),
            mask == modality_bits(values@.subrange(0, i as int)),
        decreases values@.len() - i,
    {
        proof {
            assert(values@.subrange(0, i + 1).drop_last() =~= values@.subrange(0, i as int));
            assert(values@.subrange(0, i + 1).last() == values@[i as int]);
        }
        let bit: u32 = if eq_ignore_case(values[i].as_str(), "text") {
            CAP_TEXT
        } else if eq_ignore_case(values[i].as_str(), "vision") {
            CAP_VISION
        } else {
            0
        };
        mask = mask | bit;
        i = i + 1;
    }
    proof {
        assert(values@.subrange(0, values@.len() as int) =~= values@);
    }
    mask
}

/// Copy a header list, preserving names and values.
pub fn dup_headers(v: &Vec<HeaderEntry>) -> (r: Vec<HeaderEntry>)
    ensures
        headers_eqv(r@, v@),
{
    let mut out: Vec<HeaderEntry> = Vec::new();
    let mut i: usize = 0;
    while i < v.len()
        invariant
            i <= v@.len(),
            out@.len() == i,
            forall|j: int|
                0 <= j < i ==> (#[trigger] out@[j]).name@ == v@[j].name@ && out@[j].value@
                    == v@[j].value@,
        decreases v@.len() - i,
    {
        out.push(HeaderEntry { name: v[i].name.clone(), value: v[i].value.clone() });
        i = i + 1;
    }
    out
}

fn compile_model(m: &CatalogModel) -> (r: Result<CompiledModel, RouterError>)
    ensures
        r matches Ok(cm) ==> model_matches(cm, *m),
        r is Ok <==> m.metadata.base_url is Some,
        r matches Err(e) ==> code_of(e) == ErrorCode::PlanningFailed,
{
    let base_url = match &m.metadata.base_url {
        Some(u) => u.clone(),
        None => {
            return Err(
                RouterError::Planning(String::from_str("catalog model missing metadata.base_url")),
            );
        },
    };
    let mode = match &m.metadata.mode {
        Some(s) => {
            if eq_ignore_case(s.as_str(), "chat") {
                UpstreamMode::Chat
            } else {
                UpstreamMode::Responses
            }
        },
        None => UpstreamMode::Responses,
    };
    let auth_env = match &m.metadata.auth_env {
        Some(a) => Some(a.clone()),
        None => None,
    };
    let mut capabilities = modalities_mask(&m.capabilities.modalities);
    let tools_bit: u32 = if m.capabilities.tools {
        CAP_TOOLS
    } else {
        0
    };
    let json_bit: u32 = if m.capabilities.json_mode {
        CAP_JSON
    } else {
        0
    };
    let structured_bit: u32 = if m.capabilities.structured_output {
        CAP_STRUCTURED
    } else {
        0
    };
    let cache_bit: u32 = if m.capabilities.prompt_cache {
        CAP_PROMPT_CACHE
    } else {
        0
    };
    capabilities = capabilities | tools_bit | json_bit | structured_bit | cache_bit;
    proof {
        assert(capabilities == model_caps_spec(m.capabilities));
    }
    let regions = if m.region.len() == 0 {
        REGION_GLOBAL
    } else {
        regions_from_strings(&m.region)
    };
    let status = match &m.status {
        Some(s) => {
            if eq_ignore_case(s.as_str(), "degraded") {
                ModelStatus::Degraded
            } else if eq_ignore_case(s.as_str(), "offline") || eq_ignore_case(
                s.as_str(),
                "drained",
            ) {
                ModelStatus::Offline
            } else {
                ModelStatus::Healthy
            }
        },
        None => ModelStatus::Healthy,
    };
    let target_latency_ms = m.slos.target_p95_ms;
    let base_latency_ms = match &m.slos.recent {
        Some(r) => match r.p50_ms {
            Some(p) => p,
            None => ((target_latency_ms as u64) * 2 / 5) as u32,
        },
        None => ((target_latency_ms as u64) * 2 / 5) as u32,
    };
    let cached_price = match m.cost.cached_per_million_micro {
        Some(p) => p,
        None => m.cost.input_per_million_micro / 2,
    };
    Ok(
        CompiledModel {
            id: m.id.clone(),
            provider: m.provider.clone(),
            base_url,
            mode,
            auth_env,
            headers: dup_headers(&m.metadata.headers),
            capabilities,
            regions,
            context_tokens: if m.capabilities.context_tokens >= 1024 {
                m.capabilities.context_tokens
            } else {
                1024
            },
            input_price: m.cost.input_per_million_micro,
            output_price: m.cost.output_per_million_micro,
            cached_price,
            target_latency_ms,
            base_latency_ms,
            status,
            policy_tags: dup_strings(&m.policy_tags),
        },
    )
}

/// Compile a catalog document: masks, clamps, derived prices, and an
/// id-to-index map.  Fails exactly when a model lacks `metadata.base_url`.
pub fn compile_catalog(doc: CatalogDocument) -> (r: Result<CompiledCatalog, RouterError>)
    ensures
        r matches Ok(c) ==> catalog_matches(c, doc) && c.raw == doc,
        r is Ok <==> (forall|i: int|
            0 <= i < doc.models@.len() ==> (#[trigger] doc.models@[i]).metadata.base_url is Some),
        r matches Err(e) ==> code_of(e) == ErrorCode::PlanningFailed,
{
    let mut models: Vec<CompiledModel> = Vec::new();
    let mut index: Vec<(String, usize)> = Vec::new();
    let mut i: usize = 0;
    while i < doc.models.len()
        invariant
            i <= doc.models@.len(),
            models@.len() == i,
            index@.len() == i,
            forall|j: int|
                0 <= j < i ==> model_matches(#[trigger] models@[j], doc.models@[j]),
            forall|j: int|
                0 <= j < i ==> (#[trigger] index@[j]).0@ == models@[j].id@ && index@[j].1 == j,
            forall|j: int| 0 <= j < i ==> (#[trigger] doc.models@[j]).metadata.base_url is Some,
        decreases doc.models@.len() - i,
    {
        let compiled = match compile_model(&doc.models[i]) {
            Ok(cm) => cm,
            Err(e) => {
                return Err(e);
            },
        };
        index.push((compiled.id.clone(), i));
        models.push(compiled);
        i = i + 1;
    }
    let revision = doc.revision.clone();
    Ok(CompiledCatalog { revision, models, index, raw: doc })
}

/// The candidate indices an alias rule resolves to: each candidate id looked
/// up in the index, unknown ids skipped.
pub open spec fn resolve_candidates(ids: Seq<String>, index: Seq<(String, usize)>) -> Seq<usize>
    decreases ids.len(),
{
    if ids.len() == 0 {
        Seq::empty()
    } else {
        resolve_candidates(ids.drop_last(), index) + (match assoc_find(index, ids.last()@) {
            Some(i) => seq![i],
            None => Seq::<usize>::empty(),
        })
    }
}

/// What compiling one alias rule yields.
pub open spec fn alias_matches(ca: CompiledAlias, rule: PolicyAliasRule, index: Seq<(String, usize)>) -> bool {
    &&& ca.candidates@ == resolve_candidates(rule.candidates@, index)
    &&& ca.require_caps == caps_of_names(rule.require_caps@)
    &&& ca.allowed_regions == (if rule.allowed_regions@.len() == 0 {
        REGION_ALL
    } else {
        regions_of_names(rule.allowed_regions@)
    })
}

/// A whole compiled policy corresponds to its document against a catalog.
pub open spec fn policy_matches(p: CompiledPolicy, doc: PolicyDocument, index: Seq<(String, usize)>) -> bool {
    &&& p.doc == doc
    &&& p.alias_map@.len() == doc.aliases@.len()
    &&& forall|i: int|
        0 <= i < doc.aliases@.len() ==> (#[trigger] p.alias_map@[i]).0@ == doc.aliases@[i].alias@
            && alias_matches(p.alias_map@[i].1, doc.aliases@[i].rule, index)
}

fn compile_alias(rule: &PolicyAliasRule, index: &Vec<(String, usize)>) -> (r: CompiledAlias)
    ensures
        alias_matches(r, *rule, index@),
{
    let mut candidates: Vec<usize> = Vec::new();
    let mut i: usize = 0;
    while i < rule.candidates.len()
        invariant
            i <= rule.candidates@.len(),
            candidates@ == resolve_candidates(rule.candidates@.subrange(0, i as int), index@),
        decreases rule.candidates@.len() - i,
    {
        proof {
            assert(rule.candidates@.subrange(0, i + 1).drop_last() =~= rule.candidates@.subrange(
                0,
                i as int,
            ));
            assert(rule.candidates@.subrange(0, i + 1).last() == rule.candidates@[i as int]);
        }
        match assoc_get(index, rule.candidates[i].as_str()) {
            Some(idx) => {
                candidates.push(*idx);
                proof {
                    assert(candidates@ =~= resolve_candidates(
                        rule.candidates@.subrange(0, i + 1),
                        index@,
                    ));
                }
            },
            None => {
                proof {
                    assert(candidates@ =~= resolve_candidates(
                        rule.candidates@.subrange(0, i + 1),
                        index@,
                    ));
                }
            },
        }
        i = i + 1;
    }
    proof {
        assert(rule.candidates@.subrange(0, rule.candidates@.len() as int) =~= rule.candidates@);
    }
    let require_caps = caps_from_strings(&rule.require_caps);
    let allowed_regions = if rule.allowed_regions.len() == 0 {
        REGION_ALL
    } else {
        regions_from_strings(&rule.allowed_regions)
    };
    CompiledAlias { candidates, require_caps, allowed_regions }
}

/// Compile a policy document against a compiled catalog: alias candidates
/// resolve to model indices (unknown ids are skipped), capability and region
/// requirements become masks.  Compilation always succeeds.
pub fn compile_policy(doc: PolicyDocument, catalog: &CompiledCatalog) -> (r: Result<
    CompiledPolicy,
    RouterError,
>)
    ensures
        r matches Ok(p) && policy_matches(p, doc, catalog.index@),
{
    let mut alias_map: Vec<(String, CompiledAlias)> = Vec::new();
    let mut i: usize = 0;
    while i < doc.aliases.len()
        invariant
            i <= doc.aliases@.len(),
            alias_map@.len() == i,
            forall|j: int|
                0 <= j < i ==> (#[trigger] alias_map@[j]).0@ == doc.aliases@[j].alias@
                    && alias_matches(alias_map@[j].1, doc.aliases@[j].rule, catalog.index@),
        decreases doc.aliases@.len() - i,
    {
        let compiled = compile_alias(&doc.aliases[i].rule, &catalog.index);
        alias_map.push((doc.aliases[i].alias.clone(), compiled));
        i = i + 1;
    }
    Ok(CompiledPolicy { doc, alias_map })
}

/// Resolved candidates stay inside the model list.
pub proof fn lemma_candidates_bounded(ids: Seq<String>, index: Seq<(String, usize)>, n: int)
    requires
        index_bounded(index, n),
    ensures
        forall|k: int|
            0 <= k < resolve_candidates(ids, index).len() ==> #[trigger] resolve_candidates(
                ids,
                index,
            )[k] < n,
    decreases ids.len(),
{
    if ids.len() > 0 {
        lemma_candidates_bounded(ids.drop_last(), index, n);
        lemma_index_bounded_find(index, n, ids.last()@);
        let prefix = resolve_candidates(ids.drop_last(), index);
        let whole = resolve_candidates(ids, index);
        assert forall|k: int| 0 <= k < whole.len() implies whole[k] < n by {
            if k < prefix.len() {
                assert(whole[k] == prefix[k]);
            } else {
                match assoc_find(index, ids.last()@) {
                    Some(idx) => {
                        assert(whole[k] == idx);
                    },
                    None => {
                        assert(whole.len() == prefix.len());
                    },
                }
            }
        }
    }
}

} // verus!
