//! Canonical-task matching: similarity search against pre-vectorized task
//! descriptions.  Vectors are held in fixed point, one unit per million, so
//! the weighted-cosine pipeline is exact integer arithmetic.  Vectorization
//! itself (turning text into a vector) is an outside capability; this module
//! consumes its output.

use vstd::prelude::*;

verus! {

use vstd::string::StrSliceExecFns;
use crate::fingerprint::{fnv_mix_chars, mix_chars, FNV_OFFSET};
use crate::text::{trim_chars, trimmed};
use crate::types::RouteRequest;

/// The outcome of a canonical match: the preferred model, the task ids that
/// voted for it, and the averaged score in millionths.
#[derive(Clone, Debug)]
pub struct CanonicalSelection {
    pub model_id: String,
    pub canonical_ids: Vec<String>,
    pub score_micro: u32,
}

/// The summary text a request offers for canonical matching: the trimmed
/// conversation summary, else the trimmed `canonical_summary` or `summary`
/// override; empty texts count as absent.
pub open spec fn summary_of(req: RouteRequest) -> Option<Seq<char>> {
    let conv = match req.conversation {
        Some(c) => match c.summary {
            Some(s) => if trimmed(s@).len() > 0 {
                Some(trimmed(s@))
            } else {
                None
            },
            None => None,
        },
        None => None,
    };
    if conv is Some {
        conv
    } else {
        match req.overrides {
            Some(ov) => {
                let source = if ov.canonical_summary is Some {
                    ov.canonical_summary
                } else {
                    ov.summary
                };
                match source {
                    Some(s) => if trimmed(s@).len() > 0 {
                        Some(trimmed(s@))
                    } else {
                        None
                    },
                    None => None,
                }
            },
            None => None,
        }
    }
}

/// Extract the summary text used for canonical matching.
pub fn extract_summary(req: &RouteRequest) -> (r: Option<String>)
    ensures
        match r {
            Some(s) => summary_of(*req) == Some(s@),
            None => summary_of(*req) is None,
        },
{
    if let Some(conv) = &req.conversation {
        if let Some(s) = &conv.summary {
            let t = trim_chars(s.as_str());
            if t.as_str().unicode_len() > 0 {
                return Some(t);
            }
        }
    }
    if let Some(ov) = &req.overrides {
        let source = if ov.canonical_summary.is_some() {
            &ov.canonical_summary
        } else {
            &ov.summary
        };
        if let Some(s) = source {
            let t = trim_chars(s.as_str());
            if t.as_str().unicode_len() > 0 {
                return Some(t);
            }
        }
    }
    None
}

/// The hash a canonical selection contributes to the cache fingerprint:
/// model id and voting task ids mixed in order.
pub open spec fn canonical_hash_spec(model_id: Seq<char>, ids: Seq<String>) -> u64
    decreases ids.len(),
{
    if ids.len() == 0 {
        fnv_mix_chars(FNV_OFFSET, model_id)
    } else {
        fnv_mix_chars(canonical_hash_spec(model_id, ids.drop_last()), ids.last()@)
    }
}

/// Hash a canonical selection for the cache key.
pub fn canonical_hash(selection: &CanonicalSelection) -> (r: u64)
    ensures
        r == canonical_hash_spec(selection.model_id@, selection.canonical_ids@),
{
    let mut h = mix_chars(FNV_OFFSET, selection.model_id.as_str());
    let mut i: usize = 0;
    while i < selection.canonical_ids.len()
        invariant
            i <= selection.canonical_ids@.len(),
            h == canonical_hash_spec(
                selection.model_id@,
                selection.canonical_ids@.subrange(0, i as int),
            ),
        decreases selection.canonical_ids@.len() - i,
    {
        proof {
            assert(selection.canonical_ids@.subrange(0, i + 1).drop_last()
                =~= selection.canonical_ids@.subrange(0, i as int));
            assert(selection.canonical_ids@.subrange(0, i + 1).last()
                == selection.canonical_ids@[i as int]);
        }
        h = mix_chars(h, selection.canonical_ids[i].as_str());
        i = i + 1;
    }
    proof {
        assert(selection.canonical_ids@.subrange(0, selection.canonical_ids@.len() as int)
            =~= selection.canonical_ids@);
    }
    h
}


/// One canonical task: its id, the model it prefers, its weight in
/// thousandths, and its L2-normalized description vector in millionths.
#[derive(Clone, Debug)]
pub struct CanonicalTask {
    pub id: String,
    pub preferred_model: String,
    pub weight_milli: u32,
    pub embedding: Vec<i64>,
}

/// The canonical-task index: pre-vectorized tasks and the top-k width.
#[derive(Clone, Debug)]
pub struct EmbeddingIndex {
    pub tasks: Vec<CanonicalTask>,
    pub top_k: usize,
}

pub const VEC_COMPONENT_BOUND: i64 = 2000000;

pub const VEC_DIM_BOUND: usize = 65536;

/// A fixed-point vector small enough for exact arithmetic: at most 65536
/// components, each at most two units in magnitude.
pub open spec fn wf_vector(v: Seq<i64>) -> bool {
    v.len() <= VEC_DIM_BOUND && forall|i: int|
        0 <= i < v.len() ==> -VEC_COMPONENT_BOUND <= #[trigger] v[i] <= VEC_COMPONENT_BOUND
}

pub open spec fn wf_index(tasks: Seq<CanonicalTask>) -> bool {
    tasks.len() <= VEC_DIM_BOUND && forall|i: int|
        0 <= i < tasks.len() ==> wf_vector((#[trigger] tasks[i]).embedding@)
}

/// Inner product over the shorter length.
pub open spec fn dot_spec(a: Seq<i64>, b: Seq<i64>) -> int
    decreases a.len(),
{
    if a.len() == 0 || b.len() == 0 {
        0
    } else {
        a.first() * b.first() + dot_spec(a.drop_first(), b.drop_first())
    }
}

proof fn lemma_dot_len_bound(a: Seq<i64>, b: Seq<i64>)
    requires
        wf_vector(a),
        wf_vector(b),
    ensures
        -(a.len() as int) * (VEC_COMPONENT_BOUND as int) * (VEC_COMPONENT_BOUND as int) <= dot_spec(
            a,
            b,
        ) <= (a.len() as int) * (VEC_COMPONENT_BOUND as int) * (VEC_COMPONENT_BOUND as int),
    decreases a.len(),
{
    let c = VEC_COMPONENT_BOUND as int;
    if a.len() == 0 || b.len() == 0 {
        assert(0 <= (a.len() as int) * c * c) by (nonlinear_arith)
            requires
                a.len() >= 0,
                c >= 0,
        ;
    } else {
        assert(wf_vector(a.drop_first())) by {
            assert(forall|i: int|
                0 <= i < a.drop_first().len() ==> a.drop_first()[i] == a[i + 1]);
        }
        assert(wf_vector(b.drop_first())) by {
            assert(forall|i: int|
                0 <= i < b.drop_first().len() ==> b.drop_first()[i] == b[i + 1]);
        }
        lemma_dot_len_bound(a.drop_first(), b.drop_first());
        assert(-c * c <= a.first() * b.first() <= c * c) by (nonlinear_arith)
            requires
                -c <= a.first() <= c,
                -c <= b.first() <= c,
        ;
        assert((a.drop_first().len() as int) * c * c + c * c == (a.len() as int) * c * c)
            by (nonlinear_arith)
            requires
                a.drop_first().len() + 1 == a.len(),
        ;
    }
}

pub const DOT_BOUND: i128 = 65536 * 2000000 * 2000000;

pub const SCORE_BOUND: i128 = 65536 * 2000000 * 2000000 * 4294967296;

/// The bound in terms of the dimension cap.
proof fn lemma_dot_bound(a: Seq<i64>, b: Seq<i64>)
    requires
        wf_vector(a),
        wf_vector(b),
    ensures
        -DOT_BOUND <= dot_spec(a, b) <= DOT_BOUND,
{
    let c = VEC_COMPONENT_BOUND as int;
    lemma_dot_len_bound(a, b);
    assert((a.len() as int) * c * c <= (VEC_DIM_BOUND as int) * c * c) by (nonlinear_arith)
        requires
            0 <= a.len() <= VEC_DIM_BOUND,
            c >= 0,
    ;
}

/// A weighted task score stays within the window-summable bound.
proof fn lemma_task_score_bound(t: CanonicalTask, q: Seq<i64>)
    requires
        wf_vector(t.embedding@),
        wf_vector(q),
    ensures
        -SCORE_BOUND <= task_score_spec(t, q) <= SCORE_BOUND,
{
    lemma_dot_bound(t.embedding@, q);
    let d = dot_spec(t.embedding@, q);
    let w: int = if t.weight_milli == 0 {
        1000int
    } else {
        t.weight_milli as int
    };
    assert(-DOT_BOUND * 4294967296 <= d * w <= DOT_BOUND * 4294967296) by (nonlinear_arith)
        requires
            -DOT_BOUND <= d <= DOT_BOUND,
            0 < w <= 4294967296,
    ;
}

fn dot(a: &Vec<i64>, b: &Vec<i64>) -> (r: i128)
    requires
        wf_vector(a@),
        wf_vector(b@),
    ensures
        r == dot_spec(a@, b@),
        -DOT_BOUND <= r <= DOT_BOUND,
{
    proof {
        lemma_dot_bound(a@, b@);
    }
    let n = if a.len() <= b.len() {
        a.len()
    } else {
        b.len()
    };
    let mut acc: i128 = 0;
    let mut i: usize = 0;
    proof {
        assert(a@.subrange(0, a@.len() as int) =~= a@);
        assert(b@.subrange(0, b@.len() as int) =~= b@);
    }
    while i < n
        invariant
            wf_vector(a@),
            wf_vector(b@),
            n <= a@.len(),
            n <= b@.len(),
            n == if a@.len() <= b@.len() {
                a@.len() as int
            } else {
                b@.len() as int
            },
            i <= n,
            acc + dot_spec(
                a@.subrange(i as int, a@.len() as int),
                b@.subrange(i as int, b@.len() as int),
            ) == dot_spec(a@, b@),
        decreases n - i,
    {
        proof {
            let ra = a@.subrange(i as int, a@.len() as int);
            let rb = b@.subrange(i as int, b@.len() as int);
            assert(ra.len() > 0 && rb.len() > 0);
            assert(ra.first() == a@[i as int]);
            assert(rb.first() == b@[i as int]);
            assert(ra.drop_first() =~= a@.subrange(i + 1, a@.len() as int));
            assert(rb.drop_first() =~= b@.subrange(i + 1, b@.len() as int));
            assert(wf_vector(ra) && wf_vector(rb));
            assert(wf_vector(ra.drop_first()) && wf_vector(rb.drop_first()));
            lemma_dot_bound(a@, b@);
            lemma_dot_bound(ra, rb);
            lemma_dot_bound(ra.drop_first(), rb.drop_first());
            assert(-(VEC_COMPONENT_BOUND as int) * VEC_COMPONENT_BOUND <= (a@[i as int] as int) * (
            b@[i as int] as int) <= (VEC_COMPONENT_BOUND as int) * VEC_COMPONENT_BOUND)
                by (nonlinear_arith)
                requires
                    -VEC_COMPONENT_BOUND <= a@[i as int] <= VEC_COMPONENT_BOUND,
                    -VEC_COMPONENT_BOUND <= b@[i as int] <= VEC_COMPONENT_BOUND,
            ;
        }
        acc = acc + (a[i] as i128) * (b[i] as i128);
        i = i + 1;
    }
    proof {
        if a@.len() <= b@.len() {
            assert(a@.subrange(n as int, a@.len() as int).len() == 0);
        } else {
            assert(b@.subrange(n as int, b@.len() as int).len() == 0);
        }
        lemma_dot_bound(a@, b@);
    }
    acc
}

/// The weighted score of a task against a query: its similarity times its
/// weight, a zero weight reading as one.
pub open spec fn task_score_spec(t: CanonicalTask, q: Seq<i64>) -> int {
    dot_spec(t.embedding@, q) * (if t.weight_milli == 0 {
        1000int
    } else {
        t.weight_milli as int
    })
}

impl EmbeddingIndex {
    /// Build the index.  The task list must not be empty, and every vector
    /// must be within fixed-point bounds.
    pub fn new(tasks: Vec<CanonicalTask>, top_k: usize) -> (r: Result<EmbeddingIndex, crate::errors::RouterError>)
        ensures
            r matches Ok(ix) ==> ix.tasks@ == tasks@ && wf_index(tasks@) && tasks@.len() > 0
                && ix.top_k == (if top_k >= 1 {
                top_k as int
            } else {
                1int
            }),
            r is Ok <==> (tasks@.len() > 0 && wf_index(tasks@)),
    {
        if tasks.len() == 0 {
            return Err(
                crate::errors::RouterError::Planning(
                    String::from_str("canonical task list cannot be empty"),
                ),
            );
        }
        if tasks.len() > VEC_DIM_BOUND {
            return Err(
                crate::errors::RouterError::Planning(
                    String::from_str("canonical task list too long"),
                ),
            );
        }
        let mut i: usize = 0;
        while i < tasks.len()
            invariant
                i <= tasks@.len(),
                forall|j: int| 0 <= j < i ==> wf_vector((#[trigger] tasks@[j]).embedding@),
        decreases tasks@.len() - i,
        {
            let v = &tasks[i].embedding;
            if v.len() > VEC_DIM_BOUND {
                return Err(
                    crate::errors::RouterError::Planning(
                        String::from_str("canonical vector too long"),
                    ),
                );
            }
            let mut j: usize = 0;
            while j < v.len()
                invariant
                    i < tasks@.len(),
                    v == &tasks@[i as int].embedding,
                    j <= v@.len(),
                    v@.len() <= VEC_DIM_BOUND,
                    forall|p: int|
                        0 <= p < j ==> -VEC_COMPONENT_BOUND <= #[trigger] v@[p]
                            <= VEC_COMPONENT_BOUND,
                decreases v@.len() - j,
            {
                if v[j] > VEC_COMPONENT_BOUND || v[j] < -VEC_COMPONENT_BOUND {
                    return Err(
                        crate::errors::RouterError::Planning(
                            String::from_str("canonical vector out of range"),
                        ),
                    );
                }
                j = j + 1;
            }
            i = i + 1;
        }
        let k = if top_k >= 1 {
            top_k
        } else {
            1
        };
        Ok(EmbeddingIndex { tasks, top_k: k })
    }

    /// Weighted-cosine canonical match: score every task against the query,
    /// take the `top_k` best (ties in task order), drop non-positive scores,
    /// aggregate scores and ids by preferred model, and return the best
    /// model when its averaged score reaches a fifth of a unit.
    ///
    /// The contract pins the whole pipeline: the task ranking is uniquely
    /// characterized, and the result is exactly what the window yields --
    /// nothing when no model reaches the threshold, else the model with the
    /// greatest windowed sum (earliest first vote on ties), its averaged
    /// score, and its voting task ids in window order.
    #[verifier::rlimit(100)]
    #[verifier::spinoff_prover]
    pub fn select(&self, query: &Vec<i64>) -> (r: Option<CanonicalSelection>)
        requires
            wf_index(self.tasks@),
            wf_vector(query@),
        ensures
            self.tasks@.len() == 0 ==> r is None,
            exists|scored: Seq<(i128, usize)>|
                #[trigger] is_ranking(scored, self.tasks@, query@) && selection_matches(
                    scored,
                    self.tasks@,
                    spec_k(self.top_k),
                    r,
                ),
    {
        let ghost gtasks = self.tasks@;
        if self.tasks.len() == 0 {
            proof {
                let blank = Seq::<(i128, usize)>::empty();
                assert(is_ranking(blank, gtasks, query@));
                assert(taken_of(blank, spec_k(self.top_k)) =~= blank);
                assert(selection_matches(blank, gtasks, spec_k(self.top_k), None::<
                    CanonicalSelection,
                >));
            }
            return None;
        }
        let mut scored: Vec<(i128, usize)> = Vec::new();
        let mut i: usize = 0;
        while i < self.tasks.len()
            invariant
                wf_index(self.tasks@),
                wf_vector(query@),
                i <= self.tasks@.len(),
                scored@.len() == i,
                forall|j: int| 0 <= j < i ==> (#[trigger] scored@[j]).1 < self.tasks@.len(),
                forall|a: int, b: int|
                    0 <= a < b < scored@.len() ==> (#[trigger] scored@[a]).0 > (
                    #[trigger] scored@[b]).0 || (scored@[a].0 == scored@[b].0 && scored@[a].1
                        < scored@[b].1),
                forall|j: int| 0 <= j < i ==> (#[trigger] scored@[j]).0 == task_score_spec(
                    self.tasks@[scored@[j].1 as int],
                    query@,
                ),
                forall|j: int| 0 <= j < i ==> (#[trigger] scored@[j]).1 < i,
                forall|a: int, b: int|
                    0 <= a < b < scored@.len() ==> (#[trigger] scored@[a]).1 != (
                    #[trigger] scored@[b]).1,
            decreases self.tasks@.len() - i,
        {
            let sim = dot(&self.tasks[i].embedding, query);
            let weight: i128 = if self.tasks[i].weight_milli == 0 {
                1000
            } else {
                self.tasks[i].weight_milli as i128
            };
            proof {
                assert(sim * weight <= DOT_BOUND * 0x100000000 && sim * weight >= -DOT_BOUND
                    * 0x100000000) by (nonlinear_arith)
                    requires
                        -DOT_BOUND <= sim <= DOT_BOUND,
                        0 < weight <= 0x100000000,
                ;
            }
            let ws: i128 = sim * weight;
            let mut p: usize = 0;
            while p < scored.len() && scored[p].0 >= ws
                invariant
                    p <= scored@.len(),
                    forall|j: int| 0 <= j < p ==> (#[trigger] scored@[j]).0 >= ws,
                    scored@.len() == i,
                    i < self.tasks@.len(),
                    forall|j: int| 0 <= j < i ==> (#[trigger] scored@[j]).1 < self.tasks@.len(),
                    forall|a: int, b: int|
                        0 <= a < b < scored@.len() ==> (#[trigger] scored@[a]).0 > (
                        #[trigger] scored@[b]).0 || (scored@[a].0 == scored@[b].0 && scored@[a].1
                            < scored@[b].1),
                    forall|j: int| 0 <= j < i ==> (#[trigger] scored@[j]).0 == task_score_spec(
                        self.tasks@[scored@[j].1 as int],
                        query@,
                    ),
                    forall|j: int| 0 <= j < i ==> (#[trigger] scored@[j]).1 < i,
                    forall|a: int, b: int|
                        0 <= a < b < scored@.len() ==> (#[trigger] scored@[a]).1 != (
                        #[trigger] scored@[b]).1,
                    ws == task_score_spec(self.tasks@[i as int], query@),
                decreases scored@.len() - p,
            {
                p = p + 1;
            }
            proof {
                assert(forall|j: int| 0 <= j < scored@.len() ==> (#[trigger] scored@[j]).1 < i);
            }
            let ghost sold = scored@;
            let ghost gp = p as int;
            let pair = (ws, i);
            let ghost gpair = pair;
            scored.insert(p, pair);
            proof {
                assert(scored@ == sold.insert(gp, gpair));
                assert(forall|j: int| 0 <= j < gp ==> scored@[j] == sold[j]);
                assert(scored@[gp] == gpair);
                assert(forall|j: int| gp < j < scored@.len() ==> scored@[j] == sold[j - 1]);
                assert forall|a2: int, b2: int| 0 <= a2 < b2 < scored@.len() implies (
                #[trigger] scored@[a2]).0 > (#[trigger] scored@[b2]).0 || (scored@[a2].0
                    == scored@[b2].0 && scored@[a2].1 < scored@[b2].1) by {
                    if a2 < gp && b2 == gp {
                        assert(scored@[a2] == sold[a2]);
                    } else if a2 == gp && b2 > gp {
                        assert(scored@[b2] == sold[b2 - 1]);
                        assert(gp < sold.len() ==> sold[gp].0 < ws);
                        if b2 - 1 > gp {
                            assert(sold[gp].0 > sold[b2 - 1].0 || (sold[gp].0 == sold[b2 - 1].0
                                && sold[gp].1 < sold[b2 - 1].1));
                        }
                    } else if a2 < gp && b2 > gp {
                        assert(scored@[a2] == sold[a2]);
                        assert(scored@[b2] == sold[b2 - 1]);
                    } else if a2 > gp {
                        assert(scored@[a2] == sold[a2 - 1]);
                        assert(scored@[b2] == sold[b2 - 1]);
                    } else {
                        assert(scored@[a2] == sold[a2]);
                        assert(scored@[b2] == sold[b2]);
                    }
                }
                assert forall|a2: int, b2: int| 0 <= a2 < b2 < scored@.len() implies (
                #[trigger] scored@[a2]).1 != (#[trigger] scored@[b2]).1 by {
                    if b2 == gp {
                        assert(scored@[a2] == sold[a2]);
                    } else if a2 == gp {
                        assert(scored@[b2] == sold[b2 - 1]);
                    } else if a2 < gp && b2 < gp {
                        assert(scored@[a2] == sold[a2] && scored@[b2] == sold[b2]);
                    } else if a2 > gp {
                        assert(scored@[a2] == sold[a2 - 1] && scored@[b2] == sold[b2 - 1]);
                    } else {
                        assert(scored@[a2] == sold[a2] && scored@[b2] == sold[b2 - 1]);
                    }
                }
            }
            i = i + 1;
        }
        proof {
            assert(is_ranking(scored@, gtasks, query@));
        }
        let kk: usize = if self.top_k >= 1 {
            self.top_k
        } else {
            1
        };
        let limit: usize = if kk <= scored.len() {
            kk
        } else {
            scored.len()
        };
        let ghost taken = scored@.subrange(0, limit as int);
        proof {
            assert(taken =~= taken_of(scored@, spec_k(self.top_k)));
            assert forall|j: int| 0 <= j < limit implies -SCORE_BOUND <= (
            #[trigger] scored@[j]).0 <= SCORE_BOUND by {
                lemma_task_score_bound(gtasks[scored@[j].1 as int], query@);
            }
        }
        let mut have_best = false;
        let mut best_sum: i128 = 0;
        let mut best_t: usize = 0;
        let mut t: usize = 0;
        while t < limit
            invariant
                wf_index(gtasks),
                wf_vector(query@),
                self.tasks@ == gtasks,
                limit <= scored@.len(),
                limit <= 65536,
                taken == scored@.subrange(0, limit as int),
                forall|j: int| 0 <= j < limit ==> (#[trigger] scored@[j]).1 < gtasks.len(),
                forall|j: int|
                    0 <= j < limit ==> -SCORE_BOUND <= (#[trigger] scored@[j]).0 <= SCORE_BOUND,
                t <= limit,
                have_best == exists|j: int| 0 <= j < t && (#[trigger] taken[j]).0 > 0,
                have_best ==> best_t < t && taken[best_t as int].0 > 0 && taken[
                    best_t as int
                ].1 < gtasks.len() && first_vote(
                    taken,
                    gtasks,
                    gtasks[taken[best_t as int].1 as int].preferred_model@,
                ) == best_t && best_sum == model_sum(
                    taken,
                    gtasks,
                    gtasks[taken[best_t as int].1 as int].preferred_model@,
                ),
                have_best ==> forall|j: int|
                    0 <= j < t && (#[trigger] taken[j]).0 > 0 ==> (model_sum(
                        taken,
                        gtasks,
                        gtasks[taken[j].1 as int].preferred_model@,
                    ) < best_sum || (model_sum(
                        taken,
                        gtasks,
                        gtasks[taken[j].1 as int].preferred_model@,
                    ) == best_sum && first_vote(
                        taken,
                        gtasks,
                        gtasks[taken[best_t as int].1 as int].preferred_model@,
                    ) <= first_vote(taken, gtasks, gtasks[taken[j].1 as int].preferred_model@))),
            decreases limit - t,
        {
            proof {
                assert(forall|j: int| 0 <= j <= t ==> #[trigger] taken[j] == scored@[j]);
            }
            let ghost old_have = have_best;
            let ghost old_best_sum = best_sum;
            let ghost old_best_t = best_t as int;
            let entry = scored[t];
            if entry.0 > 0 {
                let dup = has_earlier_vote(&scored, &self.tasks, t, entry.1);
                let ghost m = gtasks[entry.1 as int].preferred_model@;
                if !dup {
                    let total = window_sum(
                        &scored,
                        &self.tasks,
                        limit,
                        self.tasks[entry.1].preferred_model.as_str(),
                    );
                    proof {
                        assert forall|j: int| 0 <= j < t implies !votes_for(taken[j], gtasks, m) by {
                            assert(taken[j] == scored@[j]);
                        }
                        assert(votes_for(taken[t as int], gtasks, m));
                        lemma_first_vote_at(taken, gtasks, m, t as int);
                        assert(taken =~= scored@.subrange(0, limit as int));
                        assert(total == model_sum(taken, gtasks, m));
                    }
                    if !have_best || total > best_sum {
                        best_sum = total;
                        best_t = t;
                        have_best = true;
                        proof {
                            assert forall|j: int| 0 <= j < t + 1 && (#[trigger] taken[j]).0 > 0
                                implies (model_sum(
                                taken,
                                gtasks,
                                gtasks[taken[j].1 as int].preferred_model@,
                            ) < best_sum || (model_sum(
                                taken,
                                gtasks,
                                gtasks[taken[j].1 as int].preferred_model@,
                            ) == best_sum && first_vote(taken, gtasks, m) <= first_vote(
                                taken,
                                gtasks,
                                gtasks[taken[j].1 as int].preferred_model@,
                            ))) by {
                                if j < t {
                                    if old_have {
                                        assert(model_sum(
                                            taken,
                                            gtasks,
                                            gtasks[taken[j].1 as int].preferred_model@,
                                        ) <= old_best_sum);
                                    } else {
                                        assert(!(taken[j].0 > 0));
                                    }
                                }
                            }
                        }
                    } else {
                        proof {
                            assert(old_have);
                            assert forall|j: int| 0 <= j < t + 1 && (#[trigger] taken[j]).0 > 0
                                implies (model_sum(
                                taken,
                                gtasks,
                                gtasks[taken[j].1 as int].preferred_model@,
                            ) < best_sum || (model_sum(
                                taken,
                                gtasks,
                                gtasks[taken[j].1 as int].preferred_model@,
                            ) == best_sum && first_vote(
                                taken,
                                gtasks,
                                gtasks[taken[old_best_t].1 as int].preferred_model@,
                            ) <= first_vote(
                                taken,
                                gtasks,
                                gtasks[taken[j].1 as int].preferred_model@,
                            ))) by {
                                if j == t {
                                    assert(model_sum(taken, gtasks, m) == total);
                                    assert(first_vote(taken, gtasks, m) == t);
                                }
                            }
                        }
                    }
                } else {
                    proof {
                        let j0 = choose|j: int|
                            0 <= j < t && (#[trigger] scored@[j]).0 > 0 && scored@[j].1
                                < self.tasks@.len() && self.tasks@[
                                scored@[j].1 as int
                            ].preferred_model@ == self.tasks@[entry.1 as int].preferred_model@;
                        assert(taken[j0].0 > 0);
                        assert(have_best);
                        assert forall|j: int| 0 <= j < t + 1 && (#[trigger] taken[j]).0 > 0
                            implies (model_sum(
                            taken,
                            gtasks,
                            gtasks[taken[j].1 as int].preferred_model@,
                        ) < best_sum || (model_sum(
                            taken,
                            gtasks,
                            gtasks[taken[j].1 as int].preferred_model@,
                        ) == best_sum && first_vote(
                            taken,
                            gtasks,
                            gtasks[taken[best_t as int].1 as int].preferred_model@,
                        ) <= first_vote(
                            taken,
                            gtasks,
                            gtasks[taken[j].1 as int].preferred_model@,
                        ))) by {
                            if j == t {
                                assert(gtasks[taken[j].1 as int].preferred_model@ == gtasks[taken[
                                    j0
                                ].1 as int].preferred_model@);
                            }
                        }
                    }
                }
            }
            t = t + 1;
        }
        if !have_best {
            proof {
                assert(selection_matches(scored@, gtasks, spec_k(self.top_k), None::<
                    CanonicalSelection,
                >));
            }
            return None;
        }
        proof {
            assert(forall|j: int| 0 <= j < limit ==> #[trigger] taken[j] == scored@[j]);
            assert(forall|j: int|
                0 <= j < taken.len() ==> -SCORE_BOUND <= (#[trigger] taken[j]).0 <= SCORE_BOUND);
            lemma_model_sum_bound(
                taken,
                gtasks,
                gtasks[taken[best_t as int].1 as int].preferred_model@,
            );
            assert(best_sum >= 0);
        }
        let normalized: i128 = best_sum / (kk as i128) / 1000000000;
        proof {
            assert(normalized >= 0) by (nonlinear_arith)
                requires
                    best_sum >= 0,
                    kk >= 1,
                    normalized == best_sum / (kk as i128) / 1000000000,
            ;
        }
        let score_micro: u32 = if normalized > 1000000 {
            1000000
        } else {
            normalized as u32
        };
        if score_micro < 200000 {
            proof {
                assert forall|j: int|
                    0 <= j < taken.len() && (#[trigger] taken[j]).0 > 0 && taken[j].1
                        < gtasks.len() implies norm_micro(
                    model_sum(taken, gtasks, gtasks[taken[j].1 as int].preferred_model@),
                    spec_k(self.top_k),
                ) < 200000 by {
                    lemma_model_sum_bound(taken, gtasks, gtasks[taken[j].1 as int].preferred_model@);
                    lemma_norm_monotone(
                        model_sum(taken, gtasks, gtasks[taken[j].1 as int].preferred_model@),
                        best_sum as int,
                        spec_k(self.top_k),
                    );
                }
                assert(selection_matches(scored@, gtasks, spec_k(self.top_k), None::<
                    CanonicalSelection,
                >));
            }
            return None;
        }
        let best_entry = scored[best_t];
        let ids = window_votes(
            &scored,
            &self.tasks,
            limit,
            self.tasks[best_entry.1].preferred_model.as_str(),
        );
        let model_id = self.tasks[best_entry.1].preferred_model.clone();
        let result = CanonicalSelection { model_id, canonical_ids: ids, score_micro };
        proof {
            assert(taken[best_t as int].0 > 0 && taken[best_t as int].1 < gtasks.len()
                && gtasks[taken[best_t as int].1 as int].preferred_model@ == result.model_id@);
            assert(selection_matches(scored@, gtasks, spec_k(self.top_k), Some(result)));
        }
        Some(result)
    }
}

/// The top-k width, at least one.
pub open spec fn spec_k(top_k: usize) -> int {
    if top_k >= 1 {
        top_k as int
    } else {
        1
    }
}

/// `scored` is the unique ranking of the tasks against the query: one entry
/// per task with its exact weighted score, by descending score with ties in
/// task order.
pub open spec fn is_ranking(scored: Seq<(i128, usize)>, tasks: Seq<CanonicalTask>, q: Seq<i64>) -> bool {
    &&& scored.len() == tasks.len()
    &&& forall|j: int| 0 <= j < scored.len() ==> (#[trigger] scored[j]).1 < tasks.len()
    &&& forall|j: int|
        0 <= j < scored.len() ==> (#[trigger] scored[j]).0 == task_score_spec(
            tasks[scored[j].1 as int],
            q,
        )
    &&& forall|a: int, b: int|
        0 <= a < b < scored.len() ==> (#[trigger] scored[a]).0 > (#[trigger] scored[b]).0 || (
        scored[a].0 == scored[b].0 && scored[a].1 < scored[b].1)
    &&& forall|a: int, b: int|
        0 <= a < b < scored.len() ==> (#[trigger] scored[a]).1 != (#[trigger] scored[b]).1
}

/// The top-k window of a ranking.
pub open spec fn taken_of(scored: Seq<(i128, usize)>, kk: int) -> Seq<(i128, usize)> {
    scored.subrange(
        0,
        if kk <= scored.len() {
            kk
        } else {
            scored.len() as int
        },
    )
}

/// Whether a window entry is a positive vote for the model.
pub open spec fn votes_for(e: (i128, usize), tasks: Seq<CanonicalTask>, m: Seq<char>) -> bool {
    e.0 > 0 && e.1 < tasks.len() && tasks[e.1 as int].preferred_model@ == m
}

/// The positive score mass a model's tasks earn in the window.
pub open spec fn model_sum(taken: Seq<(i128, usize)>, tasks: Seq<CanonicalTask>, m: Seq<char>) -> int
    decreases taken.len(),
{
    if taken.len() == 0 {
        0
    } else {
        model_sum(taken.drop_last(), tasks, m) + (if votes_for(taken.last(), tasks, m) {
            taken.last().0 as int
        } else {
            0
        })
    }
}

/// The ids of the model's positively scoring tasks in the window, in order.
pub open spec fn model_votes(taken: Seq<(i128, usize)>, tasks: Seq<CanonicalTask>, m: Seq<char>) -> Seq<Seq<char>>
    decreases taken.len(),
{
    if taken.len() == 0 {
        Seq::empty()
    } else {
        model_votes(taken.drop_last(), tasks, m) + (if votes_for(taken.last(), tasks, m) {
            seq![tasks[taken.last().1 as int].id@]
        } else {
            Seq::empty()
        })
    }
}

/// The first window position where the model scores positively (the window
/// length when it never does).
pub open spec fn first_vote(taken: Seq<(i128, usize)>, tasks: Seq<CanonicalTask>, m: Seq<char>) -> int
    decreases taken.len(),
{
    if taken.len() == 0 {
        0
    } else if votes_for(taken.first(), tasks, m) {
        0
    } else {
        1 + first_vote(taken.drop_first(), tasks, m)
    }
}

/// The windowed average in millionths, clipped to one.
pub open spec fn norm_micro(sum: int, kk: int) -> int {
    let n = sum / kk / 1000000000;
    if n > 1000000 {
        1000000
    } else {
        n
    }
}

/// What the selection stage yields from a ranking: nothing when no model in
/// the window reaches the threshold; else the model with the greatest
/// windowed sum (earliest first vote on ties), its averaged score, and its
/// voting ids in window order.
pub open spec fn selection_matches(
    scored: Seq<(i128, usize)>,
    tasks: Seq<CanonicalTask>,
    kk: int,
    r: Option<CanonicalSelection>,
) -> bool {
    let taken = taken_of(scored, kk);
    match r {
        None => forall|j: int|
            0 <= j < taken.len() && (#[trigger] taken[j]).0 > 0 && taken[j].1 < tasks.len()
                ==> norm_micro(
                model_sum(taken, tasks, tasks[taken[j].1 as int].preferred_model@),
                kk,
            ) < 200000,
        Some(sel) => {
            &&& 200000 <= sel.score_micro <= 1000000
            &&& exists|j: int|
                0 <= j < taken.len() && (#[trigger] taken[j]).0 > 0 && taken[j].1 < tasks.len()
                    && tasks[taken[j].1 as int].preferred_model@ == sel.model_id@
            &&& sel.score_micro == norm_micro(model_sum(taken, tasks, sel.model_id@), kk)
            &&& forall|j: int|
                0 <= j < taken.len() && (#[trigger] taken[j]).0 > 0 && taken[j].1 < tasks.len()
                    ==> (model_sum(taken, tasks, tasks[taken[j].1 as int].preferred_model@)
                    < model_sum(taken, tasks, sel.model_id@) || (model_sum(
                    taken,
                    tasks,
                    tasks[taken[j].1 as int].preferred_model@,
                ) == model_sum(taken, tasks, sel.model_id@) && first_vote(
                    taken,
                    tasks,
                    sel.model_id@,
                ) <= first_vote(taken, tasks, tasks[taken[j].1 as int].preferred_model@)))
            &&& sel.canonical_ids@.len() == model_votes(taken, tasks, sel.model_id@).len()
            &&& forall|q2: int|
                0 <= q2 < sel.canonical_ids@.len() ==> (#[trigger] sel.canonical_ids@[q2])@
                    == model_votes(taken, tasks, sel.model_id@)[q2]
        },
    }
}

/// The model's windowed mass is nonnegative and window-bounded.
proof fn lemma_model_sum_bound(taken: Seq<(i128, usize)>, tasks: Seq<CanonicalTask>, m: Seq<char>)
    requires
        forall|j: int| 0 <= j < taken.len() ==> -SCORE_BOUND <= (#[trigger] taken[j]).0 <= SCORE_BOUND,
    ensures
        0 <= model_sum(taken, tasks, m) <= taken.len() * SCORE_BOUND,
    decreases taken.len(),
{
    if taken.len() == 0 {
    } else {
        assert(forall|j: int|
            0 <= j < taken.drop_last().len() ==> taken.drop_last()[j] == taken[j]);
        lemma_model_sum_bound(taken.drop_last(), tasks, m);
        assert((taken.len() - 1) * SCORE_BOUND + SCORE_BOUND == taken.len() * SCORE_BOUND)
            by (nonlinear_arith);
    }
}

/// Averaging is monotone in the mass.
proof fn lemma_norm_monotone(a: int, b: int, kk: int)
    requires
        0 <= a <= b,
        kk >= 1,
    ensures
        norm_micro(a, kk) <= norm_micro(b, kk),
{
    assert(a / kk <= b / kk && a / kk >= 0) by (nonlinear_arith)
        requires
            0 <= a <= b,
            kk >= 1,
    ;
    assert(a / kk / 1000000000 <= b / kk / 1000000000 && a / kk / 1000000000 >= 0)
        by (nonlinear_arith)
        requires
            0 <= a / kk <= b / kk,
    ;
}

/// The first positive vote for a model sits exactly where the scan finds it.
proof fn lemma_first_vote_at(
    taken: Seq<(i128, usize)>,
    tasks: Seq<CanonicalTask>,
    m: Seq<char>,
    t: int,
)
    requires
        0 <= t < taken.len(),
        taken[t].0 > 0,
        taken[t].1 < tasks.len(),
        tasks[taken[t].1 as int].preferred_model@ == m,
        forall|j: int|
            0 <= j < t ==> !((#[trigger] taken[j]).0 > 0 && taken[j].1 < tasks.len() && tasks[
                taken[j].1 as int
            ].preferred_model@ == m),
    ensures
        first_vote(taken, tasks, m) == t,
    decreases t,
{
    if t == 0 {
    } else {
        assert(forall|j: int|
            0 <= j < taken.drop_first().len() ==> taken.drop_first()[j] == taken[j + 1]);
        lemma_first_vote_at(taken.drop_first(), tasks, m, t - 1);
    }
}

/// Whether an earlier window entry already voted for the same preferred
/// model.
fn has_earlier_vote(
    scored: &Vec<(i128, usize)>,
    tasks: &Vec<CanonicalTask>,
    t: usize,
    ti: usize,
) -> (r: bool)
    requires
        t <= scored@.len(),
        ti < tasks@.len(),
        forall|j: int| 0 <= j < t ==> (#[trigger] scored@[j]).1 < tasks@.len(),
    ensures
        r == exists|j: int|
            0 <= j < t && (#[trigger] scored@[j]).0 > 0 && scored@[j].1 < tasks@.len() && tasks@[
                scored@[j].1 as int
            ].preferred_model@ == tasks@[ti as int].preferred_model@,
{
    let mut j: usize = 0;
    while j < t
        invariant
            t <= scored@.len(),
            ti < tasks@.len(),
            j <= t,
            forall|j2: int| 0 <= j2 < t ==> (#[trigger] scored@[j2]).1 < tasks@.len(),
            forall|j2: int|
                0 <= j2 < j ==> !((#[trigger] scored@[j2]).0 > 0 && scored@[j2].1 < tasks@.len()
                    && tasks@[scored@[j2].1 as int].preferred_model@ == tasks@[
                    ti as int
                ].preferred_model@),
        decreases t - j,
    {
        let e = scored[j];
        if e.0 > 0 && crate::text::str_eq(
            tasks[e.1].preferred_model.as_str(),
            tasks[ti].preferred_model.as_str(),
        ) {
            assert(scored@[j as int].0 > 0 && tasks@[scored@[j as int].1 as int].preferred_model@
                == tasks@[ti as int].preferred_model@);
            return true;
        }
        j = j + 1;
    }
    false
}

/// Sum the model's positive scores over the window.
fn window_sum(
    scored: &Vec<(i128, usize)>,
    tasks: &Vec<CanonicalTask>,
    limit: usize,
    m: &str,
) -> (r: i128)
    requires
        limit <= scored@.len(),
        limit <= 65536,
        forall|j: int| 0 <= j < limit ==> (#[trigger] scored@[j]).1 < tasks@.len(),
        forall|j: int| 0 <= j < limit ==> -SCORE_BOUND <= (#[trigger] scored@[j]).0 <= SCORE_BOUND,
    ensures
        r == model_sum(scored@.subrange(0, limit as int), tasks@, m@),
        r >= 0,
{
    let ghost win = scored@.subrange(0, limit as int);
    let mut acc: i128 = 0;
    let mut x: usize = 0;
    while x < limit
        invariant
            limit <= scored@.len(),
            limit <= 65536,
            win == scored@.subrange(0, limit as int),
            forall|j: int| 0 <= j < limit ==> (#[trigger] scored@[j]).1 < tasks@.len(),
            forall|j: int|
                0 <= j < limit ==> -SCORE_BOUND <= (#[trigger] scored@[j]).0 <= SCORE_BOUND,
            x <= limit,
            acc == model_sum(win.subrange(0, x as int), tasks@, m@),
            0 <= acc <= (x as int) * SCORE_BOUND,
        decreases limit - x,
    {
        proof {
            let prefix = win.subrange(0, x + 1);
            assert(prefix.drop_last() =~= win.subrange(0, x as int));
            assert(prefix.last() == scored@[x as int]);
            assert(forall|j: int|
                0 <= j < x ==> #[trigger] win.subrange(0, x as int)[j] == scored@[j]);
            lemma_model_sum_bound(win.subrange(0, x as int), tasks@, m@);
            assert((x as int) * SCORE_BOUND + SCORE_BOUND == ((x as int) + 1) * SCORE_BOUND)
                by (nonlinear_arith);
            assert((x as int) * SCORE_BOUND <= 65536 * SCORE_BOUND) by (nonlinear_arith)
                requires
                    0 <= x <= 65536,
            ;
        }
        let e = scored[x];
        if e.0 > 0 && crate::text::str_eq(tasks[e.1].preferred_model.as_str(), m) {
            acc = acc + e.0;
        }
        x = x + 1;
    }
    proof {
        assert(win.subrange(0, limit as int) =~= win);
    }
    acc
}

/// Collect the model's voting task ids over the window, in order.
fn window_votes(
    scored: &Vec<(i128, usize)>,
    tasks: &Vec<CanonicalTask>,
    limit: usize,
    m: &str,
) -> (r: Vec<String>)
    requires
        limit <= scored@.len(),
        forall|j: int| 0 <= j < limit ==> (#[trigger] scored@[j]).1 < tasks@.len(),
    ensures
        r@.len() == model_votes(scored@.subrange(0, limit as int), tasks@, m@).len(),
        forall|q2: int|
            0 <= q2 < r@.len() ==> (#[trigger] r@[q2])@ == model_votes(
                scored@.subrange(0, limit as int),
                tasks@,
                m@,
            )[q2],
{
    let ghost win = scored@.subrange(0, limit as int);
    let mut out: Vec<String> = Vec::new();
    let mut x: usize = 0;
    while x < limit
        invariant
            limit <= scored@.len(),
            win == scored@.subrange(0, limit as int),
            forall|j: int| 0 <= j < limit ==> (#[trigger] scored@[j]).1 < tasks@.len(),
            x <= limit,
            out@.len() == model_votes(win.subrange(0, x as int), tasks@, m@).len(),
            forall|q2: int|
                0 <= q2 < out@.len() ==> (#[trigger] out@[q2])@ == model_votes(
                    win.subrange(0, x as int),
                    tasks@,
                    m@,
                )[q2],
        decreases limit - x,
    {
        proof {
            let prefix = win.subrange(0, x + 1);
            assert(prefix.drop_last() =~= win.subrange(0, x as int));
            assert(prefix.last() == scored@[x as int]);
        }
        let e = scored[x];
        if e.0 > 0 && crate::text::str_eq(tasks[e.1].preferred_model.as_str(), m) {
            out.push(tasks[e.1].id.clone());
            proof {
                let prefix = win.subrange(0, x + 1);
                assert(model_votes(prefix, tasks@, m@) =~= model_votes(
                    win.subrange(0, x as int),
                    tasks@,
                    m@,
                ) + seq![tasks@[scored@[x as int].1 as int].id@]);
            }
        }
        x = x + 1;
    }
    proof {
        assert(win.subrange(0, limit as int) =~= win);
    }
    out
}

} // verus!
