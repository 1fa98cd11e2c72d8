//! Completing a model's ranking: the candidates a model ranked keep the
//! model's ranks, the others follow in a fixed order.
use vstd::prelude::*;

use crate::errors::AppError;
use crate::providers::ai::workers_ai::{
    context_prompt, rank_items_view, stricter_prompt, RankItemView, WorkersRankItem, STRICT_REMINDER,
};
use crate::providers::ai::{
    candidates_view, clone_candidate, pool_order, pool_rank, ranked_in_order, ranking_view, rank_in_order,
    Candidate, CandidateView, DeterministicRanker, RankedTrack, RankedView, RankingContext,
};
use crate::providers::qobuz::signing::{
    chars_lt, lemma_text_lt_irreflexive, lemma_text_lt_total, lemma_text_lt_transitive, text_lt,
};
use crate::state::strings_view;
use crate::text::chars_of;

verus! {

/// Below this many candidates no model is asked.
pub const MIN_CANDIDATES_FOR_MODEL: usize = 5;

/// Whether a model is asked to rank `n` candidates.
pub fn model_ranks(n: usize) -> (r: bool)
    ensures
        r == (n >= MIN_CANDIDATES_FOR_MODEL),
{
    n >= MIN_CANDIDATES_FOR_MODEL
}

/// `a` comes before `b` among the candidates a model left out: by pool, then
/// by id.
pub open spec fn cand_before(a: CandidateView, b: CandidateView) -> bool {
    pool_rank(a.pool) < pool_rank(b.pool) || (pool_rank(a.pool) == pool_rank(b.pool) && text_lt(a.id, b.id))
}

/// `x` inserted into `s` after every candidate that does not come after it.
pub open spec fn insert_cand(s: Seq<CandidateView>, x: CandidateView) -> Seq<CandidateView>
    decreases s.len(),
{
    if s.len() == 0 {
        seq![x]
    } else if cand_before(x, s.last()) {
        insert_cand(s.drop_last(), x).push(s.last())
    } else {
        s.push(x)
    }
}

/// The candidates stably sorted by pool, then id (what `sort_by` gives).
pub open spec fn sort_cands(s: Seq<CandidateView>) -> Seq<CandidateView>
    decreases s.len(),
{
    if s.len() == 0 {
        Seq::empty()
    } else {
        insert_cand(sort_cands(s.drop_last()), s.last())
    }
}

proof fn lemma_insert_cand_at(s: Seq<CandidateView>, x: CandidateView, j: int)
    requires
        0 <= j <= s.len(),
        forall|k: int| j <= k < s.len() ==> cand_before(x, #[trigger] s[k]),
        j == 0 || !cand_before(x, s[j - 1]),
    ensures
        insert_cand(s, x) == s.take(j).push(x) + s.skip(j),
    decreases s.len(),
{
    if s.len() == 0 {
        assert(s.take(0).push(x) + s.skip(0) =~= seq![x]);
    } else if j == s.len() {
        assert(s.take(j) == s);
        assert(s.take(j).push(x) + s.skip(j) =~= s.push(x));
    } else {
        assert(cand_before(x, s[s.len() - 1]));
        let p = s.drop_last();
        assert forall|k: int| j <= k < p.len() implies cand_before(x, #[trigger] p[k]) by {
            assert(p[k] == s[k]);
        }
        lemma_insert_cand_at(p, x, j);
        assert(p.take(j) == s.take(j));
        assert((p.take(j).push(x) + p.skip(j)).push(s.last()) =~= s.take(j).push(x) + s.skip(j));
    }
}

proof fn lemma_sort_cands_len(s: Seq<CandidateView>)
    ensures
        sort_cands(s).len() == s.len(),
    decreases s.len(),
{
    if s.len() > 0 {
        lemma_sort_cands_len(s.drop_last());
        lemma_insert_cand_len(sort_cands(s.drop_last()), s.last());
    }
}

proof fn lemma_insert_cand_len(s: Seq<CandidateView>, x: CandidateView)
    ensures
        insert_cand(s, x).len() == s.len() + 1,
    decreases s.len(),
{
    if s.len() > 0 && cand_before(x, s.last()) {
        lemma_insert_cand_len(s.drop_last(), x);
    }
}

/// Whether `x` comes before `y`.
fn cand_lt(x: &Candidate, y: &Candidate) -> (r: bool)
    ensures
        r == cand_before(x@, y@),
{
    let px: u8 = match x.pool {
        crate::state::Pool::Familiar => 0,
        crate::state::Pool::NewRelease => 1,
        crate::state::Pool::Discovery => 2,
    };
    let py: u8 = match y.pool {
        crate::state::Pool::Familiar => 0,
        crate::state::Pool::NewRelease => 1,
        crate::state::Pool::Discovery => 2,
    };
    if px != py {
        return px < py;
    }
    let a = chars_of(x.id.as_str());
    let b = chars_of(y.id.as_str());
    chars_lt(a.as_slice(), b.as_slice())
}

/// Sorts candidates by pool, then id, keeping the order of equals.
pub fn sort_candidates(cands: &Vec<Candidate>) -> (r: Vec<Candidate>)
    ensures
        candidates_view(r@) == sort_cands(candidates_view(cands@)),
{
    let ghost cv = candidates_view(cands@);
    let mut out: Vec<Candidate> = Vec::new();
    for i in 0..cands.len()
        invariant
            cv == candidates_view(cands@),
            candidates_view(out@) == sort_cands(cv.take(i as int)),
    {
        let x = clone_candidate(&cands[i]);
        let mut j = out.len();
        while j > 0 && cand_lt(&x, &out[j - 1])
            invariant
                j <= out@.len(),
                forall|k: int| j <= k < out@.len() ==> cand_before(x@, #[trigger] out@[k]@),
            decreases j,
        {
            j = j - 1;
        }
        let ghost before = candidates_view(out@);
        proof {
            assert forall|k: int| j <= k < before.len() implies cand_before(x@, #[trigger] before[k]) by {
                assert(before[k] == out@[k]@);
            }
            if j > 0 {
                assert(before[j - 1] == out@[j - 1]@);
            }
            lemma_insert_cand_at(before, x@, j as int);
            assert(cv.take(i + 1).drop_last() == cv.take(i as int));
            assert(cv.take(i + 1).last() == x@);
        }
        let ghost xv = x@;
        out.insert(j, x);
        assert(candidates_view(out@) =~= before.take(j as int).push(xv) + before.skip(j as int));
    }
    assert(cv.take(cands.len() as int) == cv);
    out
}

/// Whether a model ranked candidate id `id`.
pub open spec fn ranked_by_model(items: Seq<RankItemView>, id: Seq<char>) -> bool {
    exists|i: int| 0 <= i < items.len() && items[i].candidate_id == id
}

/// The candidates a model did not rank, in input order.
pub open spec fn unranked(cands: Seq<CandidateView>, items: Seq<RankItemView>) -> Seq<CandidateView> {
    crate::json::filter_map(
        cands,
        |c: CandidateView| if ranked_by_model(items, c.id) { None } else { Some(c) },
    )
}

/// Whether `id` is the id of one of the candidates.
pub open spec fn is_candidate_id(cands: Seq<CandidateView>, id: Seq<char>) -> bool {
    exists|i: int| 0 <= i < cands.len() && cands[i].id == id
}

/// The model's items that the ranking keeps: those naming a candidate, each
/// id at its first such item. Ids the model invented or repeated are dropped.
pub open spec fn usable_items(items: Seq<RankItemView>, cands: Seq<CandidateView>) -> Seq<RankItemView>
    decreases items.len(),
{
    if items.len() == 0 {
        Seq::empty()
    } else {
        let p = usable_items(items.drop_last(), cands);
        let x = items.last();
        if is_candidate_id(cands, x.candidate_id) && !ranked_by_model(p, x.candidate_id) {
            p.push(x)
        } else {
            p
        }
    }
}

/// The ranking a model's reply gives: the items it keeps (see
/// `usable_items`) in order, each with its rank or else its position; then
/// every candidate it did not rank, by pool then id, ranked after them.
pub open spec fn merged_ranking(items: Seq<RankItemView>, cands: Seq<CandidateView>) -> Seq<RankedView> {
    let kept = usable_items(items, cands);
    Seq::new(
        kept.len(),
        |i: int|
            RankedView {
                candidate_id: kept[i].candidate_id,
                rank: match kept[i].rank {
                    Some(r) => r,
                    None => i as usize,
                },
            },
    ) + ranked_in_order(sort_cands(unranked(cands, kept)), kept.len() as int)
}

/// Whether an item list ranks candidate `id`.
fn model_ranked(items: &Vec<WorkersRankItem>, id: &String) -> (r: bool)
    ensures
        r == ranked_by_model(rank_items_view(items@), id@),
{
    let ghost iv = rank_items_view(items@);
    for i in 0..items.len()
        invariant
            iv == rank_items_view(items@),
            forall|k: int| 0 <= k < i ==> iv[k].candidate_id != id@,
    {
        if items[i].candidate_id == *id {
            assert(iv[i as int].candidate_id == id@);
            return true;
        }
    }
    false
}

proof fn lemma_unranked_len(cands: Seq<CandidateView>, items: Seq<RankItemView>)
    ensures
        unranked(cands, items).len() <= cands.len(),
    decreases cands.len(),
{
    if cands.len() > 0 {
        lemma_unranked_len(cands.drop_last(), items);
    }
}

/// Whether one of the candidates has id `id`.
fn has_candidate_id(cands: &[Candidate], id: &String) -> (r: bool)
    ensures
        r == is_candidate_id(candidates_view(cands@), id@),
{
    let ghost cv = candidates_view(cands@);
    for i in 0..cands.len()
        invariant
            cv == candidates_view(cands@),
            forall|k: int| 0 <= k < i ==> cv[k].id != id@,
    {
        if cands[i].id == *id {
            assert(cv[i as int].id == id@);
            return true;
        }
    }
    false
}

/// The model's items that name a candidate, each id once.
fn usable_items_of(items: &Vec<WorkersRankItem>, candidates: &[Candidate]) -> (r: Vec<WorkersRankItem>)
    ensures
        rank_items_view(r@) == usable_items(rank_items_view(items@), candidates_view(candidates@)),
{
    let ghost iv = rank_items_view(items@);
    let ghost cv = candidates_view(candidates@);
    let mut kept: Vec<WorkersRankItem> = Vec::new();
    assert(iv.take(0) == Seq::<RankItemView>::empty());
    for i in 0..items.len()
        invariant
            iv == rank_items_view(items@),
            cv == candidates_view(candidates@),
            rank_items_view(kept@) == usable_items(iv.take(i as int), cv),
    {
        assert(iv.take(i + 1).drop_last() == iv.take(i as int));
        assert(iv.take(i + 1).last() == iv[i as int]);
        let id = &items[i].candidate_id;
        if has_candidate_id(candidates, id) && !model_ranked(&kept, id) {
            let ghost before = rank_items_view(kept@);
            let item = WorkersRankItem { candidate_id: id.clone(), rank: items[i].rank };
            kept.push(item);
            assert(rank_items_view(kept@) == before.push(item@));
        }
    }
    assert(iv.take(items.len() as int) == iv);
    kept
}

proof fn lemma_usable_items_len(items: Seq<RankItemView>, cands: Seq<CandidateView>)
    ensures
        usable_items(items, cands).len() <= items.len(),
    decreases items.len(),
{
    if items.len() > 0 {
        lemma_usable_items_len(items.drop_last(), cands);
    }
}

/// Completes a model's ranking with the candidates it left out. Ids the model
/// invented or repeated are dropped first.
pub fn merge_ranking(items: &Vec<WorkersRankItem>, candidates: &[Candidate]) -> (r: Vec<RankedTrack>)
    requires
        items@.len() + candidates@.len() <= usize::MAX,
    ensures
        ranking_view(r@) == merged_ranking(rank_items_view(items@), candidates_view(candidates@)),
        forall|k: int| 0 <= k < r@.len() ==> #[trigger] is_candidate_id(candidates_view(candidates@), r@[k].candidate_id@),
        forall|j: int, k: int|
            0 <= j < k < r@.len() && (#[trigger] r@[j]).candidate_id@ == (#[trigger] r@[k]).candidate_id@ ==> !ranked_by_model(
                usable_items(rank_items_view(items@), candidates_view(candidates@)),
                r@[j].candidate_id@,
            ),
        forall|i: int| 0 <= i < candidates@.len() ==> #[trigger] ranks_id(ranking_view(r@), candidates@[i].id@),
{
    proof {
        lemma_merged_ranking_reorders(rank_items_view(items@), candidates_view(candidates@));
    }
    let kept = usable_items_of(items, candidates);
    let ghost kv = rank_items_view(kept@);
    let ghost cv = candidates_view(candidates@);
    proof {
        lemma_usable_items_len(rank_items_view(items@), cv);
    }
    let mut result: Vec<RankedTrack> = Vec::new();
    let ghost head = Seq::new(
        kv.len(),
        |i: int|
            RankedView {
                candidate_id: kv[i].candidate_id,
                rank: match kv[i].rank {
                    Some(r) => r,
                    None => i as usize,
                },
            },
    );
    for i in 0..kept.len()
        invariant
            kv == rank_items_view(kept@),
            head.len() == kv.len(),
            forall|k: int| 0 <= k < kv.len() ==> #[trigger] head[k] == (RankedView {
                candidate_id: kv[k].candidate_id,
                rank: match kv[k].rank {
                    Some(r) => r,
                    None => k as usize,
                },
            }),
            ranking_view(result@) == head.take(i as int),
    {
        let rank = match kept[i].rank {
            Some(r) => r,
            None => i,
        };
        let ghost before = ranking_view(result@);
        let item = RankedTrack { candidate_id: kept[i].candidate_id.clone(), rank };
        result.push(item);
        assert(kv[i as int].candidate_id == kept@[i as int].candidate_id@);
        assert(ranking_view(result@) == before.push(item@));
        assert(head.take(i + 1) == head.take(i as int).push(head[i as int]));
    }
    assert(head.take(kept.len() as int) == head);
    let ghost fu = |c: CandidateView| if ranked_by_model(kv, c.id) { None } else { Some(c) };
    let mut remaining: Vec<Candidate> = Vec::new();
    for k in 0..candidates.len()
        invariant
            kv == rank_items_view(kept@),
            cv == candidates_view(candidates@),
            fu == (|c: CandidateView| if ranked_by_model(kv, c.id) { None } else { Some(c) }),
            candidates_view(remaining@) == crate::json::filter_map(cv.take(k as int), fu),
    {
        proof {
            crate::json::lemma_filter_map_step(cv, fu, k as int);
        }
        let ghost before = candidates_view(remaining@);
        if !model_ranked(&kept, &candidates[k].id) {
            let c = clone_candidate(&candidates[k]);
            remaining.push(c);
            assert(candidates_view(remaining@) == before.push(c@));
        }
    }
    assert(cv.take(candidates.len() as int) == cv);
    let sorted = sort_candidates(&remaining);
    proof {
        lemma_unranked_len(cv, kv);
        lemma_sort_cands_len(unranked(cv, kv));
    }
    let mut tail = rank_in_order(&sorted, kept.len());
    let ghost hv = ranking_view(result@);
    let ghost tv = ranking_view(tail@);
    result.append(&mut tail);
    assert(ranking_view(result@) =~= hv + tv);
    proof {
        let m = ranking_view(result@);
        let mr = merged_ranking(rank_items_view(items@), cv);
        assert(m == mr);
        assert forall|k: int| 0 <= k < result@.len() implies #[trigger] is_candidate_id(cv, result@[k].candidate_id@) by {
            assert(m[k] == result@[k]@);
            assert(is_candidate_id(cv, mr[k].candidate_id));
        }
        assert forall|j: int, k: int|
            0 <= j < k < result@.len() && (#[trigger] result@[j]).candidate_id@ == (#[trigger] result@[k]).candidate_id@ implies !ranked_by_model(
            usable_items(rank_items_view(items@), cv),
            result@[j].candidate_id@,
        ) by {
            assert(m[k] == result@[k]@);
            assert(m[j] == result@[j]@);
        }
        assert forall|i: int| 0 <= i < candidates@.len() implies #[trigger] ranks_id(m, candidates@[i].id@) by {
            assert(cv[i] == candidates@[i]@);
            assert(ranks_id(mr, cv[i].id));
        }
    }
    result
}

/// What came back from asking the model to rank.
pub enum ModelReply {
    /// The request failed or the service refused it.
    Unreachable,
    /// An answer came, but no ranking could be read from it.
    Unreadable,
    /// The ranking items read from the answer.
    Ranked(Vec<WorkersRankItem>),
}

/// Which request the reply answers.
#[derive(Clone, Copy, Debug, PartialEq, Eq, Structural)]
pub enum ModelAttempt {
    First,
    Stricter,
}

/// What to do after a reply: ask again with this prompt, or use this ranking.
pub enum RankingStep {
    AskAgain(String),
    Done(Vec<RankedTrack>),
}

/// The next step of ranking with a model: a readable ranking is completed
/// with the left-out candidates; the first unreadable reply is followed by
/// one more request with a stricter prompt; an unreachable model, or a second
/// unreadable reply, gives the deterministic ranking.
pub fn after_model_reply(ctx: &RankingContext, attempt: ModelAttempt, reply: ModelReply) -> (r: RankingStep)
    requires
        reply matches ModelReply::Ranked(items) ==> items@.len() + ctx.candidates@.len() <= usize::MAX,
    ensures
        match reply {
            ModelReply::Ranked(items) => r matches RankingStep::Done(v) && ranking_view(v@) == merged_ranking(
                rank_items_view(items@),
                candidates_view(ctx.candidates@),
            ),
            ModelReply::Unreadable => if attempt == ModelAttempt::First {
                r matches RankingStep::AskAgain(p) && p@ == context_prompt(*ctx) + STRICT_REMINDER@
            } else {
                r matches RankingStep::Done(v) && ranking_view(v@) == ranked_in_order(pool_order(candidates_view(ctx.candidates@)), 0)
            },
            ModelReply::Unreachable => r matches RankingStep::Done(v) && ranking_view(v@) == ranked_in_order(
                pool_order(candidates_view(ctx.candidates@)),
                0,
            ),
        },
{
    match reply {
        ModelReply::Ranked(items) => RankingStep::Done(merge_ranking(&items, ctx.candidates)),
        ModelReply::Unreadable => if attempt == ModelAttempt::First {
            RankingStep::AskAgain(stricter_prompt(ctx))
        } else {
            RankingStep::Done(DeterministicRanker.rank(ctx.candidates))
        },
        ModelReply::Unreachable => RankingStep::Done(DeterministicRanker.rank(ctx.candidates)),
    }
}

/// The ranking to use from a provider's answer: its ranking when it gave
/// one, the deterministic ranking when it failed.
pub fn ranking_or_fallback(answer: Result<Vec<RankedTrack>, AppError>, candidates: &[Candidate]) -> (r: Vec<RankedTrack>)
    ensures
        match answer {
            Ok(v) => r == v,
            Err(_) => ranking_view(r@) == ranked_in_order(pool_order(candidates_view(candidates@)), 0),
        },
{
    match answer {
        Ok(v) => v,
        Err(_) => DeterministicRanker.rank(candidates),
    }
}

proof fn lemma_insert_cand_multiset(s: Seq<CandidateView>, x: CandidateView)
    ensures
        insert_cand(s, x).to_multiset() == s.to_multiset().insert(x),
    decreases s.len(),
{
    broadcast use vstd::multiset::group_multiset_axioms;

    if s.len() == 0 {
        assert(s == Seq::<CandidateView>::empty());
        assert(insert_cand(s, x) == s.push(x));
        vstd::seq_lib::to_multiset_build(s, x);
    } else if cand_before(x, s.last()) {
        let p = s.drop_last();
        lemma_insert_cand_multiset(p, x);
        vstd::seq_lib::to_multiset_build(insert_cand(p, x), s.last());
        vstd::seq_lib::to_multiset_build(p, s.last());
        assert(s == p.push(s.last()));
        assert(p.to_multiset().insert(x).insert(s.last()) =~= p.to_multiset().insert(s.last()).insert(x));
    } else {
        vstd::seq_lib::to_multiset_build(s, x);
    }
}

/// Sorting the left-out candidates rearranges them: each is kept exactly as
/// often as it occurs.
pub proof fn lemma_sort_cands_permutes(s: Seq<CandidateView>)
    ensures
        sort_cands(s).to_multiset() == s.to_multiset(),
    decreases s.len(),
{
    if s.len() > 0 {
        let p = s.drop_last();
        lemma_sort_cands_permutes(p);
        lemma_insert_cand_multiset(sort_cands(p), s.last());
        vstd::seq_lib::to_multiset_build(p, s.last());
        assert(s == p.push(s.last()));
    } else {
        assert(s == Seq::<CandidateView>::empty());
    }
}

proof fn lemma_sorted_tail_members(s: Seq<CandidateView>)
    ensures
        forall|k: int| 0 <= k < sort_cands(s).len() ==> s.contains(#[trigger] sort_cands(s)[k]),
        forall|i: int| 0 <= i < s.len() ==> sort_cands(s).contains(#[trigger] s[i]),
{
    broadcast use vstd::seq_lib::group_to_multiset_ensures;

    lemma_sort_cands_permutes(s);
    assert forall|k: int| 0 <= k < sort_cands(s).len() implies s.contains(#[trigger] sort_cands(s)[k]) by {
        assert(sort_cands(s).contains(sort_cands(s)[k]));
        assert(sort_cands(s).to_multiset().contains(sort_cands(s)[k]));
    }
    assert forall|i: int| 0 <= i < s.len() implies sort_cands(s).contains(#[trigger] s[i]) by {
        assert(s.contains(s[i]));
        assert(s.to_multiset().contains(s[i]));
    }
}

/// Whether a ranking ranks candidate id `id`.
pub open spec fn ranks_id(r: Seq<RankedView>, id: Seq<char>) -> bool {
    exists|k: int| 0 <= k < r.len() && r[k].candidate_id == id
}

proof fn lemma_usable_items(items: Seq<RankItemView>, cands: Seq<CandidateView>)
    ensures
        forall|k: int| 0 <= k < usable_items(items, cands).len() ==> #[trigger] is_candidate_id(
            cands,
            usable_items(items, cands)[k].candidate_id,
        ),
        forall|j: int, k: int|
            0 <= j < k < usable_items(items, cands).len() ==> (#[trigger] usable_items(items, cands)[j]).candidate_id
                != (#[trigger] usable_items(items, cands)[k]).candidate_id,
    decreases items.len(),
{
    if items.len() > 0 {
        let p = usable_items(items.drop_last(), cands);
        lemma_usable_items(items.drop_last(), cands);
        let x = items.last();
        if is_candidate_id(cands, x.candidate_id) && !ranked_by_model(p, x.candidate_id) {
            let q = p.push(x);
            assert forall|k: int| 0 <= k < q.len() implies #[trigger] is_candidate_id(cands, q[k].candidate_id) by {
                if k < p.len() {
                    assert(q[k] == p[k]);
                }
            }
            assert forall|j: int, k: int| 0 <= j < k < q.len() implies (#[trigger] q[j]).candidate_id
                != (#[trigger] q[k]).candidate_id by {
                assert(q[j] == p[j]);
                if k == p.len() {
                    if p[j].candidate_id == x.candidate_id {
                        assert(ranked_by_model(p, x.candidate_id));
                    }
                } else {
                    assert(q[k] == p[k]);
                }
            }
        }
    }
}

/// The AI only reorders the candidates, and every candidate is ranked: each
/// ranked id is a candidate's id, an id the model ranked occurs once, each
/// candidate's id is ranked, and the candidates the model left out all follow
/// (each as often as it is given), by pool, then id. This holds whatever the
/// model replied.
pub proof fn lemma_merged_ranking_reorders(items: Seq<RankItemView>, cands: Seq<CandidateView>)
    ensures
        forall|k: int|
            0 <= k < merged_ranking(items, cands).len() ==> #[trigger] is_candidate_id(
                cands,
                merged_ranking(items, cands)[k].candidate_id,
            ),
        forall|j: int, k: int|
            0 <= j < k < merged_ranking(items, cands).len() && (#[trigger] merged_ranking(items, cands)[j]).candidate_id
                == (#[trigger] merged_ranking(items, cands)[k]).candidate_id ==> !ranked_by_model(
                usable_items(items, cands),
                merged_ranking(items, cands)[j].candidate_id,
            ),
        forall|i: int| 0 <= i < cands.len() ==> #[trigger] ranks_id(merged_ranking(items, cands), cands[i].id),
        sorted_cands(sort_cands(unranked(cands, usable_items(items, cands)))),
        sort_cands(unranked(cands, usable_items(items, cands))).to_multiset() == unranked(
            cands,
            usable_items(items, cands),
        ).to_multiset(),
{
    let kept = usable_items(items, cands);
    let n = kept.len();
    let u = unranked(cands, kept);
    let fu = |c: CandidateView| if ranked_by_model(kept, c.id) { None } else { Some(c) };
    assert(u == crate::json::filter_map(cands, fu));
    let d = sort_cands(u);
    lemma_usable_items(items, cands);
    lemma_sorted_tail_members(u);
    lemma_sort_cands_len(u);
    lemma_sort_cands_sorted(u);
    lemma_sort_cands_permutes(u);
    let m = merged_ranking(items, cands);
    assert(m.len() == n + d.len());
    assert forall|t: int| 0 <= t < d.len() implies #[trigger] m[n + t] == ranked_in_order(d, n as int)[t] by {}
    // Every entry of the tail is a candidate the model's kept items do not rank.
    assert forall|t: int| 0 <= t < d.len() implies is_candidate_id(cands, (#[trigger] d[t]).id) && !ranked_by_model(kept, d[t].id) by {
        assert(u.contains(d[t]));
        let j = choose|j: int| 0 <= j < u.len() && u[j] == d[t];
        crate::json::lemma_filter_map_source(cands, fu, j);
        let i = choose|i: int| 0 <= i < cands.len() && fu(cands[i]) == Some(u[j]);
        assert(cands[i] == u[j]);
    }
    assert forall|k: int| 0 <= k < m.len() implies #[trigger] is_candidate_id(cands, m[k].candidate_id) by {
        if k < n {
            assert(m[k].candidate_id == kept[k].candidate_id);
            assert(is_candidate_id(cands, kept[k].candidate_id));
        } else {
            assert(m[n + (k - n)] == ranked_in_order(d, n as int)[k - n]);
            assert(is_candidate_id(cands, d[k - n].id));
        }
    }
    assert forall|j: int, k: int|
        0 <= j < k < m.len() && (#[trigger] m[j]).candidate_id == (#[trigger] m[k]).candidate_id implies !ranked_by_model(
        kept,
        m[j].candidate_id,
    ) by {
        if k < n {
            assert(m[j].candidate_id == kept[j].candidate_id);
            assert(m[k].candidate_id == kept[k].candidate_id);
        } else if j < n {
            assert(m[j].candidate_id == kept[j].candidate_id);
            assert(m[n + (k - n)] == ranked_in_order(d, n as int)[k - n]);
            assert(!ranked_by_model(kept, d[k - n].id));
        } else {
            assert(m[n + (j - n)] == ranked_in_order(d, n as int)[j - n]);
            assert(!ranked_by_model(kept, d[j - n].id));
        }
    }
    assert forall|i: int| 0 <= i < cands.len() implies #[trigger] ranks_id(m, cands[i].id) by {
        if ranked_by_model(kept, cands[i].id) {
            let k = choose|k: int| 0 <= k < kept.len() && kept[k].candidate_id == cands[i].id;
            assert(m[k].candidate_id == cands[i].id);
        } else {
            crate::json::lemma_filter_map_keeps(cands, fu, i);
            assert(u.contains(cands[i]));
            let j = choose|j: int| 0 <= j < u.len() && u[j] == cands[i];
            assert(d.contains(u[j]));
            let t = choose|t: int| 0 <= t < d.len() && d[t] == u[j];
            assert(m[n + t] == ranked_in_order(d, n as int)[t]);
            assert(m[n + t].candidate_id == cands[i].id);
        }
    }
}

/// Candidates in the order the left-out ones are ranked in: none comes
/// before an earlier one.
pub open spec fn sorted_cands(s: Seq<CandidateView>) -> bool {
    forall|j: int, k: int| 0 <= j < k < s.len() ==> !cand_before(#[trigger] s[k], #[trigger] s[j])
}

proof fn lemma_cand_before_asymmetric(a: CandidateView, b: CandidateView)
    requires
        cand_before(a, b),
    ensures
        !cand_before(b, a),
{
    if cand_before(b, a) {
        lemma_text_lt_transitive(a.id, b.id, a.id);
        lemma_text_lt_irreflexive(a.id);
    }
}

proof fn lemma_cand_before_transitive(a: CandidateView, b: CandidateView, c: CandidateView)
    requires
        cand_before(a, b),
        cand_before(b, c),
    ensures
        cand_before(a, c),
{
    if pool_rank(a.pool) == pool_rank(b.pool) && pool_rank(b.pool) == pool_rank(c.pool) {
        lemma_text_lt_transitive(a.id, b.id, c.id);
    }
}

proof fn lemma_cand_before_total(a: CandidateView, b: CandidateView)
    ensures
        cand_before(a, b) || cand_before(b, a) || (pool_rank(a.pool) == pool_rank(b.pool) && a.id == b.id),
{
    lemma_text_lt_total(a.id, b.id);
}

proof fn lemma_insert_cand_sorted(s: Seq<CandidateView>, x: CandidateView)
    requires
        sorted_cands(s),
    ensures
        sorted_cands(insert_cand(s, x)),
        forall|k: int| 0 <= k < insert_cand(s, x).len() ==> (#[trigger] insert_cand(s, x)[k] == x || s.contains(insert_cand(s, x)[k])),
    decreases s.len(),
{
    if s.len() == 0 {
        assert(insert_cand(s, x) == seq![x]);
    } else if cand_before(x, s.last()) {
        let p = s.drop_last();
        let l = s.last();
        assert(sorted_cands(p)) by {
            assert forall|j: int, k: int| 0 <= j < k < p.len() implies !cand_before(#[trigger] p[k], #[trigger] p[j]) by {
                assert(p[k] == s[k] && p[j] == s[j]);
            }
        }
        lemma_insert_cand_sorted(p, x);
        let q = insert_cand(p, x);
        let r = q.push(l);
        assert forall|k: int| 0 <= k < q.len() implies !cand_before(l, #[trigger] q[k]) by {
            if q[k] == x {
                lemma_cand_before_asymmetric(x, l);
            } else {
                assert(p.contains(q[k]));
                let j = choose|j: int| 0 <= j < p.len() && p[j] == q[k];
                assert(s[j] == p[j]);
                assert(!cand_before(s[s.len() - 1], s[j]));
            }
        }
        assert forall|j: int, k: int| 0 <= j < k < r.len() implies !cand_before(#[trigger] r[k], #[trigger] r[j]) by {
            if k == q.len() {
                assert(r[k] == l);
                assert(r[j] == q[j]);
            } else {
                assert(r[k] == q[k] && r[j] == q[j]);
            }
        }
        assert forall|k: int| 0 <= k < r.len() implies (#[trigger] r[k] == x || s.contains(r[k])) by {
            if k == q.len() {
                assert(s[s.len() - 1] == l);
            } else {
                assert(r[k] == q[k]);
                if q[k] != x {
                    let j = choose|j: int| 0 <= j < p.len() && p[j] == q[k];
                    assert(s[j] == p[j]);
                }
            }
        }
    } else {
        let r = s.push(x);
        let l = s.last();
        assert forall|j: int| 0 <= j < s.len() implies !cand_before(x, #[trigger] s[j]) by {
            if cand_before(x, s[j]) {
                lemma_cand_before_total(s[j], l);
                if cand_before(s[j], l) {
                    lemma_cand_before_transitive(x, s[j], l);
                } else if cand_before(l, s[j]) {
                    assert(j < s.len() - 1);
                    assert(!cand_before(s[s.len() - 1], s[j]));
                }
            }
        }
        assert forall|j: int, k: int| 0 <= j < k < r.len() implies !cand_before(#[trigger] r[k], #[trigger] r[j]) by {
            if k == s.len() {
                assert(r[j] == s[j]);
            } else {
                assert(r[k] == s[k] && r[j] == s[j]);
            }
        }
        assert forall|k: int| 0 <= k < r.len() implies (#[trigger] r[k] == x || s.contains(r[k])) by {
            if k < s.len() {
                assert(r[k] == s[k]);
            }
        }
    }
}

/// The candidates a model left out are ranked in a fixed order: by pool
/// (familiar, new releases, discovery), then by id.
pub proof fn lemma_sort_cands_sorted(s: Seq<CandidateView>)
    ensures
        sorted_cands(sort_cands(s)),
    decreases s.len(),
{
    if s.len() > 0 {
        lemma_sort_cands_sorted(s.drop_last());
        lemma_insert_cand_sorted(sort_cands(s.drop_last()), s.last());
    }
}

} // verus!
