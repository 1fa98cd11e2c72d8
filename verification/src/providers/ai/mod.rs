//! Ranking candidates: the shared records, the deterministic ranker, and the
//! providers that have no remote implementation yet.
pub mod workers_ai;

use vstd::prelude::*;

use crate::errors::AppError;
use crate::json::{filter_map, lemma_filter_map_step};
use crate::state::{opt_view, strings_view, Pool, TasteProfile};
use crate::text::{owned, str_eq};

verus! {

/// A track that may be put in a radio queue, tagged with its pool.
#[derive(Clone, Debug)]
pub struct Candidate {
    pub id: String,
    pub track_title: String,
    pub artist_name: String,
    pub album: String,
    pub duration: Option<u64>,
    pub image_url: Option<String>,
    pub pool: Pool,
    pub source_tags: Vec<String>,
}

pub struct CandidateView {
    pub id: Seq<char>,
    pub track_title: Seq<char>,
    pub artist_name: Seq<char>,
    pub album: Seq<char>,
    pub duration: Option<u64>,
    pub image_url: Option<Seq<char>>,
    pub pool: Pool,
    pub source_tags: Seq<Seq<char>>,
}

impl View for Candidate {
    type V = CandidateView;

    open spec fn view(&self) -> CandidateView {
        CandidateView {
            id: self.id@,
            track_title: self.track_title@,
            artist_name: self.artist_name@,
            album: self.album@,
            duration: self.duration,
            image_url: opt_view(self.image_url),
            pool: self.pool,
            source_tags: strings_view(self.source_tags@),
        }
    }
}

/// The views of a list of candidates.
pub open spec fn candidates_view(v: Seq<Candidate>) -> Seq<CandidateView> {
    v.map_values(|c: Candidate| c@)
}

/// A candidate's place in a ranking.
#[derive(Clone, Debug)]
pub struct RankedTrack {
    pub candidate_id: String,
    pub rank: usize,
}

pub struct RankedView {
    pub candidate_id: Seq<char>,
    pub rank: usize,
}

impl View for RankedTrack {
    type V = RankedView;

    open spec fn view(&self) -> RankedView {
        RankedView { candidate_id: self.candidate_id@, rank: self.rank }
    }
}

/// The views of a ranking.
pub open spec fn ranking_view(v: Seq<RankedTrack>) -> Seq<RankedView> {
    v.map_values(|r: RankedTrack| r@)
}

/// The target pool ratios, as the percentages that are shown to a model.
#[derive(Clone, Debug)]
pub struct PoolRatioText {
    pub familiar: String,
    pub new_release: String,
    pub discovery: String,
}

/// Everything a ranker is told.
pub struct RankingContext<'a> {
    pub theme: &'a str,
    pub taste_profile: &'a TasteProfile,
    pub candidates: &'a [Candidate],
    pub already_played: &'a [String],
    pub target_count: usize,
    pub pool_ratios: PoolRatioText,
}

/// The place of a pool in the deterministic order.
pub open spec fn pool_rank(p: Pool) -> int {
    match p {
        Pool::Familiar => 0,
        Pool::NewRelease => 1,
        Pool::Discovery => 2,
    }
}

/// The candidates of one pool, in input order.
pub open spec fn in_pool(cands: Seq<CandidateView>, p: Pool) -> Seq<CandidateView> {
    filter_map(cands, |c: CandidateView| if c.pool == p { Some(c) } else { None })
}

/// The candidates in the deterministic order: pool by pool (familiar, new
/// releases, discovery), each pool in input order.
pub open spec fn pool_order(cands: Seq<CandidateView>) -> Seq<CandidateView> {
    in_pool(cands, Pool::Familiar) + in_pool(cands, Pool::NewRelease) + in_pool(cands, Pool::Discovery)
}

/// A ranking of `order`: each id with its position as rank.
pub open spec fn ranked_in_order(order: Seq<CandidateView>, base: int) -> Seq<RankedView> {
    Seq::new(order.len(), |k: int| RankedView { candidate_id: order[k].id, rank: (base + k) as usize })
}

/// Copies a candidate.
pub fn clone_candidate(c: &Candidate) -> (r: Candidate)
    ensures
        r@ == c@,
{
    Candidate {
        id: c.id.clone(),
        track_title: c.track_title.clone(),
        artist_name: c.artist_name.clone(),
        album: c.album.clone(),
        duration: c.duration,
        image_url: crate::state::clone_opt_string(&c.image_url),
        pool: c.pool,
        source_tags: crate::state::clone_strings(&c.source_tags),
    }
}

/// The candidates of pool `p`, in input order.
pub fn candidates_in_pool(cands: &[Candidate], p: Pool) -> (r: Vec<Candidate>)
    ensures
        candidates_view(r@) == in_pool(candidates_view(cands@), p),
{
    let ghost cv = candidates_view(cands@);
    let ghost f = |c: CandidateView| if c.pool == p { Some(c) } else { None };
    let mut out: Vec<Candidate> = Vec::new();
    for i in 0..cands.len()
        invariant
            cv == candidates_view(cands@),
            f == (|c: CandidateView| if c.pool == p { Some(c) } else { None }),
            candidates_view(out@) == filter_map(cv.take(i as int), f),
    {
        proof {
            lemma_filter_map_step(cv, f, i as int);
        }
        let ghost before = candidates_view(out@);
        if cands[i].pool == p {
            let c = clone_candidate(&cands[i]);
            out.push(c);
            assert(candidates_view(out@) == before.push(c@));
        }
    }
    assert(cv.take(cands.len() as int) == cv);
    out
}

/// The candidates in the deterministic order.
pub fn order_by_pool(cands: &[Candidate]) -> (r: Vec<Candidate>)
    ensures
        candidates_view(r@) == pool_order(candidates_view(cands@)),
{
    let mut a = candidates_in_pool(cands, Pool::Familiar);
    let mut b = candidates_in_pool(cands, Pool::NewRelease);
    let mut c = candidates_in_pool(cands, Pool::Discovery);
    let ghost (av, bv, cv) = (candidates_view(a@), candidates_view(b@), candidates_view(c@));
    a.append(&mut b);
    a.append(&mut c);
    assert(candidates_view(a@) =~= av + bv + cv);
    a
}

/// Ranks a list of candidates in the given order, starting at rank `base`.
pub fn rank_in_order(order: &Vec<Candidate>, base: usize) -> (r: Vec<RankedTrack>)
    requires
        base + order@.len() <= usize::MAX,
    ensures
        ranking_view(r@) == ranked_in_order(candidates_view(order@), base as int),
{
    let ghost ov = candidates_view(order@);
    let mut out: Vec<RankedTrack> = Vec::new();
    for k in 0..order.len()
        invariant
            base + order@.len() <= usize::MAX,
            ov == candidates_view(order@),
            ranking_view(out@) == ranked_in_order(ov, base as int).take(k as int),
    {
        assert(ov[k as int].id == order@[k as int].id@);
        let ghost before = ranking_view(out@);
        let item = RankedTrack { candidate_id: order[k].id.clone(), rank: base + k };
        out.push(item);
        let ghost full = ranked_in_order(ov, base as int);
        assert(ranking_view(out@) == before.push(item@));
        assert(full[k as int] == item@);
        assert(full.take(k + 1) =~= full.take(k as int).push(full[k as int]));
    }
    assert(ranked_in_order(ov, base as int).take(order.len() as int) == ranked_in_order(ov, base as int));
    out
}

/// Something that ranks radio candidates for a theme.
pub trait MusicAI {
    /// Ranks the candidates of `ctx`, best first.
    fn rank_candidates(&self, ctx: &RankingContext) -> Result<Vec<RankedTrack>, AppError>;
}

/// The ranker used when no model is available: candidates pool by pool
/// (familiar, new releases, discovery), each pool in input order, ranked from 0.
pub struct DeterministicRanker;

impl DeterministicRanker {
    /// Ranks the candidates deterministically.
    pub fn rank(&self, candidates: &[Candidate]) -> (r: Vec<RankedTrack>)
        ensures
            ranking_view(r@) == ranked_in_order(pool_order(candidates_view(candidates@)), 0),
    {
        let order = order_by_pool(candidates);
        let _n = order.len();
        proof {
            lemma_pool_order_len(candidates_view(candidates@));
        }
        rank_in_order(&order, 0)
    }
}

impl MusicAI for DeterministicRanker {
    /// Ranks the candidates deterministically; never fails.
    fn rank_candidates(&self, ctx: &RankingContext) -> (r: Result<Vec<RankedTrack>, AppError>)
        ensures
            r matches Ok(v) && ranking_view(v@) == ranked_in_order(pool_order(candidates_view(ctx.candidates@)), 0),
    {
        Ok(self.rank(ctx.candidates))
    }
}

proof fn lemma_in_pool_len(cands: Seq<CandidateView>, p: Pool)
    ensures
        in_pool(cands, p).len() <= cands.len(),
    decreases cands.len(),
{
    if cands.len() > 0 {
        lemma_in_pool_len(cands.drop_last(), p);
    }
}

/// The deterministic order has as many entries as there are candidates.
pub proof fn lemma_pool_order_len(cands: Seq<CandidateView>)
    ensures
        pool_order(cands).len() == cands.len(),
    decreases cands.len(),
{
    if cands.len() > 0 {
        lemma_pool_order_len(cands.drop_last());
        let f = |c: CandidateView| if c.pool == Pool::Familiar { Some(c) } else { None };
        let n = |c: CandidateView| if c.pool == Pool::NewRelease { Some(c) } else { None };
        let d = |c: CandidateView| if c.pool == Pool::Discovery { Some(c) } else { None };
        assert(in_pool(cands, Pool::Familiar) == filter_map(cands, f));
        assert(in_pool(cands, Pool::NewRelease) == filter_map(cands, n));
        assert(in_pool(cands, Pool::Discovery) == filter_map(cands, d));
    }
}

proof fn lemma_in_pool_step(cands: Seq<CandidateView>, p: Pool)
    requires
        cands.len() > 0,
    ensures
        in_pool(cands, p) == in_pool(cands.drop_last(), p) + (if cands.last().pool == p {
            seq![cands.last()]
        } else {
            Seq::empty()
        }),
{
    let f = |c: CandidateView| if c.pool == p { Some(c) } else { None };
    assert(in_pool(cands, p) == filter_map(cands, f));
    assert(in_pool(cands.drop_last(), p) == filter_map(cands.drop_last(), f));
}

proof fn lemma_in_pool_members(cands: Seq<CandidateView>, p: Pool)
    ensures
        forall|i: int| 0 <= i < in_pool(cands, p).len() ==> (#[trigger] in_pool(cands, p)[i]).pool == p,
    decreases cands.len(),
{
    if cands.len() > 0 {
        lemma_in_pool_members(cands.drop_last(), p);
        lemma_in_pool_step(cands, p);
        let q = in_pool(cands.drop_last(), p);
        assert forall|i: int| 0 <= i < in_pool(cands, p).len() implies (#[trigger] in_pool(cands, p)[i]).pool == p by {
            if i < q.len() {
                assert(in_pool(cands, p)[i] == q[i]);
            }
        }
    }
}

proof fn lemma_push_if_multiset(s: Seq<CandidateView>, x: CandidateView, keep: bool)
    ensures
        (s + (if keep { seq![x] } else { Seq::empty() })).to_multiset() == (if keep {
            s.to_multiset().insert(x)
        } else {
            s.to_multiset()
        }),
{
    if keep {
        assert(s + seq![x] == s.push(x));
        vstd::seq_lib::to_multiset_build(s, x);
    } else {
        assert(s + Seq::<CandidateView>::empty() == s);
    }
}

/// The deterministic order is a rearrangement of the candidates: it holds
/// each of them exactly as often as the input does.
pub proof fn lemma_pool_order_permutes(cands: Seq<CandidateView>)
    ensures
        pool_order(cands).to_multiset() == cands.to_multiset(),
    decreases cands.len(),
{
    broadcast use vstd::multiset::group_multiset_axioms;

    if cands.len() == 0 {
        assert(in_pool(cands, Pool::Familiar) == Seq::<CandidateView>::empty());
        assert(in_pool(cands, Pool::NewRelease) == Seq::<CandidateView>::empty());
        assert(in_pool(cands, Pool::Discovery) == Seq::<CandidateView>::empty());
        assert(pool_order(cands) == Seq::<CandidateView>::empty());
        assert(cands == Seq::<CandidateView>::empty());
    } else {
        let p = cands.drop_last();
        let x = cands.last();
        lemma_pool_order_permutes(p);
        lemma_in_pool_step(cands, Pool::Familiar);
        lemma_in_pool_step(cands, Pool::NewRelease);
        lemma_in_pool_step(cands, Pool::Discovery);
        let f = in_pool(p, Pool::Familiar);
        let n = in_pool(p, Pool::NewRelease);
        let d = in_pool(p, Pool::Discovery);
        let f2 = in_pool(cands, Pool::Familiar);
        let n2 = in_pool(cands, Pool::NewRelease);
        let d2 = in_pool(cands, Pool::Discovery);
        lemma_push_if_multiset(f, x, x.pool == Pool::Familiar);
        lemma_push_if_multiset(n, x, x.pool == Pool::NewRelease);
        lemma_push_if_multiset(d, x, x.pool == Pool::Discovery);
        vstd::seq_lib::lemma_multiset_commutative(f + n, d);
        vstd::seq_lib::lemma_multiset_commutative(f, n);
        vstd::seq_lib::lemma_multiset_commutative(f2 + n2, d2);
        vstd::seq_lib::lemma_multiset_commutative(f2, n2);
        assert(cands == p.push(x));
        vstd::seq_lib::to_multiset_build(p, x);
        let mf = f.to_multiset();
        let mn = n.to_multiset();
        let md = d.to_multiset();
        assert(pool_order(p) == f + n + d);
        assert(pool_order(cands) == f2 + n2 + d2);
        assert(p.to_multiset() == mf.add(mn).add(md));
        assert(pool_order(cands).to_multiset() == f2.to_multiset().add(n2.to_multiset()).add(d2.to_multiset()));
        match x.pool {
            Pool::Familiar => {
                assert(mf.insert(x).add(mn).add(md) =~= mf.add(mn).add(md).insert(x));
            },
            Pool::NewRelease => {
                assert(mf.add(mn.insert(x)).add(md) =~= mf.add(mn).add(md).insert(x));
            },
            Pool::Discovery => {
                assert(mf.add(mn).add(md.insert(x)) =~= mf.add(mn).add(md).insert(x));
            },
        }
        assert(pool_order(cands).to_multiset() =~= cands.to_multiset());
    }
}

/// In the deterministic order, familiar candidates come first, then new
/// releases, then discoveries.
pub proof fn lemma_pool_order_sorted(cands: Seq<CandidateView>)
    ensures
        forall|j: int, k: int|
            0 <= j < k < pool_order(cands).len() ==> pool_rank(#[trigger] pool_order(cands)[j].pool) <= pool_rank(
                #[trigger] pool_order(cands)[k].pool,
            ),
{
    lemma_in_pool_members(cands, Pool::Familiar);
    lemma_in_pool_members(cands, Pool::NewRelease);
    lemma_in_pool_members(cands, Pool::Discovery);
    let f = in_pool(cands, Pool::Familiar);
    let n = in_pool(cands, Pool::NewRelease);
    let d = in_pool(cands, Pool::Discovery);
    let o = pool_order(cands);
    assert forall|i: int| 0 <= i < o.len() implies pool_rank(#[trigger] o[i].pool) == (if i < f.len() {
        0int
    } else if i < f.len() + n.len() {
        1int
    } else {
        2int
    }) by {
        if i < f.len() {
            assert(o[i] == f[i]);
        } else if i < f.len() + n.len() {
            assert(o[i] == n[i - f.len()]);
        } else {
            assert(o[i] == d[i - f.len() - n.len()]);
        }
    }
}

/// The deterministic ranker ranks every candidate exactly once: the ranking
/// follows the deterministic order (a rearrangement of the candidates, pool by
/// pool), with ranks 0, 1, 2, ... in that order.
pub proof fn lemma_deterministic_ranking(cands: Seq<CandidateView>)
    requires
        cands.len() <= usize::MAX,
    ensures
        ranked_in_order(pool_order(cands), 0).len() == cands.len(),
        pool_order(cands).to_multiset() == cands.to_multiset(),
        forall|k: int|
            0 <= k < cands.len() ==> (#[trigger] ranked_in_order(pool_order(cands), 0)[k]).candidate_id
                == pool_order(cands)[k].id && ranked_in_order(pool_order(cands), 0)[k].rank == k,
        forall|j: int, k: int|
            0 <= j < k < pool_order(cands).len() ==> pool_rank(#[trigger] pool_order(cands)[j].pool) <= pool_rank(
                #[trigger] pool_order(cands)[k].pool,
            ),
{
    lemma_pool_order_len(cands);
    lemma_pool_order_permutes(cands);
    lemma_pool_order_sorted(cands);
}

/// A provider for Anthropic's Messages API, not implemented yet.
pub struct AnthropicProvider {
    pub api_key: String,
    pub model: String,
}

impl AnthropicProvider {
    /// A provider with the given key and model.
    pub fn new(api_key: String, model: String) -> (r: AnthropicProvider)
        ensures
            r.api_key@ == api_key@,
            r.model@ == model@,
    {
        AnthropicProvider { api_key, model }
    }
}

impl MusicAI for AnthropicProvider {
    /// Always fails: the remote call is not implemented.
    fn rank_candidates(&self, _ctx: &RankingContext) -> (r: Result<Vec<RankedTrack>, AppError>)
        ensures
            r matches Err(e) && (e matches AppError::Ai(m) && m@ == "Anthropic not yet implemented"@),
    {
        Err(AppError::Ai(owned("Anthropic not yet implemented")))
    }
}

/// A provider for OpenAI-compatible gateways, not implemented yet.
pub struct OpenAICompatProvider {
    pub api_key: String,
    pub base_url: String,
    pub model: String,
}

impl OpenAICompatProvider {
    /// A provider with the given key, gateway and model.
    pub fn new(api_key: String, base_url: String, model: String) -> (r: OpenAICompatProvider)
        ensures
            r.api_key@ == api_key@,
            r.base_url@ == base_url@,
            r.model@ == model@,
    {
        OpenAICompatProvider { api_key, base_url, model }
    }
}

impl MusicAI for OpenAICompatProvider {
    /// Always fails: the remote call is not implemented.
    fn rank_candidates(&self, _ctx: &RankingContext) -> (r: Result<Vec<RankedTrack>, AppError>)
        ensures
            r matches Err(e) && (e matches AppError::Ai(m) && m@ == "OpenAICompat not yet implemented"@),
    {
        Err(AppError::Ai(owned("OpenAICompat not yet implemented")))
    }
}

/// Which ranker the service uses.
#[derive(Clone, Copy, Debug, PartialEq, Eq, Structural)]
pub enum ProviderChoice {
    Deterministic,
    WorkersAi,
    Anthropic,
    OpenAICompat,
}

/// The ranker for a configured provider name: the named provider when its
/// credentials are set, the deterministic ranker otherwise (and for an
/// unknown name).
pub open spec fn provider_choice_of(
    provider: Seq<char>,
    cf_account_id: Seq<char>,
    cf_api_token: Seq<char>,
    anthropic_key: Seq<char>,
    openai_key: Seq<char>,
) -> ProviderChoice {
    if provider == "workers_ai"@ {
        if cf_account_id.len() == 0 || cf_api_token.len() == 0 {
            ProviderChoice::Deterministic
        } else {
            ProviderChoice::WorkersAi
        }
    } else if provider == "anthropic"@ {
        if anthropic_key.len() == 0 {
            ProviderChoice::Deterministic
        } else {
            ProviderChoice::Anthropic
        }
    } else if provider == "openai_compat"@ {
        if openai_key.len() == 0 {
            ProviderChoice::Deterministic
        } else {
            ProviderChoice::OpenAICompat
        }
    } else {
        ProviderChoice::Deterministic
    }
}

/// Chooses the ranker from the configured provider name and the credentials
/// found (an unset credential is empty).
pub fn select_provider(
    provider: &str,
    cf_account_id: &str,
    cf_api_token: &str,
    anthropic_key: &str,
    openai_key: &str,
) -> (r: ProviderChoice)
    ensures
        r == provider_choice_of(provider@, cf_account_id@, cf_api_token@, anthropic_key@, openai_key@),
{
    if str_eq(provider, "workers_ai") {
        if cf_account_id.is_empty() || cf_api_token.is_empty() {
            ProviderChoice::Deterministic
        } else {
            ProviderChoice::WorkersAi
        }
    } else if str_eq(provider, "anthropic") {
        if anthropic_key.is_empty() {
            ProviderChoice::Deterministic
        } else {
            ProviderChoice::Anthropic
        }
    } else if str_eq(provider, "openai_compat") {
        if openai_key.is_empty() {
            ProviderChoice::Deterministic
        } else {
            ProviderChoice::OpenAICompat
        }
    } else {
        ProviderChoice::Deterministic
    }
}

} // verus!
