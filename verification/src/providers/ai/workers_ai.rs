//! What the Workers AI provider computes: its request, the prompt, and the
//! reading of its reply. Sending the request is the application's business.
use vstd::prelude::*;

use crate::json::{field_of, get_in, str_in, text_of, JsonValue};
use crate::providers::ai::{candidates_view, order_by_pool, pool_order, CandidateView, RankingContext};
use crate::state::{pool_name, pool_name_of, strings_view, ArtistEntry};
use crate::text::{
    concat_seq, decimal, digit_char, first_index_of, find_first, find_last, join_seq, join_strings,
    last_index_of, lemma_first_index_of, lemma_last_index_of, owned, slice_string, u64_to_string, chars_of,
};

verus! {

/// The model sees at most this many candidates.
pub const MAX_AI_CANDIDATES: usize = 40;

/// One entry of a model's ranking.
#[derive(Clone, Debug)]
pub struct WorkersRankItem {
    pub candidate_id: String,
    pub rank: Option<usize>,
}

pub struct RankItemView {
    pub candidate_id: Seq<char>,
    pub rank: Option<usize>,
}

impl View for WorkersRankItem {
    type V = RankItemView;

    open spec fn view(&self) -> RankItemView {
        RankItemView { candidate_id: self.candidate_id@, rank: self.rank }
    }
}

/// The views of a model's ranking.
pub open spec fn rank_items_view(v: Seq<WorkersRankItem>) -> Seq<RankItemView> {
    v.map_values(|i: WorkersRankItem| i@)
}

/// The address of a Workers AI model.
pub fn workers_ai_url(account_id: &str, model: &str) -> (r: String)
    ensures
        r@ == "https://api.cloudflare.com/client/v4/accounts/"@ + account_id@ + "/ai/run/"@ + model@,
{
    crate::text::concat4("https://api.cloudflare.com/client/v4/accounts/", account_id, "/ai/run/", model)
}

/// The text of a reply: `result.response`, else `response`, else empty.
pub open spec fn reply_text(data: JsonValue) -> Seq<char> {
    match text_of(field_of(data.field("result"@), "response"@)) {
        Some(t) => t,
        None => match text_of(data.field("response"@)) {
            Some(t) => t,
            None => Seq::empty(),
        },
    }
}

/// Reads the text of a reply.
pub fn reply_text_from_json(data: &JsonValue) -> (r: String)
    ensures
        r@ == reply_text(*data),
{
    match str_in(get_in(data.get("result"), "response")) {
        Some(t) => t,
        None => match str_in(data.get("response")) {
            Some(t) => t,
            None => String::new(),
        },
    }
}

/// Where the JSON array of a reply starts: at the first `[`, else at 0.
pub open spec fn array_start(t: Seq<char>) -> int {
    match first_index_of(t, '[') {
        Some(i) => i,
        None => 0,
    }
}

/// Where the JSON array of a reply ends: after the last `]`, else at the end.
pub open spec fn array_end(t: Seq<char>) -> int {
    match last_index_of(t, ']') {
        Some(i) => i + 1,
        None => t.len() as int,
    }
}

/// Whether the array bounds of a text are in order (otherwise slicing the
/// text between them fails).
pub open spec fn array_bounds_ordered(t: Seq<char>) -> bool {
    array_start(t) <= array_end(t)
}

/// Whether the array bounds of a text are in order.
pub fn json_array_bounds_ok(text: &str) -> (r: bool)
    ensures
        r == array_bounds_ordered(text@),
{
    proof {
        lemma_first_index_of(text@, '[');
        lemma_last_index_of(text@, ']');
    }
    let v = chars_of(text);
    let n = v.len();
    let start = match find_first(v.as_slice(), '[') {
        Some(i) => i,
        None => 0,
    };
    let end = match find_last(v.as_slice(), ']') {
        Some(i) => i + 1,
        None => n,
    };
    start <= end
}

/// The part of a reply from its first `[` to its last `]`.
pub fn extract_json_array(text: &str) -> (r: String)
    requires
        array_bounds_ordered(text@),
    ensures
        r@ == text@.subrange(array_start(text@), array_end(text@)),
{
    proof {
        lemma_first_index_of(text@, '[');
        lemma_last_index_of(text@, ']');
    }
    let v = chars_of(text);
    let n = v.len();
    let start = match find_first(v.as_slice(), '[') {
        Some(i) => i,
        None => 0,
    };
    let end = match find_last(v.as_slice(), ']') {
        Some(i) => i + 1,
        None => n,
    };
    slice_string(v.as_slice(), start, end)
}

/// A weight in tenths written with two decimals (as `{:.2}` writes it).
pub open spec fn tenths_text(t: int) -> Seq<char> {
    let a = if t < 0 {
        -t
    } else {
        t
    };
    (if t < 0 {
        "-"@
    } else {
        Seq::empty()
    }) + decimal((a / 10) as nat) + "."@ + seq![digit_char(a % 10)] + "0"@
}

/// The line of the prompt for one artist of the taste profile.
pub open spec fn artist_line(e: ArtistEntry) -> Seq<char> {
    "- "@ + e.weight.name@ + " (weight: "@ + tenths_text(e.weight.base_weight + e.weight.session_delta)
        + ")\n"@
}

/// The line of the prompt for one candidate.
pub open spec fn candidate_line(c: CandidateView) -> Seq<char> {
    "{\"id\":\""@ + c.id + "\",\"title\":\""@ + c.track_title + "\",\"artist\":\""@ + c.artist_name
        + "\",\"pool\":\""@ + pool_name_of(c.pool) + "\"}\n"@
}

/// The candidates shown to the model: the first ones in pool order.
pub open spec fn shown_candidates(cands: Seq<CandidateView>) -> Seq<CandidateView> {
    let o = pool_order(cands);
    o.take(if o.len() < MAX_AI_CANDIDATES { o.len() as int } else { MAX_AI_CANDIDATES as int })
}

/// The prompt that asks a model to rank the candidates of a radio.
pub open spec fn prompt_of(
    theme: Seq<char>,
    artists: Seq<ArtistEntry>,
    played: Seq<Seq<char>>,
    familiar: Seq<char>,
    new_release: Seq<char>,
    discovery: Seq<char>,
    cands: Seq<CandidateView>,
) -> Seq<char> {
    "You are a music recommendation engine. Rank the following candidate tracks for a radio themed: '"@
        + theme + "\n\n"@ + "Taste profile genres/artists (from user favorites):\n"@ + concat_seq(
        artists.map_values(|e: ArtistEntry| artist_line(e)),
    ) + "\nAlready played track IDs: "@ + (if played.len() == 0 {
        "none\n"@
    } else {
        join_seq(played, ", "@) + "\n"@
    }) + "\nTarget pool ratios: familiar="@ + familiar + "%, new_release="@ + new_release
        + "%, discovery="@ + discovery + "%\n\n"@
        + "Candidates (reply with ONLY a JSON array of {{candidate_id, rank}} objects):\n"@ + concat_seq(
        shown_candidates(cands).map_values(|c: CandidateView| candidate_line(c)),
    ) + "\nRespond ONLY with a JSON array like: [{\"candidate_id\":\"...\",\"rank\":1},...]"@
}

/// Writes a weight in tenths with two decimals.
fn tenths_string(base: u64, delta: i64) -> (r: String)
    ensures
        r@ == tenths_text(base + delta),
{
    let t: i128 = base as i128 + delta as i128;
    let a: i128 = if t < 0 {
        -t
    } else {
        t
    };
    let q: u64 = (a / 10) as u64;
    let d: u64 = (a % 10) as u64;
    let mut r = if t < 0 {
        owned("-")
    } else {
        String::new()
    };
    let qs = u64_to_string(q);
    r.append(qs.as_str());
    r.append(".");
    let ds = u64_to_string(d);
    assert(ds@ == seq![digit_char(d as int)]);
    r.append(ds.as_str());
    r.append("0");
    r
}

/// The prompt for a ranking context.
pub open spec fn context_prompt(ctx: RankingContext) -> Seq<char> {
    prompt_of(
        ctx.theme@,
        ctx.taste_profile.artists@,
        strings_view(ctx.already_played@),
        ctx.pool_ratios.familiar@,
        ctx.pool_ratios.new_release@,
        ctx.pool_ratios.discovery@,
        candidates_view(ctx.candidates@),
    )
}

/// What the stricter prompt adds after a reply that could not be read.
pub const STRICT_REMINDER: &'static str = "\n\nYour previous reply could not be read as a ranking. Reply with the JSON array ONLY: no text before or after it, no code fences, every object with a \"candidate_id\" taken from the list above.";

/// The prompt sent again after an unreadable reply: the same prompt, with a
/// stricter reminder of the reply's form.
pub fn stricter_prompt(ctx: &RankingContext) -> (r: String)
    ensures
        r@ == context_prompt(*ctx) + STRICT_REMINDER@,
{
    let mut p = build_prompt(ctx);
    p.append(STRICT_REMINDER);
    p
}

/// Builds the prompt for a ranking context.
#[verifier::rlimit(40)]
pub fn build_prompt(ctx: &RankingContext) -> (r: String)
    ensures
        r@ == prompt_of(
            ctx.theme@,
            ctx.taste_profile.artists@,
            strings_view(ctx.already_played@),
            ctx.pool_ratios.familiar@,
            ctx.pool_ratios.new_release@,
            ctx.pool_ratios.discovery@,
            candidates_view(ctx.candidates@),
        ),
{
    let mut p = owned(
        "You are a music recommendation engine. Rank the following candidate tracks for a radio themed: '",
    );
    p.append(ctx.theme);
    p.append("\n\n");
    p.append("Taste profile genres/artists (from user favorites):\n");
    let artists = &ctx.taste_profile.artists;
    let ghost lines = artists@.map_values(|e: ArtistEntry| artist_line(e));
    let ghost head = p@;
    for i in 0..artists.len()
        invariant
            lines == artists@.map_values(|e: ArtistEntry| artist_line(e)),
            p@ == head + concat_seq(lines.take(i as int)),
    {
        let e = &artists[i];
        let w = tenths_string(e.weight.base_weight, e.weight.session_delta);
        p.append("- ");
        p.append(e.weight.name.as_str());
        p.append(" (weight: ");
        p.append(w.as_str());
        p.append(")\n");
        assert(lines.take(i + 1).drop_last() == lines.take(i as int));
        assert(lines.take(i + 1).last() == artist_line(artists@[i as int]));
    }
    assert(lines.take(artists.len() as int) == lines);
    p.append("\nAlready played track IDs: ");
    if ctx.already_played.len() == 0 {
        p.append("none\n");
    } else {
        let joined = join_strings(ctx.already_played, ", ");
        p.append(joined.as_str());
        p.append("\n");
    }
    p.append("\nTarget pool ratios: familiar=");
    p.append(ctx.pool_ratios.familiar.as_str());
    p.append("%, new_release=");
    p.append(ctx.pool_ratios.new_release.as_str());
    p.append("%, discovery=");
    p.append(ctx.pool_ratios.discovery.as_str());
    p.append("%\n\n");
    p.append("Candidates (reply with ONLY a JSON array of {{candidate_id, rank}} objects):\n");
    let order = order_by_pool(ctx.candidates);
    let shown = if order.len() < MAX_AI_CANDIDATES {
        order.len()
    } else {
        MAX_AI_CANDIDATES
    };
    let ghost ov = candidates_view(order@);
    let ghost clines = ov.take(shown as int).map_values(|c: CandidateView| candidate_line(c));
    let ghost head2 = p@;
    for k in 0..shown
        invariant
            shown <= order@.len(),
            ov == candidates_view(order@),
            clines == ov.take(shown as int).map_values(|c: CandidateView| candidate_line(c)),
            p@ == head2 + concat_seq(clines.take(k as int)),
    {
        let c = &order[k];
        p.append("{\"id\":\"");
        p.append(c.id.as_str());
        p.append("\",\"title\":\"");
        p.append(c.track_title.as_str());
        p.append("\",\"artist\":\"");
        p.append(c.artist_name.as_str());
        p.append("\",\"pool\":\"");
        p.append(pool_name(c.pool));
        p.append("\"}\n");
        assert(clines.take(k + 1).drop_last() == clines.take(k as int));
        assert(ov[k as int] == c@);
        assert(clines.take(k + 1).last() == candidate_line(c@));
    }
    assert(clines.take(shown as int) == clines);
    p.append("\nRespond ONLY with a JSON array like: [{\"candidate_id\":\"...\",\"rank\":1},...]");
    p
}

} // verus!
