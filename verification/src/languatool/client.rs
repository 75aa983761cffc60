//! The LanguageTool check: where it is asked, what it is sent, and how its reply becomes
//! recommendations.
use crate::interop::bridge::{Range, Recommendation, RecommendationView, recommendation_views};
use crate::languatool::models::{LanguageToolDto, MatchDto, ReplacementDto};
use vstd::prelude::*;
use vstd::string::*;

verus! {

/// The client of a LanguageTool server.
#[derive(Default)]
pub struct LanguageToolClient;

/// A match of the reply, as plain values.
pub struct MatchView {
    pub offset: i32,
    pub length: i32,
    pub replacements: Seq<Seq<char>>,
}

impl View for MatchDto {
    type V = MatchView;

    open spec fn view(&self) -> MatchView {
        MatchView {
            offset: self.offset,
            length: self.length,
            replacements: self.replacements@.map_values(|r: ReplacementDto| r.value@),
        }
    }
}

/// The colour that marks a span with a recommendation.
pub open spec fn recommendation_color() -> Seq<char> {
    "#FF0000"@
}

/// The recommendations of one match: one per replacement, in the order of the replacements.
pub open spec fn match_recommendations(m: MatchView) -> Seq<RecommendationView> {
    m.replacements.map_values(
        |v: Seq<char>|
            RecommendationView {
                range: Range { start: m.offset, length: m.length },
                value: v,
                color: recommendation_color(),
            },
    )
}

/// The recommendations of a list of matches, match after match.
pub open spec fn matches_recommendations(ms: Seq<MatchView>) -> Seq<RecommendationView>
    decreases ms.len(),
{
    if ms.len() == 0 {
        Seq::empty()
    } else {
        matches_recommendations(ms.drop_last()) + match_recommendations(ms.last())
    }
}

/// The views of a list of matches.
pub open spec fn match_views(ms: Seq<MatchDto>) -> Seq<MatchView> {
    ms.map_values(|m: MatchDto| m@)
}

/// What the editor shows for a check: nothing unless the server answered 200 with a
/// readable body, else the recommendations of the body's matches.
pub open spec fn reply_recommendations(status: Option<u16>, body: Option<LanguageToolDto>) -> Seq<
    RecommendationView,
> {
    if status == Some(200u16) && body is Some {
        matches_recommendations(match_views(body->0.matches@))
    } else {
        Seq::empty()
    }
}

/// Every recommendation made from a list of matches is red, lies over the span of one of the
/// matches, and proposes one of that match's replacements.
pub proof fn law_recommendations_come_from_matches(ms: Seq<MatchView>)
    ensures
        forall|k: int|
            0 <= k < matches_recommendations(ms).len() ==> {
                let r = #[trigger] matches_recommendations(ms)[k];
                &&& r.color == recommendation_color()
                &&& exists|i: int, j: int|
                    0 <= i < ms.len() && 0 <= j < ms[i].replacements.len() && r.range
                        == Range { start: ms[i].offset, length: ms[i].length } && r.value
                        == ms[i].replacements[j]
            },
    decreases ms.len(),
{
    if ms.len() > 0 {
        let init = ms.drop_last();
        law_recommendations_come_from_matches(init);
        let prev = matches_recommendations(init);
        let last = match_recommendations(ms.last());
        let all = matches_recommendations(ms);
        assert(all =~= prev + last);
        assert forall|k: int| 0 <= k < all.len() implies {
            let r = #[trigger] all[k];
            &&& r.color == recommendation_color()
            &&& exists|i: int, j: int|
                0 <= i < ms.len() && 0 <= j < ms[i].replacements.len() && r.range == Range {
                    start: ms[i].offset,
                    length: ms[i].length,
                } && r.value == ms[i].replacements[j]
        } by {
            if k < prev.len() {
                assert(all[k] == prev[k]);
                let (i, j) = choose|i: int, j: int|
                    0 <= i < init.len() && 0 <= j < init[i].replacements.len() && prev[k].range
                        == Range { start: init[i].offset, length: init[i].length } && prev[k].value
                        == init[i].replacements[j];
                assert(ms[i] == init[i]);
            } else {
                let j = k - prev.len();
                assert(all[k] == last[j]);
                assert(ms[ms.len() - 1] == ms.last());
                assert(last[j].value == ms[ms.len() - 1].replacements[j]);
            }
        }
    }
}

/// How many replacements a list of matches proposes in all.
pub open spec fn total_replacements(ms: Seq<MatchView>) -> nat
    decreases ms.len(),
{
    if ms.len() == 0 {
        0
    } else {
        total_replacements(ms.drop_last()) + ms.last().replacements.len()
    }
}

/// The replacements counted up to match `i` grow by that match's own, and never shrink.
proof fn lemma_total_prefix(ms: Seq<MatchView>, i: int, n: int)
    requires
        0 <= i < n <= ms.len(),
    ensures
        total_replacements(ms.take(i)) + ms[i].replacements.len() <= total_replacements(
            ms.take(n),
        ),
        total_replacements(ms.take(i + 1)) == total_replacements(ms.take(i))
            + ms[i].replacements.len(),
    decreases n - i,
{
    assert(ms.take(i + 1).drop_last() =~= ms.take(i));
    if n > i + 1 {
        lemma_total_prefix(ms, i, n - 1);
        assert(ms.take(n).drop_last() =~= ms.take(n - 1));
    }
}

/// A reply's matches give one recommendation per replacement and nothing else: as many
/// recommendations as there are replacements in all, and the `j`-th replacement of the `i`-th
/// match gives, at its place after those of the matches before, a red recommendation over that
/// match's span proposing that replacement.
pub proof fn law_one_recommendation_per_replacement(ms: Seq<MatchView>)
    ensures
        matches_recommendations(ms).len() == total_replacements(ms),
        forall|i: int, j: int|
            #![trigger ms[i].replacements[j]]
            0 <= i < ms.len() && 0 <= j < ms[i].replacements.len() ==> matches_recommendations(
                ms,
            )[total_replacements(ms.take(i)) + j] == (RecommendationView {
                range: Range { start: ms[i].offset, length: ms[i].length },
                value: ms[i].replacements[j],
                color: "#FF0000"@,
            }),
    decreases ms.len(),
{
    if ms.len() > 0 {
        let n = ms.len() as int;
        let init = ms.drop_last();
        law_one_recommendation_per_replacement(init);
        let prev = matches_recommendations(init);
        let last = match_recommendations(ms.last());
        let all = matches_recommendations(ms);
        assert(all =~= prev + last);
        assert(ms.take(n - 1) =~= init);
        assert forall|i: int, j: int|
            #![trigger ms[i].replacements[j]]
            0 <= i < ms.len() && 0 <= j < ms[i].replacements.len() implies all[total_replacements(
                ms.take(i),
            ) + j] == (RecommendationView {
                range: Range { start: ms[i].offset, length: ms[i].length },
                value: ms[i].replacements[j],
                color: "#FF0000"@,
            }) by {
            if i < n - 1 {
                assert(ms[i] == init[i]);
                assert(ms.take(i) =~= init.take(i));
                lemma_total_prefix(init, i, n - 1);
                assert(init.take(n - 1) =~= init);
                assert(init[i].replacements[j] == ms[i].replacements[j]);
                assert(all[total_replacements(ms.take(i)) + j] == prev[total_replacements(
                    init.take(i),
                ) + j]);
            } else {
                assert(ms[i] == ms.last());
                assert(all[total_replacements(ms.take(i)) + j] == last[j]);
            }
        }
    }
}

impl LanguageToolClient {
    /// The address of the `/v2/check` endpoint of a server on this machine.
    pub fn check_url(port: &str) -> (r: String)
        ensures
            r@ == "http://localhost:"@ + port@ + "/v2/check"@,
    {
        let mut r = String::from_str("http://localhost:");
        r.append(port);
        r.append("/v2/check");
        r
    }

    /// The form sent with a check: the text, automatic language detection, all rules.
    pub fn form_fields(input: &str) -> (r: Vec<(String, String)>)
        ensures
            r@.len() == 3,
            r@[0].0@ == "text"@ && r@[0].1@ == input@,
            r@[1].0@ == "language"@ && r@[1].1@ == "auto"@,
            r@[2].0@ == "enabledOnly"@ && r@[2].1@ == "false"@,
    {
        let mut r = Vec::new();
        r.push((String::from_str("text"), String::from_str(input)));
        r.push((String::from_str("language"), String::from_str("auto")));
        r.push((String::from_str("enabledOnly"), String::from_str("false")));
        r
    }

    /// Whether the reply of the server is read: only a `200` is.
    pub fn is_success(status: u16) -> (b: bool)
        ensures
            b == (status == 200),
    {
        status == 200
    }

    /// One recommendation for each replacement of each match, match after match, each
    /// marked red over the span of its match.
    pub fn recommendations_from_matches(matches: &Vec<MatchDto>) -> (r: Vec<Recommendation>)
        ensures
            recommendation_views(r@) == matches_recommendations(match_views(matches@)),
    {
        let ghost ms = match_views(matches@);
        let mut r: Vec<Recommendation> = Vec::new();
        let mut i: usize = 0;
        assert(ms.take(0) =~= Seq::<MatchView>::empty());
        while i < matches.len()
            invariant
                i <= matches.len(),
                ms == match_views(matches@),
                recommendation_views(r@) == matches_recommendations(ms.take(i as int)),
            decreases matches.len() - i,
        {
            let m = &matches[i];
            let ghost before = recommendation_views(r@);
            let ghost mr = match_recommendations(m@);
            let mut j: usize = 0;
            while j < m.replacements.len()
                invariant
                    i < matches.len(),
                    m == matches@[i as int],
                    j <= m.replacements.len(),
                    mr == match_recommendations(m@),
                    recommendation_views(r@) == before + mr.take(j as int),
                decreases m.replacements.len() - j,
            {
                let rec = Recommendation {
                    color: String::from_str("#FF0000"),
                    range: Range { start: m.offset, length: m.length },
                    value: m.replacements[j].value.clone(),
                };
                assert(rec@.value == m@.replacements[j as int]);
                assert(rec@.color == recommendation_color());
                assert(rec@ == mr[j as int]);
                let ghost old_r = r@;
                let ghost rv = rec@;
                r.push(rec);
                assert(r@ == old_r.push(rec));
                assert(recommendation_views(r@) =~= recommendation_views(old_r).push(rv));
                assert(mr.take(j + 1) =~= mr.take(j as int).push(mr[j as int]));
                assert(recommendation_views(r@) =~= before + mr.take(j + 1));
                j = j + 1;
            }
            assert(mr.take(j as int) =~= mr);
            assert(ms.take(i + 1).drop_last() =~= ms.take(i as int));
            assert(ms[i as int] == m@);
            i = i + 1;
        }
        assert(ms.take(matches.len() as int) =~= ms);
        r
    }

    /// The recommendations of a check's reply: `status` is `None` where the request failed,
    /// `body` is `None` where the body was not read or could not be parsed.
    pub fn recommendations_from_response(status: Option<u16>, body: Option<LanguageToolDto>) -> (r:
        Vec<Recommendation>)
        ensures
            recommendation_views(r@) == reply_recommendations(status, body),
    {
        match (status, body) {
            (Some(code), Some(dto)) => {
                if code == 200 {
                    Self::recommendations_from_matches(&dto.matches)
                } else {
                    Vec::new()
                }
            },
            _ => Vec::new(),
        }
    }
}

} // verus!
