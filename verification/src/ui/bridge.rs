//! The highlighter whose recommendations run from a start to an end position.
use crate::interop::bridge::{TextReplacement, Underline};
use crate::text::{join_semicolon, join_with_semicolon};
use vstd::prelude::*;
use vstd::string::*;

verus! {

/// A proposed replacement for the text between `start` and `end`, with the colour that marks
/// it.
#[derive(Default, Debug)]
pub struct Recomendation {
    pub start: i32,
    pub end: i32,
    pub value: String,
    pub color: String,
}

/// What a recommendation holds, as plain values.
pub struct RecomendationView {
    pub start: i32,
    pub end: i32,
    pub value: Seq<char>,
    pub color: Seq<char>,
}

impl View for Recomendation {
    type V = RecomendationView;

    open spec fn view(&self) -> RecomendationView {
        RecomendationView {
            start: self.start,
            end: self.end,
            value: self.value@,
            color: self.color@,
        }
    }
}

/// The views of a list of recommendations.
pub open spec fn recomendation_views(recs: Seq<Recomendation>) -> Seq<RecomendationView> {
    recs.map_values(|r: Recomendation| r@)
}

/// Every recommendation's length, `end - start`, is a value that an `i32` holds.
pub open spec fn lengths_fit(recs: Seq<RecomendationView>) -> bool {
    forall|i: int|
        #![trigger recs[i]]
        0 <= i < recs.len() ==> i32::MIN <= recs[i].end - recs[i].start <= i32::MAX
}

/// The values of the recommendations that lie within `start..end`, in order.
pub open spec fn values_within(recs: Seq<RecomendationView>, start: i32, end: i32) -> Seq<
    Seq<char>,
>
    decreases recs.len(),
{
    if recs.len() == 0 {
        Seq::empty()
    } else if recs.last().start >= start && recs.last().end <= end {
        values_within(recs.drop_last(), start, end).push(recs.last().value)
    } else {
        values_within(recs.drop_last(), start, end)
    }
}

/// The values offered for `start..end` are those of every recommendation that starts at or
/// after `start` and ends at or before `end`, one each, in the order of the recommendations,
/// with no limit on their number.
pub proof fn law_values_within_are_all_within(recs: Seq<RecomendationView>, start: i32, end: i32)
    ensures
        values_within(recs, start, end) == recs.filter(
            |r: RecomendationView| r.start >= start && r.end <= end,
        ).map_values(|r: RecomendationView| r.value),
        values_within(recs, start, end).len() == recs.filter(
            |r: RecomendationView| r.start >= start && r.end <= end,
        ).len(),
    decreases recs.len(),
{
    reveal(Seq::filter);
    if recs.len() > 0 {
        law_values_within_are_all_within(recs.drop_last(), start, end);
    }
    assert(values_within(recs, start, end) =~= recs.filter(
        |r: RecomendationView| r.start >= start && r.end <= end,
    ).map_values(|r: RecomendationView| r.value));
}

/// The highlighter's state: the recommendations of the last block it highlighted.
#[derive(Default)]
pub struct RustQSyntaxHighlighter {
    pub recommendation: Vec<Recomendation>,
}

/// The highlighter.
pub struct CustomHighlighter {
    pub rust: RustQSyntaxHighlighter,
}

impl CustomHighlighter {
    /// The views of the recommendations the highlighter holds.
    pub open spec fn recs(&self) -> Seq<RecomendationView> {
        recomendation_views(self.rust.recommendation@)
    }

    /// A highlighter that holds no recommendation.
    pub fn new() -> (h: Self)
        ensures
            h.recs() == Seq::<RecomendationView>::empty(),
    {
        let h = CustomHighlighter {
            rust: RustQSyntaxHighlighter { recommendation: Vec::new() },
        };
        assert(h.recs() =~= Seq::<RecomendationView>::empty());
        h
    }

    /// Takes the recommendations found for a block and gives its underlines: one per
    /// recommendation, from its start, `end - start` long, in its colour.
    pub fn highlight_block(&mut self, recommendations: Vec<Recomendation>) -> (r: Vec<Underline>)
        requires
            lengths_fit(recomendation_views(recommendations@)),
        ensures
            final(self).recs() == recomendation_views(recommendations@),
            r@.len() == recommendations@.len(),
            forall|i: int|
                0 <= i < r@.len() ==> {
                    &&& (#[trigger] r@[i]).start == recommendations@[i].start
                    &&& r@[i].length == recommendations@[i].end - recommendations@[i].start
                    &&& r@[i].color@ == recommendations@[i].color@
                },
    {
        let mut r: Vec<Underline> = Vec::new();
        let mut i: usize = 0;
        while i < recommendations.len()
            invariant
                lengths_fit(recomendation_views(recommendations@)),
                i <= recommendations.len(),
                r@.len() == i,
                forall|k: int|
                    0 <= k < i ==> {
                        &&& (#[trigger] r@[k]).start == recommendations@[k].start
                        &&& r@[k].length == recommendations@[k].end - recommendations@[k].start
                        &&& r@[k].color@ == recommendations@[k].color@
                    },
            decreases recommendations.len() - i,
        {
            let rec = &recommendations[i];
            assert(recomendation_views(recommendations@)[i as int] == rec@);
            r.push(
                Underline { start: rec.start, length: rec.end - rec.start, color: rec.color.clone() },
            );
            i = i + 1;
        }
        self.rust.recommendation = recommendations;
        r
    }

    /// The edit that replaces the text between `start` and `end` with `replacement`; the
    /// recommendations stay as they are.
    pub fn replace_word(&self, start: i32, end: i32, replacement: &str) -> (r: TextReplacement)
        ensures
            r.start == start,
            r.end == end,
            r.replacement@ == replacement@,
    {
        TextReplacement {
            start: start as i64,
            end: end as i64,
            replacement: String::from_str(replacement),
        }
    }

    /// The values of the recommendations that lie within `start..end`, separated by `;`.
    pub fn get_suggestions(&self, start: i32, end: i32) -> (r: String)
        ensures
            r@ == join_semicolon(values_within(self.recs(), start, end)),
    {
        let recs = &self.rust.recommendation;
        let ghost views = self.recs();
        let mut values: Vec<String> = Vec::new();
        let mut i: usize = 0;
        assert(views.take(0) =~= Seq::<RecomendationView>::empty());
        while i < recs.len()
            invariant
                recs == self.rust.recommendation,
                views == recomendation_views(recs@),
                i <= recs.len(),
                values@.map_values(|s: String| s@) == values_within(views.take(i as int), start, end),
            decreases recs.len() - i,
        {
            let rec = &recs[i];
            assert(views.take(i + 1).drop_last() =~= views.take(i as int));
            assert(views.take(i + 1).last() == rec@);
            if rec.start >= start && rec.end <= end {
                let ghost old_values = values@;
                values.push(rec.value.clone());
                assert(values@.map_values(|s: String| s@) =~= old_values.map_values(
                    |s: String| s@,
                ).push(rec@.value));
            }
            i = i + 1;
        }
        assert(views.take(recs.len() as int) =~= views);
        join_with_semicolon(&values)
    }
}

} // verus!
