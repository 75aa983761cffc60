//! Recommendations shown in the editor, and the highlighter and text helper that use them.
use crate::languatool::service::{Message, Suggestion};
use crate::text::{int_text, push_int};
use vstd::prelude::*;
use vstd::string::*;

verus! {

/// A span of the edited text: where it starts and how long it is.
#[derive(Default, Debug, Clone, Copy, PartialEq, Eq, Structural)]
pub struct Range {
    pub start: i32,
    pub length: i32,
}

/// A proposed replacement for a span of the text, with the colour that marks the span.
#[derive(Default, Debug, Clone, PartialEq)]
pub struct Recommendation {
    pub range: Range,
    pub value: String,
    pub color: String,
}

/// What a recommendation holds, as plain values.
pub struct RecommendationView {
    pub range: Range,
    pub value: Seq<char>,
    pub color: Seq<char>,
}

impl View for Recommendation {
    type V = RecommendationView;

    open spec fn view(&self) -> RecommendationView {
        RecommendationView { range: self.range, value: self.value@, color: self.color@ }
    }
}

/// The views of a list of recommendations.
pub open spec fn recommendation_views(recs: Seq<Recommendation>) -> Seq<RecommendationView> {
    recs.map_values(|r: Recommendation| r@)
}


/// Whether a recommendation is offered for a selection that starts at `start` and is
/// `length` long: it starts no earlier and is no longer.
pub open spec fn offered_for(r: RecommendationView, start: i32, length: i32) -> bool {
    r.range.start >= start && r.range.length <= length
}

/// The values of the recommendations offered for a selection, in order.
pub open spec fn offered_values(recs: Seq<RecommendationView>, start: i32, length: i32) -> Seq<
    Seq<char>,
>
    decreases recs.len(),
{
    if recs.len() == 0 {
        Seq::empty()
    } else if offered_for(recs.last(), start, length) {
        offered_values(recs.drop_last(), start, length).push(recs.last().value)
    } else {
        offered_values(recs.drop_last(), start, length)
    }
}

/// How many suggestions the editor shows at most.
pub open spec fn max_suggestions() -> nat {
    5
}

/// The first `max_suggestions()` of a list, or all of it where it is shorter.
pub open spec fn first_suggestions(s: Seq<Seq<char>>) -> Seq<Seq<char>> {
    if s.len() <= max_suggestions() {
        s
    } else {
        s.take(max_suggestions() as int)
    }
}

/// Whether the span of a recommendation covers position `pos`.
pub open spec fn covers(r: RecommendationView, pos: i32) -> bool {
    r.range.start <= pos < r.range.start + r.range.length
}

/// `i` is the first recommendation whose span covers `pos`.
pub open spec fn is_first_cover(recs: Seq<RecommendationView>, pos: i32, i: int) -> bool {
    &&& 0 <= i < recs.len()
    &&& covers(recs[i], pos)
    &&& forall|j: int| 0 <= j < i ==> !covers(#[trigger] recs[j], pos)
}

/// Every span that is looked at before the first one that covers `pos` ends at a position
/// that an `i32` holds.
pub open spec fn ends_fit_until_cover(recs: Seq<RecommendationView>, pos: i32) -> bool {
    forall|i: int|
        #![trigger recs[i]]
        0 <= i < recs.len() && (forall|j: int| 0 <= j < i ==> !covers(#[trigger] recs[j], pos))
            ==> i32::MIN <= recs[i].range.start + recs[i].range.length <= i32::MAX
}

/// The text `start;end` that locates the span of a recommendation.
pub open spec fn span_text(r: RecommendationView) -> Seq<char> {
    int_text(r.range.start as int) + seq![';'] + int_text(r.range.start + r.range.length)
}

/// An underline to draw: where, how long, in which colour.
#[derive(Debug, Clone, PartialEq)]
pub struct Underline {
    pub start: i32,
    pub length: i32,
    pub color: String,
}

/// An edit of the document: the text between `start` and `end` becomes `replacement`.
#[derive(Debug, Clone, PartialEq)]
pub struct TextReplacement {
    pub start: i64,
    pub end: i64,
    pub replacement: String,
}

/// The state of the highlighter: the recommendations of the last check.
#[derive(Default)]
pub struct RustQSyntaxHighlighter {
    pub recommendations: Vec<Recommendation>,
}

/// The syntax highlighter of the editor.
pub struct CustomHighlighter {
    pub rust: RustQSyntaxHighlighter,
}

impl CustomHighlighter {
    /// The views of the recommendations the highlighter holds.
    pub open spec fn recs(&self) -> Seq<RecommendationView> {
        recommendation_views(self.rust.recommendations@)
    }

    /// A highlighter that holds no recommendation.
    pub fn new() -> (h: Self)
        ensures
            h.recs() == Seq::<RecommendationView>::empty(),
    {
        let h = CustomHighlighter { rust: RustQSyntaxHighlighter { recommendations: Vec::new() } };
        assert(h.recs() =~= Seq::<RecommendationView>::empty());
        h
    }

    /// The underlines of a block: one for each recommendation, over its span, in its colour.
    pub fn highlight_block(&self, _text: &str) -> (r: Vec<Underline>)
        ensures
            r@.len() == self.recs().len(),
            forall|i: int|
                0 <= i < r@.len() ==> {
                    &&& (#[trigger] r@[i]).start == self.recs()[i].range.start
                    &&& r@[i].length == self.recs()[i].range.length
                    &&& r@[i].color@ == self.recs()[i].color
                },
    {
        let recs = &self.rust.recommendations;
        let mut r: Vec<Underline> = Vec::new();
        let mut i: usize = 0;
        while i < recs.len()
            invariant
                recs == self.rust.recommendations,
                i <= recs.len(),
                r@.len() == i,
                forall|k: int|
                    0 <= k < i ==> {
                        &&& (#[trigger] r@[k]).start == recs@[k].range.start
                        &&& r@[k].length == recs@[k].range.length
                        &&& r@[k].color@ == recs@[k].color@
                    },
            decreases recs.len() - i,
        {
            let rec = &recs[i];
            r.push(
                Underline {
                    start: rec.range.start,
                    length: rec.range.length,
                    color: rec.color.clone(),
                },
            );
            i = i + 1;
        }
        r
    }

    /// The values of the first five recommendations offered for the selection that starts at
    /// `start` and is `length` long.
    pub fn get_suggestions(&self, start: i32, length: i32) -> (r: Vec<String>)
        ensures
            r@.map_values(|s: String| s@) == first_suggestions(
                offered_values(self.recs(), start, length),
            ),
    {
        let recs = &self.rust.recommendations;
        let ghost views = self.recs();
        let mut r: Vec<String> = Vec::new();
        let mut i: usize = 0;
        assert(views.take(0) =~= Seq::<RecommendationView>::empty());
        while i < recs.len() && r.len() < 5
            invariant
                recs == self.rust.recommendations,
                views == recommendation_views(recs@),
                i <= recs.len(),
                r@.len() <= 5,
                r@.map_values(|s: String| s@) == offered_values(views.take(i as int), start, length),
            decreases recs.len() - i,
        {
            let rec = &recs[i];
            assert(views.take(i + 1).drop_last() =~= views.take(i as int));
            assert(views.take(i + 1).last() == rec@);
            if rec.range.start >= start && rec.range.length <= length {
                let ghost old_r = r@;
                let v = rec.value.clone();
                r.push(v);
                assert(r@.map_values(|s: String| s@) =~= old_r.map_values(|s: String| s@).push(
                    rec@.value,
                ));
            }
            i = i + 1;
        }
        proof {
            if i == recs.len() {
                assert(views.take(i as int) =~= views);
            } else {
                lemma_offered_prefix(views, start, length, i as int, views.len() as int);
                assert(views.take(views.len() as int) =~= views);
            }
        }
        r
    }

    /// The text `start;end` of the first recommendation whose span covers `pos`, or the empty
    /// text where none does.
    pub fn find_recommendation(&self, pos: i32) -> (r: String)
        requires
            ends_fit_until_cover(self.recs(), pos),
        ensures
            (forall|i: int| 0 <= i < self.recs().len() ==> !covers(#[trigger] self.recs()[i], pos))
                ==> r@ == Seq::<char>::empty(),
            r@.len() > 0 <==> exists|i: int| 0 <= i < self.recs().len() && covers(self.recs()[i], pos),
            forall|i: int| is_first_cover(self.recs(), pos, i) ==> r@ == span_text(self.recs()[i]),
    {
        let recs = &self.rust.recommendations;
        let ghost views = self.recs();
        let mut i: usize = 0;
        while i < recs.len()
            invariant
                recs == self.rust.recommendations,
                views == self.recs(),
                ends_fit_until_cover(views, pos),
                i <= recs.len(),
                forall|j: int| 0 <= j < i ==> !covers(#[trigger] views[j], pos),
            decreases recs.len() - i,
        {
            let r = &recs[i];
            assert(views[i as int] == r@);
            assert(i32::MIN <= views[i as int].range.start + views[i as int].range.length <= i32::MAX);
            let start = r.range.start;
            let end = r.range.start + r.range.length;
            if pos >= start && pos < end {
                let mut out = String::new();
                push_int(&mut out, start as i64);
                proof {
                    reveal_strlit(";");
                }
                out.append(";");
                push_int(&mut out, end as i64);
                proof {
                    assert(is_first_cover(views, pos, i as int));
                    assert forall|k: int| is_first_cover(views, pos, k) implies k == i by {
                        if k < i {
                        } else if k > i {
                            assert(!covers(views[i as int], pos));
                        }
                    }
                    assert(out@ =~= span_text(views[i as int]));
                    assert(out@[int_text(start as int).len() as int] == ';');
                }
                return out;
            }
            i = i + 1;
        }
        String::new()
    }

    /// Forgets the recommendations and gives the edit that replaces the text between `start`
    /// and `end` with `replacement`.
    pub fn replace_word(&mut self, start: i64, end: i64, replacement: &str) -> (r: TextReplacement)
        ensures
            final(self).recs() == Seq::<RecommendationView>::empty(),
            r.start == start,
            r.end == end,
            r.replacement@ == replacement@,
    {
        self.rust.recommendations.clear();
        assert(self.recs() =~= Seq::<RecommendationView>::empty());
        TextReplacement { start, end, replacement: String::from_str(replacement) }
    }

    /// Takes the recommendations that the checking worker sent; the block is then highlighted
    /// again.
    pub fn apply_suggestion(&mut self, suggestion: Suggestion)
        ensures
            final(self).recs() == recommendation_views(suggestion.0@),
    {
        self.rust.recommendations = suggestion.0;
    }
}

/// The state of the text helper: whether the next change of the text area is not passed on.
pub struct AsyncHelperRust {
    pub suppress_next: bool,
}

/// The text helper, which passes the text area's changes on to the checking worker.
pub struct AsyncHelper {
    pub rust: AsyncHelperRust,
}

impl AsyncHelper {
    /// A helper that passes every change on.
    pub fn new() -> (h: Self)
        ensures
            !h.rust.suppress_next,
    {
        AsyncHelper { rust: AsyncHelperRust { suppress_next: false } }
    }

    /// The message to send for a change of the text area: none, once, where the change is to
    /// be passed over, and then the text itself.
    pub fn text_area_changed(&mut self, text: String) -> (m: Option<Message>)
        ensures
            old(self).rust.suppress_next ==> m is None && !final(self).rust.suppress_next,
            !old(self).rust.suppress_next ==> (m matches Some(msg) && msg.0@ == text@)
                && !final(self).rust.suppress_next,
            (final(self).rust.suppress_next, message_text(m)) == text_area_step(
                old(self).rust.suppress_next,
                text@,
            ),
    {
        if self.rust.suppress_next {
            self.rust.suppress_next = false;
            return None;
        }
        Some(Message(text))
    }
}

/// The text a message carries, if there is a message.
pub open spec fn message_text(m: Option<Message>) -> Option<Seq<char>> {
    match m {
        Some(msg) => Some(msg.0@),
        None => None,
    }
}

/// One change of the text area: the helper's next suppress flag and the text it passes on.
pub open spec fn text_area_step(suppress: bool, text: Seq<char>) -> (bool, Option<Seq<char>>) {
    if suppress {
        (false, None)
    } else {
        (false, Some(text))
    }
}

/// The suppress flag after a run of changes of the text area.
pub open spec fn text_area_flag(suppress: bool, texts: Seq<Seq<char>>) -> bool
    decreases texts.len(),
{
    if texts.len() == 0 {
        suppress
    } else {
        text_area_flag(text_area_step(suppress, texts[0]).0, texts.drop_first())
    }
}

/// What a run of changes of the text area passes on, change by change.
pub open spec fn text_area_run(suppress: bool, texts: Seq<Seq<char>>) -> Seq<Option<Seq<char>>>
    decreases texts.len(),
{
    if texts.len() == 0 {
        Seq::empty()
    } else {
        let (next, out) = text_area_step(suppress, texts[0]);
        seq![out] + text_area_run(next, texts.drop_first())
    }
}

/// A helper whose flag is off, as `AsyncHelper::new` makes it, keeps the flag off through
/// every change of the text area and passes every text on, unchanged and in order.
pub proof fn law_every_change_is_passed_on(texts: Seq<Seq<char>>)
    ensures
        !text_area_flag(false, texts),
        text_area_run(false, texts) == texts.map_values(|t: Seq<char>| Some(t)),
    decreases texts.len(),
{
    if texts.len() > 0 {
        let rest = texts.drop_first();
        law_every_change_is_passed_on(rest);
        assert(text_area_run(false, texts) =~= texts.map_values(|t: Seq<char>| Some(t)));
    } else {
        assert(text_area_run(false, texts) =~= texts.map_values(|t: Seq<char>| Some(t)));
    }
}

/// The suggestions shown for a selection are the values of the first five recommendations
/// that start at or after the selection's start and are no longer than it, in order; where
/// fewer than five are such, all of them are shown.
pub proof fn law_shown_suggestions_are_first_offered(
    recs: Seq<RecommendationView>,
    start: i32,
    length: i32,
)
    ensures
        offered_values(recs, start, length) == recs.filter(
            |r: RecommendationView| r.range.start >= start && r.range.length <= length,
        ).map_values(|r: RecommendationView| r.value),
        first_suggestions(offered_values(recs, start, length)) == recs.filter(
            |r: RecommendationView| r.range.start >= start && r.range.length <= length,
        ).map_values(|r: RecommendationView| r.value).take(
            if recs.filter(
                |r: RecommendationView| r.range.start >= start && r.range.length <= length,
            ).len() < 5 {
                recs.filter(
                    |r: RecommendationView| r.range.start >= start && r.range.length <= length,
                ).len() as int
            } else {
                5
            },
        ),
    decreases recs.len(),
{
    reveal(Seq::filter);
    if recs.len() > 0 {
        law_shown_suggestions_are_first_offered(recs.drop_last(), start, length);
    }
    let f = recs.filter(
        |r: RecommendationView| r.range.start >= start && r.range.length <= length,
    ).map_values(|r: RecommendationView| r.value);
    assert(offered_values(recs, start, length) =~= f);
    if f.len() <= 5 {
        assert(f.take(f.len() as int) =~= f);
    }
}

/// Where some recommendation covers `pos`, there is exactly one first such recommendation,
/// whichever its place in the list.
pub proof fn law_some_cover_has_a_first(recs: Seq<RecommendationView>, pos: i32, k: int)
    requires
        0 <= k < recs.len(),
        covers(recs[k], pos),
    ensures
        exists|i: int| 0 <= i <= k && is_first_cover(recs, pos, i),
        forall|i: int, j: int|
            is_first_cover(recs, pos, i) && is_first_cover(recs, pos, j) ==> i == j,
    decreases k,
{
    if exists|j: int| 0 <= j < k && covers(recs[j], pos) {
        let j = choose|j: int| 0 <= j < k && covers(recs[j], pos);
        law_some_cover_has_a_first(recs, pos, j);
    } else {
        assert(is_first_cover(recs, pos, k));
    }
    assert forall|i: int, j: int|
        is_first_cover(recs, pos, i) && is_first_cover(recs, pos, j) implies i == j by {
        if i < j {
            assert(!covers(recs[i], pos));
        } else if j < i {
            assert(!covers(recs[j], pos));
        }
    }
}

/// `v` is the value of a recommendation offered for the selection.
pub open spec fn is_offered_value(
    recs: Seq<RecommendationView>,
    start: i32,
    length: i32,
    v: Seq<char>,
) -> bool {
    exists|i: int| 0 <= i < recs.len() && offered_for(recs[i], start, length) && recs[i].value == v
}

/// At most five suggestions are shown for a selection, and each of them is the value of a
/// recommendation that starts no earlier than the selection and is no longer than it.
pub proof fn law_suggestions_are_offered(recs: Seq<RecommendationView>, start: i32, length: i32)
    ensures
        first_suggestions(offered_values(recs, start, length)).len() <= max_suggestions(),
        forall|k: int|
            0 <= k < first_suggestions(offered_values(recs, start, length)).len() ==> is_offered_value(recs, start, length, #[trigger] first_suggestions(offered_values(recs, start, length))[k]),
{
    lemma_offered_come_from(recs, start, length);
    let all = offered_values(recs, start, length);
    let shown = first_suggestions(all);
    assert forall|k: int| 0 <= k < shown.len() implies is_offered_value(recs, start, length, #[trigger] shown[k]) by {
        assert(shown[k] == all[k]);
        assert(is_offered_value(recs, start, length, all[k]));
        let i = choose|i: int|
            0 <= i < recs.len() && offered_for(recs[i], start, length) && recs[i].value == all[k];
        assert(0 <= i < recs.len() && offered_for(recs[i], start, length) && recs[i].value
            == shown[k]);
    }
}

/// Each offered value is the value of an offered recommendation.
proof fn lemma_offered_come_from(recs: Seq<RecommendationView>, start: i32, length: i32)
    ensures
        forall|k: int|
            0 <= k < offered_values(recs, start, length).len() ==> is_offered_value(recs, start, length, #[trigger] offered_values(recs, start, length)[k]),
    decreases recs.len(),
{
    if recs.len() > 0 {
        let init = recs.drop_last();
        lemma_offered_come_from(init, start, length);
        let prev = offered_values(init, start, length);
        let cur = offered_values(recs, start, length);
        assert forall|k: int| 0 <= k < cur.len() implies is_offered_value(recs, start, length, #[trigger] cur[k]) by {
            if k < prev.len() {
                assert(cur[k] == prev[k]);
                assert(is_offered_value(init, start, length, prev[k]));
                let i = choose|i: int|
                    0 <= i < init.len() && offered_for(init[i], start, length) && init[i].value
                        == prev[k];
                assert(recs[i] == init[i]);
                assert(0 <= i < recs.len() && offered_for(recs[i], start, length) && recs[i].value
                    == cur[k]);
            } else {
                let last = recs.len() - 1;
                assert(recs[last] == recs.last());
                if !offered_for(recs.last(), start, length) {
                    assert(cur == prev);
                }
                assert(cur[k] == recs.last().value);
                assert(0 <= last < recs.len() && offered_for(recs[last], start, length)
                    && recs[last].value == cur[k]);
            }
        }
    }
}

/// Where offered values stop being collected early, what was collected is the start of what
/// the whole list offers.
pub proof fn lemma_offered_prefix(
    recs: Seq<RecommendationView>,
    start: i32,
    length: i32,
    i: int,
    n: int,
)
    requires
        0 <= i <= n <= recs.len(),
        offered_values(recs.take(i), start, length).len() == max_suggestions(),
    ensures
        first_suggestions(offered_values(recs.take(n), start, length)) == offered_values(
            recs.take(i),
            start,
            length,
        ),
    decreases n - i,
{
    if n > i {
        lemma_offered_prefix(recs, start, length, i, n - 1);
        assert(recs.take(n).drop_last() =~= recs.take(n - 1));
        lemma_offered_monotone(recs, start, length, i, n - 1);
        let prev = offered_values(recs.take(n - 1), start, length);
        let cur = offered_values(recs.take(n), start, length);
        assert(cur.take(5) =~= prev.take(5));
    }
}

/// Offered values of a longer prefix extend those of a shorter one.
pub proof fn lemma_offered_monotone(
    recs: Seq<RecommendationView>,
    start: i32,
    length: i32,
    i: int,
    n: int,
)
    requires
        0 <= i <= n <= recs.len(),
    ensures
        offered_values(recs.take(i), start, length).len() <= offered_values(
            recs.take(n),
            start,
            length,
        ).len(),
        offered_values(recs.take(i), start, length) =~= offered_values(
            recs.take(n),
            start,
            length,
        ).take(offered_values(recs.take(i), start, length).len() as int),
    decreases n - i,
{
    if n > i {
        lemma_offered_monotone(recs, start, length, i, n - 1);
        assert(recs.take(n).drop_last() =~= recs.take(n - 1));
    }
}

} // verus!
