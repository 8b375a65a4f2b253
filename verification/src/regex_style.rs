//! Styling a line by rules: what a rule's pattern matches is shown in the
//! rule's style, the rest as it is.

use crate::event::{ProcessEvent, ProcessEventView};
use crate::format::{passthrough, passthrough_text, EventFormat};
pub use crate::pattern::{pattern_matches, ranges_fit, Pattern};
use crate::style::{unstyled, Attribute, Color, ContentStyle, ContentStyleView};
use crate::text::{byte_len, on_boundary, segment, slice};
use vstd::prelude::*;
use vstd::string::StringExecFns;
use vstd::utf8::encode_utf8;

verus! {

/// Where the last of the ranges ends; the start of the text if there is
/// none.
pub open spec fn covered(ranges: Seq<(usize, usize)>) -> int {
    if ranges.len() == 0 {
        0
    } else {
        ranges.last().1 as int
    }
}

/// The pieces up to the end of the last range: each range as a matched
/// piece, and before it, where the range does not start at the end of the
/// one before, what lies between them as an unmatched piece.
pub open spec fn pieces_within(text: Seq<char>, ranges: Seq<(usize, usize)>) -> Seq<
    (Seq<char>, bool),
>
    decreases ranges.len(),
{
    if ranges.len() == 0 {
        Seq::empty()
    } else {
        let before = pieces_within(text, ranges.drop_last());
        let last = covered(ranges.drop_last());
        let (start, end) = ranges.last();
        let upto = if last != start {
            before.push((segment(text, last, start as int), false))
        } else {
            before
        };
        upto.push((segment(text, start as int, end as int), true))
    }
}

/// A text cut at the given ranges: the pieces up to the last range, and
/// what is left of the text after it, if anything, as an unmatched piece.
pub open spec fn pieces(text: Seq<char>, ranges: Seq<(usize, usize)>) -> Seq<(Seq<char>, bool)> {
    let within = pieces_within(text, ranges);
    let last = covered(ranges);
    if last < encode_utf8(text).len() {
        within.push((segment(text, last, encode_utf8(text).len() as int), false))
    } else {
        within
    }
}

/// What a vector of pieces holds.
pub open spec fn pieces_view(parts: Seq<(&str, bool)>) -> Seq<(Seq<char>, bool)> {
    Seq::new(parts.len(), |i: int| (parts[i].0@, parts[i].1))
}

/// Cuts a text at the given ranges into matched and unmatched pieces.
pub fn split_at_ranges<'a>(text: &'a str, ranges: &Vec<(usize, usize)>) -> (matched: Vec<
    (&'a str, bool),
>)
    requires
        ranges_fit(text@, ranges@),
    ensures
        pieces_view(matched@) == pieces(text@, ranges@),
{
    let mut matched: Vec<(&'a str, bool)> = Vec::new();
    let mut last: usize = 0;
    let mut k: usize = 0;
    proof {
        vstd::utf8::encode_utf8_valid_utf8(text@);
        vstd::utf8::is_char_boundary_start_end_of_seq(encode_utf8(text@));
        assert(ranges@.subrange(0, 0) =~= Seq::<(usize, usize)>::empty());
        assert(pieces_view(matched@) =~= Seq::<(Seq<char>, bool)>::empty());
    }
    while k < ranges.len()
        invariant
            k <= ranges.len(),
            ranges_fit(text@, ranges@),
            last == covered(ranges@.subrange(0, k as int)),
            last <= encode_utf8(text@).len(),
            on_boundary(text@, last as int),
            on_boundary(text@, encode_utf8(text@).len() as int),
            pieces_view(matched@) == pieces_within(text@, ranges@.subrange(0, k as int)),
        decreases ranges.len() - k,
    {
        let (start, end) = ranges[k];
        proof {
            let done = ranges@.subrange(0, k as int);
            let next = ranges@.subrange(0, k + 1);
            assert(next.drop_last() =~= done);
            assert(next.last() == ranges@[k as int]);
            if k > 0 {
                assert(done.last() == ranges@[k - 1]);
            }
        }
        let ghost before = pieces_view(matched@);
        if last != start {
            let gap = slice(text, last, start);
            matched.push((gap, false));
            assert(pieces_view(matched@) =~= before.push((gap@, false)));
        }
        let ghost upto = pieces_view(matched@);
        let hit = slice(text, start, end);
        matched.push((hit, true));
        assert(pieces_view(matched@) =~= upto.push((hit@, true)));
        last = end;
        k = k + 1;
    }
    assert(ranges@.subrange(0, ranges@.len() as int) =~= ranges@);
    let end = byte_len(text);
    if last < end {
        let ghost before = pieces_view(matched@);
        let rest = slice(text, last, end);
        matched.push((rest, false));
        assert(pieces_view(matched@) =~= before.push((rest@, false)));
    }
    matched
}

/// Cuts a text where a pattern matches.
pub fn split_match<'a>(text: &'a str, re: &Pattern) -> (matched: Vec<(&'a str, bool)>)
    ensures
        pieces_view(matched@) == pieces(text@, pattern_matches(re@, text@)),
{
    let ranges = re.matches(text);
    split_at_ranges(text, &ranges)
}

/// One rule: a pattern, and the colours and attributes for what it matches.
pub struct StyleRule {
    pub pattern: Pattern,
    pub background: Option<Color>,
    pub foreground: Option<Color>,
    pub attributes: Option<Vec<Attribute>>,
}

/// A [`StyleRule`] as the contracts see it.
pub ghost struct StyleRuleView {
    pub pattern: Seq<char>,
    pub style: ContentStyleView,
}

impl View for StyleRule {
    type V = StyleRuleView;

    open spec fn view(&self) -> StyleRuleView {
        StyleRuleView {
            pattern: self.pattern@,
            style: ContentStyleView {
                foreground_color: self.foreground,
                background_color: self.background,
                attributes: match self.attributes {
                    Some(attributes) => attributes@,
                    None => Seq::empty(),
                },
            },
        }
    }
}

impl DeepView for StyleRule {
    type V = StyleRuleView;

    open spec fn deep_view(&self) -> StyleRuleView {
        self@
    }
}

impl StyleRule {
    /// The style of the rule: its colours, and its attributes one by one.
    pub fn content_style(&self) -> (style: ContentStyle)
        ensures
            style@ == self@.style,
    {
        let mut style = ContentStyle::new();
        style.background_color = self.background;
        style.foreground_color = self.foreground;
        if let Some(attrs) = self.attributes.as_ref() {
            let mut i: usize = 0;
            while i < attrs.len()
                invariant
                    i <= attrs.len(),
                    style.background_color == self.background,
                    style.foreground_color == self.foreground,
                    style.attributes@ == attrs@.subrange(0, i as int),
                decreases attrs.len() - i,
            {
                style = style.attribute(attrs[i]);
                assert(style.attributes@ =~= attrs@.subrange(0, i + 1));
                i = i + 1;
            }
            assert(attrs@.subrange(0, attrs@.len() as int) =~= attrs@);
        }
        style
    }
}

/// Pieces put together again, the matched ones in the given style.
pub open spec fn joined(style: ContentStyleView, parts: Seq<(Seq<char>, bool)>) -> Seq<char>
    decreases parts.len(),
{
    if parts.len() == 0 {
        Seq::empty()
    } else {
        let (text, matched) = parts.last();
        joined(style, parts.drop_last()) + if matched {
            style.apply(text)
        } else {
            text
        }
    }
}

/// A text after one rule: cut where the pattern matches, and put together
/// again with the matches in the rule's style.
pub open spec fn rule_applied(rule: StyleRuleView, text: Seq<char>) -> Seq<char> {
    joined(rule.style, pieces(text, pattern_matches(rule.pattern, text)))
}

/// A text after a run of rules, each applied to what the one before gave.
pub open spec fn rules_applied(rules: Seq<StyleRuleView>, text: Seq<char>) -> Seq<char>
    decreases rules.len(),
{
    if rules.len() == 0 {
        text
    } else {
        rule_applied(rules.last(), rules_applied(rules.drop_last(), text))
    }
}

/// Puts pieces together again, the matched ones in the given style.
pub fn join_styled(style: &ContentStyle, parts: &Vec<(&str, bool)>) -> (text: String)
    ensures
        text@ == joined(style@, pieces_view(parts@)),
{
    let mut text = String::new();
    let mut i: usize = 0;
    let ghost all = pieces_view(parts@);
    assert(all.subrange(0, 0) =~= Seq::<(Seq<char>, bool)>::empty());
    while i < parts.len()
        invariant
            i <= parts.len(),
            all == pieces_view(parts@),
            text@ == joined(style@, all.subrange(0, i as int)),
        decreases parts.len() - i,
    {
        let (part, matched) = parts[i];
        proof {
            assert(all.subrange(0, i + 1).drop_last() =~= all.subrange(0, i as int));
            assert(all.subrange(0, i + 1).last() == (part@, matched));
        }
        let shown = match matched {
            true => style.apply(part),
            false => unstyled(part),
        };
        text.append(shown.as_str());
        i = i + 1;
    }
    assert(all.subrange(0, all.len() as int) =~= all);
    text
}

/// The rules for the two streams of the child.
pub struct RegexStyle {
    stdout: Vec<StyleRule>,
    stderr: Vec<StyleRule>,
}

impl RegexStyle {
    /// The rules for standard output.
    pub closed spec fn stdout_rules(&self) -> Seq<StyleRuleView> {
        self.stdout.deep_view()
    }

    /// The rules for standard error.
    pub closed spec fn stderr_rules(&self) -> Seq<StyleRuleView> {
        self.stderr.deep_view()
    }

    pub fn new(stdout: Vec<StyleRule>, stderr: Vec<StyleRule>) -> (style: Self)
        ensures
            style.stdout_rules() == stdout.deep_view(),
            style.stderr_rules() == stderr.deep_view(),
    {
        RegexStyle { stdout, stderr }
    }

    /// Takes the rules out again: those for standard output, then those for
    /// standard error.
    pub fn into_rules(self) -> (rules: (Vec<StyleRule>, Vec<StyleRule>))
        ensures
            rules.0.deep_view() == self.stdout_rules(),
            rules.1.deep_view() == self.stderr_rules(),
    {
        (self.stdout, self.stderr)
    }

    /// Applies the rules to a text one after the other.
    pub fn style_with(text: &str, style: &Vec<StyleRule>) -> (styled: String)
        ensures
            styled@ == rules_applied(style.deep_view(), text@),
    {
        let mut text = text.to_owned();
        let ghost start = text@;
        let ghost rules = style.deep_view();
        let mut i: usize = 0;
        assert(rules.subrange(0, 0) =~= Seq::<StyleRuleView>::empty());
        while i < style.len()
            invariant
                i <= style.len(),
                rules == style.deep_view(),
                text@ == rules_applied(rules.subrange(0, i as int), start),
            decreases style.len() - i,
        {
            let rule = &style[i];
            proof {
                assert(rules.subrange(0, i + 1).drop_last() =~= rules.subrange(0, i as int));
                assert(rules.subrange(0, i + 1).last() == rule@);
            }
            let parts = split_match(text.as_str(), &rule.pattern);
            let next = join_styled(&rule.content_style(), &parts);
            text = next;
            i = i + 1;
        }
        assert(rules.subrange(0, rules.len() as int) =~= rules);
        text
    }

    pub fn style_stdout(&self, text: &str) -> (styled: String)
        ensures
            styled@ == rules_applied(self.stdout_rules(), text@),
    {
        Self::style_with(text, &self.stdout)
    }

    pub fn style_stderr(&self, text: &str) -> (styled: String)
        ensures
            styled@ == rules_applied(self.stderr_rules(), text@),
    {
        Self::style_with(text, &self.stderr)
    }
}

impl EventFormat for RegexStyle {
    /// Lines of the child by the rules of their stream; everything else as
    /// `passthrough` has it.
    open spec fn formatted(&self, event: ProcessEventView) -> Seq<char> {
        match event {
            ProcessEventView::Output(line) => rules_applied(self.stdout_rules(), line),
            ProcessEventView::Error(line) => rules_applied(self.stderr_rules(), line),
            other => passthrough_text(other),
        }
    }

    fn format(&self, event: ProcessEvent) -> (text: String) {
        match event {
            ProcessEvent::Output(line) => self.style_stdout(line.as_str()),
            ProcessEvent::Error(line) => self.style_stderr(line.as_str()),
            other => passthrough(other),
        }
    }
}

/// The text of the pieces, one after the other.
pub open spec fn pieces_text(parts: Seq<(Seq<char>, bool)>) -> Seq<char>
    decreases parts.len(),
{
    if parts.len() == 0 {
        Seq::empty()
    } else {
        pieces_text(parts.drop_last()) + parts.last().0
    }
}

/// The pieces up to the last range make up the text up to where that range
/// ends.
pub proof fn lemma_pieces_within_cover(text: Seq<char>, ranges: Seq<(usize, usize)>)
    requires
        ranges_fit(text, ranges),
    ensures
        0 <= covered(ranges) <= encode_utf8(text).len(),
        on_boundary(text, covered(ranges)),
        pieces_text(pieces_within(text, ranges)) == segment(text, 0, covered(ranges)),
    decreases ranges.len(),
{
    vstd::utf8::encode_utf8_valid_utf8(text);
    vstd::utf8::is_char_boundary_start_end_of_seq(encode_utf8(text));
    crate::text::lemma_whole_segment(text);
    if ranges.len() > 0 {
        let front = ranges.drop_last();
        let (start, end) = ranges.last();
        assert(ranges.last() == ranges[ranges.len() - 1]);
        assert forall|i: int| 0 <= i < front.len() implies front[i] == ranges[i] by {}
        assert(ranges_fit(text, front));
        lemma_pieces_within_cover(text, front);
        let last = covered(front);
        if front.len() > 0 {
            assert(front.last() == ranges[ranges.len() - 2]);
        }
        let before = pieces_within(text, front);
        let gap = (segment(text, last, start as int), false);
        let hit = (segment(text, start as int, end as int), true);
        assert(last <= start) by {
            if front.len() > 0 {
                assert(ranges[ranges.len() - 2].1 <= ranges[ranges.len() - 1].0);
            }
        }
        crate::text::lemma_segments_meet(text, 0, last, start as int);
        crate::text::lemma_segments_meet(text, 0, start as int, end as int);
        if last != start {
            let upto = before.push(gap);
            assert(upto.drop_last() =~= before);
            assert(pieces_text(upto) == pieces_text(before) + gap.0);
            assert(upto.push(hit).drop_last() =~= upto);
            assert(pieces_within(text, ranges) == upto.push(hit));
            assert(pieces_text(upto.push(hit)) == pieces_text(upto) + hit.0);
        } else {
            assert(before.push(hit).drop_last() =~= before);
            assert(pieces_within(text, ranges) == before.push(hit));
            assert(pieces_text(before.push(hit)) == pieces_text(before) + hit.0);
        }
    }
}

/// The texts of the matched pieces, in order.
pub open spec fn matched_texts(parts: Seq<(Seq<char>, bool)>) -> Seq<Seq<char>>
    decreases parts.len(),
{
    if parts.len() == 0 {
        Seq::empty()
    } else if parts.last().1 {
        matched_texts(parts.drop_last()).push(parts.last().0)
    } else {
        matched_texts(parts.drop_last())
    }
}

/// What the ranges cut out of the text, one text for each range.
pub open spec fn range_segments(text: Seq<char>, ranges: Seq<(usize, usize)>) -> Seq<Seq<char>> {
    Seq::new(ranges.len(), |i: int| segment(text, ranges[i].0 as int, ranges[i].1 as int))
}

/// No unmatched piece among these is empty.
pub open spec fn gaps_hold_text(parts: Seq<(Seq<char>, bool)>) -> bool {
    forall|i: int| 0 <= i < parts.len() && !(#[trigger] parts[i]).1 ==> parts[i].0.len() > 0
}

/// Up to the last range, the matched pieces are what the ranges cut out,
/// and no unmatched piece is empty.
pub proof fn lemma_pieces_within_are_the_ranges(text: Seq<char>, ranges: Seq<(usize, usize)>)
    requires
        ranges_fit(text, ranges),
    ensures
        matched_texts(pieces_within(text, ranges)) == range_segments(text, ranges),
        gaps_hold_text(pieces_within(text, ranges)),
    decreases ranges.len(),
{
    if ranges.len() == 0 {
        assert(matched_texts(pieces_within(text, ranges)) =~= range_segments(text, ranges));
    } else {
        let front = ranges.drop_last();
        let (start, end) = ranges.last();
        assert(ranges.last() == ranges[ranges.len() - 1]);
        assert forall|i: int| 0 <= i < front.len() implies front[i] == ranges[i] by {}
        assert(ranges_fit(text, front));
        lemma_pieces_within_are_the_ranges(text, front);
        lemma_pieces_within_cover(text, front);
        let last = covered(front);
        if front.len() > 0 {
            assert(front.last() == ranges[ranges.len() - 2]);
            assert(ranges[ranges.len() - 2].1 <= ranges[ranges.len() - 1].0);
        }
        let before = pieces_within(text, front);
        let gap = (segment(text, last, start as int), false);
        let hit = (segment(text, start as int, end as int), true);
        let upto = if last != start {
            before.push(gap)
        } else {
            before
        };
        if last != start {
            crate::text::lemma_segment_not_empty(text, last, start as int);
            assert(upto.drop_last() =~= before);
            assert(matched_texts(upto) == matched_texts(before));
        }
        assert(gaps_hold_text(upto));
        assert(pieces_within(text, ranges) == upto.push(hit));
        assert(upto.push(hit).drop_last() =~= upto);
        assert(matched_texts(upto.push(hit)) == matched_texts(upto).push(hit.0));
        assert(matched_texts(upto.push(hit)) =~= range_segments(text, ranges));
        assert(gaps_hold_text(upto.push(hit)));
    }
}

/// What cutting a text at ranges gives, said directly: the matched pieces
/// are, in order, what the ranges cut out of the text, one for each range,
/// and no unmatched piece is empty.
pub proof fn lemma_pieces_are_the_ranges(text: Seq<char>, ranges: Seq<(usize, usize)>)
    requires
        ranges_fit(text, ranges),
    ensures
        matched_texts(pieces(text, ranges)) == range_segments(text, ranges),
        gaps_hold_text(pieces(text, ranges)),
{
    lemma_pieces_within_are_the_ranges(text, ranges);
    lemma_pieces_within_cover(text, ranges);
    vstd::utf8::encode_utf8_valid_utf8(text);
    vstd::utf8::is_char_boundary_start_end_of_seq(encode_utf8(text));
    let within = pieces_within(text, ranges);
    let last = covered(ranges);
    let end = encode_utf8(text).len() as int;
    if last < end {
        let rest = (segment(text, last, end), false);
        crate::text::lemma_segment_not_empty(text, last, end);
        assert(within.push(rest).drop_last() =~= within);
        assert(gaps_hold_text(within.push(rest)));
    }
}

/// Cutting a text loses nothing and adds nothing: the pieces, one after the
/// other, are the text.
pub proof fn lemma_pieces_cover_text(text: Seq<char>, ranges: Seq<(usize, usize)>)
    requires
        ranges_fit(text, ranges),
    ensures
        pieces_text(pieces(text, ranges)) == text,
{
    lemma_pieces_within_cover(text, ranges);
    crate::text::lemma_whole_segment(text);
    vstd::utf8::encode_utf8_valid_utf8(text);
    vstd::utf8::is_char_boundary_start_end_of_seq(encode_utf8(text));
    let within = pieces_within(text, ranges);
    let last = covered(ranges);
    let end = encode_utf8(text).len() as int;
    if last < end {
        let rest = (segment(text, last, end), false);
        assert(within.push(rest).drop_last() =~= within);
        crate::text::lemma_segments_meet(text, 0, last, end);
    }
}

} // verus!
