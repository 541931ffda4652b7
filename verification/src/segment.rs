//! Transcribed segments and the prompt assembled from them.

use vstd::prelude::*;
use vstd::seq_lib::lemma_flatten_concat;
use vstd::string::StringExecFns;

verus! {

/// A span of recognised speech. Its start never lies after its end.
pub struct Segment {
    start: i64,
    end: i64,
    text: String,
}

/// What a segment stands for: two timestamps and the recognised text.
pub struct SegmentView {
    pub start: int,
    pub end: int,
    pub text: Seq<char>,
}

impl View for Segment {
    type V = SegmentView;

    closed spec fn view(&self) -> SegmentView {
        SegmentView { start: self.start as int, end: self.end as int, text: self.text@ }
    }
}

impl Segment {
    #[verifier::type_invariant]
    spec fn ordered(self) -> bool {
        self.start <= self.end
    }

    /// Makes a segment, or nothing when the span would end before it starts.
    pub fn new(start: i64, end: i64, text: String) -> (segment: Option<Segment>)
        ensures
            start <= end ==> segment is Some && segment->Some_0@ == (SegmentView {
                start: start as int,
                end: end as int,
                text: text@,
            }),
            start > end ==> segment is None,
    {
        if start <= end {
            Some(Segment { start, end, text })
        } else {
            None
        }
    }

    /// When the span starts.
    pub fn start(&self) -> (t: i64)
        ensures
            t == self@.start,
            self@.start <= self@.end,
    {
        proof {
            use_type_invariant(self);
        }
        self.start
    }

    /// When the span ends.
    pub fn end(&self) -> (t: i64)
        ensures
            t == self@.end,
            self@.start <= self@.end,
    {
        proof {
            use_type_invariant(self);
        }
        self.end
    }

    /// The recognised text.
    pub fn text(&self) -> (text: &str)
        ensures
            text@ == self@.text,
    {
        self.text.as_str()
    }
}

/// What each segment of a sequence stands for, in the same order.
pub open spec fn segment_views(segments: Seq<Segment>) -> Seq<SegmentView> {
    segments.map_values(|s: Segment| s@)
}

/// The prompt of a transcript: the texts of its segments joined in sequence
/// order, with nothing between them.
pub open spec fn prompt_of(segments: Seq<SegmentView>) -> Seq<char> {
    segments.map_values(|s: SegmentView| s.text).flatten()
}

/// Joins the segment texts into the prompt.
pub fn assemble_prompt(segments: &Vec<Segment>) -> (prompt: String)
    ensures
        prompt@ == prompt_of(segment_views(segments@)),
{
    let ghost views = segment_views(segments@);
    let mut prompt = String::new();
    let mut i: usize = 0;
    proof {
        assert(views.take(0) =~= Seq::<SegmentView>::empty());
        assert(views.take(0).map_values(|s: SegmentView| s.text) =~= Seq::<Seq<char>>::empty());
    }
    while i < segments.len()
        invariant
            i <= segments.len(),
            views == segment_views(segments@),
            prompt@ == prompt_of(views.take(i as int)),
        decreases segments.len() - i,
    {
        proof {
            lemma_prompt_push(views.take(i as int), views[i as int]);
            assert(views.take(i as int + 1) =~= views.take(i as int).push(views[i as int]));
        }
        prompt.append(segments[i].text());
        i = i + 1;
    }
    assert(views.take(segments.len() as int) =~= views);
    prompt
}

/// A prompt grows by exactly the text of a segment appended to the transcript.
pub proof fn lemma_prompt_push(segments: Seq<SegmentView>, last: SegmentView)
    ensures
        prompt_of(segments.push(last)) == prompt_of(segments) + last.text,
{
    let texts = segments.map_values(|s: SegmentView| s.text);
    assert(segments.push(last).map_values(|s: SegmentView| s.text) =~= texts.push(last.text));
    texts.lemma_flatten_push(last.text);
}

/// The prompt of two transcripts laid end to end is the first prompt followed
/// by the second: assembling never reorders or drops text.
pub proof fn lemma_prompt_concat(first: Seq<SegmentView>, second: Seq<SegmentView>)
    ensures
        prompt_of(first + second) == prompt_of(first) + prompt_of(second),
{
    let a = first.map_values(|s: SegmentView| s.text);
    let b = second.map_values(|s: SegmentView| s.text);
    assert((first + second).map_values(|s: SegmentView| s.text) =~= a + b);
    lemma_flatten_concat(a, b);
}

} // verus!
