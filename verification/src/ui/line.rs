//! Lines of coloured text, as the pages hand them to the terminal.
use itertools::Itertools;
use vstd::prelude::*;

verus! {

/// The colour of a piece of text.
#[derive(Debug, Clone, Copy, PartialEq, Eq, Structural)]
pub enum Tone {
    /// The colour of the terminal.
    Plain,
    /// The colour of results.
    Green,
    /// The colour of errors.
    Red,
}

/// A piece of text in one colour.
#[derive(Debug, PartialEq, Eq)]
pub struct Segment {
    pub text: String,
    pub tone: Tone,
}

/// A piece of text in one colour, as mathematical values.
pub struct SegmentView {
    pub text: Seq<char>,
    pub tone: Tone,
}

impl View for Segment {
    type V = SegmentView;

    open spec fn view(&self) -> SegmentView {
        SegmentView { text: self.text@, tone: self.tone }
    }
}

impl Clone for Segment {
    fn clone(&self) -> (copy: Self)
        ensures
            copy@ == self@,
    {
        Segment { text: self.text.clone(), tone: self.tone }
    }
}

/// The views of the segments of a line.
pub open spec fn line(segments: Seq<Segment>) -> Seq<SegmentView> {
    Seq::new(segments.len(), |i: int| segments[i]@)
}

/// A text in green.
pub open spec fn green(text: Seq<char>) -> SegmentView {
    SegmentView { text, tone: Tone::Green }
}

/// A text in red.
pub open spec fn red(text: Seq<char>) -> SegmentView {
    SegmentView { text, tone: Tone::Red }
}

/// A segment of a text in a colour.
pub fn segment(text: &str, tone: Tone) -> (piece: Segment)
    ensures
        piece@ == (SegmentView { text: text@, tone }),
{
    Segment { text: text.to_owned(), tone }
}

/// Puts a segment at the end of a line.
pub fn push_segment(segments: &mut Vec<Segment>, piece: Segment)
    ensures
        line(final(segments)@) == line(old(segments)@).push(piece@),
{
    segments.push(piece);
}

/// Puts the segments of a second line at the end of a line.
pub fn append_segments(segments: &mut Vec<Segment>, more: Vec<Segment>)
    ensures
        line(final(segments)@) == line(old(segments)@) + line(more@),
{
    let mut more = more;
    segments.append(&mut more);
}

/// A list with a separator between each two of its items.
pub open spec fn interspersed(items: Seq<SegmentView>, separator: SegmentView) -> Seq<SegmentView>
    decreases items.len(),
{
    if items.len() <= 1 {
        items
    } else {
        interspersed(items.drop_last(), separator).push(separator).push(items.last())
    }
}

/// `Itertools::intersperse` on the segments of a line. The segments come
/// back in their order, with a copy of the separator between each two of
/// them; a line of one segment or none comes back as it is.
#[verifier::external_body]
pub(crate) fn intersperse(segments: Vec<Segment>, separator: Segment) -> (joined: Vec<Segment>)
    ensures
        line(joined@) == interspersed(line(segments@), separator@),
{
    Itertools::intersperse(segments.into_iter(), separator).collect()
}

} // verus!
