//! A parser that turns a plain-text document into an ordered sequence of
//! presentation slides.
//!
//! Lines whose first character is `#` are comments and are removed before any
//! other processing. The remaining text is split into segments on blank lines
//! (two consecutive newlines); each segment is trimmed of surrounding
//! whitespace and classified by its first character: `@` yields an image
//! slide whose path is the rest of the segment, `/` yields an empty slide,
//! and anything else yields a text slide holding the whole trimmed segment.
//! A segment that is empty after trimming yields no slide at all.

pub mod laws;
pub mod text;

use vstd::prelude::*;

use crate::text::{remove_comment_lines, remove_comments, split_segments, trim_of, trim_str,
    find_sep, lemma_sep_pos};

verus! {

/// TextSlide represents a standard, non-image slide.
/// It contains a ``text`` field with the text of the slide.
pub struct TextSlide {
    pub text: String,
}

impl TextSlide {
    /// Builds a text slide holding `text` verbatim.
    pub fn new(text: &str) -> (s: TextSlide)
        ensures
            s.text@ == text@,
    {
        TextSlide { text: String::from_str(text) }
    }
}

/// ImageSlide contains an ``image_path`` property that represents the
/// location of the image on disk.
pub struct ImageSlide {
    pub image_path: String,
}

impl ImageSlide {
    /// Builds an image slide whose path is `text` with its first character
    /// (the `@` sentinel) removed.
    pub fn new(text: &str) -> (s: ImageSlide)
        requires
            text@.len() >= 1,
        ensures
            s.image_path@ == text@.subrange(1, text@.len() as int),
    {
        let n = text.unicode_len();
        let path = text.substring_char(1, n);
        ImageSlide { image_path: String::from_str(path) }
    }
}

/// There are three types of slides. ``TextSlide``, ``ImageSlide``, and
/// ``EmptySlide``. Empty slides are meant to be blank, with no text or
/// images.
pub enum Slide {
    TextSlide(TextSlide),
    ImageSlide(ImageSlide),
    EmptySlide,
}

/// The mathematical value of a slide: its kind together with its payload.
pub enum SlideModel {
    Text { text: Seq<char> },
    Image { image_path: Seq<char> },
    Empty,
}

impl View for Slide {
    type V = SlideModel;

    open spec fn view(&self) -> SlideModel {
        match self {
            Slide::TextSlide(t) => SlideModel::Text { text: t.text@ },
            Slide::ImageSlide(i) => SlideModel::Image { image_path: i.image_path@ },
            Slide::EmptySlide => SlideModel::Empty,
        }
    }
}

/// The slide a nonempty trimmed segment stands for, chosen by its first
/// character: `@` an image slide holding the rest of the segment, `/` an
/// empty slide, anything else a text slide holding the whole segment.
pub open spec fn classify(seg: Seq<char>) -> SlideModel
    recommends
        seg.len() > 0,
{
    if seg[0] == '@' {
        SlideModel::Image { image_path: seg.subrange(1, seg.len() as int) }
    } else if seg[0] == '/' {
        SlideModel::Empty
    } else {
        SlideModel::Text { text: seg }
    }
}

/// The slides of a sequence of segments, in order: each segment is trimmed,
/// a segment empty after trimming yields no slide, and every other segment
/// yields the slide `classify` gives it.
pub open spec fn slides_of_segments(segs: Seq<Seq<char>>) -> Seq<SlideModel>
    decreases segs.len(),
{
    if segs.len() == 0 {
        Seq::<SlideModel>::empty()
    } else {
        let t = trim_of(segs[0]);
        let rest = slides_of_segments(segs.drop_first());
        if t.len() == 0 {
            rest
        } else {
            seq![classify(t)] + rest
        }
    }
}

/// The slides of a whole document: comment lines are removed, the remaining
/// text is split into segments on blank lines, and each segment is trimmed
/// and classified.
pub open spec fn slides_of(text: Seq<char>) -> Seq<SlideModel> {
    slides_of_segments(split_segments(remove_comments(text)))
}

/// The views of a sequence of slides, in order.
pub open spec fn views_of(slides: Seq<Slide>) -> Seq<SlideModel> {
    slides.map_values(|s: Slide| s@)
}

/// The slide a single segment stands for: none when the segment is empty
/// after trimming, otherwise the classified trimmed segment.
fn segment_slide(seg: &str) -> (r: Option<Slide>)
    ensures
        trim_of(seg@).len() == 0 ==> r is None,
        trim_of(seg@).len() > 0 ==> (r matches Some(sl) && sl@ == classify(trim_of(seg@))),
{
    let t = trim_str(seg);
    let m = t.unicode_len();
    if m == 0 {
        None
    } else {
        let c = t.get_char(0);
        if c == '@' {
            Some(Slide::ImageSlide(ImageSlide::new(t)))
        } else if c == '/' {
            Some(Slide::EmptySlide)
        } else {
            Some(Slide::TextSlide(TextSlide::new(t)))
        }
    }
}

/// The slides of the already comment-filtered text `s`, one per segment that
/// is nonempty after trimming, in segment order.
fn build_slides(s: &str) -> (v: Vec<Slide>)
    ensures
        views_of(v@) == slides_of_segments(split_segments(s@)),
    decreases s@.len(),
{
    let n = s.unicode_len();
    proof {
        lemma_sep_pos(s@);
    }
    let p = find_sep(s);
    if p == n {
        let mut v: Vec<Slide> = Vec::new();
        if let Some(sl) = segment_slide(s) {
            v.push(sl);
        }
        proof {
            let segs = split_segments(s@);
            assert(segs == seq![s@]);
            assert(segs.drop_first() =~= Seq::<Seq<char>>::empty());
            assert(slides_of_segments(Seq::<Seq<char>>::empty())
                == Seq::<SlideModel>::empty());
            assert(segs[0] == s@);
            assert(views_of(v@) =~= slides_of_segments(segs));
        }
        v
    } else {
        let seg = s.substring_char(0, p);
        let rest = s.substring_char(p + 2, n);
        let mut v: Vec<Slide> = Vec::new();
        if let Some(sl) = segment_slide(seg) {
            v.push(sl);
        }
        let mut tail = build_slides(rest);
        v.append(&mut tail);
        proof {
            let segs = split_segments(s@);
            assert(segs == seq![seg@] + split_segments(rest@));
            assert(segs[0] == seg@);
            assert(segs.drop_first() =~= split_segments(rest@));
            assert(views_of(v@) =~= slides_of_segments(segs));
        }
        v
    }
}

/// This function accepts a string and returns a ``Vec`` containing ``Slide``
/// instances. ``generate_slides`` is very un-opinionated, meaning you can use
/// it in a lot more ways than the classic Suckless sent program. Currently,
/// programs using this crate must implement display functionality for
/// ``TextSlide``, ``ImageSlide``, and ``EmptySlide``.
pub fn generate_slides(full_text: String) -> (slides: Vec<Slide>)
    ensures
        views_of(slides@) == slides_of(full_text@),
{
    let filtered = remove_comment_lines(full_text.as_str());
    build_slides(filtered.as_str())
}

} // verus!
