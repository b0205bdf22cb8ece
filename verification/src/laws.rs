//! The general laws of the parser, stated and proved once and for all
//! inputs: the slide count, idempotence of comment removal, totality of
//! classification and its payloads, and preservation of segment order.

use vstd::prelude::*;

use crate::text::{is_comment_line, lemma_line_end, lemma_line_end_is, line_end, remove_comments,
    split_segments, trim_of};
use crate::{classify, slides_of, slides_of_segments, SlideModel};

verus! {

/// How many of the segments are nonempty after trimming.
pub open spec fn produced_count(segs: Seq<Seq<char>>) -> nat
    decreases segs.len(),
{
    if segs.len() == 0 {
        0
    } else {
        (if trim_of(segs[0]).len() > 0 {
            1nat
        } else {
            0nat
        }) + produced_count(segs.drop_first())
    }
}

/// The slides of a sequence of segments are exactly one per segment that is
/// nonempty after trimming.
pub proof fn lemma_slide_count_segments(segs: Seq<Seq<char>>)
    ensures
        slides_of_segments(segs).len() == produced_count(segs),
    decreases segs.len(),
{
    if segs.len() == 0 {
    } else {
        lemma_slide_count_segments(segs.drop_first());
    }
}

/// For all inputs, the number of produced slides equals the number of
/// blank-line-delimited segments of the comment-filtered text that are
/// nonempty after trimming. A segment made only of comment lines is removed
/// before segmentation, so it is counted by neither side.
pub proof fn lemma_slide_count(text: Seq<char>)
    ensures
        slides_of(text).len() == produced_count(split_segments(remove_comments(text))),
{
    lemma_slide_count_segments(split_segments(remove_comments(text)));
}

/// Comment removal is idempotent: filtering already-filtered text changes
/// nothing.
pub proof fn lemma_remove_comments_idempotent(s: Seq<char>)
    ensures
        remove_comments(remove_comments(s)) == remove_comments(s),
    decreases s.len(),
{
    lemma_line_end(s);
    if s.len() == 0 {
    } else {
        let i = line_end(s);
        let line = s.subrange(0, i);
        let rest = if i == s.len() {
            Seq::<char>::empty()
        } else {
            s.subrange(i + 1, s.len() as int)
        };
        lemma_remove_comments_idempotent(rest);
        if is_comment_line(line) {
        } else {
            let t = line + seq!['\n'] + remove_comments(rest);
            assert forall|k: int| 0 <= k < i implies t[k] != '\n' by {
                assert(t[k] == line[k]);
                assert(line[k] == s[k]);
            }
            assert(t[i] == '\n');
            lemma_line_end_is(t, i);
            assert(t.subrange(0, i) =~= line);
            assert(t.subrange(i + 1, t.len() as int) =~= remove_comments(rest));
            assert(remove_comments(t) == line + seq!['\n'] + remove_comments(
                remove_comments(rest),
            ));
        }
    }
}

/// Classification is total and deterministic: every nonempty trimmed
/// segment yields exactly one slide, fixed by its first character, with the
/// payload fixed by the segment.
pub proof fn lemma_classify_total(t: Seq<char>)
    requires
        t.len() > 0,
    ensures
        (classify(t) == (SlideModel::Image { image_path: t.subrange(1, t.len() as int) })) <==> t[0]
            == '@',
        (classify(t) == SlideModel::Empty) <==> t[0] == '/',
        (classify(t) == (SlideModel::Text { text: t })) <==> (t[0] != '@' && t[0] != '/'),
{
}

/// An image slide's path always equals the segment with exactly its first
/// character removed.
pub proof fn lemma_image_path(t: Seq<char>)
    requires
        t.len() > 0,
        t[0] == '@',
    ensures
        classify(t) == (SlideModel::Image { image_path: t.drop_first() }),
{
    assert(t.subrange(1, t.len() as int) =~= t.drop_first());
}

/// A text slide's text always equals the full trimmed segment, first
/// character included.
pub proof fn lemma_text_payload(t: Seq<char>)
    requires
        t.len() > 0,
        t[0] != '@',
        t[0] != '/',
    ensures
        classify(t) == (SlideModel::Text { text: t }),
{
}

/// The slides in first-appearance order: trim every segment, drop the empty
/// ones, classify the rest, keeping the order throughout.
pub open spec fn ordered_slide_models(segs: Seq<Seq<char>>) -> Seq<SlideModel> {
    segs.map_values(|seg: Seq<char>| trim_of(seg)).filter(|t: Seq<char>| t.len() > 0).map_values(
        |t: Seq<char>| classify(t),
    )
}

/// The slides of a sequence of segments are the classified nonempty trimmed
/// segments in first-appearance order.
pub proof fn lemma_order_preserved_segments(segs: Seq<Seq<char>>)
    ensures
        slides_of_segments(segs) == ordered_slide_models(segs),
    decreases segs.len(),
{
    reveal_with_fuel(Seq::<Seq<char>>::filter, 2);
    if segs.len() == 0 {
        assert(segs.map_values(|seg: Seq<char>| trim_of(seg)) =~= Seq::<Seq<char>>::empty());
        assert(ordered_slide_models(segs) =~= Seq::<SlideModel>::empty());
    } else {
        let rest = segs.drop_first();
        lemma_order_preserved_segments(rest);
        let trimmed = segs.map_values(|seg: Seq<char>| trim_of(seg));
        let head = seq![trim_of(segs[0])];
        let trimmed_rest = rest.map_values(|seg: Seq<char>| trim_of(seg));
        assert(trimmed =~= head + trimmed_rest);
        Seq::filter_distributes_over_add(head, trimmed_rest, |t: Seq<char>| t.len() > 0);
        assert(head.drop_last() =~= Seq::<Seq<char>>::empty());
        if trim_of(segs[0]).len() > 0 {
            assert(head.filter(|t: Seq<char>| t.len() > 0) =~= head);
            assert(trimmed.filter(|t: Seq<char>| t.len() > 0) =~= head + trimmed_rest.filter(
                |t: Seq<char>| t.len() > 0,
            ));
            assert(ordered_slide_models(segs) =~= seq![classify(trim_of(segs[0]))]
                + ordered_slide_models(rest));
        } else {
            assert(head.filter(|t: Seq<char>| t.len() > 0) =~= Seq::<Seq<char>>::empty());
            assert(trimmed.filter(|t: Seq<char>| t.len() > 0) =~= trimmed_rest.filter(
                |t: Seq<char>| t.len() > 0,
            ));
            assert(ordered_slide_models(segs) =~= ordered_slide_models(rest));
        }
    }
}

/// Order preservation: the slide sequence of a document equals the
/// classified nonempty trimmed segments of the comment-filtered text, in
/// first-appearance order.
pub proof fn lemma_order_preserved(text: Seq<char>)
    ensures
        slides_of(text) == ordered_slide_models(split_segments(remove_comments(text))),
{
    lemma_order_preserved_segments(split_segments(remove_comments(text)));
}

} // verus!
