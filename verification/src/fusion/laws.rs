use vstd::prelude::*;
use crate::base::model::{BlockView, PageClass};
use crate::fusion::filters::{
    all_ocr_text_keep, best_quality, degraded_parser_keep, filter_cascade_spec,
    filter_degraded_parser_spec, filter_korean_ocr_spec, filter_low_quality_ocr_spec,
    filter_ocr_text_spec, filter_redundant_ocr_spec, keeps_parser_block, korean_ocr_keep,
    low_quality_keep, on_side, parser_reliable_spec, parser_text_boxes, redundant_ocr_keep,
    side_texts,
};
use crate::fusion::quality::korean_quality_spec;

verus! {

/// Every member of `t` is a member of `s`.
pub open spec fn drawn_from(t: Seq<BlockView>, s: Seq<BlockView>) -> bool {
    forall|x: BlockView| #[trigger] t.contains(x) ==> s.contains(x)
}

/// A filtered sequence holds exactly the members that satisfy the predicate.
pub proof fn lemma_filter_members<A>(s: Seq<A>, p: spec_fn(A) -> bool)
    ensures
        forall|x: A| #[trigger] s.filter(p).contains(x) <==> (s.contains(x) && p(x)),
    decreases s.len(),
{
    reveal(Seq::filter);
    if s.len() > 0 {
        let t = s.drop_last();
        let f = s.filter(p);
        let ft = t.filter(p);
        lemma_filter_members(t, p);
        assert forall|x: A| #[trigger] f.contains(x) <==> (s.contains(x) && p(x)) by {
            if s.contains(x) {
                let i = choose|i: int| 0 <= i < s.len() && s[i] == x;
                if i < t.len() {
                    assert(t[i] == x);
                }
            }
            if t.contains(x) {
                let i = choose|i: int| 0 <= i < t.len() && t[i] == x;
                assert(s[i] == x);
            }
            assert(s[s.len() - 1] == s.last());
            if p(s.last()) {
                assert(f == ft.push(s.last()));
                if f.contains(x) {
                    let i = choose|i: int| 0 <= i < f.len() && f[i] == x;
                    if i < ft.len() {
                        assert(ft[i] == x);
                    }
                }
                if ft.contains(x) {
                    let i = choose|i: int| 0 <= i < ft.len() && ft[i] == x;
                    assert(f[i] == x);
                }
                assert(f[ft.len() as int] == s.last());
            }
        }
    }
}

/// Filtering a sequence whose members all satisfy the predicate changes nothing.
pub proof fn lemma_filter_all_kept<A>(s: Seq<A>, p: spec_fn(A) -> bool)
    requires
        forall|i: int| 0 <= i < s.len() ==> p(#[trigger] s[i]),
    ensures
        s.filter(p) == s,
    decreases s.len(),
{
    reveal(Seq::filter);
    if s.len() > 0 {
        let t = s.drop_last();
        assert forall|i: int| 0 <= i < t.len() implies p(#[trigger] t[i]) by {
            assert(t[i] == s[i]);
        }
        lemma_filter_all_kept(t, p);
        assert(s[s.len() - 1] == s.last());
        assert(s.filter(p) =~= s);
    }
}

/// A filter that keeps every text block of one side keeps the texts of that side.
pub proof fn lemma_side_texts_kept(s: Seq<BlockView>, p: spec_fn(BlockView) -> bool, ocr_side: bool)
    requires
        forall|i: int| 0 <= i < s.len() && on_side(#[trigger] s[i], ocr_side) ==> p(s[i]),
    ensures
        side_texts(s.filter(p), ocr_side) == side_texts(s, ocr_side),
    decreases s.len(),
{
    reveal(Seq::filter);
    if s.len() > 0 {
        let t = s.drop_last();
        assert forall|i: int| 0 <= i < t.len() && on_side(#[trigger] t[i], ocr_side) implies p(
            t[i],
        ) by {
            assert(t[i] == s[i]);
        }
        lemma_side_texts_kept(t, p, ocr_side);
        assert(s[s.len() - 1] == s.last());
        if p(s.last()) {
            assert(t.filter(p).push(s.last()).drop_last() =~= t.filter(p));
        }
    }
}

/// A filter that keeps every text block of the parser side keeps their texts and boxes.
pub proof fn lemma_parser_boxes_kept(s: Seq<BlockView>, p: spec_fn(BlockView) -> bool)
    requires
        forall|i: int| 0 <= i < s.len() && on_side(#[trigger] s[i], false) ==> p(s[i]),
    ensures
        parser_text_boxes(s.filter(p)) == parser_text_boxes(s),
    decreases s.len(),
{
    reveal(Seq::filter);
    if s.len() > 0 {
        let t = s.drop_last();
        assert forall|i: int| 0 <= i < t.len() && on_side(#[trigger] t[i], false) implies p(
            t[i],
        ) by {
            assert(t[i] == s[i]);
        }
        lemma_parser_boxes_kept(t, p);
        assert(s[s.len() - 1] == s.last());
        if p(s.last()) {
            assert(t.filter(p).push(s.last()).drop_last() =~= t.filter(p));
        }
    }
}

/// The best quality is the quality of one of the texts, and no text has a higher one.
pub proof fn lemma_best_quality(texts: Seq<Seq<char>>)
    ensures
        best_quality(texts) is None <==> texts.len() == 0,
        best_quality(texts) matches Some(m) ==> {
            &&& exists|i: int| 0 <= i < texts.len() && korean_quality_spec(#[trigger] texts[i]) == m
            &&& forall|i: int|
                0 <= i < texts.len() ==> korean_quality_spec(#[trigger] texts[i]) <= m
        },
    decreases texts.len(),
{
    if texts.len() > 0 {
        let rest = texts.drop_last();
        lemma_best_quality(rest);
        let m = best_quality(texts)->0;
        let q = korean_quality_spec(texts.last());
        assert(texts[texts.len() - 1] == texts.last());
        if rest.len() > 0 {
            let i = choose|i: int|
                0 <= i < rest.len() && korean_quality_spec(#[trigger] rest[i]) == best_quality(
                    rest,
                )->0;
            assert(rest[i] == texts[i]);
        }
        assert forall|i: int| 0 <= i < texts.len() implies korean_quality_spec(
            #[trigger] texts[i],
        ) <= m by {
            if i < rest.len() {
                assert(rest[i] == texts[i]);
            }
        }
    }
}

/// The texts of a side are the texts of the text blocks of that side.
pub proof fn lemma_side_texts_members(s: Seq<BlockView>, ocr_side: bool)
    ensures
        forall|t: Seq<char>| #[trigger]
            side_texts(s, ocr_side).contains(t) <==> exists|x: BlockView|
                s.contains(x) && on_side(x, ocr_side) && #[trigger] x.text() == t,
    decreases s.len(),
{
    let texts = side_texts(s, ocr_side);
    if s.len() == 0 {
        assert forall|t: Seq<char>| #[trigger]
            texts.contains(t) <==> exists|x: BlockView|
                s.contains(x) && on_side(x, ocr_side) && #[trigger] x.text() == t by {}
    } else {
        let rest = s.drop_last();
        let rest_texts = side_texts(rest, ocr_side);
        lemma_side_texts_members(rest, ocr_side);
        assert(s[s.len() - 1] == s.last());
        assert forall|t: Seq<char>| #[trigger]
            texts.contains(t) <==> exists|x: BlockView|
                s.contains(x) && on_side(x, ocr_side) && #[trigger] x.text() == t by {
            if texts.contains(t) {
                let i = choose|i: int| 0 <= i < texts.len() && texts[i] == t;
                if on_side(s.last(), ocr_side) && i == rest_texts.len() {
                    assert(s.contains(s.last()) && s.last().text() == t);
                } else {
                    assert(rest_texts[i] == t);
                    assert(rest_texts.contains(t));
                    let x = choose|x: BlockView|
                        rest.contains(x) && on_side(x, ocr_side) && #[trigger] x.text() == t;
                    let j = choose|j: int| 0 <= j < rest.len() && rest[j] == x;
                    assert(s[j] == x);
                    assert(s.contains(x) && on_side(x, ocr_side) && x.text() == t);
                }
            }
            if exists|x: BlockView|
                s.contains(x) && on_side(x, ocr_side) && #[trigger] x.text() == t {
                let x = choose|x: BlockView|
                    s.contains(x) && on_side(x, ocr_side) && #[trigger] x.text() == t;
                let j = choose|j: int| 0 <= j < s.len() && s[j] == x;
                if j < rest.len() {
                    assert(rest[j] == x);
                    assert(rest.contains(x) && on_side(x, ocr_side) && x.text() == t);
                    assert(rest_texts.contains(t));
                    let i = choose|i: int| 0 <= i < rest_texts.len() && rest_texts[i] == t;
                    assert(texts[i] == t);
                } else {
                    assert(texts[texts.len() - 1] == t);
                }
            }
        }
    }
}

/// Among fewer blocks the best quality of a side is no higher.
pub proof fn lemma_best_quality_monotone(t: Seq<BlockView>, s: Seq<BlockView>, ocr_side: bool)
    requires
        drawn_from(t, s),
    ensures
        best_quality(side_texts(t, ocr_side)) matches Some(m) ==> (best_quality(
            side_texts(s, ocr_side),
        ) matches Some(n) && n >= m),
{
    let small = side_texts(t, ocr_side);
    let large = side_texts(s, ocr_side);
    lemma_best_quality(small);
    lemma_best_quality(large);
    lemma_side_texts_members(t, ocr_side);
    lemma_side_texts_members(s, ocr_side);
    if best_quality(small) is Some {
        let m = best_quality(small)->0;
        let i = choose|i: int| 0 <= i < small.len() && korean_quality_spec(#[trigger] small[i]) == m;
        let text = small[i];
        assert(small.contains(text));
        let x = choose|x: BlockView|
            t.contains(x) && on_side(x, ocr_side) && #[trigger] x.text() == text;
        assert(s.contains(x));
        assert(large.contains(text));
        let j = choose|j: int| 0 <= j < large.len() && large[j] == text;
        assert(korean_quality_spec(large[j]) <= best_quality(large)->0);
    }
}

/// Stage one drops nothing from what is drawn from one of its results.
pub proof fn lemma_degraded_stage_settled(y: Seq<BlockView>, blocks: Seq<BlockView>)
    requires
        drawn_from(y, filter_degraded_parser_spec(blocks)),
    ensures
        filter_degraded_parser_spec(y) == y,
{
    let keep = degraded_parser_keep(blocks);
    lemma_filter_members(blocks, keep);
    assert(drawn_from(y, blocks));
    lemma_best_quality_monotone(y, blocks, true);
    let again = degraded_parser_keep(y);
    assert forall|i: int| 0 <= i < y.len() implies again(#[trigger] y[i]) by {
        let x = y[i];
        assert(y.contains(x));
        assert(blocks.filter(keep).contains(x));
        assert(keep(x));
        assert(keeps_parser_block(x, side_texts(blocks, true)));
    }
    lemma_filter_all_kept(y, again);
}

/// The stages after the first keep every block that is not OCR text, and so
/// the texts and boxes of the parser side.
pub proof fn lemma_later_stage_keeps_parser_side(s: Seq<BlockView>, keep: spec_fn(BlockView) -> bool)
    requires
        forall|x: BlockView| !on_side(x, true) ==> #[trigger] keep(x),
    ensures
        side_texts(s.filter(keep), false) == side_texts(s, false),
        parser_text_boxes(s.filter(keep)) == parser_text_boxes(s),
{
    assert forall|i: int| 0 <= i < s.len() && on_side(#[trigger] s[i], false) implies keep(
        s[i],
    ) by {
        assert(!on_side(s[i], true));
    }
    lemma_side_texts_kept(s, keep, false);
    lemma_parser_boxes_kept(s, keep);
}

/// Stage one is idempotent.
pub proof fn lemma_degraded_stage_idempotent(blocks: Seq<BlockView>)
    ensures
        filter_degraded_parser_spec(filter_degraded_parser_spec(blocks))
            == filter_degraded_parser_spec(blocks),
{
    lemma_degraded_stage_settled(filter_degraded_parser_spec(blocks), blocks);
}

/// Stage two is idempotent.
pub proof fn lemma_redundant_stage_idempotent(blocks: Seq<BlockView>)
    ensures
        filter_redundant_ocr_spec(filter_redundant_ocr_spec(blocks)) == filter_redundant_ocr_spec(
            blocks,
        ),
{
    let keep = redundant_ocr_keep(blocks);
    let y = blocks.filter(keep);
    let again = redundant_ocr_keep(y);
    lemma_filter_members(blocks, keep);
    lemma_later_stage_keeps_parser_side(blocks, keep);
    assert forall|i: int| 0 <= i < y.len() implies again(#[trigger] y[i]) by {
        assert(y.contains(y[i]));
        assert(keep(y[i]));
    }
    lemma_filter_all_kept(y, again);
}

/// Stage three is idempotent.
pub proof fn lemma_low_quality_stage_idempotent(blocks: Seq<BlockView>, aggressive: bool)
    ensures
        filter_low_quality_ocr_spec(filter_low_quality_ocr_spec(blocks, aggressive), aggressive)
            == filter_low_quality_ocr_spec(blocks, aggressive),
{
    let keep = low_quality_keep(aggressive);
    let y = blocks.filter(keep);
    lemma_filter_members(blocks, keep);
    assert forall|i: int| 0 <= i < y.len() implies keep(#[trigger] y[i]) by {
        assert(y.contains(y[i]));
    }
    lemma_filter_all_kept(y, keep);
}

/// Stage four is idempotent.
pub proof fn lemma_korean_stage_idempotent(blocks: Seq<BlockView>)
    ensures
        filter_korean_ocr_spec(filter_korean_ocr_spec(blocks)) == filter_korean_ocr_spec(blocks),
{
    let keep = korean_ocr_keep(blocks);
    let y = blocks.filter(keep);
    let again = korean_ocr_keep(y);
    lemma_filter_members(blocks, keep);
    lemma_later_stage_keeps_parser_side(blocks, keep);
    assert forall|i: int| 0 <= i < y.len() implies again(#[trigger] y[i]) by {
        assert(y.contains(y[i]));
        assert(keep(y[i]));
    }
    lemma_filter_all_kept(y, again);
}

/// Stage five is idempotent.
pub proof fn lemma_ocr_text_stage_idempotent(s: Seq<BlockView>, page_class: PageClass)
    ensures
        filter_ocr_text_spec(filter_ocr_text_spec(s, page_class), page_class)
            == filter_ocr_text_spec(s, page_class),
{
    let keep = all_ocr_text_keep(s, page_class);
    let y = s.filter(keep);
    let again = all_ocr_text_keep(y, page_class);
    lemma_filter_members(s, keep);
    if page_class != PageClass::Scanned && parser_reliable_spec(s) {
        assert forall|i: int| 0 <= i < y.len() implies again(#[trigger] y[i]) by {
            assert(y.contains(y[i]));
            assert(keep(y[i]));
        }
    } else {
        assert forall|i: int| 0 <= i < s.len() implies keep(#[trigger] s[i]) by {}
        lemma_filter_all_kept(s, keep);
        assert(y == s);
        assert forall|i: int| 0 <= i < y.len() implies again(#[trigger] y[i]) by {}
    }
    lemma_filter_all_kept(y, again);
}

/// The filter cascade is idempotent: a page that has passed the cascade of
/// its class passes it again unchanged.
pub proof fn lemma_filter_cascade_idempotent(blocks: Seq<BlockView>, page_class: PageClass)
    ensures
        filter_cascade_spec(filter_cascade_spec(blocks, page_class), page_class)
            == filter_cascade_spec(blocks, page_class),
{
    let s1 = filter_degraded_parser_spec(blocks);
    match page_class {
        PageClass::Scanned => {
            let keep3 = low_quality_keep(false);
            let y = s1.filter(keep3);
            lemma_filter_members(s1, keep3);
            assert(drawn_from(y, s1));
            lemma_degraded_stage_settled(y, blocks);
            assert forall|i: int| 0 <= i < y.len() implies keep3(#[trigger] y[i]) by {
                assert(y.contains(y[i]));
            }
            lemma_filter_all_kept(y, keep3);
        },
        _ => {
            let keep2 = redundant_ocr_keep(s1);
            let s2 = s1.filter(keep2);
            let keep3 = low_quality_keep(true);
            let s3 = s2.filter(keep3);
            let keep4 = korean_ocr_keep(s3);
            let s4 = s3.filter(keep4);
            let keep5 = all_ocr_text_keep(s4, page_class);
            let y = s4.filter(keep5);
            assert(y == filter_cascade_spec(blocks, page_class));
            lemma_filter_members(s1, keep2);
            lemma_filter_members(s2, keep3);
            lemma_filter_members(s3, keep4);
            lemma_filter_members(s4, keep5);
            lemma_later_stage_keeps_parser_side(s1, keep2);
            lemma_later_stage_keeps_parser_side(s2, keep3);
            lemma_later_stage_keeps_parser_side(s3, keep4);
            lemma_later_stage_keeps_parser_side(s4, keep5);
            // stage one
            assert(drawn_from(y, s1));
            lemma_degraded_stage_settled(y, blocks);
            // stage two
            let again2 = redundant_ocr_keep(y);
            assert forall|i: int| 0 <= i < y.len() implies again2(#[trigger] y[i]) by {
                assert(y.contains(y[i]));
                assert(s2.contains(y[i]));
                assert(keep2(y[i]));
            }
            lemma_filter_all_kept(y, again2);
            assert(filter_redundant_ocr_spec(y) == y);
            // stage three
            assert forall|i: int| 0 <= i < y.len() implies keep3(#[trigger] y[i]) by {
                assert(y.contains(y[i]));
                assert(s3.contains(y[i]));
            }
            lemma_filter_all_kept(y, keep3);
            assert(filter_low_quality_ocr_spec(y, true) == y);
            // stage four
            let again4 = korean_ocr_keep(y);
            assert forall|i: int| 0 <= i < y.len() implies again4(#[trigger] y[i]) by {
                assert(y.contains(y[i]));
                assert(s4.contains(y[i]));
                assert(keep4(y[i]));
            }
            lemma_filter_all_kept(y, again4);
            assert(filter_korean_ocr_spec(y) == y);
            // stage five
            lemma_ocr_text_stage_idempotent(s4, page_class);
            assert(filter_ocr_text_spec(y, page_class) == y);
        },
    }
}

/// The cascade only drops blocks: what it returns is drawn from what it was given.
pub proof fn lemma_filter_cascade_drawn(blocks: Seq<BlockView>, page_class: PageClass)
    ensures
        drawn_from(filter_cascade_spec(blocks, page_class), blocks),
{
    let s1 = filter_degraded_parser_spec(blocks);
    lemma_filter_members(blocks, degraded_parser_keep(blocks));
    match page_class {
        PageClass::Scanned => {
            lemma_filter_members(s1, low_quality_keep(false));
        },
        _ => {
            let s2 = filter_redundant_ocr_spec(s1);
            let s3 = filter_low_quality_ocr_spec(s2, true);
            let s4 = filter_korean_ocr_spec(s3);
            lemma_filter_members(s1, redundant_ocr_keep(s1));
            lemma_filter_members(s2, low_quality_keep(true));
            lemma_filter_members(s3, korean_ocr_keep(s3));
            lemma_filter_members(s4, all_ocr_text_keep(s4, page_class));
        },
    }
}

} // verus!
