//! General properties of the comparison, stated over the models of the
//! image, the matcher and the renderer.

use vstd::prelude::*;
use crate::image::{Section, SectionKind, SectionView, image_view, has_name, first_match, lemma_first_match};
use crate::render::{LineView, hex_line_ok, line_diff, paired, trailing, aligned_diff, data_diff};
use crate::matcher::{section_report, report_prefix, report, blob_report};

verus! {

/// No two sections of the image bear the same name.
pub open spec fn names_distinct(image: Seq<SectionView>) -> bool {
    forall|i: int, j: int|
        0 <= i < j < image.len() && (#[trigger] image[i]).name is Some ==> image[i].name
            != (#[trigger] image[j]).name
}

/// Comparing an image with itself, where no two of its sections share a
/// name, yields nothing but note-skipping notices: no "differs" notice and
/// no added or removed line.
pub proof fn lemma_identity(a: Seq<SectionView>)
    requires
        names_distinct(a),
    ensures
        forall|k: int| 0 <= k < report(a, a).len() ==> (#[trigger] report(a, a)[k]) is SkippingNote,
{
    lemma_identity_prefix(a, a.len() as int);
}

proof fn lemma_identity_prefix(a: Seq<SectionView>, n: int)
    requires
        names_distinct(a),
        0 <= n <= a.len(),
    ensures
        forall|k: int|
            0 <= k < report_prefix(a, a, n).len() ==> (#[trigger] report_prefix(a, a, n)[k]) is SkippingNote,
    decreases n,
{
    if n > 0 {
        lemma_identity_prefix(a, n - 1);
        let s = a[n - 1];
        if let Some(name) = s.name {
            lemma_first_match(a, name);
            let j = first_match(a, name)->0;
            if j != n - 1 {
                if j < n - 1 {
                    assert(a[j].name != a[n - 1].name);
                } else {
                    assert(!has_name(a[n - 1], name));
                }
            }
        }
        let p = report_prefix(a, a, n - 1);
        let q = section_report(s, a);
        assert forall|k: int| 0 <= k < report_prefix(a, a, n).len() implies (#[trigger] report_prefix(
            a,
            a,
            n,
        )[k]) is SkippingNote by {
            if k >= p.len() {
                assert(report_prefix(a, a, n)[k] == q[k - p.len()]);
            } else {
                assert(report_prefix(a, a, n)[k] == p[k]);
            }
        }
    }
}

/// A note section whose counterpart is a note section too yields only a
/// note-skipping notice, whatever the two hold.
pub proof fn lemma_note_suppressed(sa: SectionView, b: Seq<SectionView>, name: Seq<char>, j: int)
    requires
        sa.name == Some(name),
        sa.kind == SectionKind::Note,
        first_match(b, name) == Some(j),
        b[j].kind == SectionKind::Note,
    ensures
        section_report(sa, b) == seq![LineView::SkippingNote(name)],
{
}

/// Same-named sections with different type tags yield only a notice of the
/// mismatch, whatever the two hold.
pub proof fn lemma_type_mismatch_suppressed(
    sa: SectionView,
    b: Seq<SectionView>,
    name: Seq<char>,
    j: int,
)
    requires
        sa.name == Some(name),
        first_match(b, name) == Some(j),
        b[j].kind != sa.kind,
    ensures
        section_report(sa, b) == seq![LineView::DifferentTypes(name)],
{
}

/// A section of the first image that the second image has no section of the
/// same name for yields no output at all.
pub proof fn lemma_unmatched_silent(sa: SectionView, b: Seq<SectionView>)
    requires
        forall|k: int| 0 <= k < b.len() ==> b[k].name != sa.name,
    ensures
        section_report(sa, b) == Seq::<LineView>::empty(),
{
    if let Some(name) = sa.name {
        lemma_first_match(b, name);
        if let Some(j) = first_match(b, name) {
            assert(b[j].name != sa.name);
        }
    }
}

/// A section that only the second image has (no section of the first image
/// bears its name) does not change the output, wherever it stands.
pub proof fn lemma_second_only_ignored(
    a: Seq<SectionView>,
    b: Seq<SectionView>,
    k: int,
    s: SectionView,
)
    requires
        0 <= k <= b.len(),
        forall|i: int| 0 <= i < a.len() && (#[trigger] a[i]).name is Some ==> a[i].name != s.name,
    ensures
        report(a, b.insert(k, s)) == report(a, b),
{
    lemma_second_only_prefix(a, b, k, s, a.len() as int);
}

/// An index holding the name, with none before it, is the first match.
proof fn lemma_first_match_at(image: Seq<SectionView>, name: Seq<char>, j: int)
    requires
        0 <= j < image.len(),
        has_name(image[j], name),
        forall|i: int| 0 <= i < j ==> !has_name(#[trigger] image[i], name),
    ensures
        first_match(image, name) == Some(j),
{
    lemma_first_match(image, name);
    if let Some(m) = first_match(image, name) {
        if m < j {
            assert(!has_name(image[m], name));
        } else if m > j {
            assert(!has_name(image[j], name));
        }
    } else {
        assert(!has_name(image[j], name));
    }
}

/// Inserting a section of another name moves the first match but keeps the
/// section it finds.
proof fn lemma_insert_other_name(b: Seq<SectionView>, k: int, s: SectionView, name: Seq<char>)
    requires
        0 <= k <= b.len(),
        !has_name(s, name),
    ensures
        match first_match(b, name) {
            None => first_match(b.insert(k, s), name) is None,
            Some(j) => first_match(b.insert(k, s), name) matches Some(m) && b.insert(k, s)[m]
                == b[j],
        },
{
    let bi = b.insert(k, s);
    lemma_first_match(b, name);
    lemma_first_match(bi, name);
    if let Some(j) = first_match(b, name) {
        if j < k {
            assert forall|i: int| 0 <= i < j implies !has_name(#[trigger] bi[i], name) by {
                assert(bi[i] == b[i]);
            }
            lemma_first_match_at(bi, name, j);
        } else {
            assert forall|i: int| 0 <= i < j + 1 implies !has_name(#[trigger] bi[i], name) by {
                if i < k {
                    assert(bi[i] == b[i]);
                } else if i > k {
                    assert(bi[i] == b[i - 1]);
                }
            }
            lemma_first_match_at(bi, name, j + 1);
        }
    } else {
        if let Some(m) = first_match(bi, name) {
            if m < k {
                assert(bi[m] == b[m]);
            } else if m > k {
                assert(bi[m] == b[m - 1]);
            }
        }
    }
}

proof fn lemma_second_only_prefix(
    a: Seq<SectionView>,
    b: Seq<SectionView>,
    k: int,
    s: SectionView,
    n: int,
)
    requires
        0 <= k <= b.len(),
        forall|i: int| 0 <= i < a.len() && (#[trigger] a[i]).name is Some ==> a[i].name != s.name,
        0 <= n <= a.len(),
    ensures
        report_prefix(a, b.insert(k, s), n) == report_prefix(a, b, n),
    decreases n,
{
    if n > 0 {
        lemma_second_only_prefix(a, b, k, s, n - 1);
        if let Some(name) = a[n - 1].name {
            lemma_insert_other_name(b, k, s, name);
        }
    }
}

/// Where the first side has no more hex lines than the second, each of the
/// second side's surplus lines comes out as one added line, after the diffs
/// of the aligned pairs.
pub proof fn lemma_surplus_added(la: Seq<Seq<char>>, lb: Seq<Seq<char>>)
    requires
        la.len() <= lb.len(),
        forall|k: int| 0 <= k < lb.len() ==> hex_line_ok(#[trigger] lb[k]),
    ensures
        aligned_diff(la, lb) == paired(la, lb, la.len() as int) + Seq::new(
            (lb.len() - la.len()) as nat,
            |k: int| LineView::Added(lb[la.len() + k]),
        ),
{
    lemma_trailing_added(lb, la.len() as int, lb.len() as int);
}

proof fn lemma_trailing_added(lb: Seq<Seq<char>>, from: int, to: int)
    requires
        0 <= from <= to <= lb.len(),
        forall|k: int| 0 <= k < lb.len() ==> hex_line_ok(#[trigger] lb[k]),
    ensures
        trailing(lb, from, to) == Seq::new((to - from) as nat, |k: int| LineView::Added(lb[from + k])),
    decreases to - from,
{
    if to > from {
        lemma_trailing_added(lb, from, to - 1);
        assert(hex_line_ok(lb[to - 1]));
        assert(line_diff(seq![], lb[to - 1]) =~= seq![LineView::Added(lb[to - 1])]);
        assert(trailing(lb, from, to) =~= Seq::new(
            (to - from) as nat,
            |k: int| LineView::Added(lb[from + k]),
        ));
    } else {
        assert(trailing(lb, from, to) =~= Seq::new(
            (to - from) as nat,
            |k: int| LineView::Added(lb[from + k]),
        ));
    }
}

/// Where the first side has more hex lines than the second, its surplus
/// lines are never shown: the output is that of its first lines alone.
pub proof fn lemma_surplus_dropped(la: Seq<Seq<char>>, lb: Seq<Seq<char>>)
    requires
        la.len() > lb.len(),
    ensures
        aligned_diff(la, lb) == aligned_diff(la.subrange(0, lb.len() as int), lb),
{
    let lc = la.subrange(0, lb.len() as int);
    lemma_paired_prefix(la, lc, lb, lb.len() as int);
    assert(trailing(lb, lb.len() as int, lb.len() as int) =~= Seq::<LineView>::empty());
    assert(aligned_diff(lc, lb) =~= paired(lc, lb, lb.len() as int));
}

proof fn lemma_paired_prefix(la: Seq<Seq<char>>, lc: Seq<Seq<char>>, lb: Seq<Seq<char>>, n: int)
    requires
        0 <= n <= la.len(),
        n <= lc.len(),
        forall|k: int| 0 <= k < n ==> la[k] == lc[k],
    ensures
        paired(la, lb, n) == paired(lc, lb, n),
    decreases n,
{
    if n > 0 {
        lemma_paired_prefix(la, lc, lb, n - 1);
    }
}

/// A line set against an equal line yields no output: unchanged lines are
/// never shown.
pub proof fn lemma_equal_lines_silent(a: Seq<char>)
    ensures
        line_diff(a, a) == Seq::<LineView>::empty(),
{
}

/// The output for a pair of lines depends on their texts alone.
pub proof fn lemma_line_diff_deterministic(a1: Seq<char>, b1: Seq<char>, a2: Seq<char>, b2: Seq<char>)
    requires
        a1 == a2,
        b1 == b2,
    ensures
        line_diff(a1, b1) == line_diff(a2, b2),
{
}

/// A line list aligned against itself yields no output.
pub proof fn lemma_equal_line_lists_silent(la: Seq<Seq<char>>)
    ensures
        aligned_diff(la, la) == Seq::<LineView>::empty(),
{
    lemma_paired_self(la, la.len() as int);
    assert(trailing(la, la.len() as int, la.len() as int) =~= Seq::<LineView>::empty());
    assert(aligned_diff(la, la) =~= Seq::<LineView>::empty());
}

proof fn lemma_paired_self(la: Seq<Seq<char>>, n: int)
    requires
        0 <= n <= la.len(),
    ensures
        paired(la, la, n) == Seq::<LineView>::empty(),
    decreases n,
{
    if n > 0 {
        lemma_paired_self(la, n - 1);
        assert(paired(la, la, n) =~= Seq::<LineView>::empty());
    }
}

/// Two equal blobs yield no output, neither a notice nor a diff, and the
/// aligned diff of a blob's dump with itself is empty too.
pub proof fn lemma_equal_blobs_silent(name: Seq<char>, x: Seq<u8>)
    ensures
        blob_report(name, Some(x), Some(x)) == Seq::<LineView>::empty(),
        data_diff(x, x) == Seq::<LineView>::empty(),
{
    lemma_equal_line_lists_silent(crate::render::hexdump_lines_of(x));
}

/// The output depends on the sections' values alone: two runs on images
/// with the same sections give the same lines.
pub proof fn lemma_deterministic(a1: Seq<Section>, b1: Seq<Section>, a2: Seq<Section>, b2: Seq<Section>)
    requires
        image_view(a1) == image_view(a2),
        image_view(b1) == image_view(b2),
    ensures
        report(image_view(a1), image_view(b1)) == report(image_view(a2), image_view(b2)),
{
}

} // verus!
