//! Pairing the sections of two images by name and deciding which pairs are
//! compared.

use vstd::prelude::*;
use crate::image::{Section, SectionKind, SectionView, image_view, section_wf, image_wf, first_match, find_section, lemma_first_match};
use crate::render::{Line, LineView, lines_view, dumpable, data_diff, diff_section_data};

verus! {

/// Every byte blob of the image can be dumped.
pub open spec fn image_dumpable(image: Seq<SectionView>) -> bool {
    forall|i: int|
        0 <= i < image.len() ==> match #[trigger] image[i].data {
            Some(d) => dumpable(d),
            None => true,
        }
}

/// The output for two same-named blobs: nothing where either is missing or
/// both are equal, else a notice followed by their aligned diff.
pub open spec fn blob_report(name: Seq<char>, da: Option<Seq<u8>>, db: Option<Seq<u8>>) -> Seq<
    LineView,
> {
    match (da, db) {
        (Some(x), Some(y)) => if x == y {
            seq![]
        } else {
            seq![LineView::SectionDiffers(name)] + data_diff(x, y)
        },
        _ => seq![],
    }
}

/// The output for a pair of same-named sections: a notice where their type
/// tags differ, a notice for note sections, else the comparison of their
/// bytes.
pub open spec fn pair_report(name: Seq<char>, sa: SectionView, sb: SectionView) -> Seq<LineView> {
    if sa.kind != sb.kind {
        seq![LineView::DifferentTypes(name)]
    } else if sa.kind == SectionKind::Note {
        seq![LineView::SkippingNote(name)]
    } else {
        blob_report(name, sa.data, sb.data)
    }
}

/// The output for one section of the first image: nothing where it has no
/// name or the second image has no section of that name, else the report
/// for it and the first section of that name.
pub open spec fn section_report(sa: SectionView, b: Seq<SectionView>) -> Seq<LineView> {
    match sa.name {
        None => seq![],
        Some(n) => match first_match(b, n) {
            None => seq![],
            Some(j) => pair_report(n, sa, b[j]),
        },
    }
}

/// The output for the first `n` sections of the first image.
pub open spec fn report_prefix(a: Seq<SectionView>, b: Seq<SectionView>, n: int) -> Seq<LineView>
    decreases n,
{
    if n <= 0 {
        seq![]
    } else {
        report_prefix(a, b, n - 1) + section_report(a[n - 1], b)
    }
}

/// The whole output: the first image's sections reported in order.
pub open spec fn report(a: Seq<SectionView>, b: Seq<SectionView>) -> Seq<LineView> {
    report_prefix(a, b, a.len() as int)
}

/// Whether every byte blob of the image is short enough to be dumped.
pub fn image_is_dumpable(image: &Vec<Section>) -> (r: bool)
    ensures
        r == image_dumpable(image_view(image@)),
{
    let ghost v = image_view(image@);
    let mut i: usize = 0;
    while i < image.len()
        invariant
            0 <= i <= image.len(),
            v == image_view(image@),
            forall|k: int|
                0 <= k < i ==> match #[trigger] v[k].data {
                    Some(d) => dumpable(d),
                    None => true,
                },
        decreases image.len() - i,
    {
        assert(v[i as int] == image@[i as int]@);
        if let Some(d) = &image[i].data {
            if d.len() as u64 >= 0x10_0000_0000u64 {
                assert(!dumpable(v[i as int].data->0));
                return false;
            }
        }
        i += 1;
    }
    assert(image_dumpable(v));
    true
}

/// Whether two byte blobs are equal in length and content.
pub fn bytes_equal(x: &[u8], y: &[u8]) -> (r: bool)
    ensures
        r == (x@ == y@),
{
    if x.len() != y.len() {
        return false;
    }
    let mut i: usize = 0;
    while i < x.len()
        invariant
            0 <= i <= x.len(),
            x.len() == y.len(),
            forall|k: int| 0 <= k < i ==> x@[k] == y@[k],
        decreases x.len() - i,
    {
        if x[i] != y[i] {
            return false;
        }
        i += 1;
    }
    assert(x@ =~= y@);
    true
}

/// Compares the bytes of two same-named sections. Only plain blobs are
/// compared: a section without one (a note section among them) yields
/// nothing.
pub fn diff_sections(name: &String, a: &Section, b: &Section) -> (r: Vec<Line>)
    requires
        section_wf(a@),
        section_wf(b@),
        match a@.data {
            Some(d) => dumpable(d),
            None => true,
        },
        match b@.data {
            Some(d) => dumpable(d),
            None => true,
        },
    ensures
        lines_view(r@) == blob_report(name@, a@.data, b@.data),
        a@.kind == SectionKind::Note || b@.kind == SectionKind::Note ==> r@.len() == 0,
{
    let x = match &a.data {
        Some(x) => x,
        None => return Vec::new(),
    };
    let y = match &b.data {
        Some(y) => y,
        None => return Vec::new(),
    };
    if bytes_equal(x.as_slice(), y.as_slice()) {
        return Vec::new();
    }
    let mut out: Vec<Line> = Vec::new();
    out.push(Line::SectionDiffers(name.clone()));
    let mut rest = diff_section_data(x.as_slice(), y.as_slice());
    out.append(&mut rest);
    assert(lines_view(out@) =~= blob_report(name@, a@.data, b@.data));
    out
}

/// Applies the type and category filters to a pair of same-named sections,
/// then compares what passes.
pub fn compare_pair(name: &String, a: &Section, b: &Section) -> (r: Vec<Line>)
    requires
        section_wf(a@),
        section_wf(b@),
        match a@.data {
            Some(d) => dumpable(d),
            None => true,
        },
        match b@.data {
            Some(d) => dumpable(d),
            None => true,
        },
    ensures
        lines_view(r@) == pair_report(name@, a@, b@),
{
    if a.kind != b.kind {
        let r = vec![Line::DifferentTypes(name.clone())];
        assert(lines_view(r@) =~= pair_report(name@, a@, b@));
        return r;
    }
    if a.kind == SectionKind::Note {
        let r = vec![Line::SkippingNote(name.clone())];
        assert(lines_view(r@) =~= pair_report(name@, a@, b@));
        return r;
    }
    diff_sections(name, a, b)
}

/// Compares two images: each section of `a`, in order, against the first
/// section of `b` with the same name.
pub fn compare_images(a: &Vec<Section>, b: &Vec<Section>) -> (r: Vec<Line>)
    requires
        image_wf(image_view(a@)),
        image_wf(image_view(b@)),
        image_dumpable(image_view(a@)),
        image_dumpable(image_view(b@)),
    ensures
        lines_view(r@) == report(image_view(a@), image_view(b@)),
{
    let ghost va = image_view(a@);
    let ghost vb = image_view(b@);
    let mut out: Vec<Line> = Vec::new();
    let mut i: usize = 0;
    while i < a.len()
        invariant
            0 <= i <= a.len(),
            va == image_view(a@),
            vb == image_view(b@),
            image_wf(va),
            image_wf(vb),
            image_dumpable(va),
            image_dumpable(vb),
            lines_view(out@) == report_prefix(va, vb, i as int),
        decreases a.len() - i,
    {
        let sa = &a[i];
        assert(va[i as int] == sa@);
        let mut part: Vec<Line> = match &sa.name {
            None => Vec::new(),
            Some(name) => match find_section(name, b) {
                None => Vec::new(),
                Some(j) => {
                    proof {
                        lemma_first_match(vb, name@);
                    }
                    assert(vb[j as int] == b@[j as int]@);
                    compare_pair(name, sa, &b[j])
                },
            },
        };
        assert(lines_view(part@) == section_report(va[i as int], vb));
        assert(lines_view(out@ + part@) =~= lines_view(out@) + lines_view(part@));
        out.append(&mut part);
        i += 1;
    }
    out
}

} // verus!
