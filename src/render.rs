//! Turning two byte blobs into an aligned list of added and removed hex lines.

use vstd::prelude::*;

verus! {

/// One line of the comparison's output.
#[derive(Clone, Debug, PartialEq, Eq)]
pub enum Line {
    /// The named section's bytes differ.
    SectionDiffers(String),
    /// The named section has another type tag in the second image.
    DifferentTypes(String),
    /// The named section is a note section and is not compared.
    SkippingNote(String),
    /// A hex line of the first image that the second lacks (shown in red).
    Removed(String),
    /// A hex line of the second image that the first lacks (shown in green).
    Added(String),
}

/// The mathematical value of an output line.
pub enum LineView {
    SectionDiffers(Seq<char>),
    DifferentTypes(Seq<char>),
    SkippingNote(Seq<char>),
    Removed(Seq<char>),
    Added(Seq<char>),
}

impl View for Line {
    type V = LineView;

    open spec fn view(&self) -> LineView {
        match self {
            Line::SectionDiffers(s) => LineView::SectionDiffers(s@),
            Line::DifferentTypes(s) => LineView::DifferentTypes(s@),
            Line::SkippingNote(s) => LineView::SkippingNote(s@),
            Line::Removed(s) => LineView::Removed(s@),
            Line::Added(s) => LineView::Added(s@),
        }
    }
}

/// The value of a list of output lines.
pub open spec fn lines_view(lines: Seq<Line>) -> Seq<LineView> {
    lines.map_values(|l: Line| l@)
}

/// One record of a line-level edit script.
#[derive(Clone, Debug, PartialEq, Eq)]
pub enum Change {
    Same(String),
    Add(String),
    Remove(String),
}

/// The mathematical value of an edit record.
pub enum ChangeView {
    Same(Seq<char>),
    Add(Seq<char>),
    Remove(Seq<char>),
}

impl View for Change {
    type V = ChangeView;

    open spec fn view(&self) -> ChangeView {
        match self {
            Change::Same(s) => ChangeView::Same(s@),
            Change::Add(s) => ChangeView::Add(s@),
            Change::Remove(s) => ChangeView::Remove(s@),
        }
    }
}

/// Whether `s` is a single line: it holds no line break.
pub open spec fn single_line(s: Seq<char>) -> bool {
    forall|i: int| 0 <= i < s.len() ==> s[i] != '\n'
}

/// The edit script between two one-line texts: nothing, or the common line,
/// when they agree; otherwise the removal of the first and the addition of
/// the second, where either is not empty.
pub open spec fn single_line_changes(a: Seq<char>, b: Seq<char>) -> Seq<ChangeView> {
    if a == b {
        if a.len() == 0 {
            seq![]
        } else {
            seq![ChangeView::Same(a)]
        }
    } else {
        (if a.len() == 0 {
            Seq::<ChangeView>::empty()
        } else {
            seq![ChangeView::Remove(a)]
        }) + (if b.len() == 0 {
            Seq::<ChangeView>::empty()
        } else {
            seq![ChangeView::Add(b)]
        })
    }
}

/// Relies on difference::Changeset::new, splitting on "\n": for one-line
/// texts its edit script is the one `single_line_changes` gives.
#[verifier::external_body]
fn line_changes(a: &str, b: &str) -> (r: Vec<Change>)
    requires
        single_line(a@),
        single_line(b@),
    ensures
        r@.map_values(|c: Change| c@) == single_line_changes(a@, b@),
{
    difference::Changeset::new(a, b, "\n").diffs.into_iter().map(|d| match d {
        difference::Difference::Same(x) => Change::Same(x),
        difference::Difference::Add(x) => Change::Add(x),
        difference::Difference::Rem(x) => Change::Remove(x),
    }).collect()
}

/// The output lines of an edit script: its additions and removals, in order.
pub open spec fn rendered(changes: Seq<ChangeView>) -> Seq<LineView>
    decreases changes.len(),
{
    if changes.len() == 0 {
        seq![]
    } else {
        rendered(changes.drop_last()) + match changes.last() {
            ChangeView::Same(_) => Seq::<LineView>::empty(),
            ChangeView::Add(s) => seq![LineView::Added(s)],
            ChangeView::Remove(s) => seq![LineView::Removed(s)],
        }
    }
}

/// The output for one aligned pair of hex lines: nothing where they agree,
/// else the first line as removed and the second as added, each only where
/// it is not empty.
pub open spec fn line_diff(a: Seq<char>, b: Seq<char>) -> Seq<LineView> {
    if a == b {
        seq![]
    } else {
        (if a.len() == 0 {
            Seq::<LineView>::empty()
        } else {
            seq![LineView::Removed(a)]
        }) + (if b.len() == 0 {
            Seq::<LineView>::empty()
        } else {
            seq![LineView::Added(b)]
        })
    }
}

/// Keeping the additions and removals of a one-line edit script gives
/// `line_diff`.
proof fn lemma_rendered_single_line(a: Seq<char>, b: Seq<char>)
    ensures
        rendered(single_line_changes(a, b)) == line_diff(a, b),
{
    let s = single_line_changes(a, b);
    reveal_with_fuel(rendered, 3);
    if s.len() == 2 {
        assert(s.drop_last() =~= seq![s[0]]);
        assert(s.drop_last().drop_last() =~= Seq::<ChangeView>::empty());
    } else if s.len() == 1 {
        assert(s.drop_last() =~= Seq::<ChangeView>::empty());
    }
    assert(rendered(s) =~= line_diff(a, b));
}

/// Diffs two one-line texts and keeps the additions and removals.
pub fn diff_lines(a: &str, b: &str) -> (r: Vec<Line>)
    requires
        single_line(a@),
        single_line(b@),
    ensures
        lines_view(r@) == line_diff(a@, b@),
{
    let changes = line_changes(a, b);
    let ghost cv = changes@.map_values(|c: Change| c@);
    let mut out: Vec<Line> = Vec::new();
    let mut i: usize = 0;
    while i < changes.len()
        invariant
            0 <= i <= changes.len(),
            cv == changes@.map_values(|c: Change| c@),
            lines_view(out@) == rendered(cv.subrange(0, i as int)),
        decreases changes.len() - i,
    {
        proof {
            assert(cv.subrange(0, i + 1).drop_last() =~= cv.subrange(0, i as int));
        }
        match &changes[i] {
            Change::Same(_) => {},
            Change::Add(x) => {
                out.push(Line::Added(x.clone()));
            },
            Change::Remove(x) => {
                out.push(Line::Removed(x.clone()));
            },
        }
        proof {
            assert(lines_view(out@) =~= rendered(cv.subrange(0, i + 1)));
        }
        i += 1;
    }
    proof {
        assert(cv.subrange(0, i as int) =~= cv);
        lemma_rendered_single_line(a@, b@);
    }
    out
}

} // verus!

verus! {

/// The lines that a hex dump of `data` consists of.
pub uninterp spec fn hexdump_lines_of(data: Seq<u8>) -> Seq<Seq<char>>;

/// Whether a blob is short enough to be dumped: each dump line holds at most
/// 64 bytes, which leaves room for offsets of up to nine hex digits.
pub open spec fn dumpable(data: Seq<u8>) -> bool {
    data.len() < 0x10_0000_0000
}

/// A well-formed dump line: not empty, and printable ASCII only.
pub open spec fn hex_line_ok(line: Seq<char>) -> bool {
    line.len() > 0 && forall|i: int| 0 <= i < line.len() ==> ' ' <= #[trigger] line[i] <= '~'
}

/// Relies on hexdump::hexdump_iter: one line per 16-byte window and a final
/// summary line, each of them non-empty printable ASCII.
#[verifier::external_body]
fn hexdump_lines(data: &[u8]) -> (r: Vec<String>)
    requires
        dumpable(data@),
    ensures
        r@.map_values(|s: String| s@) == hexdump_lines_of(data@),
        r@.len() == (data@.len() + 15) / 16 + 1,
        forall|i: int| 0 <= i < r@.len() ==> hex_line_ok(#[trigger] r@[i]@),
{
    hexdump::hexdump_iter(data).map(|l| l.to_string()).collect()
}

/// The output for the first `n` aligned line pairs.
pub open spec fn paired(la: Seq<Seq<char>>, lb: Seq<Seq<char>>, n: int) -> Seq<LineView>
    decreases n,
{
    if n <= 0 {
        seq![]
    } else {
        paired(la, lb, n - 1) + line_diff(la[n - 1], lb[n - 1])
    }
}

/// The output for the second side's lines `from..to`, each set against an
/// empty line.
pub open spec fn trailing(lb: Seq<Seq<char>>, from: int, to: int) -> Seq<LineView>
    decreases to - from,
{
    if to <= from {
        seq![]
    } else {
        trailing(lb, from, to - 1) + line_diff(seq![], lb[to - 1])
    }
}

/// The aligned diff of two line lists: lines at equal positions are diffed
/// while both sides have one; the first side's surplus is dropped, and the
/// second side's surplus is diffed against empty lines.
pub open spec fn aligned_diff(la: Seq<Seq<char>>, lb: Seq<Seq<char>>) -> Seq<LineView> {
    if la.len() <= lb.len() {
        paired(la, lb, la.len() as int) + trailing(lb, la.len() as int, lb.len() as int)
    } else {
        paired(la, lb, lb.len() as int)
    }
}

/// The aligned diff of the hex dumps of two blobs.
pub open spec fn data_diff(a: Seq<u8>, b: Seq<u8>) -> Seq<LineView> {
    aligned_diff(hexdump_lines_of(a), hexdump_lines_of(b))
}

proof fn lemma_lines_view_append(x: Seq<Line>, y: Seq<Line>)
    ensures
        lines_view(x + y) == lines_view(x) + lines_view(y),
{
    assert(lines_view(x + y) =~= lines_view(x) + lines_view(y));
}

proof fn lemma_printable_single_line(line: Seq<char>)
    requires
        hex_line_ok(line),
    ensures
        single_line(line),
{
    assert forall|i: int| 0 <= i < line.len() implies line[i] != '\n' by {
        assert(' ' <= line[i]);
    }
}

/// The values of a list of text lines.
pub open spec fn texts_view(lines: Seq<String>) -> Seq<Seq<char>> {
    lines.map_values(|s: String| s@)
}

/// Diffs two lists of one-line texts position by position, as
/// `aligned_diff` describes.
pub fn diff_hex_lines(la: &Vec<String>, lb: &Vec<String>) -> (r: Vec<Line>)
    requires
        forall|k: int| 0 <= k < la@.len() ==> single_line(#[trigger] la@[k]@),
        forall|k: int| 0 <= k < lb@.len() ==> single_line(#[trigger] lb@[k]@),
    ensures
        lines_view(r@) == aligned_diff(texts_view(la@), texts_view(lb@)),
{
    let ghost va = texts_view(la@);
    let ghost vb = texts_view(lb@);
    let mut out: Vec<Line> = Vec::new();
    let mut i: usize = 0;
    while i < la.len() && i < lb.len()
        invariant
            0 <= i <= la.len(),
            i <= lb.len(),
            va == texts_view(la@),
            vb == texts_view(lb@),
            forall|k: int| 0 <= k < la@.len() ==> single_line(#[trigger] la@[k]@),
            forall|k: int| 0 <= k < lb@.len() ==> single_line(#[trigger] lb@[k]@),
            lines_view(out@) == paired(va, vb, i as int),
        decreases la.len() - i,
    {
        let mut part = diff_lines(la[i].as_str(), lb[i].as_str());
        proof {
            lemma_lines_view_append(out@, part@);
        }
        out.append(&mut part);
        i += 1;
    }
    let empty = String::new();
    let mut j: usize = la.len();
    while j < lb.len()
        invariant
            la.len() <= j <= lb.len() || (j == la.len() && j > lb.len()),
            i == if la.len() <= lb.len() { la.len() } else { lb.len() },
            vb == texts_view(lb@),
            va.len() == la.len(),
            empty@ == Seq::<char>::empty(),
            forall|k: int| 0 <= k < lb@.len() ==> single_line(#[trigger] lb@[k]@),
            lines_view(out@) == paired(va, vb, i as int) + trailing(vb, la.len() as int, j as int),
        decreases lb.len() - j,
    {
        proof {
            assert(single_line(empty@));
        }
        let mut part = diff_lines(empty.as_str(), lb[j].as_str());
        proof {
            lemma_lines_view_append(out@, part@);
        }
        out.append(&mut part);
        proof {
            assert(lines_view(out@) =~= paired(va, vb, i as int) + trailing(
                vb,
                la.len() as int,
                j + 1,
            ));
        }
        j += 1;
    }
    proof {
        if la.len() > lb.len() {
            assert(trailing(vb, la.len() as int, j as int) =~= Seq::<LineView>::empty());
        }
        assert(lines_view(out@) =~= aligned_diff(va, vb));
    }
    out
}

/// Renders the differences between two blobs as aligned hex-dump lines.
pub fn diff_section_data(a: &[u8], b: &[u8]) -> (r: Vec<Line>)
    requires
        dumpable(a@),
        dumpable(b@),
    ensures
        lines_view(r@) == data_diff(a@, b@),
        hexdump_lines_of(a@).len() == (a@.len() + 15) / 16 + 1,
        hexdump_lines_of(b@).len() == (b@.len() + 15) / 16 + 1,
        forall|k: int|
            0 <= k < hexdump_lines_of(a@).len() ==> hex_line_ok(#[trigger] hexdump_lines_of(a@)[k]),
        forall|k: int|
            0 <= k < hexdump_lines_of(b@).len() ==> hex_line_ok(#[trigger] hexdump_lines_of(b@)[k]),
        hexdump_lines_of(a@).len() <= hexdump_lines_of(b@).len() ==> lines_view(r@) == paired(
            hexdump_lines_of(a@),
            hexdump_lines_of(b@),
            hexdump_lines_of(a@).len() as int,
        ) + Seq::new(
            (hexdump_lines_of(b@).len() - hexdump_lines_of(a@).len()) as nat,
            |k: int| LineView::Added(hexdump_lines_of(b@)[hexdump_lines_of(a@).len() + k]),
        ),
{
    let la = hexdump_lines(a);
    let lb = hexdump_lines(b);
    let ghost va = texts_view(la@);
    let ghost vb = texts_view(lb@);
    assert forall|k: int| 0 <= k < va.len() implies hex_line_ok(#[trigger] va[k]) by {
        assert(hex_line_ok(la@[k]@));
    }
    assert forall|k: int| 0 <= k < vb.len() implies hex_line_ok(#[trigger] vb[k]) by {
        assert(hex_line_ok(lb@[k]@));
    }
    proof {
        if va.len() <= vb.len() {
            crate::laws::lemma_surplus_added(va, vb);
        }
    }
    assert forall|k: int| 0 <= k < la@.len() implies single_line(#[trigger] la@[k]@) by {
        lemma_printable_single_line(la@[k]@);
    }
    assert forall|k: int| 0 <= k < lb@.len() implies single_line(#[trigger] lb@[k]@) by {
        lemma_printable_single_line(lb@[k]@);
    }
    diff_hex_lines(&la, &lb)
}

} // verus!
