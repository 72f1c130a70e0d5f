//! The object image model: an ordered list of named, typed sections.

use vstd::prelude::*;

verus! {

/// The type tag of a section.
#[derive(Clone, Copy, Debug, PartialEq, Eq, Structural)]
pub enum SectionKind {
    /// Program data: an uninterpreted byte blob.
    Generic,
    /// A note section.
    Note,
    /// Any other tag, carried as its raw value. Some of these (shared
    /// library, OS-, processor- and user-specific types) hold plain blobs
    /// too, and are compared like `Generic` sections.
    Other(u32),
}

/// One section of an object image.
///
/// `name` is `None` where the name could not be resolved. `data` being
/// `Some` is what marks the contents as a plain byte blob: it is `None`
/// where the contents are interpreted (symbols, strings, notes, ...) or
/// could not be read. A note section never holds a blob (see `section_wf`).
#[derive(Clone, Debug, PartialEq, Eq)]
pub struct Section {
    pub name: Option<String>,
    pub kind: SectionKind,
    pub data: Option<Vec<u8>>,
}

/// The mathematical value of a section.
pub struct SectionView {
    pub name: Option<Seq<char>>,
    pub kind: SectionKind,
    pub data: Option<Seq<u8>>,
}

impl View for Section {
    type V = SectionView;

    open spec fn view(&self) -> SectionView {
        SectionView {
            name: match self.name {
                Some(n) => Some(n@),
                None => None,
            },
            kind: self.kind,
            data: match self.data {
                Some(d) => Some(d@),
                None => None,
            },
        }
    }
}

/// A well-formed section: a note section never holds a plain blob.
pub open spec fn section_wf(s: SectionView) -> bool {
    s.kind == SectionKind::Note ==> s.data is None
}

/// Every section of the image is well-formed.
pub open spec fn image_wf(image: Seq<SectionView>) -> bool {
    forall|i: int| 0 <= i < image.len() ==> section_wf(#[trigger] image[i])
}

/// The value of a whole image: its sections in order.
pub open spec fn image_view(image: Seq<Section>) -> Seq<SectionView> {
    image.map_values(|s: Section| s@)
}

/// Whether section `s` bears the name `name`.
pub open spec fn has_name(s: SectionView, name: Seq<char>) -> bool {
    s.name == Some(name)
}

/// The index of the first section of `image` named `name`, if any.
pub open spec fn first_match(image: Seq<SectionView>, name: Seq<char>) -> Option<int>
    decreases image.len(),
{
    if image.len() == 0 {
        None
    } else {
        match first_match(image.drop_last(), name) {
            Some(i) => Some(i),
            None => if has_name(image.last(), name) {
                Some(image.len() - 1)
            } else {
                None
            },
        }
    }
}

/// `first_match` finds exactly the first section with the name.
pub proof fn lemma_first_match(image: Seq<SectionView>, name: Seq<char>)
    ensures
        match first_match(image, name) {
            Some(j) => 0 <= j < image.len() && has_name(image[j], name) && forall|k: int|
                0 <= k < j ==> !has_name(#[trigger] image[k], name),
            None => forall|k: int| 0 <= k < image.len() ==> !has_name(#[trigger] image[k], name),
        },
    decreases image.len(),
{
    if image.len() > 0 {
        lemma_first_match(image.drop_last(), name);
        assert forall|k: int| 0 <= k < image.len() - 1 implies image.drop_last()[k] == image[k] by {}
    }
}

/// Finds the first section of `image` whose name is `name`; sections whose
/// name did not resolve never match.
pub fn find_section(name: &String, image: &Vec<Section>) -> (r: Option<usize>)
    ensures
        match r {
            Some(j) => first_match(image_view(image@), name@) == Some(j as int),
            None => first_match(image_view(image@), name@) is None,
        },
{
    let ghost v = image_view(image@);
    let mut i: usize = 0;
    while i < image.len()
        invariant
            0 <= i <= image.len(),
            v == image_view(image@),
            first_match(v.subrange(0, i as int), name@) is None,
        decreases image.len() - i,
    {
        proof {
            assert(v.subrange(0, i + 1).drop_last() =~= v.subrange(0, i as int));
        }
        let hit = match &image[i].name {
            Some(n) => *n == *name,
            None => false,
        };
        if hit {
            proof {
                assert(v.subrange(0, image@.len() as int) =~= v);
                lemma_prefix_match(v, name@, i as int + 1);
            }
            return Some(i);
        }
        i += 1;
    }
    proof {
        assert(v.subrange(0, i as int) =~= v);
    }
    None
}

/// Whether every section of the image is well-formed.
pub fn image_well_formed(image: &Vec<Section>) -> (r: bool)
    ensures
        r == image_wf(image_view(image@)),
{
    let ghost v = image_view(image@);
    let mut i: usize = 0;
    while i < image.len()
        invariant
            0 <= i <= image.len(),
            v == image_view(image@),
            forall|k: int| 0 <= k < i ==> section_wf(#[trigger] v[k]),
        decreases image.len() - i,
    {
        assert(v[i as int] == image@[i as int]@);
        if image[i].kind == SectionKind::Note && image[i].data.is_some() {
            assert(!section_wf(v[i as int]));
            return false;
        }
        i += 1;
    }
    true
}

/// A match within a prefix is the match of the whole image.
pub proof fn lemma_prefix_match(image: Seq<SectionView>, name: Seq<char>, n: int)
    requires
        0 <= n <= image.len(),
        first_match(image.subrange(0, n), name) is Some,
    ensures
        first_match(image, name) == first_match(image.subrange(0, n), name),
    decreases image.len() - n,
{
    if n < image.len() {
        assert(image.subrange(0, n + 1).drop_last() =~= image.subrange(0, n));
        lemma_prefix_match(image, name, n + 1);
    } else {
        assert(image.subrange(0, n) =~= image);
    }
}

} // verus!
