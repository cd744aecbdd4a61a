//! The font registry: metadata of every discovered face beside a slot that
//! holds the decoded font once it is known.
//!
//! Insertion only appends, so that an index handed to a consumer keeps
//! naming the same face. Decoded fonts can be dropped to bound memory; the
//! metadata stays.

use vstd::prelude::*;

use crate::errors::WrapperError;

verus! {

/// Where a discovered face comes from.
#[derive(Clone, Debug, PartialEq, Eq)]
pub enum FaceSource {
    /// A font file at this path.
    File(String),
    /// Bytes in memory, with no path to reload them from.
    Binary,
}

/// A face found while scanning font files.
pub struct DiscoveredFace<I> {
    /// Where the face's font file is.
    pub source: FaceSource,
    /// The face's index within its font collection.
    pub index: u32,
    /// What probing the face's data gave: `None` when the data could not be
    /// read, `Some(None)` when it holds no usable font, else its metadata.
    pub probe: Option<Option<I>>,
}

/// The decoded state of one slot.
pub enum FontState<F> {
    /// Not decoded yet, or dropped.
    Unloaded,
    /// Decoded, with the size of its data in bytes.
    Loaded { font: F, size: usize },
}

/// One face: where to load it from and, once known, the decoded font.
pub struct FontSlot<F> {
    /// The font file's path (empty for embedded fonts).
    pub path: String,
    /// The face's index within its font collection.
    pub index: u32,
    /// The decoded font, if known.
    pub state: FontState<F>,
    /// The font was bundled in memory and cannot be reloaded from a path.
    pub embedded: bool,
}

impl<F: Clone> FontSlot<F> {
    /// `b` is a copy of `a`, its font a clone.
    pub open spec fn copied(a: Self, b: Self) -> bool {
        &&& b.path == a.path
        &&& b.index == a.index
        &&& b.embedded == a.embedded
        &&& match (a.state, b.state) {
            (FontState::Unloaded, FontState::Unloaded) => true,
            (FontState::Loaded { font: x, size: s }, FontState::Loaded { font: y, size: t }) => s
                == t && cloned(x, y),
            _ => false,
        }
    }

    /// A copy of the slot.
    pub fn duplicate(&self) -> (r: Self)
        ensures
            Self::copied(*self, r),
    {
        let state = match &self.state {
            FontState::Unloaded => FontState::Unloaded,
            FontState::Loaded { font, size } => FontState::Loaded { font: font.clone(), size: *size },
        };
        FontSlot { path: self.path.clone(), index: self.index, state, embedded: self.embedded }
    }
}

/// A new slot for a face of a font file, not decoded.
pub open spec fn file_slot<F>(path: String, index: u32) -> FontSlot<F> {
    FontSlot { path, index, state: FontState::Unloaded, embedded: false }
}

/// The entries a scan of the first `n` faces appends, and the path of the
/// first face whose data could not be read, if any (the scan stops there).
pub open spec fn scan<I, F>(faces: Seq<DiscoveredFace<I>>, n: nat) -> (Seq<I>, Seq<FontSlot<F>>, Option<String>)
    decreases n,
{
    if n == 0 {
        (Seq::empty(), Seq::empty(), None)
    } else {
        let (infos, slots, failed) = scan::<I, F>(faces, (n - 1) as nat);
        if failed is Some {
            (infos, slots, failed)
        } else {
            let face = faces[n - 1];
            match face.source {
                FaceSource::Binary => (infos, slots, None),
                FaceSource::File(path) => match face.probe {
                    None => (infos, slots, Some(path)),
                    Some(None) => (infos, slots, None),
                    Some(Some(info)) => (infos.push(info), slots.push(file_slot(path, face.index)), None),
                },
            }
        }
    }
}

/// The decoded bytes held by the slots whose embedded flag is `embedded`.
pub open spec fn loaded_size<F>(slots: Seq<FontSlot<F>>, embedded: bool) -> int
    decreases slots.len(),
{
    if slots.len() == 0 {
        0
    } else {
        let rest = loaded_size(slots.drop_last(), embedded);
        let last = slots.last();
        if last.embedded == embedded {
            match last.state {
                FontState::Loaded { size, .. } => rest + size,
                FontState::Unloaded => rest,
            }
        } else {
            rest
        }
    }
}

/// `b` is `a` with the decoded fonts of the slots flagged `embedded` dropped.
pub open spec fn cleared<F>(a: Seq<FontSlot<F>>, b: Seq<FontSlot<F>>, embedded: bool) -> bool {
    &&& b.len() == a.len()
    &&& forall|j: int| 0 <= j < a.len() ==> {
        &&& (#[trigger] b[j]).path == a[j].path
        &&& b[j].index == a[j].index
        &&& b[j].embedded == a[j].embedded
        &&& if a[j].embedded == embedded {
            b[j].state is Unloaded
        } else {
            b[j].state == a[j].state
        }
    }
}

/// Metadata of every known face, and beside it the face's slot.
pub struct FontRegistry<I, F> {
    infos: Vec<I>,
    slots: Vec<FontSlot<F>>,
}

impl<I: Clone, F: Clone> FontRegistry<I, F> {
    /// The metadata, one entry per face.
    pub closed spec fn infos_view(&self) -> Seq<I> {
        self.infos@
    }

    /// The slots, at the indices of their metadata.
    pub closed spec fn slots_view(&self) -> Seq<FontSlot<F>> {
        self.slots@
    }

    /// Metadata and slots correspond one to one.
    pub open spec fn wf(&self) -> bool {
        self.infos_view().len() == self.slots_view().len()
    }

    /// An empty registry.
    pub fn new() -> (r: Self)
        ensures
            r.wf(),
            r.infos_view().len() == 0,
    {
        FontRegistry { infos: Vec::new(), slots: Vec::new() }
    }

    /// The number of faces.
    pub fn len(&self) -> (r: usize)
        requires
            self.wf(),
        ensures
            r == self.slots_view().len(),
    {
        self.slots.len()
    }

    /// Appends a face of a font file, not decoded, at a new index.
    pub fn push_face(&mut self, info: I, path: String, index: u32)
        requires
            old(self).wf(),
        ensures
            final(self).wf(),
            final(self).infos_view() == old(self).infos_view().push(info),
            final(self).slots_view() == old(self).slots_view().push(file_slot(path, index)),
    {
        self.infos.push(info);
        self.slots.push(FontSlot { path, index, state: FontState::Unloaded, embedded: false });
    }

    /// Appends a font bundled in memory, already decoded, at a new index.
    pub fn push_embedded(&mut self, info: I, font: F, size: usize, index: u32)
        requires
            old(self).wf(),
        ensures
            final(self).wf(),
            final(self).infos_view() == old(self).infos_view().push(info),
            final(self).slots_view() == old(self).slots_view().push(
                FontSlot {
                    path: final(self).slots_view().last().path,
                    index,
                    state: FontState::Loaded { font, size },
                    embedded: true,
                },
            ),
            final(self).slots_view().last().path@ == Seq::<char>::empty(),
    {
        self.infos.push(info);
        self.slots.push(
            FontSlot { path: String::new(), index, state: FontState::Loaded { font, size }, embedded: true },
        );
    }

    /// Appends the faces of a scan in order: faces held in memory are skipped,
    /// faces without a usable font too. A face whose data cannot be read ends
    /// the scan with an error naming its path; the faces before it stay.
    pub fn insert_faces(&mut self, faces: Vec<DiscoveredFace<I>>) -> (r: Result<(), WrapperError>)
        requires
            old(self).wf(),
        ensures
            final(self).wf(),
            ({
                let (infos, slots, failed) = scan::<I, F>(faces@, faces@.len());
                &&& final(self).infos_view() == old(self).infos_view() + infos
                &&& final(self).slots_view() == old(self).slots_view() + slots
                &&& match failed {
                    None => r is Ok,
                    Some(path) => r == Err::<(), WrapperError>(WrapperError::FontFaceLoadingError(path)),
                }
            }),
    {
        let ghost infos0 = self.infos@;
        let ghost slots0 = self.slots@;
        let ghost all = faces@;
        let mut pending = faces;
        let n = pending.len();
        let mut k: usize = 0;
        while k < n
            invariant
                n == all.len(),
                all == faces@,
                infos0 == old(self).infos_view(),
                slots0 == old(self).slots_view(),
                self.infos@.len() == self.slots@.len(),
                k <= all.len(),
                pending@ == all.subrange(k as int, all.len() as int),
                ({
                    let (infos, slots, failed) = scan::<I, F>(all, k as nat);
                    &&& failed is None
                    &&& self.infos@ == infos0 + infos
                    &&& self.slots@ == slots0 + slots
                }),
            decreases all.len() - k,
        {
            let face = pending.remove(0);
            assert(face == all[k as int]);
            assert(pending@ =~= all.subrange(k as int + 1, all.len() as int));
            let ghost (gi, gs, gf) = scan::<I, F>(all, k as nat);
            match face.source {
                FaceSource::Binary => {},
                FaceSource::File(path) => match face.probe {
                    None => {
                        assert(scan::<I, F>(all, (k + 1) as nat) == (gi, gs, Some(path)));
                        proof {
                            lemma_scan_stops::<I, F>(all, (k + 1) as nat, all.len());
                            assert(scan::<I, F>(all, all.len()) == (gi, gs, Some(path)));
                            assert(self.infos@ == infos0 + gi);
                            assert(self.slots@ == slots0 + gs);
                        }
                        return Err(WrapperError::FontFaceLoadingError(path));
                    },
                    Some(None) => {},
                    Some(Some(info)) => {
                        self.infos.push(info);
                        self.slots.push(
                            FontSlot { path, index: face.index, state: FontState::Unloaded, embedded: false },
                        );
                        assert(self.infos@ =~= infos0 + gi.push(info));
                        assert(self.slots@ =~= slots0 + gs.push(file_slot(path, face.index)));
                    },
                },
            }
            k = k + 1;
        }
        Ok(())
    }

    /// `new` is `old` after offering `font` (of `size` bytes) to the slot
    /// `selected`: a cold slot takes it, anything else stays as it was.
    pub open spec fn warm_spec(
        old: Seq<FontSlot<F>>,
        selected: Option<usize>,
        font: F,
        size: usize,
        new: Seq<FontSlot<F>>,
    ) -> bool {
        if selected is Some && selected->0 < old.len() && old[selected->0 as int].state is Unloaded {
            let i = selected->0 as int;
            new == old.update(i, FontSlot { state: FontState::Loaded { font, size }, ..old[i] })
        } else {
            new == old
        }
    }

    /// Warms the cache with a font decoded elsewhere. `selected` is the index
    /// the metadata lookup chose for the font's family and variant. Only a
    /// slot that holds no decoded font takes it; a warm slot keeps its font,
    /// and no other slot changes.
    pub fn update_cache(&mut self, selected: Option<usize>, font: F, size: usize)
        requires
            old(self).wf(),
        ensures
            final(self).wf(),
            final(self).infos_view() == old(self).infos_view(),
            Self::warm_spec(old(self).slots_view(), selected, font, size, final(self).slots_view()),
    {
        if let Some(i) = selected {
            if i < self.slots.len() {
                let cold = match &self.slots[i].state {
                    FontState::Unloaded => true,
                    FontState::Loaded { .. } => false,
                };
                if cold {
                    self.slots[i].state = FontState::Loaded { font, size };
                }
            }
        }
    }

    /// The bytes of decoded fonts held by the slots whose embedded flag is
    /// `include_embedded` (at most `usize::MAX`).
    pub fn cache_size(&self, include_embedded: bool) -> (r: usize)
        requires
            self.wf(),
        ensures
            r == if loaded_size(self.slots_view(), include_embedded) <= usize::MAX {
                loaded_size(self.slots_view(), include_embedded)
            } else {
                usize::MAX as int
            },
    {
        let mut total: usize = 0;
        let mut j: usize = 0;
        while j < self.slots.len()
            invariant
                j <= self.slots@.len(),
                total == if loaded_size(self.slots@.subrange(0, j as int), include_embedded) <= usize::MAX {
                    loaded_size(self.slots@.subrange(0, j as int), include_embedded)
                } else {
                    usize::MAX as int
                },
                loaded_size(self.slots@.subrange(0, j as int), include_embedded) >= 0,
            decreases self.slots@.len() - j,
        {
            assert(self.slots@.subrange(0, j as int + 1).drop_last() =~= self.slots@.subrange(0, j as int));
            if self.slots[j].embedded == include_embedded {
                match &self.slots[j].state {
                    FontState::Loaded { size, .. } => {
                        total = total.saturating_add(*size);
                    },
                    FontState::Unloaded => {},
                }
            }
            j = j + 1;
        }
        assert(self.slots@.subrange(0, j as int) =~= self.slots@);
        total
    }

    /// Drops the decoded fonts of the slots whose embedded flag is
    /// `include_embedded`. Metadata and paths stay, so a dropped font is
    /// decoded again on its next use; an embedded one has no path to
    /// come back from.
    pub fn clear_cache(&mut self, include_embedded: bool)
        requires
            old(self).wf(),
        ensures
            final(self).wf(),
            final(self).infos_view() == old(self).infos_view(),
            cleared(old(self).slots_view(), final(self).slots_view(), include_embedded),
    {
        let ghost start = self.slots@;
        let ghost start_infos = self.infos@;
        let mut j: usize = 0;
        while j < self.slots.len()
            invariant
                self.infos@ == start_infos,
                start_infos.len() == start.len(),
                j <= self.slots@.len(),
                self.slots@.len() == start.len(),
                forall|x: int| j <= x < start.len() ==> self.slots@[x] == start[x],
                forall|x: int| 0 <= x < j ==> {
                    &&& (#[trigger] self.slots@[x]).path == start[x].path
                    &&& self.slots@[x].index == start[x].index
                    &&& self.slots@[x].embedded == start[x].embedded
                    &&& if start[x].embedded == include_embedded {
                        self.slots@[x].state is Unloaded
                    } else {
                        self.slots@[x].state == start[x].state
                    }
                },
            decreases self.slots@.len() - j,
        {
            if self.slots[j].embedded == include_embedded {
                self.slots[j].state = FontState::Unloaded;
            }
            j = j + 1;
        }
    }

    /// Copies of the metadata and of the slots, for one compilation session.
    pub fn snapshot(&self) -> (r: (Vec<I>, Vec<FontSlot<F>>))
        requires
            self.wf(),
        ensures
            r.0@.len() == self.infos_view().len(),
            r.1@.len() == self.slots_view().len(),
            forall|j: int| 0 <= j < r.0@.len() ==> cloned(self.infos_view()[j], #[trigger] r.0@[j]),
            forall|j: int| 0 <= j < r.1@.len() ==> FontSlot::copied(self.slots_view()[j], #[trigger] r.1@[j]),
    {
        let mut infos: Vec<I> = Vec::new();
        let mut slots: Vec<FontSlot<F>> = Vec::new();
        let mut j: usize = 0;
        while j < self.slots.len()
            invariant
                self.infos@.len() == self.slots@.len(),
                j <= self.slots@.len(),
                infos@.len() == j,
                slots@.len() == j,
                forall|x: int| 0 <= x < j ==> cloned(self.infos@[x], #[trigger] infos@[x]),
                forall|x: int| 0 <= x < j ==> FontSlot::copied(self.slots@[x], #[trigger] slots@[x]),
            decreases self.slots@.len() - j,
        {
            infos.push(self.infos[j].clone());
            slots.push(self.slots[j].duplicate());
            j = j + 1;
        }
        (infos, slots)
    }
}

/// Once a scan has failed it stays failed, with the same result.
pub proof fn lemma_scan_stops<I, F>(faces: Seq<DiscoveredFace<I>>, n: nat, m: nat)
    requires
        n <= m,
        scan::<I, F>(faces, n).2 is Some,
    ensures
        scan::<I, F>(faces, m) == scan::<I, F>(faces, n),
    decreases m - n,
{
    if n < m {
        lemma_scan_stops::<I, F>(faces, n, (m - 1) as nat);
    }
}

/// Inserting the same face twice gives two separate slots at two new
/// indices; nothing already there moves or changes.
pub proof fn lemma_insertion_appends<I: Clone, F: Clone>(
    r0: FontRegistry<I, F>,
    info: I,
    path: String,
    index: u32,
    r1: FontRegistry<I, F>,
    r2: FontRegistry<I, F>,
)
    requires
        r0.wf(),
        r1.infos_view() == r0.infos_view().push(info),
        r1.slots_view() == r0.slots_view().push(file_slot(path, index)),
        r2.infos_view() == r1.infos_view().push(info),
        r2.slots_view() == r1.slots_view().push(file_slot(path, index)),
    ensures
        r2.slots_view().len() == r0.slots_view().len() + 2,
        r2.slots_view()[r0.slots_view().len() as int] == file_slot::<F>(path, index),
        r2.slots_view()[r0.slots_view().len() + 1int] == file_slot::<F>(path, index),
        r2.slots_view().subrange(0, r0.slots_view().len() as int) == r0.slots_view(),
{
    assert(r2.slots_view().subrange(0, r0.slots_view().len() as int) =~= r0.slots_view());
}

/// Warming the cache is first-writer-wins and touches one slot at most: a
/// slot that already holds a font keeps it, and every slot other than the
/// selected one stays as it was.
pub proof fn lemma_warming_keeps_other_slots<I: Clone, F: Clone>(
    old: Seq<FontSlot<F>>,
    selected: Option<usize>,
    font: F,
    size: usize,
    new: Seq<FontSlot<F>>,
)
    requires
        FontRegistry::<I, F>::warm_spec(old, selected, font, size, new),
    ensures
        new.len() == old.len(),
        forall|j: int| 0 <= j < old.len() && selected != Some(j as usize) ==> #[trigger] new[j] == old[j],
        forall|j: int| 0 <= j < old.len() && (#[trigger] old[j]).state is Loaded ==> new[j] == old[j],
{
}

} // verus!
