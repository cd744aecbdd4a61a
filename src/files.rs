//! Virtual files: one slot per file identity, each caching the decoded
//! source and the raw bytes of its file.

use vstd::prelude::*;
use vstd::string::StringSliceAdditionalSpecFns;
use vstd::utf8::{decode_utf8, encode_utf8, is_char_boundary, is_continuation_byte, valid_utf8};

use typst_syntax::{FileId, Source};

use crate::cell::{fingerprint_of, loaded_view, ResourceCell};
use crate::errors::FileError;
use crate::package::{PackageSpec, PackageVersion};
use crate::text::utf8_text;

verus! {

broadcast use vstd::utf8::group_utf8_lib;

#[verifier::external_type_specification]
#[verifier::external_body]
pub struct ExSource(Source);

#[verifier::external_type_specification]
#[verifier::external_body]
pub struct ExFileId(FileId);

/// A parsed source file together with the text and id it was made from.
///
/// The source is created only from `text` and `id`, and edited only in step
/// with `text`, so `text` is always the text the source holds.
pub struct SourceFile {
    source: Source,
    text: String,
    id: FileId,
    /// The texts this source has held, from its creation on.
    history: Ghost<Seq<Seq<char>>>,
}

/// Relies on `typst_syntax::Source::new`: parses a copy of `text` into a new
/// source with the id `id`. It panics only when the syntax tree has more
/// nodes than there are span numbers (about 2^47), which no text held in
/// memory reaches.
#[verifier::external_body]
fn new_source(id: FileId, text: &str) -> (r: Source) {
    Source::new(id, text.to_string())
}

/// Relies on `typst_syntax::Source::edit`: replaces the bytes `start..end` of
/// the source's text (which is `file.text`) by `with`, reparsing only around
/// the edit. It panics when the range is out of bounds or does not lie on
/// character boundaries, which `requires` rules out.
#[verifier::external_body]
fn edit_source(file: &mut SourceFile, start: usize, end: usize, with: &str)
    requires
        start <= end <= encode_utf8(old(file).text@).len(),
        is_char_boundary(encode_utf8(old(file).text@), start as int),
        is_char_boundary(encode_utf8(old(file).text@), end as int),
    ensures
        final(file).text == old(file).text,
        final(file).id == old(file).id,
        final(file).history == old(file).history,
{
    file.source.edit(start..end, with);
}

/// In valid UTF-8, a boundary at `q` stays a boundary of the part that
/// starts at the boundary `p`.
proof fn lemma_boundary_in_tail(bytes: Seq<u8>, p: int, q: int)
    requires
        valid_utf8(bytes),
        0 <= p <= q <= bytes.len(),
        is_char_boundary(bytes, p),
        is_char_boundary(bytes, q),
    ensures
        valid_utf8(bytes.subrange(p, bytes.len() as int)),
        is_char_boundary(bytes.subrange(p, bytes.len() as int), q - p),
{
    let tail = bytes.subrange(p, bytes.len() as int);
    assert(valid_utf8(tail));
    if q < bytes.len() {
        assert(tail[q - p] == bytes[q]);
        assert(!is_continuation_byte(bytes[q]));
        assert(is_char_boundary(tail, q - p) <==> !is_continuation_byte(tail[q - p]));
    } else {
        assert(is_char_boundary(tail, tail.len() as int));
    }
}

impl SourceFile {
    /// The text the source holds.
    pub closed spec fn text_view(&self) -> Seq<char> {
        self.text@
    }

    /// The id of the source.
    pub closed spec fn id_view(&self) -> FileId {
        self.id
    }

    /// The texts this source object has held since it was created; an
    /// update in place appends to it, a new source starts afresh.
    pub closed spec fn history(&self) -> Seq<Seq<char>> {
        self.history@
    }

    /// Parses `text` into a new source with the id `id`.
    pub fn new(id: FileId, text: String) -> (r: Self)
        ensures
            r.text_view() == text@,
            r.id_view() == id,
            r.history() == seq![text@],
    {
        let source = new_source(id, text.as_str());
        let history: Ghost<Seq<Seq<char>>> = Ghost(Seq::empty().push(text@));
        SourceFile { source, text, id, history }
    }

    /// The parsed source.
    pub fn source(&self) -> &Source {
        &self.source
    }

    /// The text the source holds.
    pub fn text(&self) -> (r: &str)
        ensures
            r@ == self.text_view(),
    {
        self.text.as_str()
    }

    /// The id of the source.
    pub fn id(&self) -> (r: FileId)
        ensures
            r == self.id_view(),
    {
        self.id
    }

    /// Replaces the text in place: the smallest single edit between the old
    /// and the new text, on character boundaries, is applied to the source,
    /// which reparses only around it. An unchanged text leaves it untouched.
    #[verifier::rlimit(30)]
    pub fn replace(&mut self, new: &str)
        ensures
            final(self).text_view() == new@,
            final(self).id_view() == old(self).id_view(),
            final(self).history() == if new@ == old(self).text_view() {
                old(self).history()
            } else {
                old(self).history().push(new@)
            },
    {
        let old_text: &str = self.text.as_str();
        let a = old_text.as_bytes();
        let b = new.as_bytes();
        let la = a.len();
        let lb = b.len();
        assert(valid_utf8(a@));
        assert(valid_utf8(b@));
        let mut p: usize = 0;
        while p < la && p < lb && a[p] == b[p]
            invariant
                p <= la == a@.len(),
                p <= lb == b@.len(),
                forall|i: int| 0 <= i < p ==> a@[i] == b@[i],
            decreases la - p,
        {
            p = p + 1;
        }
        if p == la && p == lb {
            assert(a@ =~= b@);
            assert(decode_utf8(encode_utf8(self.text@)) == decode_utf8(encode_utf8(new@)));
            return;
        }
        assert(self.text@ != new@);
        while !(old_text.is_char_boundary(p) && new.is_char_boundary(p))
            invariant
                p <= la == a@.len(),
                p <= lb == b@.len(),
                a@ == encode_utf8(old_text@),
                b@ == encode_utf8(new@),
                forall|i: int| 0 <= i < p ==> a@[i] == b@[i],
            decreases p,
        {
            p = p - 1;
        }
        let mut s: usize = 0;
        while s < la - p && s < lb - p && a[la - 1 - s] == b[lb - 1 - s]
            invariant
                p + s <= la == a@.len(),
                p + s <= lb == b@.len(),
                forall|i: int| la - s <= i < la ==> #[trigger] a@[i] == b@[i - la + lb],
            decreases la - s,
        {
            s = s + 1;
        }
        while !(old_text.is_char_boundary(la - s) && new.is_char_boundary(lb - s))
            invariant
                p + s <= la == a@.len(),
                p + s <= lb == b@.len(),
                a@ == encode_utf8(old_text@),
                b@ == encode_utf8(new@),
                forall|i: int| la - s <= i < la ==> #[trigger] a@[i] == b@[i - la + lb],
            decreases s,
        {
            s = s - 1;
        }
        let (_, tail) = new.split_at(p);
        proof {
            lemma_boundary_in_tail(b@, p as int, (lb - s) as int);
        }
        let (with, _) = tail.split_at(lb - s - p);
        proof {
            let with_bytes = b@.subrange(p as int, (lb - s) as int);
            assert(with.spec_bytes() =~= with_bytes);
            // The edit turns the old bytes into the new ones.
            assert(a@.subrange(0, p as int) + with_bytes + a@.subrange((la - s) as int, la as int) =~= b@) by {
                assert(a@.subrange(0, p as int) =~= b@.subrange(0, p as int));
                assert(a@.subrange((la - s) as int, la as int) =~= b@.subrange((lb - s) as int, lb as int));
            }
        }
        edit_source(self, p, la - s, with);
        self.text = String::from_str(new);
        let history: Ghost<Seq<Seq<char>>> = Ghost(self.history@.push(new@));
        self.history = history;
    }
}

/// The bytes without a leading UTF-8 byte-order mark.
pub open spec fn strip_bom(b: Seq<u8>) -> Seq<u8> {
    if b.len() >= 3 && b[0] == 0xefu8 && b[1] == 0xbbu8 && b[2] == 0xbfu8 {
        b.subrange(3, b.len() as int)
    } else {
        b
    }
}

/// Decodes UTF-8 text, skipping a leading byte-order mark.
pub fn decode_text(buf: &[u8]) -> (r: Result<String, FileError>)
    ensures
        valid_utf8(strip_bom(buf@)) <==> r is Ok,
        r is Ok ==> r->Ok_0@ == decode_utf8(strip_bom(buf@)),
        r is Err ==> r == Err::<String, FileError>(FileError::InvalidUtf8),
{
    let body: &[u8] = if buf.len() >= 3 && buf[0] == 0xefu8 && buf[1] == 0xbbu8 && buf[2] == 0xbfu8 {
        let (_, rest) = buf.split_at(3);
        rest
    } else {
        buf
    };
    assert(body@ == strip_bom(buf@));
    match utf8_text(body) {
        Some(text) => Ok(text),
        None => Err(FileError::InvalidUtf8),
    }
}

/// What decoding bytes into the source of file `id` gives: exactly when the
/// bytes (without a byte-order mark) are UTF-8, a source holding the decoded
/// text; it is the previous source updated in place when there is one, else
/// a new source with the id `id`. Otherwise `InvalidUtf8`.
pub open spec fn source_decoding(
    id: FileId,
    bytes: Vec<u8>,
    prev: Option<SourceFile>,
    r: Result<SourceFile, FileError>,
) -> bool {
    let text = decode_utf8(strip_bom(bytes@));
    &&& valid_utf8(strip_bom(bytes@)) <==> r is Ok
    &&& r is Err ==> r == Err::<SourceFile, FileError>(FileError::InvalidUtf8)
    &&& r is Ok ==> {
        let f = r->Ok_0;
        &&& f.text_view() == text
        &&& match prev {
            None => f.id_view() == id && f.history() == seq![text],
            Some(p) => f.id_view() == p.id_view() && f.history() == if text == p.text_view() {
                p.history()
            } else {
                p.history().push(text)
            },
        }
    }
}

/// What decoding bytes into a byte buffer gives: the bytes themselves.
pub open spec fn bytes_decoding(bytes: Vec<u8>, prev: Option<Vec<u8>>, r: Result<Vec<u8>, FileError>) -> bool {
    r == Ok::<Vec<u8>, FileError>(bytes)
}

/// Decodes a source, updating the previous one in place when there is one.
fn decode_source(id: FileId, bytes: Vec<u8>, prev: Option<SourceFile>) -> (r: Result<SourceFile, FileError>)
    ensures
        source_decoding(id, bytes, prev, r),
{
    let text = decode_text(bytes.as_slice())?;
    match prev {
        Some(mut file) => {
            file.replace(text.as_str());
            Ok(file)
        },
        None => Ok(SourceFile::new(id, text)),
    }
}

/// The decoded source and the raw bytes of one file.
pub struct VirtualFileSlot {
    /// The engine's id of the file.
    pub id: FileId,
    /// The file decoded as source text.
    pub source: ResourceCell<SourceFile>,
    /// The file's raw bytes.
    pub file: ResourceCell<Vec<u8>>,
}

impl VirtualFileSlot {
    /// A cached source belongs to this slot's file.
    pub open spec fn wf(&self) -> bool {
        self.source.data matches Some(Ok(f)) ==> f.id_view() == self.id
    }

    /// `new` and `r` are what reading the source of `old` through `load` gives.
    pub open spec fn source_read<L>(old: Self, load: L, new: Self, r: Result<SourceFile, FileError>) -> bool where
        L: FnOnce() -> Result<Vec<u8>, FileError>,
     {
        &&& new.id == old.id
        &&& new.file == old.file
        &&& new.source.data == Some(r)
        &&& new.wf()
        &&& old.source.round_hit() ==> ResourceCell::read_hit(old.source, new.source, r)
        &&& !old.source.round_hit() ==> exists|loaded: Result<Vec<u8>, FileError>|
            #[trigger] load.ensures((), loaded) && ResourceCell::reloaded(
                old.source,
                loaded,
                |b: Vec<u8>, p: Option<SourceFile>, v: Result<SourceFile, FileError>| source_decoding(old.id, b, p, v),
                new.source,
            )
    }

    /// `new` and `r` are what reading the bytes of `old` through `load` gives.
    pub open spec fn file_read<L>(old: Self, load: L, new: Self, r: Result<Vec<u8>, FileError>) -> bool where
        L: FnOnce() -> Result<Vec<u8>, FileError>,
     {
        &&& new.id == old.id
        &&& new.source == old.source
        &&& new.file.data == Some(r)
        &&& old.file.round_hit() ==> ResourceCell::read_hit(old.file, new.file, r)
        &&& !old.file.round_hit() ==> exists|loaded: Result<Vec<u8>, FileError>|
            #[trigger] load.ensures((), loaded) && ResourceCell::reloaded(
                old.file,
                loaded,
                |b: Vec<u8>, p: Option<Vec<u8>>, v: Result<Vec<u8>, FileError>| bytes_decoding(b, p, v),
                new.file,
            )
    }

    /// A slot with both caches empty.
    pub open spec fn is_fresh(&self) -> bool {
        &&& self.source.data is None
        &&& !self.source.accessed
        &&& self.file.data is None
        &&& !self.file.accessed
    }

    /// A new slot for the file `id`, nothing loaded.
    pub fn new(id: FileId) -> (r: Self)
        ensures
            r.id == id,
            r.is_fresh(),
            r.wf(),
    {
        VirtualFileSlot { id, source: ResourceCell::new(), file: ResourceCell::new() }
    }

    /// Starts a new round for both caches.
    pub fn reset(&mut self)
        ensures
            final(self).id == old(self).id,
            final(self).source.data == old(self).source.data,
            final(self).source.fingerprint == old(self).source.fingerprint,
            !final(self).source.accessed,
            final(self).file.data == old(self).file.data,
            final(self).file.fingerprint == old(self).file.fingerprint,
            !final(self).file.accessed,
    {
        self.source.reset();
        self.file.reset();
    }

    /// The file decoded as source. `load` reads the file's bytes; it is
    /// called only on the first read of a round.
    pub fn source<L>(&mut self, load: L) -> (r: &Result<SourceFile, FileError>) where
        L: FnOnce() -> Result<Vec<u8>, FileError>,
        requires
            old(self).wf(),
            load.requires(()),
        ensures
            Self::source_read(*old(self), load, *final(self), *r),
    {
        let id = self.id;
        let transform = |bytes: Vec<u8>, prev: Option<SourceFile>| -> (v: Result<SourceFile, FileError>)
            ensures
                source_decoding(id, bytes, prev, v),
            { decode_source(id, bytes, prev) };
        let ghost before = self.source;
        self.source.refresh(load, transform);
        proof {
            if !before.round_hit() {
                let loaded = choose|loaded: Result<Vec<u8>, FileError>|
                    #[trigger] load.ensures((), loaded) && ResourceCell::reloaded(
                        before,
                        loaded,
                        |b: Vec<u8>, p: Option<SourceFile>, v: Result<SourceFile, FileError>| transform.ensures((b, p), v),
                        self.source,
                    );
                ResourceCell::lemma_reloaded_weaken(
                    before,
                    loaded,
                    |b: Vec<u8>, p: Option<SourceFile>, v: Result<SourceFile, FileError>| transform.ensures((b, p), v),
                    |b: Vec<u8>, p: Option<SourceFile>, v: Result<SourceFile, FileError>| source_decoding(id, b, p, v),
                    self.source,
                );
            }
        }
        self.source.data.as_ref().unwrap()
    }

    /// The file's raw bytes. `load` reads them; it is called only on the
    /// first read of a round.
    pub fn file<L>(&mut self, load: L) -> (r: &Result<Vec<u8>, FileError>) where
        L: FnOnce() -> Result<Vec<u8>, FileError>,
        requires
            load.requires(()),
        ensures
            Self::file_read(*old(self), load, *final(self), *r),
    {
        let transform = |bytes: Vec<u8>, prev: Option<Vec<u8>>| -> (v: Result<Vec<u8>, FileError>)
            ensures
                bytes_decoding(bytes, prev, v),
            { Ok(bytes) };
        let ghost before = self.file;
        self.file.refresh(load, transform);
        proof {
            if !before.round_hit() {
                let loaded = choose|loaded: Result<Vec<u8>, FileError>|
                    #[trigger] load.ensures((), loaded) && ResourceCell::reloaded(
                        before,
                        loaded,
                        |b: Vec<u8>, p: Option<Vec<u8>>, v: Result<Vec<u8>, FileError>| transform.ensures((b, p), v),
                        self.file,
                    );
                ResourceCell::lemma_reloaded_weaken(
                    before,
                    loaded,
                    |b: Vec<u8>, p: Option<Vec<u8>>, v: Result<Vec<u8>, FileError>| transform.ensures((b, p), v),
                    |b: Vec<u8>, p: Option<Vec<u8>>, v: Result<Vec<u8>, FileError>| bytes_decoding(b, p, v),
                    self.file,
                );
            }
        }
        self.file.data.as_ref().unwrap()
    }
}

/// A new round of reading a file as source, after a round that cached the
/// source `f`: bytes with the fingerprint of the last load give back the very
/// same source; changed bytes that decode give `f` updated in place to the
/// new text (same id, its history extended), never a new source.
pub proof fn lemma_source_next_round(
    id: FileId,
    c1: ResourceCell<SourceFile>,
    f: SourceFile,
    loaded: Result<Vec<u8>, FileError>,
    c2: ResourceCell<SourceFile>,
)
    requires
        c1.data == Some(Ok::<SourceFile, FileError>(f)),
        ResourceCell::reloaded(
            ResourceCell { accessed: false, ..c1 },
            loaded,
            |b: Vec<u8>, p: Option<SourceFile>, v: Result<SourceFile, FileError>| source_decoding(id, b, p, v),
            c2,
        ),
    ensures
        fingerprint_of(loaded_view(loaded)) == c1.fingerprint ==> c2.data == c1.data,
        fingerprint_of(loaded_view(loaded)) != c1.fingerprint && loaded is Ok && valid_utf8(
            strip_bom(loaded->Ok_0@),
        ) ==> {
            let text = decode_utf8(strip_bom(loaded->Ok_0@));
            &&& c2.data->0 is Ok
            &&& c2.data->0->Ok_0.text_view() == text
            &&& c2.data->0->Ok_0.id_view() == f.id_view()
            &&& c2.data->0->Ok_0.history() == if text == f.text_view() {
                f.history()
            } else {
                f.history().push(text)
            }
        },
{
}

/// The identity of a virtual file: the package it belongs to, if any, and
/// its path relative to the package or project root.
#[derive(Clone, Debug, PartialEq, Eq, Hash)]
pub struct FileIdentity {
    pub package: Option<PackageSpec>,
    pub vpath: String,
}

/// What identifies a file, as plain values: identities are equal exactly
/// when their keys are.
pub type IdentityKey = (Option<(Seq<char>, Seq<char>, PackageVersion)>, Seq<char>);

impl FileIdentity {
    /// The identity's key.
    pub open spec fn key(&self) -> IdentityKey {
        (
            match self.package {
                Some(p) => Some(p.key()),
                None => None,
            },
            self.vpath@,
        )
    }

    /// Compares two identities by value.
    pub fn same_as(&self, other: &FileIdentity) -> (r: bool)
        ensures
            r == (self.key() == other.key()),
    {
        let same_package = match (&self.package, &other.package) {
            (Some(a), Some(b)) => a.same_as(b),
            (None, None) => true,
            _ => false,
        };
        same_package && self.vpath == other.vpath
    }
}

/// `keys` has `k` at some position.
pub open spec fn holds_key(keys: Seq<FileIdentity>, k: IdentityKey) -> bool {
    exists|j: int| 0 <= j < keys.len() && (#[trigger] keys[j]).key() == k
}

/// The slots of one compilation session, one per file identity.
pub struct FileStore {
    keys: Vec<FileIdentity>,
    slots: Vec<VirtualFileSlot>,
}

impl FileStore {
    /// The identities, in the order their slots were created.
    pub closed spec fn keys_view(&self) -> Seq<FileIdentity> {
        self.keys@
    }

    /// The slots, at the positions of their identities.
    pub closed spec fn slots_view(&self) -> Seq<VirtualFileSlot> {
        self.slots@
    }

    /// One slot per identity, no identity twice, each slot well formed.
    pub open spec fn wf(&self) -> bool {
        &&& self.keys_view().len() == self.slots_view().len()
        &&& forall|j: int| 0 <= j < self.slots_view().len() ==> (#[trigger] self.slots_view()[j]).wf()
        &&& forall|a: int, b: int|
            0 <= a < b < self.keys_view().len() ==> (#[trigger] self.keys_view()[a]).key()
                != (#[trigger] self.keys_view()[b]).key()
    }

    /// `new` and `i` are what looking up (or creating) the slot of `key`
    /// with engine id `id` in `old` gives.
    pub open spec fn slot_for_spec(old: Self, key: FileIdentity, id: FileId, new: Self, i: usize) -> bool {
        &&& i < new.keys_view().len()
        &&& new.keys_view()[i as int].key() == key.key()
        &&& holds_key(old.keys_view(), key.key()) ==> new.keys_view() == old.keys_view()
            && new.slots_view() == old.slots_view()
        &&& !holds_key(old.keys_view(), key.key()) ==> {
            &&& new.keys_view() == old.keys_view().push(key)
            &&& new.slots_view().len() == old.slots_view().len() + 1
            &&& new.slots_view().subrange(0, old.slots_view().len() as int) == old.slots_view()
            &&& new.slots_view()[i as int].id == id
            &&& new.slots_view()[i as int].is_fresh()
        }
    }

    /// An empty store.
    pub fn new() -> (r: Self)
        ensures
            r.wf(),
            r.keys_view().len() == 0,
    {
        FileStore { keys: Vec::new(), slots: Vec::new() }
    }

    /// The number of slots.
    pub fn len(&self) -> (r: usize)
        requires
            self.wf(),
        ensures
            r == self.slots_view().len(),
    {
        self.slots.len()
    }

    /// The position of the slot of `key`, if it has one.
    pub fn position(&self, key: &FileIdentity) -> (r: Option<usize>)
        requires
            self.wf(),
        ensures
            r is Some <==> holds_key(self.keys_view(), key.key()),
            r is Some ==> r->0 < self.keys_view().len() && self.keys_view()[r->0 as int].key()
                == key.key(),
    {
        let mut j: usize = 0;
        while j < self.keys.len()
            invariant
                j <= self.keys@.len(),
                forall|x: int| 0 <= x < j ==> (#[trigger] self.keys@[x]).key() != key.key(),
            decreases self.keys@.len() - j,
        {
            if self.keys[j].same_as(key) {
                return Some(j);
            }
            j = j + 1;
        }
        None
    }

    /// The slot of `key`, created empty (for the engine id `id`) on the
    /// identity's first use. Returns its position.
    pub fn slot_for(&mut self, key: FileIdentity, id: FileId) -> (i: usize)
        requires
            old(self).wf(),
        ensures
            final(self).wf(),
            Self::slot_for_spec(*old(self), key, id, *final(self), i),
    {
        match self.position(&key) {
            Some(j) => j,
            None => {
                let ghost old_keys = self.keys@;
                let ghost old_slots = self.slots@;
                let i = self.slots.len();
                self.keys.push(key);
                self.slots.push(VirtualFileSlot::new(id));
                assert(self.slots@.subrange(0, i as int) =~= old_slots);
                assert forall|a: int, b: int|
                    0 <= a < b < self.keys@.len() implies (#[trigger] self.keys@[a]).key()
                        != (#[trigger] self.keys@[b]).key() by {
                    if b == i as int {
                        assert(old_keys[a] == self.keys@[a]);
                    }
                }
                i
            },
        }
    }

    /// Starts a new round: every slot loads again on its next read, and keeps
    /// what it cached for comparison.
    pub fn reset_round(&mut self)
        requires
            old(self).wf(),
        ensures
            final(self).wf(),
            final(self).keys_view() == old(self).keys_view(),
            final(self).slots_view().len() == old(self).slots_view().len(),
            forall|j: int| 0 <= j < old(self).slots_view().len() ==> {
                let (a, b) = (old(self).slots_view()[j], #[trigger] final(self).slots_view()[j]);
                &&& b.id == a.id
                &&& b.source == ResourceCell { accessed: false, ..a.source }
                &&& b.file == ResourceCell { accessed: false, ..a.file }
            },
    {
        let ghost start = self.slots@;
        let mut j: usize = 0;
        while j < self.slots.len()
            invariant
                self.keys@ == old(self).keys@,
                self.keys@.len() == start.len(),
                start == old(self).slots@,
                j <= self.slots@.len(),
                self.slots@.len() == start.len(),
                forall|x: int| j <= x < start.len() ==> self.slots@[x] == start[x],
                forall|x: int| 0 <= x < start.len() ==> (#[trigger] start[x]).wf(),
                forall|x: int| 0 <= x < j ==> {
                    let (a, b) = (start[x], #[trigger] self.slots@[x]);
                    &&& b.id == a.id
                    &&& b.source == ResourceCell { accessed: false, ..a.source }
                    &&& b.file == ResourceCell { accessed: false, ..a.file }
                },
            decreases self.slots@.len() - j,
        {
            self.slots[j].reset();
            assert(self.slots@[j as int].wf() == start[j as int].wf());
            j = j + 1;
        }
    }

    /// Reads the source of the slot at `i` (see `VirtualFileSlot::source`).
    pub fn source_at<L>(&mut self, i: usize, load: L) -> (r: &Result<SourceFile, FileError>) where
        L: FnOnce() -> Result<Vec<u8>, FileError>,
        requires
            old(self).wf(),
            i < old(self).slots_view().len(),
            load.requires(()),
        ensures
            final(self).wf(),
            final(self).keys_view() == old(self).keys_view(),
            final(self).slots_view().len() == old(self).slots_view().len(),
            forall|j: int| 0 <= j < old(self).slots_view().len() && j != i ==>
                final(self).slots_view()[j] == old(self).slots_view()[j],
            VirtualFileSlot::source_read(old(self).slots_view()[i as int], load, final(self).slots_view()[i as int], *r),
    {
        self.slots[i].source(load)
    }

    /// Reads the bytes of the slot at `i` (see `VirtualFileSlot::file`).
    pub fn file_at<L>(&mut self, i: usize, load: L) -> (r: &Result<Vec<u8>, FileError>) where
        L: FnOnce() -> Result<Vec<u8>, FileError>,
        requires
            old(self).wf(),
            i < old(self).slots_view().len(),
            load.requires(()),
        ensures
            final(self).wf(),
            final(self).keys_view() == old(self).keys_view(),
            final(self).slots_view().len() == old(self).slots_view().len(),
            forall|j: int| 0 <= j < old(self).slots_view().len() && j != i ==>
                final(self).slots_view()[j] == old(self).slots_view()[j],
            VirtualFileSlot::file_read(old(self).slots_view()[i as int], load, final(self).slots_view()[i as int], *r),
    {
        self.slots[i].file(load)
    }
}

/// Every identity gets exactly one slot: the first use of an identity adds
/// one slot, and a second use of the same identity finds that slot and adds
/// none.
pub proof fn lemma_one_slot_per_identity(
    s0: FileStore,
    key: FileIdentity,
    id1: FileId,
    s1: FileStore,
    i1: usize,
    id2: FileId,
    s2: FileStore,
    i2: usize,
)
    requires
        s0.wf(),
        s1.wf(),
        !holds_key(s0.keys_view(), key.key()),
        FileStore::slot_for_spec(s0, key, id1, s1, i1),
        FileStore::slot_for_spec(s1, key, id2, s2, i2),
    ensures
        s2.slots_view().len() == s0.slots_view().len() + 1,
        i1 == i2,
        s2.slots_view()[i2 as int].id == id1,
{
    let n = s0.keys_view().len() as int;
    assert(s1.keys_view()[n] == key);
    assert(holds_key(s1.keys_view(), key.key()));
    if i1 != i2 {
        assert(s2.keys_view()[i1 as int].key() == key.key());
        if (i1 as int) < (i2 as int) {
            assert(s1.keys_view()[i1 as int].key() != s1.keys_view()[i2 as int].key());
        } else {
            assert(s1.keys_view()[i2 as int].key() != s1.keys_view()[i1 as int].key());
        }
    }
}

} // verus!
