//! A single lazily loaded resource with change detection.
//!
//! The first read of a round loads the raw bytes (or the failure) and compares
//! their fingerprint with the one of the previous load. Unchanged input keeps
//! the decoded value, so that decoders can keep their incremental state.

use vstd::prelude::*;

use crate::errors::FileError;

verus! {

/// The fingerprint of loaded bytes or of a load failure.
pub uninterp spec fn fingerprint_of(loaded: Result<Seq<u8>, FileError>) -> u128;

/// The loaded bytes as a sequence, or the failure.
pub open spec fn loaded_view(loaded: Result<Vec<u8>, FileError>) -> Result<Seq<u8>, FileError> {
    match loaded {
        Ok(bytes) => Ok(bytes@),
        Err(e) => Err(e),
    }
}

/// Relies on `typst_utils::hash128`: a 128-bit SipHash-1-3 with fixed keys
/// over the value's `Hash`, so the result depends on the bytes or the error
/// alone.
#[verifier::external_body]
fn fingerprint(loaded: &Result<Vec<u8>, FileError>) -> (r: u128)
    ensures
        r == fingerprint_of(loaded_view(*loaded)),
{
    typst_utils::hash128(loaded)
}

/// The last successfully decoded value, if the cache holds one.
pub open spec fn previous_value<T>(data: Option<Result<T, FileError>>) -> Option<T> {
    match data {
        Some(Ok(t)) => Some(t),
        _ => None,
    }
}

/// A lazily loaded, change-aware cache for one resource.
pub struct ResourceCell<T> {
    /// The decoded value or the failure, once loaded.
    pub data: Option<Result<T, FileError>>,
    /// The fingerprint of the last loaded bytes or failure.
    pub fingerprint: u128,
    /// Whether the resource was read in the current round.
    pub accessed: bool,
}

impl<T> ResourceCell<T> {
    /// A read now returns the cache without loading.
    pub open spec fn round_hit(&self) -> bool {
        self.accessed && self.data is Some
    }

    /// `new` is what settling `old` gives when the load returned `loaded`
    /// with fingerprint `fp`, and `decoded(bytes, previous, result)`
    /// describes decoding.
    pub open spec fn settled(
        old: Self,
        loaded: Result<Vec<u8>, FileError>,
        fp: u128,
        decoded: spec_fn(Vec<u8>, Option<T>, Result<T, FileError>) -> bool,
        new: Self,
    ) -> bool {
        &&& new.accessed
        &&& new.fingerprint == fp
        &&& new.data is Some
        &&& if fp == old.fingerprint && old.data is Some {
            new.data == old.data
        } else {
            match loaded {
                Ok(bytes) => decoded(bytes, previous_value(old.data), new.data->0),
                Err(e) => new.data->0 == Err::<T, FileError>(e),
            }
        }
    }

    /// `new` is what a read of `old` gives when the load returned `loaded`
    /// and `decoded(bytes, previous, result)` describes decoding.
    pub open spec fn reloaded(
        old: Self,
        loaded: Result<Vec<u8>, FileError>,
        decoded: spec_fn(Vec<u8>, Option<T>, Result<T, FileError>) -> bool,
        new: Self,
    ) -> bool {
        Self::settled(old, loaded, fingerprint_of(loaded_view(loaded)), decoded, new)
    }

    /// A read described by `d1` is also described by any weaker `d2`.
    pub proof fn lemma_reloaded_weaken(
        old: Self,
        loaded: Result<Vec<u8>, FileError>,
        d1: spec_fn(Vec<u8>, Option<T>, Result<T, FileError>) -> bool,
        d2: spec_fn(Vec<u8>, Option<T>, Result<T, FileError>) -> bool,
        new: Self,
    )
        requires
            Self::reloaded(old, loaded, d1, new),
            forall|b: Vec<u8>, p: Option<T>, v: Result<T, FileError>| #[trigger] d1(b, p, v) ==> d2(b, p, v),
        ensures
            Self::reloaded(old, loaded, d2, new),
    {
    }

    /// Within one round the resource is loaded at most once: after any read
    /// the next read of the round answers from the cache without loading,
    /// and returns exactly the result the first read returned.
    pub proof fn lemma_round_reads_load_once(
        old: Self,
        loaded: Result<Vec<u8>, FileError>,
        decoded: spec_fn(Vec<u8>, Option<T>, Result<T, FileError>) -> bool,
        new: Self,
        first: Result<T, FileError>,
        second_cell: Self,
        second: Result<T, FileError>,
    )
        requires
            Self::reloaded(old, loaded, decoded, new),
            new.data == Some(first),
            Self::read_hit(new, second_cell, second),
        ensures
            new.round_hit(),
            second_cell == new,
            second == first,
    {
    }

    /// Two rounds that load the same bytes (or the same failure): the second
    /// keeps the very value the first cached instead of decoding again.
    pub proof fn lemma_unchanged_input_keeps_value(
        c0: Self,
        loaded1: Result<Vec<u8>, FileError>,
        c1: Self,
        loaded2: Result<Vec<u8>, FileError>,
        c2: Self,
        decoded: spec_fn(Vec<u8>, Option<T>, Result<T, FileError>) -> bool,
    )
        requires
            Self::reloaded(c0, loaded1, decoded, c1),
            Self::reloaded(ResourceCell { accessed: false, ..c1 }, loaded2, decoded, c2),
            loaded_view(loaded1) == loaded_view(loaded2),
        ensures
            c2.data == c1.data,
            c2.fingerprint == c1.fingerprint,
            c2.accessed,
    {
    }

    /// A changed input after a successful decode: the decoder is handed the
    /// previously decoded value to update.
    pub proof fn lemma_changed_input_reuses_previous(
        old: Self,
        loaded: Result<Vec<u8>, FileError>,
        decoded: spec_fn(Vec<u8>, Option<T>, Result<T, FileError>) -> bool,
        new: Self,
    )
        requires
            Self::reloaded(old, loaded, decoded, new),
            fingerprint_of(loaded_view(loaded)) != old.fingerprint,
            old.data is Some,
            old.data->0 is Ok,
            loaded is Ok,
        ensures
            decoded(loaded->Ok_0, Some(old.data->0->Ok_0), new.data->0),
    {
    }

    /// A read that answers from the cache: the cell stays as it was and the
    /// result is the cached one.
    pub open spec fn read_hit(old: Self, new: Self, r: Result<T, FileError>) -> bool {
        &&& old.round_hit()
        &&& new == old
        &&& old.data == Some(r)
    }

    /// An empty cell, never loaded.
    pub fn new() -> (r: Self)
        ensures
            r.data is None,
            r.fingerprint == 0,
            !r.accessed,
    {
        ResourceCell { data: None, fingerprint: 0, accessed: false }
    }

    /// Starts a new round: the next read loads again.
    pub fn reset(&mut self)
        ensures
            final(self).data == old(self).data,
            final(self).fingerprint == old(self).fingerprint,
            !final(self).accessed,
    {
        self.accessed = false;
    }

    /// Returns the decoded resource, loading and decoding it when needed.
    ///
    /// Within a round only the first read calls `load`. When the loaded
    /// bytes (or failure) have the fingerprint of the previous load, the
    /// cached result is kept; otherwise `transform` decodes the bytes and is
    /// handed the previous successfully decoded value. The result is the
    /// cached one.
    pub fn get_or_init<L, F>(&mut self, load: L, transform: F) -> (r: &Result<T, FileError>) where
        L: FnOnce() -> Result<Vec<u8>, FileError>,
        F: FnOnce(Vec<u8>, Option<T>) -> Result<T, FileError>,
        requires
            load.requires(()),
            forall|b: Vec<u8>, p: Option<T>| transform.requires((b, p)),
        ensures
            final(self).data == Some(*r),
            old(self).round_hit() ==> Self::read_hit(*old(self), *final(self), *r),
            !old(self).round_hit() ==> exists|loaded: Result<Vec<u8>, FileError>|
                #[trigger] load.ensures((), loaded) && Self::reloaded(
                    *old(self),
                    loaded,
                    |b: Vec<u8>, p: Option<T>, v: Result<T, FileError>| transform.ensures((b, p), v),
                    *final(self),
                ),
    {
        self.refresh(load, transform);
        self.data.as_ref().unwrap()
    }

    /// Brings the cache up to date for this round, as `get_or_init` does,
    /// without handing out the result.
    pub fn refresh<L, F>(&mut self, load: L, transform: F) where
        L: FnOnce() -> Result<Vec<u8>, FileError>,
        F: FnOnce(Vec<u8>, Option<T>) -> Result<T, FileError>,
        requires
            load.requires(()),
            forall|b: Vec<u8>, p: Option<T>| transform.requires((b, p)),
        ensures
            final(self).data is Some,
            old(self).round_hit() ==> *final(self) == *old(self),
            !old(self).round_hit() ==> exists|loaded: Result<Vec<u8>, FileError>|
                #[trigger] load.ensures((), loaded) && Self::reloaded(
                    *old(self),
                    loaded,
                    |b: Vec<u8>, p: Option<T>, v: Result<T, FileError>| transform.ensures((b, p), v),
                    *final(self),
                ),
    {
        if !(self.accessed && self.data.is_some()) {
            let loaded = load();
            let fp = fingerprint(&loaded);
            self.settle(loaded, fp, transform);
        }
    }

    /// Takes a freshly loaded resource, `loaded`, whose fingerprint is `fp`:
    /// keeps the cached result when `fp` is the fingerprint of the previous
    /// load, else decodes the bytes with `transform` (handing it the
    /// previous successfully decoded value) or caches the failure.
    pub fn settle<F>(&mut self, loaded: Result<Vec<u8>, FileError>, fp: u128, transform: F) where
        F: FnOnce(Vec<u8>, Option<T>) -> Result<T, FileError>,
        requires
            forall|b: Vec<u8>, p: Option<T>| transform.requires((b, p)),
        ensures
            Self::settled(
                *old(self),
                loaded,
                fp,
                |b: Vec<u8>, p: Option<T>, v: Result<T, FileError>| transform.ensures((b, p), v),
                *final(self),
            ),
    {
        self.accessed = true;
        let previous_fp = self.fingerprint;
        self.fingerprint = fp;
        if previous_fp == fp && self.data.is_some() {
            return;
        }
        let prev = match self.data.take() {
            Some(Ok(t)) => Some(t),
            _ => None,
        };
        let value = match loaded {
            Ok(bytes) => transform(bytes, prev),
            Err(e) => Err(e),
        };
        self.data = Some(value);
    }
}

} // verus!
