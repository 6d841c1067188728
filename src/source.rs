//! Font sources and their lazily filled byte cache.
//!
//! A source is either bytes held in memory or a file. The bytes of a file
//! source are read on demand; the cache keeps only a weak reference to them,
//! so they can be reclaimed and read again later. A failed read is recorded
//! and never retried.
//!
//! Reading is left to the caller: [`load_step`] says whether the cache can
//! answer or a read is needed, and [`finish_load`] takes the read's outcome.

use crate::font::{FontData, WeakFontData};
use vstd::prelude::*;

verus! {

/// Where the bytes of a source come from.
pub enum SourceDataKind {
    /// A file, by its path.
    Path(String),
    /// Bytes held in memory.
    Data(FontData),
}

/// Load status of a file source.
pub enum SourceDataStatus {
    /// Never read.
    Vacant,
    /// Read; the bytes may have been reclaimed since.
    Present(WeakFontData),
    /// The read failed; the source stays unreadable.
    Error,
}

impl SourceDataStatus {
    pub fn copy(&self) -> (r: Self)
        ensures
            r.same(*self),
    {
        match self {
            SourceDataStatus::Vacant => SourceDataStatus::Vacant,
            SourceDataStatus::Present(w) => SourceDataStatus::Present(w.clone()),
            SourceDataStatus::Error => SourceDataStatus::Error,
        }
    }

    /// Same status, pointing at the same bytes.
    pub open spec fn same(self, other: Self) -> bool {
        match (self, other) {
            (SourceDataStatus::Vacant, SourceDataStatus::Vacant) => true,
            (SourceDataStatus::Present(a), SourceDataStatus::Present(b)) => a@ == b@,
            (SourceDataStatus::Error, SourceDataStatus::Error) => true,
            _ => false,
        }
    }
}

/// A source of font bytes with its load status.
pub struct SourceData {
    pub kind: SourceDataKind,
    pub status: SourceDataStatus,
}

impl SourceData {
    /// A file source that has not been read yet.
    pub fn from_path(path: String) -> (r: Self)
        ensures
            r.kind matches SourceDataKind::Path(p) && p@ == path@,
            r.status is Vacant,
    {
        SourceData { kind: SourceDataKind::Path(path), status: SourceDataStatus::Vacant }
    }

    /// A source over bytes held in memory.
    pub fn from_data(data: FontData) -> (r: Self)
        ensures
            r.kind matches SourceDataKind::Data(d) && d@ == data@,
            r.status is Vacant,
    {
        SourceData { kind: SourceDataKind::Data(data), status: SourceDataStatus::Vacant }
    }

    /// Same kind, same bytes or path, same status.
    pub open spec fn same(self, other: Self) -> bool {
        &&& match (self.kind, other.kind) {
            (SourceDataKind::Path(a), SourceDataKind::Path(b)) => a@ == b@,
            (SourceDataKind::Data(a), SourceDataKind::Data(b)) => a@ == b@,
            _ => false,
        }
        &&& self.status.same(other.status)
    }

    pub fn copy(&self) -> (r: Self)
        ensures
            r.same(*self),
    {
        let kind = match &self.kind {
            SourceDataKind::Path(p) => SourceDataKind::Path(p.clone()),
            SourceDataKind::Data(d) => SourceDataKind::Data(d.clone()),
        };
        SourceData { kind, status: self.status.copy() }
    }
}

/// What a load of a source needs next.
pub enum LoadStep {
    /// The bytes are at hand.
    Ready(FontData),
    /// Nothing can be loaded: no such source, or it failed before.
    Absent,
    /// The file at this path must be read, and the outcome handed to
    /// [`finish_load`].
    Read(String),
}

/// The steps a load of `source` may give. A live cached reference gives its
/// bytes; one whose bytes were reclaimed asks for a read again.
pub open spec fn load_step_allowed(source: SourceData, step: LoadStep) -> bool {
    match source.kind {
        SourceDataKind::Data(d) => step matches LoadStep::Ready(r) && r@ == d@,
        SourceDataKind::Path(p) => path_step_allowed(p@, source.status, step),
    }
}

/// The steps a load of a file at `path` with status `status` may give.
pub open spec fn path_step_allowed(path: Seq<char>, status: SourceDataStatus, step: LoadStep) -> bool {
    match status {
        SourceDataStatus::Vacant => step matches LoadStep::Read(q) && q@ == path,
        SourceDataStatus::Error => step is Absent,
        SourceDataStatus::Present(w) => (step matches LoadStep::Ready(r) && r@ == w@) || (
        step matches LoadStep::Read(q) && q@ == path),
    }
}

/// Decides how a load of the file at `path` proceeds, without reading it.
pub fn load_path_step(path: &String, status: &SourceDataStatus) -> (r: LoadStep)
    ensures
        path_step_allowed(path@, *status, r),
{
    match status {
        SourceDataStatus::Present(weak) => match weak.upgrade() {
            Some(data) => LoadStep::Ready(data),
            None => LoadStep::Read(path.clone()),
        },
        SourceDataStatus::Error => LoadStep::Absent,
        SourceDataStatus::Vacant => LoadStep::Read(path.clone()),
    }
}

/// Decides how a load of `source` proceeds, without reading anything.
pub fn load_step(source: &SourceData) -> (r: LoadStep)
    ensures
        load_step_allowed(*source, r),
{
    match &source.kind {
        SourceDataKind::Data(data) => LoadStep::Ready(data.clone()),
        SourceDataKind::Path(path) => load_path_step(path, &source.status),
    }
}

/// What a read's outcome leaves: its bytes, present in the cache, or a
/// lasting error.
pub open spec fn filled_by(
    read: Option<Vec<u8>>,
    r: Option<FontData>,
    status: SourceDataStatus,
) -> bool {
    match read {
        Some(bytes) => (r matches Some(d) && d@ == bytes@) && (status matches SourceDataStatus::Present(
            w,
        ) && w@ == bytes@),
        None => r is None && status is Error,
    }
}

/// Takes the outcome of reading a file source. The status is checked again
/// first: if live bytes or a failure were recorded meanwhile, they win and
/// the read is dropped. Otherwise a successful read is recorded as present
/// and a failed one as a lasting error.
pub fn finish_load(status: &mut SourceDataStatus, read: Option<Vec<u8>>) -> (r: Option<FontData>)
    ensures
        match *old(status) {
            SourceDataStatus::Error => r is None && *final(status) is Error,
            SourceDataStatus::Vacant => filled_by(read, r, *final(status)),
            SourceDataStatus::Present(w) => (r matches Some(d) && d@ == w@ && final(status).same(
                *old(status),
            )) || filled_by(read, r, *final(status)),
        },
{
    match status {
        SourceDataStatus::Present(weak) => {
            if let Some(data) = weak.upgrade() {
                return Some(data);
            }
        },
        SourceDataStatus::Error => {
            return None;
        },
        SourceDataStatus::Vacant => {},
    }
    match read {
        Some(bytes) => {
            let data = FontData::new(bytes);
            *status = SourceDataStatus::Present(data.downgrade());
            Some(data)
        },
        None => {
            *status = SourceDataStatus::Error;
            None
        },
    }
}

/// A failed source stays failed: every later load of it is absent, asks for
/// no read, and a read handed in afterwards changes nothing.
pub proof fn lemma_error_is_sticky(source: SourceData, step: LoadStep)
    requires
        source.kind is Path,
        source.status is Error,
        load_step_allowed(source, step),
    ensures
        step is Absent,
{
}

/// Once a load has filled a source with some bytes, a later load of it
/// either gives those same bytes or asks for a read; whether the bytes are
/// still alive is not known here, so a read is not ruled out.
pub proof fn lemma_reload_same_bytes(source: SourceData, bytes: Seq<u8>, step: LoadStep)
    requires
        source.kind is Path,
        source.status matches SourceDataStatus::Present(w) && w@ == bytes,
        load_step_allowed(source, step),
    ensures
        step is Ready || step is Read,
        step matches LoadStep::Ready(d) ==> d@ == bytes,
{
}

} // verus!
