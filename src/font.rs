//! Shared font bytes and weak references to them.

use peniko::{Blob, WeakBlob};
use vstd::prelude::*;

verus! {

#[verifier::external_type_specification]
#[verifier::external_body]
#[verifier::reject_recursive_types(T)]
pub struct ExBlob<T>(Blob<T>);

#[verifier::external_type_specification]
#[verifier::external_body]
#[verifier::reject_recursive_types(T)]
pub struct ExWeakBlob<T>(WeakBlob<T>);

/// The bytes a shared blob holds.
pub uninterp spec fn blob_bytes(b: Blob<u8>) -> Seq<u8>;

/// The bytes held by the blob a weak reference points to.
pub uninterp spec fn weak_bytes(w: WeakBlob<u8>) -> Seq<u8>;

/// Relies on `From<Vec<u8>> for peniko::Blob<u8>`: the blob holds the vector's bytes.
#[verifier::external_body]
fn blob_from_vec(v: Vec<u8>) -> (r: Blob<u8>)
    ensures
        blob_bytes(r) == v@,
{
    v.into()
}

/// Relies on `peniko::Blob::data`: a view of the bytes the blob holds.
#[verifier::external_body]
fn blob_data(b: &Blob<u8>) -> (r: &[u8])
    ensures
        r@ == blob_bytes(*b),
{
    b.data()
}

/// Relies on `Clone for peniko::Blob`: the copy shares the same bytes.
#[verifier::external_body]
fn blob_clone(b: &Blob<u8>) -> (r: Blob<u8>)
    ensures
        blob_bytes(r) == blob_bytes(*b),
{
    b.clone()
}

/// Relies on `peniko::Blob::downgrade`: the weak reference points at the same bytes.
#[verifier::external_body]
fn blob_downgrade(b: &Blob<u8>) -> (r: WeakBlob<u8>)
    ensures
        weak_bytes(r) == blob_bytes(*b),
{
    b.downgrade()
}

/// Relies on `peniko::WeakBlob::upgrade`: when the bytes are still alive, the
/// strong reference holds them. Whether they are alive is not known here.
#[verifier::external_body]
fn weak_upgrade(w: &WeakBlob<u8>) -> (r: Option<Blob<u8>>)
    ensures
        r matches Some(b) ==> blob_bytes(b) == weak_bytes(*w),
{
    w.upgrade()
}

/// Relies on `Clone for peniko::WeakBlob`: the copy points at the same bytes.
#[verifier::external_body]
fn weak_clone(w: &WeakBlob<u8>) -> (r: WeakBlob<u8>)
    ensures
        weak_bytes(r) == weak_bytes(*w),
{
    w.clone()
}

/// Shared reference to owned font data.
pub struct FontData {
    inner: Blob<u8>,
}

impl View for FontData {
    type V = Seq<u8>;

    closed spec fn view(&self) -> Seq<u8> {
        blob_bytes(self.inner)
    }
}

impl Clone for FontData {
    fn clone(&self) -> (r: Self)
        ensures
            r@ == self@,
    {
        FontData { inner: blob_clone(&self.inner) }
    }
}

impl FontData {
    /// Creates font data from the specified bytes.
    pub fn new(data: Vec<u8>) -> (r: Self)
        ensures
            r@ == data@,
    {
        FontData { inner: blob_from_vec(data) }
    }

    /// Returns a new shared handle to the underlying blob.
    pub fn data(&self) -> (r: Blob<u8>)
        ensures
            blob_bytes(r) == self@,
    {
        blob_clone(&self.inner)
    }

    /// Creates a new weak reference to the data.
    pub fn downgrade(&self) -> (r: WeakFontData)
        ensures
            r@ == self@,
    {
        WeakFontData { inner: blob_downgrade(&self.inner) }
    }

    /// Returns the underlying bytes of the data.
    pub fn as_bytes(&self) -> (r: &[u8])
        ensures
            r@ == self@,
    {
        blob_data(&self.inner)
    }
}

/// Font bytes held in memory.
pub enum FontDataInner {
    Memory(Vec<u8>),
}

impl FontDataInner {
    pub open spec fn bytes(&self) -> Seq<u8> {
        match self {
            FontDataInner::Memory(v) => v@,
        }
    }

    pub fn data(&self) -> (r: &[u8])
        ensures
            r@ == self.bytes(),
    {
        match self {
            FontDataInner::Memory(data) => data.as_slice(),
        }
    }
}

/// Weak reference to owned font data.
pub struct WeakFontData {
    inner: WeakBlob<u8>,
}

impl View for WeakFontData {
    type V = Seq<u8>;

    closed spec fn view(&self) -> Seq<u8> {
        weak_bytes(self.inner)
    }
}

impl Clone for WeakFontData {
    fn clone(&self) -> (r: Self)
        ensures
            r@ == self@,
    {
        WeakFontData { inner: weak_clone(&self.inner) }
    }
}

impl WeakFontData {
    /// Upgrades the weak reference; the result, when there is one, holds the
    /// bytes the reference points at.
    pub fn upgrade(&self) -> (r: Option<FontData>)
        ensures
            r matches Some(d) ==> d@ == self@,
    {
        match weak_upgrade(&self.inner) {
            Some(inner) => Some(FontData { inner }),
            None => None,
        }
    }
}

} // verus!
