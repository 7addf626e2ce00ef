//! SHA-256 of data that arrives in chunks, written in lower-case
//! hexadecimal, as file integrity checks compare it.
//!
//! The hasher of `sha2` is a type that Verus cannot declare (its name is an
//! alias of a generic wrapper), so it is held in a struct whose inside Verus
//! does not see; what it has been fed is named by `fed_bytes`.
use vstd::prelude::*;

verus! {

/// The SHA-256 of `data`, as `sha2` computes it and `{:x}` writes it.
pub uninterp spec fn sha256_hex(data: Seq<u8>) -> Seq<char>;

/// A running `sha2::Sha256` hasher.
#[verifier::external_body]
pub struct Sha256State {
    inner: sha2::Sha256,
}

/// The bytes that a hasher has been fed, in order.
pub uninterp spec fn fed_bytes(h: Sha256State) -> Seq<u8>;

/// `sha2::Sha256::new()`: a hasher fed nothing.
#[verifier::external_body]
fn sha256_new() -> (r: Sha256State)
    ensures
        fed_bytes(r) == Seq::<u8>::empty(),
{
    Sha256State { inner: <sha2::Sha256 as sha2::Digest>::new() }
}

/// `Digest::update`: feeds `chunk` after what the hasher was fed.
#[verifier::external_body]
fn sha256_update(h: &mut Sha256State, chunk: &[u8])
    ensures
        fed_bytes(*final(h)) == fed_bytes(*old(h)) + chunk@,
{
    sha2::Digest::update(&mut h.inner, chunk);
}

/// `Digest::finalize`, written with `{:x}`: the hash of all bytes fed.
#[verifier::external_body]
fn sha256_finish(h: Sha256State) -> (r: String)
    ensures
        r@ == sha256_hex(fed_bytes(h)),
{
    format!("{:x}", sha2::Digest::finalize(h.inner))
}

/// The hashing of a file read in chunks: its running hash and the number
/// of bytes fed.
pub struct FileHashing {
    state: Sha256State,
    len: u64,
}

impl FileHashing {
    /// The bytes fed so far.
    pub closed spec fn data(&self) -> Seq<u8> {
        fed_bytes(self.state)
    }

    pub closed spec fn count(&self) -> u64 {
        self.len
    }

    pub fn new() -> (r: FileHashing)
        ensures
            r.data() == Seq::<u8>::empty(),
            r.count() == 0,
    {
        FileHashing { state: sha256_new(), len: 0 }
    }

    /// Feeds the next chunk read.
    pub fn update(&mut self, chunk: &[u8])
        requires
            old(self).count() + chunk@.len() <= u64::MAX,
        ensures
            final(self).data() == old(self).data() + chunk@,
            final(self).count() == old(self).count() + chunk@.len(),
    {
        sha256_update(&mut self.state, chunk);
        self.len = self.len + chunk.len() as u64;
    }

    /// The number of bytes fed.
    pub fn bytes_hashed(&self) -> (r: u64)
        ensures
            r == self.count(),
    {
        self.len
    }

    /// The hash of everything fed, in lower-case hexadecimal.
    pub fn finish(self) -> (r: String)
        ensures
            r@ == sha256_hex(self.data()),
    {
        sha256_finish(self.state)
    }
}

} // verus!
