//! Content fingerprinting: a streaming SHA-256 digest (ring's), read out as
//! a lowercase hexadecimal string (data_encoding's). The digest itself is
//! named, not restated; the hex encoding is small enough to state exactly.

use vstd::prelude::*;

use crate::record::FileData;

verus! {

/// The SHA-256 digest of a byte sequence: a function of the bytes alone,
/// computed by ring.
pub uninterp spec fn sha256_of(data: Seq<u8>) -> Seq<u8>;

#[verifier::external_type_specification]
#[verifier::external_body]
pub struct ExDigestContext(ring::digest::Context);

/// A streaming SHA-256 computation: bytes go in chunk by chunk, so memory
/// use stays independent of the source's size. `fed` is the sequence of all
/// bytes fed so far.
pub struct Sha256 {
    ctx: ring::digest::Context,
    fed: Ghost<Seq<u8>>,
}

impl Sha256 {
    /// The bytes fed so far.
    pub closed spec fn bytes(self) -> Seq<u8> {
        self.fed@
    }
}

/// Relies on ring::digest::Context::new with the SHA-256 algorithm: a fresh
/// digest computation over no bytes yet.
#[verifier::external_body]
fn new_sha256_context() -> (c: ring::digest::Context) {
    ring::digest::Context::new(&ring::digest::SHA256)
}

impl Sha256 {
    /// A fresh digest computation over no bytes yet.
    pub fn new() -> (r: Sha256)
        ensures
            r.bytes() == Seq::<u8>::empty(),
    {
        Sha256 { ctx: new_sha256_context(), fed: Ghost(Seq::empty()) }
    }

    /// Relies on ring::digest::Context::update: appends the chunk to the
    /// bytes being digested.
    #[verifier::external_body]
    pub fn update(&mut self, chunk: &[u8])
        ensures
            final(self).bytes() == old(self).bytes() + chunk@,
    {
        self.ctx.update(chunk);
    }

    /// Relies on ring::digest::Context::finish and Digest::as_ref: the
    /// SHA-256 digest of all bytes fed, 32 bytes long. SHA-256 is defined
    /// for fewer than 2^61 bytes, and ring does not return on more.
    #[verifier::external_body]
    fn finish(self) -> (r: Vec<u8>)
        requires
            self.bytes().len() < 0x2000000000000000,
        ensures
            r@ == sha256_of(self.bytes()),
            r@.len() == 32,
    {
        self.ctx.finish().as_ref().to_vec()
    }

    /// The digest of all bytes fed, as it appears in a snapshot: lowercase
    /// hexadecimal.
    pub fn finish_hex(self) -> (r: String)
        requires
            self.bytes().len() < 0x2000000000000000,
        ensures
            r@ == spec_hex_lower(sha256_of(self.bytes())),
            r@.len() == 64,
    {
        let ghost fed = self.bytes();
        let digest = self.finish();
        proof {
            lemma_hex_lower_len(sha256_of(fed));
        }
        hex_lower(digest.as_slice())
    }
}

/// One lowercase hexadecimal digit.
pub open spec fn spec_hex_digit(n: int) -> char {
    if n == 0 {
        '0'
    } else if n == 1 {
        '1'
    } else if n == 2 {
        '2'
    } else if n == 3 {
        '3'
    } else if n == 4 {
        '4'
    } else if n == 5 {
        '5'
    } else if n == 6 {
        '6'
    } else if n == 7 {
        '7'
    } else if n == 8 {
        '8'
    } else if n == 9 {
        '9'
    } else if n == 10 {
        'a'
    } else if n == 11 {
        'b'
    } else if n == 12 {
        'c'
    } else if n == 13 {
        'd'
    } else if n == 14 {
        'e'
    } else {
        'f'
    }
}

/// Lowercase hexadecimal: two digits per byte, high nibble first.
pub open spec fn spec_hex_lower(data: Seq<u8>) -> Seq<char>
    decreases data.len(),
{
    if data.len() == 0 {
        Seq::empty()
    } else {
        seq![spec_hex_digit(data.first() as int / 16), spec_hex_digit(data.first() as int % 16)]
            + spec_hex_lower(data.drop_first())
    }
}

/// The hex encoding is two characters per byte.
pub proof fn lemma_hex_lower_len(data: Seq<u8>)
    ensures
        spec_hex_lower(data).len() == 2 * data.len(),
    decreases data.len(),
{
    if data.len() > 0 {
        lemma_hex_lower_len(data.drop_first());
    }
}

/// Relies on data_encoding::HEXLOWER.encode: the bytes in lowercase
/// hexadecimal, two digits per byte, high nibble first.
#[verifier::external_body]
fn hex_lower(data: &[u8]) -> (r: String)
    ensures
        r@ == spec_hex_lower(data@),
{
    data_encoding::HEXLOWER.encode(data)
}

impl FileData {
    /// The content digest of a byte source, as it appears in a snapshot:
    /// the SHA-256 digest in lowercase hexadecimal. The source is consumed
    /// in bounded chunks.
    pub fn hash(data: &[u8]) -> (r: String)
        requires
            data@.len() < 0x2000000000000000,
        ensures
            r@ == spec_hex_lower(sha256_of(data@)),
            r@.len() == 64,
    {
        let mut h = Sha256::new();
        let mut i: usize = 0;
        proof {
            assert(h.bytes() =~= data@.subrange(0, 0));
        }
        while i < data.len()
            invariant
                i <= data@.len(),
                h.bytes() == data@.subrange(0, i as int),
            decreases data@.len() - i,
        {
            let end = if data.len() - i < 1024 {
                data.len()
            } else {
                i + 1024
            };
            let chunk = vstd::slice::slice_subrange(data, i, end);
            h.update(chunk);
            proof {
                assert(data@.subrange(0, i as int) + data@.subrange(i as int, end as int)
                    =~= data@.subrange(0, end as int));
            }
            i = end;
        }
        proof {
            assert(data@.subrange(0, data@.len() as int) =~= data@);
            lemma_hex_lower_len(sha256_of(data@));
        }
        let digest = h.finish();
        hex_lower(digest.as_slice())
    }
}

/// The digest is deterministic: hashing the same content twice yields the
/// same digest string.
pub proof fn lemma_hash_deterministic(a: Seq<u8>, b: Seq<u8>)
    requires
        a == b,
    ensures
        spec_hex_lower(sha256_of(a)) == spec_hex_lower(sha256_of(b)),
{
}

} // verus!
