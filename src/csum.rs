//! A writer that computes a BLAKE2b checksum of everything written through it.

use vstd::prelude::*;
use vstd::string::*;

use blake2_rfc::blake2b::Blake2b;

verus! {

/// blake2_rfc's BLAKE2b hashing context, opaque here: what it has absorbed
/// is known through the wrappers below.
#[verifier::external_type_specification]
#[verifier::external_body]
pub struct ExBlake2b(Blake2b);

/// The bytes that have been fed into a BLAKE2b hashing context.
pub uninterp spec fn blake2b_absorbed(s: Blake2b) -> Seq<u8>;

/// The digest length, in bytes, that a BLAKE2b hashing context was made for.
pub uninterp spec fn blake2b_digest_len(s: Blake2b) -> nat;

/// The 64-byte BLAKE2b digest of `data`, without key.
pub uninterp spec fn blake2b_512(data: Seq<u8>) -> Seq<u8>;

/// Relies on blake2_rfc's Blake2b::new: a hashing context without key that
/// has absorbed nothing and yields a digest of 64 bytes.
#[verifier::external_body]
fn blake2b_new() -> (r: Blake2b)
    ensures
        blake2b_absorbed(r) == Seq::<u8>::empty(),
        blake2b_digest_len(r) == 64,
{
    Blake2b::new(64)
}

/// Relies on blake2_rfc's Blake2b::update: feeds `data` into the context.
/// It panics when the count of absorbed bytes overflows a `u64`.
#[verifier::external_body]
fn blake2b_update(s: &mut Blake2b, data: &[u8])
    requires
        blake2b_absorbed(*old(s)).len() + data@.len() <= u64::MAX,
    ensures
        blake2b_absorbed(*final(s)) == blake2b_absorbed(*old(s)) + data@,
        blake2b_digest_len(*final(s)) == blake2b_digest_len(*old(s)),
{
    s.update(data)
}

/// Relies on blake2_rfc's Blake2b::finalize and Blake2bResult::as_bytes: the
/// digest of what the context absorbed, of the length it was made for.
#[verifier::external_body]
fn blake2b_finalize(s: Blake2b) -> (r: Vec<u8>)
    requires
        blake2b_digest_len(s) == 64,
    ensures
        r@ == blake2b_512(blake2b_absorbed(s)),
        r@.len() == 64,
{
    s.finalize().as_bytes().to_vec()
}

/// The lowercase hexadecimal digit of `d`.
pub open spec fn hex_digit(d: u8) -> char {
    if d < 10 {
        ('0' as u8 + d) as char
    } else {
        ('a' as u8 + (d - 10)) as char
    }
}

/// `b` as lowercase hexadecimal text, two digits per byte.
pub open spec fn hex_of(b: Seq<u8>) -> Seq<char>
    decreases b.len(),
{
    if b.len() == 0 {
        Seq::empty()
    } else {
        hex_of(b.drop_last()) + seq![hex_digit(b.last() / 16), hex_digit(b.last() % 16)]
    }
}

fn hex_char(d: u8) -> (r: &'static str)
    requires
        d < 16,
    ensures
        r@ == seq![hex_digit(d)],
{
    let digits = "0123456789abcdef";
    proof {
        reveal_strlit("0123456789abcdef");
        assert(digits@[d as int] == hex_digit(d));
    }
    let r = digits.substring_char(d as usize, d as usize + 1);
    proof {
        assert(r@ =~= seq![hex_digit(d)]);
    }
    r
}

/// A finished checksum: the digest and its lowercase hexadecimal text.
#[derive(PartialEq, Eq)]
pub struct Checksum {
    result: Vec<u8>,
    hexstr: String,
}

impl Checksum {
    pub closed spec fn digest(&self) -> Seq<u8> {
        self.result@
    }

    pub closed spec fn hex(&self) -> Seq<char> {
        self.hexstr@
    }

    /// The checksum whose digest is `result`.
    pub fn from_digest(result: Vec<u8>) -> (r: Self)
        ensures
            r.digest() == result@,
            r.hex() == hex_of(result@),
    {
        let mut hexstr = String::new();
        let mut i: usize = 0;
        proof {
            assert(result@.subrange(0, 0) =~= Seq::<u8>::empty());
            assert(hexstr@ =~= Seq::<char>::empty());
        }
        while i < result.len()
            invariant
                i <= result@.len(),
                hexstr@ == hex_of(result@.subrange(0, i as int)),
            decreases result@.len() - i,
        {
            let b = result[i];
            hexstr.append(hex_char(b / 16));
            hexstr.append(hex_char(b % 16));
            proof {
                assert(result@.subrange(0, i + 1).drop_last() =~= result@.subrange(0, i as int));
                assert(result@.subrange(0, i + 1).last() == b);
            }
            i = i + 1;
        }
        proof {
            assert(result@.subrange(0, i as int) =~= result@);
        }
        Checksum { result, hexstr }
    }

    /// The checksum as lowercase hexadecimal text.
    pub fn as_str(&self) -> (r: &str)
        ensures
            r@ == self.hex(),
    {
        self.hexstr.as_str()
    }

    /// The digest bytes.
    pub fn as_bytes(&self) -> (r: &[u8])
        ensures
            r@ == self.digest(),
    {
        self.result.as_slice()
    }
}

/// A byte sink that also feeds every byte written into a BLAKE2b context.
pub struct CSumWriter {
    inner: Vec<u8>,
    csum: Blake2b,
    count: u64,
}

impl CSumWriter {
    /// What the sink holds.
    pub closed spec fn sink(&self) -> Seq<u8> {
        self.inner@
    }

    /// Every byte written so far, in order.
    pub closed spec fn written(&self) -> Seq<u8> {
        blake2b_absorbed(self.csum)
    }

    pub closed spec fn wf(&self) -> bool {
        &&& blake2b_digest_len(self.csum) == 64
        &&& self.count == blake2b_absorbed(self.csum).len()
    }

    /// A writer onto `inner` that has written nothing yet.
    pub fn new(inner: Vec<u8>) -> (r: Self)
        ensures
            r.wf(),
            r.sink() == inner@,
            r.written() == Seq::<u8>::empty(),
    {
        CSumWriter { inner, csum: blake2b_new(), count: 0 }
    }

    /// How many bytes have been written so far.
    pub fn written_len(&self) -> (r: u64)
        requires
            self.wf(),
        ensures
            r == self.written().len(),
    {
        self.count
    }

    /// Takes what the sink holds, leaving it empty; the checksum goes on.
    pub fn drain(&mut self) -> (r: Vec<u8>)
        requires
            old(self).wf(),
        ensures
            final(self).wf(),
            r@ == old(self).sink(),
            final(self).sink() == Seq::<u8>::empty(),
            final(self).written() == old(self).written(),
    {
        let mut taken: Vec<u8> = Vec::new();
        std::mem::swap(&mut self.inner, &mut taken);
        taken
    }

    /// Writes all of `data` to the sink and into the checksum; returns its
    /// length.
    pub fn write(&mut self, data: &[u8]) -> (r: usize)
        requires
            old(self).wf(),
            old(self).written().len() + data@.len() <= u64::MAX,
        ensures
            final(self).wf(),
            final(self).sink() == old(self).sink() + data@,
            final(self).written() == old(self).written() + data@,
            r == data@.len(),
    {
        blake2b_update(&mut self.csum, data);
        self.count = self.count + data.len() as u64;
        let mut i: usize = 0;
        while i < data.len()
            invariant
                i <= data@.len(),
                self.inner@ == old(self).sink() + data@.subrange(0, i as int),
                blake2b_absorbed(self.csum) == old(self).written() + data@,
                blake2b_digest_len(self.csum) == 64,
                self.count == blake2b_absorbed(self.csum).len(),
            decreases data@.len() - i,
        {
            self.inner.push(data[i]);
            proof {
                assert(data@.subrange(0, i + 1) =~= data@.subrange(0, i as int).push(data@[i as int]));
                assert(old(self).sink() + data@.subrange(0, i + 1)
                    =~= (old(self).sink() + data@.subrange(0, i as int)).push(data@[i as int]));
            }
            i = i + 1;
        }
        proof {
            assert(data@.subrange(0, i as int) =~= data@);
        }
        data.len()
    }

    /// Nothing is buffered here: the sink and the checksum are unchanged.
    pub fn flush(&mut self)
        ensures
            *final(self) == *old(self),
    {
    }

    /// Finishes the checksum and gives back the sink with it.
    pub fn into_inner(self) -> (r: (Vec<u8>, Checksum))
        requires
            self.wf(),
        ensures
            r.0@ == self.sink(),
            r.1.digest() == blake2b_512(self.written()),
            r.1.hex() == hex_of(blake2b_512(self.written())),
    {
        let digest = blake2b_finalize(self.csum);
        (self.inner, Checksum::from_digest(digest))
    }
}

/// Two writers that started on equal sinks and were handed the same bytes
/// in the same order hold equal sinks and yield equal checksums.
pub proof fn lemma_checksum_deterministic(a: CSumWriter, b: CSumWriter, start: Seq<u8>)
    requires
        a.wf(),
        b.wf(),
        a.sink() == start + a.written(),
        b.sink() == start + b.written(),
        a.written() == b.written(),
    ensures
        a.sink() == b.sink(),
        blake2b_512(a.written()) == blake2b_512(b.written()),
        hex_of(blake2b_512(a.written())) == hex_of(blake2b_512(b.written())),
{
}

} // verus!
