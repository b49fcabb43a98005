//! When a write to the content cache changes what it holds.

use vstd::prelude::*;

verus! {

/// A write of `data` over a key that holds `stored` (`None`: nothing yet)
/// has to write, unless the key holds exactly those bytes.
pub open spec fn must_write_spec(stored: Option<Seq<u8>>, data: Seq<u8>) -> bool {
    stored != Some(data)
}

pub open spec fn opt_bytes(o: Option<&[u8]>) -> Option<Seq<u8>> {
    match o {
        Some(s) => Some(s@),
        None => None,
    }
}

/// Whether the cache is still valid after a write of `data` over `stored`.
pub open spec fn valid_after(valid: bool, stored: Option<Seq<u8>>, data: Seq<u8>) -> bool {
    valid && !must_write_spec(stored, data)
}

/// Whether a write of `data` over a key that holds `stored` must write,
/// comparing byte for byte.
pub fn must_write(stored: Option<&[u8]>, data: &[u8]) -> (r: bool)
    ensures
        r == must_write_spec(opt_bytes(stored), data@),
{
    match stored {
        None => true,
        Some(s) => {
            if s.len() != data.len() {
                return true;
            }
            let mut i: usize = 0;
            while i < s.len()
                invariant
                    i <= s@.len(),
                    s@.len() == data@.len(),
                    stored == Some(s),
                    s@.subrange(0, i as int) == data@.subrange(0, i as int),
                decreases s@.len() - i,
            {
                if s[i] != data[i] {
                    proof {
                        assert(s@[i as int] != data@[i as int]);
                        assert(s@ != data@);
                    }
                    return true;
                }
                proof {
                    assert(s@.subrange(0, i + 1) =~= s@.subrange(0, i as int).push(s@[i as int]));
                    assert(data@.subrange(0, i + 1) =~= data@.subrange(0, i as int).push(data@[i as int]));
                }
                i = i + 1;
            }
            proof {
                assert(s@.subrange(0, i as int) =~= s@);
                assert(data@.subrange(0, i as int) =~= data@);
            }
            false
        },
    }
}

/// Whether anything in the cache changed during this session.
pub struct Validity {
    valid: bool,
}

impl Validity {
    pub closed spec fn valid(&self) -> bool {
        self.valid
    }

    /// A session in which nothing has changed yet.
    pub fn new() -> (r: Self)
        ensures
            r.valid(),
    {
        Validity { valid: true }
    }

    /// Whether nothing has changed in this session.
    pub fn is_valid(&self) -> (r: bool)
        ensures
            r == self.valid(),
    {
        self.valid
    }

    /// Records a write of `data` over a key that holds `stored`; returns
    /// whether the bytes have to be written, which makes the session invalid.
    pub fn record_add(&mut self, stored: Option<&[u8]>, data: &[u8]) -> (r: bool)
        ensures
            r == must_write_spec(opt_bytes(stored), data@),
            final(self).valid() == valid_after(old(self).valid(), opt_bytes(stored), data@),
    {
        let w = must_write(stored, data);
        if w {
            self.valid = false;
        }
        w
    }
}

/// Writing the bytes that a key already holds changes nothing, however often
/// it is done; writing other bytes, or to a key that holds nothing, makes
/// the session invalid.
pub proof fn lemma_change_detection(valid: bool, stored: Seq<u8>, other: Seq<u8>)
    requires
        other != stored,
    ensures
        valid_after(valid, Some(stored), stored) == valid,
        valid_after(valid_after(valid, Some(stored), stored), Some(stored), stored) == valid,
        !valid_after(valid, Some(stored), other),
        !valid_after(valid, None, stored),
{
}

} // verus!
