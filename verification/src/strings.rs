use vstd::prelude::*;
use vstd::utf8::{valid_utf8, decode_utf8, encode_utf8};
use vstd::string::StringSliceAdditionalSpecFns;

use crate::deser::utf8_text;

verus! {

broadcast use vstd::utf8::encode_utf8_valid_utf8, vstd::utf8::encode_utf8_decode_utf8;

#[verifier::external_type_specification]
#[verifier::external_body]
pub struct ExTryFromSliceError(std::array::TryFromSliceError);

/// `<[u8; N]>::try_from(&[u8])`: std documents that the conversion succeeds
/// exactly when the slice holds `N` bytes, and then copies them.
#[verifier::external_body]
fn bytes_to_array<const N: usize>(bs: &[u8]) -> (r: Result<[u8; N], std::array::TryFromSliceError>)
    ensures
        r is Ok <==> bs@.len() == N,
        r matches Ok(a) ==> a@ == bs@,
{
    bs.try_into()
}

/// Text of exactly `N` bytes, held inline.
#[derive(Copy, Clone, PartialEq, Eq, Hash)]
pub struct FixedSizeString<const N: usize>([u8; N]);

proof fn lemma_zeros_valid(s: Seq<u8>)
    requires
        forall|i: int| 0 <= i < s.len() ==> s[i] == 0u8,
    ensures
        valid_utf8(s),
    decreases s.len(),
{
    if s.len() > 0 {
        let z = seq![0u8];
        assert(valid_utf8(z)) by {
            reveal_with_fuel(valid_utf8, 2);
            assert(vstd::utf8::pop_first_scalar(z) =~= Seq::<u8>::empty());
        }
        lemma_zeros_valid(s.drop_first());
        vstd::utf8::valid_utf8_concat(z, s.drop_first());
        assert(z + s.drop_first() =~= s);
    }
}

impl<const N: usize> FixedSizeString<N> {
    #[verifier::type_invariant]
    spec fn is_text(self) -> bool {
        valid_utf8(self.0@)
    }

    /// The bytes held.
    pub closed spec fn bytes(self) -> Seq<u8> {
        self.0@
    }

    pub proof fn lemma_bytes_len(self)
        ensures
            self.bytes().len() == N,
    {
    }

    /// The text held.
    pub closed spec fn text(self) -> Seq<char> {
        decode_utf8(self.0@)
    }

    /// The text of `s`, when it is `N` bytes long; otherwise the error that
    /// the conversion to `N` bytes gives.
    pub fn new(s: &str) -> (r: Result<FixedSizeString<N>, std::array::TryFromSliceError>)
        ensures
            r is Ok <==> s.spec_bytes().len() == N,
            r matches Ok(f) ==> f.bytes() == s.spec_bytes() && f.text() == s@,
    {
        let a: [u8; N] = bytes_to_array(s.as_bytes())?;
        proof {
            assert(valid_utf8(s.spec_bytes()));
        }
        Ok(FixedSizeString(a))
    }

    /// The text held.
    pub fn as_str(&self) -> (r: &str)
        ensures
            r@ == self.text(),
            r.spec_bytes() == self.bytes(),
    {
        proof {
            use_type_invariant(self);
        }
        match utf8_text(&self.0) {
            Ok(s) => {
                proof {
                    assert(decode_utf8(encode_utf8(s@)) == s@);
                }
                s
            },
            Err(_) => {
                proof {
                    assert(false);
                }
                ""
            },
        }
    }

    /// The text of `N` zero bytes.
    pub closed spec fn zeros() -> Self {
        FixedSizeString(vstd::array::spec_array_fill_for_copy_type::<u8, N>(0u8))
    }

    /// `N` zero bytes.
    pub fn default() -> (r: Self)
        ensures
            r == Self::zeros(),
            forall|i: int| 0 <= i < N ==> r.bytes()[i] == 0u8,
            r.bytes().len() == N,
    {
        let a: [u8; N] = [0u8; N];
        proof {
            lemma_zeros_valid(a@);
        }
        FixedSizeString(a)
    }
}

/// Whether two texts are the same.
pub fn str_eq(a: &str, b: &str) -> (r: bool)
    ensures
        r == (a@ == b@),
{
    let x = a.as_bytes();
    let y = b.as_bytes();
    proof {
        assert(decode_utf8(encode_utf8(a@)) == a@);
        assert(decode_utf8(encode_utf8(b@)) == b@);
    }
    if x.len() != y.len() {
        assert(a@ != b@) by {
            if a@ == b@ {
                assert(encode_utf8(a@) == encode_utf8(b@));
            }
        }
        return false;
    }
    let mut i: usize = 0;
    while i < x.len()
        invariant
            x@ == a.spec_bytes(),
            y@ == b.spec_bytes(),
            x@.len() == y@.len(),
            i <= x@.len(),
            forall|j: int| 0 <= j < i ==> x@[j] == y@[j],
        decreases x@.len() - i,
    {
        if x[i] != y[i] {
            assert(a@ != b@) by {
                if a@ == b@ {
                    assert(encode_utf8(a@) == encode_utf8(b@));
                }
            }
            return false;
        }
        i = i + 1;
    }
    assert(x@ =~= y@);
    true
}

/// Sets a text in place when it differs from the one held, and tells whether
/// it did.
pub trait StringSetExtNeq {
    fn set_if_ne(&mut self, s: &str) -> bool;
}

impl StringSetExtNeq for String {
    fn set_if_ne(&mut self, s: &str) -> (changed: bool)
        ensures
            final(self)@ == s@,
            changed == (old(self)@ != s@),
    {
        if !str_eq(s, self.as_str()) {
            *self = s.to_owned();
            true
        } else {
            false
        }
    }
}

impl StringSetExtNeq for Option<String> {
    fn set_if_ne(&mut self, s: &str) -> (changed: bool)
        ensures
            *final(self) matches Some(t) && t@ == s@,
            changed == (*old(self) matches Some(t) ==> t@ != s@),
    {
        match self {
            Some(t) => t.set_if_ne(s),
            None => {
                *self = Some(s.to_owned());
                true
            },
        }
    }
}

} // verus!
