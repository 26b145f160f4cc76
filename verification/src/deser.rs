use vstd::prelude::*;
use vstd::utf8::valid_utf8;
use vstd::string::StringSliceAdditionalSpecFns;

verus! {

#[verifier::external_type_specification]
#[verifier::external_body]
pub struct ExIoError(std::io::Error);

#[verifier::external_type_specification]
#[verifier::external_body]
pub struct ExUtf8Error(simdutf8::basic::Utf8Error);

/// `simdutf8::basic::from_utf8`: the bytes read as text. The crate documents
/// that it returns `Ok` exactly when the bytes are valid UTF-8, and that the
/// text it hands back is the same bytes.
#[verifier::external_body]
pub(crate) fn utf8_text(bs: &[u8]) -> (r: Result<&str, simdutf8::basic::Utf8Error>)
    ensures
        r is Ok <==> valid_utf8(bs@),
        r matches Ok(s) ==> s.spec_bytes() == bs@,
{
    simdutf8::basic::from_utf8(bs)
}

/// `std::io::Error::from(ErrorKind::InvalidData)`: the error for bytes that
/// are not text. Nothing is stated of the value.
#[verifier::external_body]
fn invalid_data_error() -> std::io::Error {
    std::io::Error::from(std::io::ErrorKind::InvalidData)
}

/// The bytes of one stream file, checked to be UTF-8 text, from which the
/// JSON messages are read.
pub struct DeserializerWithData {
    data: Vec<u8>,
}

impl DeserializerWithData {
    #[verifier::type_invariant]
    spec fn text_is_utf8(self) -> bool {
        valid_utf8(self.data@)
    }

    /// The bytes held.
    pub closed spec fn bytes(self) -> Seq<u8> {
        self.data@
    }

    /// Takes the bytes when they are valid UTF-8; otherwise fails with an
    /// `InvalidData` error.
    pub fn build(bs: Vec<u8>) -> (r: Result<Self, std::io::Error>)
        ensures
            r is Ok <==> valid_utf8(bs@),
            r matches Ok(d) ==> d.bytes() == bs@,
    {
        let ok = utf8_text(bs.as_slice()).is_ok();
        if ok {
            Ok(DeserializerWithData { data: bs })
        } else {
            Err(invalid_data_error())
        }
    }

    /// The bytes held, as text.
    pub fn as_str(&self) -> (s: &str)
        ensures
            s.spec_bytes() == self.bytes(),
    {
        proof {
            use_type_invariant(self);
        }
        match utf8_text(self.data.as_slice()) {
            Ok(s) => s,
            Err(_) => {
                proof {
                    assert(false);
                }
                ""
            },
        }
    }
}

} // verus!
