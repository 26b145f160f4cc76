use vstd::prelude::*;
use vstd::string::StringSliceAdditionalSpecFns;

use crate::strings::FixedSizeString;

verus! {

#[verifier::external_type_specification]
#[verifier::external_body]
pub struct ExParseError(chrono::ParseError);

/// The instant, in milliseconds since the Unix epoch, that chrono reads from
/// an RFC 3339 date-and-time text; `None` where chrono refuses the text.
pub uninterp spec fn rfc3339_millis(s: Seq<char>) -> Option<int>;

/// `chrono::DateTime::parse_from_rfc3339` followed by `timestamp_millis`:
/// the instant of an RFC 3339 text, or chrono's error for a text it refuses.
/// Which texts chrono accepts, and the instant it reads, are given only by
/// the name `rfc3339_millis`.
#[verifier::external_body]
fn parse_rfc3339_millis(s: &str) -> (r: Result<i64, chrono::ParseError>)
    ensures
        match r {
            Ok(ms) => rfc3339_millis(s@) == Some(ms as int),
            Err(_) => rfc3339_millis(s@) is None,
        },
{
    match chrono::DateTime::parse_from_rfc3339(s) {
        Ok(d) => Ok(d.timestamp_millis()),
        Err(e) => Err(e),
    }
}

/// A date-and-time text of the stream (24 bytes, such as
/// `2021-10-04T03:00:00.000Z`) together with the instant it names.
#[derive(Clone, Copy)]
pub struct DateTimeString {
    str: FixedSizeString<24>,
    ts: i64,
}

impl DateTimeString {
    /// The text.
    pub closed spec fn text(self) -> Seq<char> {
        self.str.text()
    }

    /// The instant, in milliseconds since the Unix epoch.
    pub closed spec fn millis(self) -> int {
        self.ts as int
    }

    /// The text, its instant read by chrono. Texts that chrono accepts are
    /// 24 bytes long: a shorter or longer accepted text is not taken.
    pub fn new(s: &str) -> (r: Result<Self, chrono::ParseError>)
        requires
            rfc3339_millis(s@) is Some ==> s.spec_bytes().len() == 24,
        ensures
            r is Ok <==> rfc3339_millis(s@) is Some,
            r matches Ok(d) ==> d.text() == s@ && Some(d.millis()) == rfc3339_millis(s@),
    {
        let ts = parse_rfc3339_millis(s)?;
        match FixedSizeString::<24>::new(s) {
            Ok(str) => Ok(DateTimeString { str, ts }),
            Err(_) => {
                proof {
                    assert(false);
                }
                Ok(DateTimeString::default())
            },
        }
    }

    /// Reads a text as `new` does, where `new` takes it: `None` for a text
    /// that chrono accepts but that is not 24 bytes long.
    pub fn parse(s: &str) -> (r: Option<Result<Self, chrono::ParseError>>)
        ensures
            r is None <==> (rfc3339_millis(s@) is Some && s.spec_bytes().len() != 24),
            r matches Some(Ok(d)) ==> d.text() == s@ && Some(d.millis()) == rfc3339_millis(s@),
            r matches Some(Err(_)) ==> rfc3339_millis(s@) is None,
    {
        match parse_rfc3339_millis(s) {
            Err(e) => Some(Err(e)),
            Ok(_) => {
                if s.as_bytes().len() != 24 {
                    None
                } else {
                    Some(DateTimeString::new(s))
                }
            },
        }
    }

    /// The instant of a 24-byte text.
    pub fn try_from(str: FixedSizeString<24>) -> (r: Result<Self, chrono::ParseError>)
        ensures
            r is Ok <==> rfc3339_millis(str.text()) is Some,
            r matches Ok(d) ==> d.text() == str.text() && Some(d.millis()) == rfc3339_millis(
                str.text(),
            ),
    {
        let ts = parse_rfc3339_millis(str.as_str())?;
        Ok(DateTimeString { str, ts })
    }

    /// The text, as held.
    pub fn as_fs_str(&self) -> (r: FixedSizeString<24>)
        ensures
            r.text() == self.text(),
            r.bytes().len() == 24,
    {
        proof {
            self.str.lemma_bytes_len();
        }
        self.str
    }

    /// The text.
    pub fn as_str(&self) -> (r: &str)
        ensures
            r@ == self.text(),
    {
        self.str.as_str()
    }

    /// The instant, in milliseconds since the Unix epoch.
    pub fn timestamp_millis(&self) -> (r: i64)
        ensures
            r == self.millis(),
    {
        self.ts
    }

    /// No time yet: twenty-four zero bytes, at the epoch.
    pub closed spec fn unset() -> Self {
        DateTimeString { str: FixedSizeString::<24>::zeros(), ts: 0 }
    }

    pub fn default() -> (r: Self)
        ensures
            r.millis() == 0,
            r == Self::unset(),
    {
        DateTimeString { str: FixedSizeString::<24>::default(), ts: 0 }
    }
}

/// A publish time: milliseconds since the Unix epoch.
#[derive(Clone, Copy, Debug, PartialEq, Eq, Structural)]
pub struct DateTime(pub u64);

impl DateTime {
    pub fn new(ts: u64) -> (r: Self)
        ensures
            r.0 == ts,
    {
        DateTime(ts)
    }

    pub fn default() -> (r: Self)
        ensures
            r.0 == 0,
    {
        DateTime(0)
    }
}

} // verus!
