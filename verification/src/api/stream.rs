use vstd::prelude::*;

verus! {

#[verifier::external_type_specification]
#[verifier::external_body]
pub struct ExBytesMut(bytes::BytesMut);

#[verifier::external_type_specification]
#[verifier::external_body]
pub struct ExBytes(bytes::Bytes);

/// The bytes a growable buffer holds.
pub uninterp spec fn bytes_mut_contents(b: bytes::BytesMut) -> Seq<u8>;

/// The bytes a frozen buffer holds.
pub uninterp spec fn bytes_contents(b: bytes::Bytes) -> Seq<u8>;

/// `BytesMut::len`: the number of bytes the buffer holds.
#[verifier::external_body]
fn buf_len(b: &bytes::BytesMut) -> (r: usize)
    ensures
        r == bytes_mut_contents(*b).len(),
{
    b.len()
}

/// Indexing a `BytesMut` (through its slice): the byte at that place.
#[verifier::external_body]
fn buf_byte(b: &bytes::BytesMut, i: usize) -> (r: u8)
    requires
        i < bytes_mut_contents(*b).len(),
    ensures
        r == bytes_mut_contents(*b)[i as int],
{
    b[i]
}

/// `BytesMut::split_to`: the first `at` bytes leave the buffer and are
/// returned; the buffer keeps the rest.
#[verifier::external_body]
fn buf_split_to(b: &mut bytes::BytesMut, at: usize) -> (r: bytes::BytesMut)
    requires
        at <= bytes_mut_contents(*old(b)).len(),
    ensures
        bytes_mut_contents(r) == bytes_mut_contents(*old(b)).take(at as int),
        bytes_mut_contents(*final(b)) == bytes_mut_contents(*old(b)).skip(at as int),
{
    b.split_to(at)
}

/// `BytesMut::freeze`: the same bytes, no longer growable.
#[verifier::external_body]
fn buf_freeze(b: bytes::BytesMut) -> (r: bytes::Bytes)
    ensures
        bytes_contents(r) == bytes_mut_contents(b),
{
    b.freeze()
}

/// `BufMut::put` of a `Bytes` into a `BytesMut`: its bytes are appended.
#[verifier::external_body]
fn buf_put(b: &mut bytes::BytesMut, msg: bytes::Bytes)
    ensures
        bytes_mut_contents(*final(b)) == bytes_mut_contents(*old(b)) + bytes_contents(msg),
{
    bytes::BufMut::put(b, msg)
}

/// `BufMut::put_u8`: the byte is appended.
#[verifier::external_body]
fn buf_put_u8(b: &mut bytes::BytesMut, x: u8)
    ensures
        bytes_mut_contents(*final(b)) == bytes_mut_contents(*old(b)).push(x),
{
    bytes::BufMut::put_u8(b, x)
}

/// The first newline at or after `from`, or `-1`.
pub open spec fn newline_from(s: Seq<u8>, from: int) -> int
    decreases s.len() - from,
{
    if from >= s.len() || from < 0 {
        -1
    } else if s[from] == 10u8 {
        from
    } else {
        newline_from(s, from + 1)
    }
}

/// A message without a newline, written by `encode` into an empty buffer,
/// is what `decode` reads back from the start (with its newline), leaving
/// the buffer empty.
pub proof fn lemma_encode_then_decode(msg: Seq<u8>)
    requires
        forall|i: int| 0 <= i < msg.len() ==> msg[i] != 10u8,
    ensures
        ({
            let buf = (Seq::<u8>::empty() + msg).push(10u8);
            &&& newline_from(buf, 0) == msg.len()
            &&& buf.take(msg.len() + 1 as int) == msg.push(10u8)
            &&& buf.skip(msg.len() + 1 as int) == Seq::<u8>::empty()
        }),
{
    let buf = (Seq::<u8>::empty() + msg).push(10u8);
    assert(Seq::<u8>::empty() + msg =~= msg);
    lemma_newline_scan(buf, 0, msg.len() as int);
    assert(buf.take(msg.len() + 1 as int) =~= msg.push(10u8));
    assert(buf.skip(msg.len() + 1 as int) =~= Seq::<u8>::empty());
}

proof fn lemma_newline_scan(s: Seq<u8>, from: int, k: int)
    requires
        0 <= from <= k < s.len(),
        s[k] == 10u8,
        forall|i: int| from <= i < k ==> s[i] != 10u8,
    ensures
        newline_from(s, from) == k,
    decreases k - from,
{
    if from < k {
        lemma_newline_scan(s, from + 1, k);
    }
}

/// Splits the stream into lines: each message ends with a newline.
/// `next_index` is where the search for the next newline resumes; the bytes
/// before it have been searched.
pub struct NewLineCodec {
    pub next_index: usize,
}

impl NewLineCodec {
    pub fn new() -> (r: Self)
        ensures
            r.next_index == 0,
    {
        NewLineCodec { next_index: 0 }
    }

    /// The next line, newline included, where the buffer holds one from the
    /// resume point on; it leaves the buffer. Else none, and the search
    /// resumes at the buffer's end.
    #[verifier::loop_isolation(false)]
    pub fn decode(&mut self, buf: &mut bytes::BytesMut) -> (r: Option<bytes::Bytes>)
        requires
            old(self).next_index <= bytes_mut_contents(*old(buf)).len(),
        ensures
            ({
                let c = bytes_mut_contents(*old(buf));
                let k = newline_from(c, old(self).next_index as int);
                if k >= 0 {
                    &&& r matches Some(line) && bytes_contents(line) == c.take(k + 1)
                    &&& bytes_mut_contents(*final(buf)) == c.skip(k + 1)
                    &&& final(self).next_index == 0
                } else {
                    &&& r is None
                    &&& bytes_mut_contents(*final(buf)) == c
                    &&& final(self).next_index == c.len()
                }
            }),
    {
        let len = buf_len(buf);
        let ghost c = bytes_mut_contents(*buf);
        let start = self.next_index;
        let mut i = start;
        while i < len
            invariant
                start <= i <= len,
                len == c.len(),
                c == bytes_mut_contents(*buf),
                newline_from(c, start as int) == newline_from(c, i as int),
            decreases len - i,
        {
            if buf_byte(buf, i) == 10u8 {
                self.next_index = 0;
                let line = buf_split_to(buf, i + 1);
                return Some(buf_freeze(line));
            }
            i = i + 1;
        }
        self.next_index = len;
        None
    }

    /// As `decode`, at the end of the stream.
    pub fn decode_eof(&mut self, buf: &mut bytes::BytesMut) -> (r: Option<bytes::Bytes>)
        requires
            old(self).next_index <= bytes_mut_contents(*old(buf)).len(),
        ensures
            ({
                let c = bytes_mut_contents(*old(buf));
                let k = newline_from(c, old(self).next_index as int);
                if k >= 0 {
                    &&& r matches Some(line) && bytes_contents(line) == c.take(k + 1)
                    &&& bytes_mut_contents(*final(buf)) == c.skip(k + 1)
                    &&& final(self).next_index == 0
                } else {
                    &&& r is None
                    &&& bytes_mut_contents(*final(buf)) == c
                    &&& final(self).next_index == c.len()
                }
            }),
    {
        self.decode(buf)
    }

    /// Writes a message and its newline.
    pub fn encode(&mut self, msg: bytes::Bytes, buf: &mut bytes::BytesMut)
        ensures
            bytes_mut_contents(*final(buf)) == (bytes_mut_contents(*old(buf)) + bytes_contents(msg)).push(10u8),
            *final(self) == *old(self),
    {
        buf_put(buf, msg);
        buf_put_u8(buf, 10u8);
    }
}

} // verus!
