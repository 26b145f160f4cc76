use vstd::prelude::*;
use vstd::utf8::valid_utf8;
use std::io::Read;

use crate::deser::DeserializerWithData;
use crate::strings::str_eq;

verus! {

/// Why a file's bytes could not be read, where the reason is the file's
/// name rather than its bytes.
#[derive(Debug)]
pub enum ReadFault {
    /// The extension names no format that is read (`json`, `gz`, `bz2`).
    UnsupportedExtension(String),
    /// The file's name has no extension.
    MissingExtension,
}

/// A failure to read a stream file: which file, where it is known; why,
/// where the reason is one the library decides; and the error that the
/// read gave.
pub struct IOErr {
    pub file: Option<String>,
    pub fault: Option<ReadFault>,
    pub err: std::io::Error,
}

/// One stream file read from a source: the source it came from, its name
/// and its bytes.
pub struct SourceItem {
    pub source: String,
    pub file: String,
    pub deser: DeserializerWithData,
}

impl SourceItem {
    pub fn new(source: String, file: String, deser: DeserializerWithData) -> (r: Self)
        ensures
            r.source == source,
            r.file == file,
            r.deser == deser,
    {
        SourceItem { source, file, deser }
    }
}

/// Gives the configuration that each file read from a source is processed
/// with.
pub trait ConfigProducer: Sized {
    type Config;

    /// The configuration the next call of `get` gives.
    spec fn next_config(&self) -> Self::Config;

    /// The producer after the next call of `get`.
    spec fn advanced(&self) -> Self;

    fn get(&mut self) -> (r: Self::Config)
        ensures
            r == old(self).next_config(),
            *final(self) == old(self).advanced(),
    ;
}

/// The results a source will still give, in order: each a file, or the
/// error met reading one.
pub type SourceResults = Seq<Result<SourceItem, IOErr>>;

/// A source of stream files, such as an archive, that hands them out one at
/// a time. Every source says, in `pending`, what it will still give, and its
/// `next` gives that, in order; this is what the readers below are proved
/// against. (`pending` is a specification: it is never run, and a source
/// written outside the verified code has no means to state it.)
pub trait MarketSource {
    /// The results the source will still give, in order: each a file, or
    /// the error met reading one.
    spec fn pending(&self) -> SourceResults;

    /// The name of the source.
    fn source(&self) -> &str;

    /// The next result of the source; `None` once it is exhausted.
    fn next(&mut self) -> (r: Option<Result<SourceItem, IOErr>>)
        ensures
            old(self).pending().len() == 0 ==> r is None && final(self).pending().len() == 0,
            old(self).pending().len() > 0 ==> r == Some(old(self).pending()[0]) && final(self).pending()
                == old(self).pending().drop_first(),
    ;
}

/// The results that sources will still give, each source's in order.
pub open spec fn pendings<T: MarketSource>(s: Seq<T>) -> Seq<Seq<Result<SourceItem, IOErr>>> {
    s.map_values(|t: T| t.pending())
}

/// How many results the sources will still give, together.
pub open spec fn total_len(ps: Seq<Seq<Result<SourceItem, IOErr>>>) -> nat
    decreases ps.len(),
{
    if ps.len() == 0 {
        0
    } else {
        total_len(ps.drop_last()) + ps.last().len()
    }
}

/// Replacing one source's results changes the total by the difference.
pub proof fn lemma_total_update(ps: Seq<Seq<Result<SourceItem, IOErr>>>, i: int, x: Seq<Result<SourceItem, IOErr>>)
    requires
        0 <= i < ps.len(),
    ensures
        total_len(ps.update(i, x)) + ps[i].len() == total_len(ps) + x.len(),
    decreases ps.len(),
{
    let t = ps.update(i, x);
    if i == ps.len() - 1 {
        assert(t.drop_last() =~= ps.drop_last());
    } else {
        assert(t.drop_last() =~= ps.drop_last().update(i, x));
        lemma_total_update(ps.drop_last(), i, x);
    }
}

/// Dropping a source takes its results out of the total.
pub proof fn lemma_total_remove(ps: Seq<Seq<Result<SourceItem, IOErr>>>, i: int)
    requires
        0 <= i < ps.len(),
    ensures
        total_len(ps.remove(i)) + ps[i].len() == total_len(ps),
    decreases ps.len(),
{
    let t = ps.remove(i);
    if i == ps.len() - 1 {
        assert(t =~= ps.drop_last());
    } else {
        assert(t.drop_last() =~= ps.drop_last().remove(i));
        assert(t.last() == ps.last());
        lemma_total_remove(ps.drop_last(), i);
    }
}

/// Reading in turns from the sources still read (`ps`, each source's
/// results in order), the turn being the source at `pos`: the file handed
/// out (none once every source is exhausted), the results then left, and
/// whose turn comes next. The source whose turn it is gives its next
/// result: a file is handed out and the turn passes on; an error is passed
/// over and the turn passes on; an exhausted source is dropped and the
/// turn stays at its place (at the first source where it was the last).
pub open spec fn turns(ps: Seq<Seq<Result<SourceItem, IOErr>>>, pos: int) -> (
    Option<SourceItem>,
    Seq<Seq<Result<SourceItem, IOErr>>>,
    int,
)
    decreases total_len(ps) + ps.len(),
{
    if pos < 0 || pos >= ps.len() {
        (None, ps, pos)
    } else if ps[pos].len() == 0 {
        proof {
            lemma_total_remove(ps, pos);
        }
        turns(ps.remove(pos), if ps.len() > 1 { pos % (ps.len() - 1) as int } else { 0 })
    } else {
        proof {
            lemma_total_update(ps, pos, ps[pos].drop_first());
        }
        let rest = ps.update(pos, ps[pos].drop_first());
        let np = (pos + 1) % (ps.len() as int);
        match ps[pos][0] {
            Ok(si) => (Some(si), rest, np),
            Err(_) => turns(rest, np),
        }
    }
}

/// Reads files from several sources in turn: one from each source in order,
/// round and round, dropping each source once it is exhausted.
pub struct SourceIter<T: MarketSource> {
    sources: Vec<T>,
    pos: usize,
}

impl<T: MarketSource> SourceIter<T> {
    /// The sources still read, in turn order.
    pub closed spec fn sources(&self) -> Seq<T> {
        self.sources@
    }

    /// The index of the source whose turn it is.
    pub closed spec fn position(&self) -> nat {
        self.pos as nat
    }

    /// The position is that of a source, or zero when none is left.
    pub closed spec fn wf(&self) -> bool {
        self.pos < self.sources@.len() || (self.pos == 0 && self.sources@.len() == 0)
    }

    pub fn new(sources: Vec<T>) -> (r: Self)
        ensures
            r.wf(),
            r.sources() == sources@,
            r.position() == 0,
    {
        SourceIter { sources, pos: 0 }
    }

    /// The next file, read in turns as `turns` says: from the source whose
    /// turn it is, passing over read errors (each uses up its source's turn)
    /// and dropping exhausted sources; `None` once every source is
    /// exhausted.
    pub fn next(&mut self) -> (r: Option<SourceItem>)
        requires
            old(self).wf(),
        ensures
            final(self).wf(),
            (r, pendings(final(self).sources()), final(self).position() as int) == turns(
                pendings(old(self).sources()),
                old(self).position() as int,
            ),
    {
        loop
            invariant
                self.wf(),
                turns(pendings(self.sources@), self.pos as int) == turns(
                    pendings(old(self).sources@),
                    old(self).pos as int,
                ),
            decreases total_len(pendings(self.sources@)) + self.sources@.len(),
        {
            let len = self.sources.len();
            if self.pos >= len {
                return None;
            }
            let pos = self.pos;
            let ghost before = self.sources@;
            let ghost ps = pendings(before);
            let res = self.sources[pos].next();
            proof {
                assert(self.sources@ == before.update(pos as int, self.sources@[pos as int]));
                assert(pendings(self.sources@) =~= ps.update(pos as int, self.sources@[pos as int].pending()));
            }
            match res {
                Some(Ok(si)) => {
                    self.pos = (pos + 1) % len;
                    proof {
                        lemma_total_update(ps, pos as int, ps[pos as int].drop_first());
                    }
                    return Some(si);
                },
                Some(Err(_err)) => {
                    proof {
                        lemma_total_update(ps, pos as int, ps[pos as int].drop_first());
                    }
                    self.pos = (pos + 1) % len;
                },
                None => {
                    proof {
                        lemma_total_remove(ps, pos as int);
                        assert(pendings(self.sources@.remove(pos as int)) =~= ps.remove(pos as int));
                    }
                    self.sources.remove(pos);
                    self.pos = if len > 1 {
                        pos % (len - 1)
                    } else {
                        0
                    };
                },
            }
        }
    }
}

/// The place of the first file among results, or `-1` where there is none.
pub open spec fn first_ok(p: Seq<Result<SourceItem, IOErr>>) -> int
    decreases p.len(),
{
    if p.len() == 0 {
        -1
    } else if p[0] is Ok {
        0
    } else {
        let k = first_ok(p.drop_first());
        if k < 0 {
            -1
        } else {
            k + 1
        }
    }
}

proof fn lemma_first_ok(p: Seq<Result<SourceItem, IOErr>>, n: int)
    requires
        0 <= n <= p.len(),
        forall|k: int| 0 <= k < n ==> (#[trigger] p[k]) is Err,
    ensures
        n < p.len() && p[n] is Ok ==> first_ok(p) == n,
        n == p.len() ==> first_ok(p) == -1,
    decreases n,
{
    if n > 0 {
        let q = p.drop_first();
        assert forall|k: int| 0 <= k < n - 1 implies (#[trigger] q[k]) is Err by {
            assert(q[k] == p[k + 1]);
        }
        lemma_first_ok(q, n - 1);
        assert(p[0] is Err);
        if n < p.len() {
            assert(q[n - 1] == p[n]);
        }
    }
}

/// Hands out the files of a source with a configuration for each, skipping
/// past read errors.
pub struct Adapter<C: ConfigProducer, S: MarketSource> {
    pub source: S,
    pub config: C,
}

impl<C: ConfigProducer, S: MarketSource> Adapter<C, S> {
    pub fn new(source: S, config: C) -> (r: Self)
        ensures
            r.source == source,
            r.config == config,
    {
        Adapter { source, config }
    }

    /// The source's next file, the read errors before it passed over, with
    /// the configuration that one call of the producer gives; `None` once
    /// the source is exhausted, the producer then not called.
    pub fn next(&mut self) -> (r: Option<(SourceItem, C::Config)>)
        ensures
            ({
                let p = old(self).source.pending();
                let i = first_ok(p);
                if i >= 0 {
                    &&& r == Some((p[i]->Ok_0, old(self).config.next_config()))
                    &&& final(self).source.pending() == p.skip(i + 1)
                    &&& final(self).config == old(self).config.advanced()
                } else {
                    &&& r is None
                    &&& final(self).source.pending().len() == 0
                    &&& final(self).config == old(self).config
                }
            }),
    {
        let ghost p = self.source.pending();
        let ghost mut n: int = 0;
        loop
            invariant
                p == old(self).source.pending(),
                0 <= n <= p.len(),
                self.source.pending() == p.skip(n),
                forall|k: int| 0 <= k < n ==> (#[trigger] p[k]) is Err,
                self.config == old(self).config,
            decreases p.len() - n,
        {
            match self.source.next() {
                Some(Ok(si)) => {
                    proof {
                        assert(p[n] == p.skip(n)[0]);
                        lemma_first_ok(p, n);
                        assert(p.skip(n).drop_first() =~= p.skip(n + 1));
                    }
                    let config = self.config.get();
                    return Some((si, config));
                },
                Some(Err(_err)) => {
                    proof {
                        assert(p[n] == p.skip(n)[0]);
                        assert(p.skip(n).drop_first() =~= p.skip(n + 1));
                        n = n + 1;
                    }
                },
                None => {
                    proof {
                        lemma_first_ok(p, n);
                    }
                    return None;
                },
            }
        }
    }
}

/// The bytes that gzip data decompresses to, as `flate2` reads them; `None`
/// where it is not gzip data.
pub uninterp spec fn gz_decoded(data: Seq<u8>) -> Option<Seq<u8>>;

/// The bytes that bzip2 data decompresses to, as `bzip2-rs` reads them;
/// `None` where it is not bzip2 data.
pub uninterp spec fn bz2_decoded(data: Seq<u8>) -> Option<Seq<u8>>;

/// `flate2::bufread::GzDecoder` read to its end: the decompressed bytes, or
/// the error met where the data is not gzip. Which data decodes, and to what,
/// is given only by the name `gz_decoded`.
#[verifier::external_body]
fn gz_decode(data: &[u8]) -> (r: Result<Vec<u8>, std::io::Error>)
    ensures
        r is Ok <==> gz_decoded(data@) is Some,
        r matches Ok(v) ==> v@ == gz_decoded(data@)->Some_0,
{
    let mut out = Vec::with_capacity(data.len());
    flate2::bufread::GzDecoder::new(data).read_to_end(&mut out).map(|_| out)
}

/// `bzip2_rs::DecoderReader` read to its end: the decompressed bytes, or the
/// error met where the data is not bzip2. Which data decodes, and to what,
/// is given only by the name `bz2_decoded`.
#[verifier::external_body]
fn bz2_decode(data: &[u8]) -> (r: Result<Vec<u8>, std::io::Error>)
    ensures
        r is Ok <==> bz2_decoded(data@) is Some,
        r matches Ok(v) ==> v@ == bz2_decoded(data@)->Some_0,
{
    let mut out = Vec::with_capacity(data.len());
    bzip2_rs::DecoderReader::new(data).read_to_end(&mut out).map(|_| out)
}

/// `std::io::Error::new` of kind `Unsupported`, its message the two texts
/// one after the other. Nothing is stated of the value.
#[verifier::external_body]
fn unsupported_error(msg: &str, detail: &str) -> std::io::Error {
    std::io::Error::new(std::io::ErrorKind::Unsupported, format!("{}{}", msg, detail))
}

/// The text of a file with the given extension: JSON as it is, gzip and
/// bzip2 decompressed; `None` for another extension, for none, or for data
/// that does not decompress.
pub open spec fn decoded(ext: Option<String>, data: Seq<u8>) -> Option<Seq<u8>> {
    match ext {
        Some(e) => if e@ == "gz"@ {
            gz_decoded(data)
        } else if e@ == "bz2"@ {
            bz2_decoded(data)
        } else if e@ == "json"@ {
            Some(data)
        } else {
            None
        },
        None => None,
    }
}

/// Why a file of the given extension is not read at all: none for `json`,
/// `gz` and `bz2`.
pub open spec fn format_fault(ext: Option<String>) -> Option<ReadFault> {
    match ext {
        Some(e) => if e@ == "gz"@ || e@ == "bz2"@ || e@ == "json"@ {
            None
        } else {
            Some(ReadFault::UnsupportedExtension(e))
        },
        None => Some(ReadFault::MissingExtension),
    }
}

/// A file's bytes read by its extension (`json`, `gz` or `bz2`) into the
/// item a source gives: its text, checked to be UTF-8. Where the extension
/// is another or missing, the data does not decompress, or the text is not
/// UTF-8, the error names the file, and says which of the extension faults
/// it is, where it is one. (The I/O error of an extension fault is of kind
/// `Unsupported`, with the message "unsupported extension " and the
/// extension, or "missing file extension".)
pub fn handle_buffer(source: String, name: String, ext: Option<String>, buf: Vec<u8>) -> (r: Result<SourceItem, IOErr>)
    ensures
        r is Ok <==> (decoded(ext, buf@) matches Some(d) && valid_utf8(d)),
        r matches Ok(si) ==> si.source == source && si.file == name && si.deser.bytes() == decoded(ext, buf@)->Some_0,
        r matches Err(e) ==> e.file == Some(name) && e.fault == format_fault(ext),
{
    let (bytes, fault): (Result<Vec<u8>, std::io::Error>, Option<ReadFault>) = match ext {
        Some(e) => {
            if str_eq(e.as_str(), "gz") {
                (gz_decode(buf.as_slice()), None)
            } else if str_eq(e.as_str(), "bz2") {
                (bz2_decode(buf.as_slice()), None)
            } else if str_eq(e.as_str(), "json") {
                (Ok(buf), None)
            } else {
                let err = unsupported_error("unsupported extension ", e.as_str());
                (Err(err), Some(ReadFault::UnsupportedExtension(e)))
            }
        },
        None => (Err(unsupported_error("missing file extension", "")), Some(ReadFault::MissingExtension)),
    };
    match bytes {
        Ok(b) => match DeserializerWithData::build(b) {
            Ok(deser) => Ok(SourceItem::new(source, name, deser)),
            Err(err) => Err(IOErr { file: Some(name), fault: None, err }),
        },
        Err(err) => Err(IOErr { file: Some(name), fault, err }),
    }
}

} // verus!
