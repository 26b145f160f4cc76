use betfair_data::deser::DeserializerWithData;
use betfair_data::bflw::config::ConfigBuilder;
use betfair_data::market_source::{
    handle_buffer, Adapter, IOErr, MarketSource, ReadFault, SourceItem, SourceIter, SourceResults,
};

struct TestSource {
    source: &'static str,
    test_count: usize,
    pos: usize,
}

impl MarketSource for TestSource {
    fn pending(&self) -> SourceResults {
        unreachable!("a specification, never run")
    }

    fn source(&self) -> &str {
        self.source
    }

    fn next(&mut self) -> Option<Result<SourceItem, IOErr>> {
        if self.pos < self.test_count {
            self.pos += 1;
            Some(Ok(SourceItem::new(
                "source".to_owned(),
                "file".to_owned(),
                DeserializerWithData::build(Vec::default()).unwrap(),
            )))
        } else {
            None
        }
    }
}

impl TestSource {
    fn new(count: usize) -> Self {
        Self {
            source: "test",
            pos: 0,
            test_count: count,
        }
    }
}

fn count_all(mut sources: SourceIter<TestSource>) -> usize {
    let mut count = 0;
    while let Some(_s) = sources.next() {
        count += 1;
    }
    count
}

#[test]
fn test_full_iteration() {
    // 1
    let counts: Vec<usize> = vec![111, 127, 1318, 80];
    let sources = SourceIter::new(counts.iter().map(|c| TestSource::new(*c)).collect::<Vec<_>>());
    assert_eq!(count_all(sources), counts.iter().sum::<usize>());

    // 2
    let counts: Vec<usize> = vec![1000, 20, 20];
    let sources = SourceIter::new(counts.iter().map(|c| TestSource::new(*c)).collect::<Vec<_>>());
    assert_eq!(count_all(sources), counts.iter().sum::<usize>());

    // 3
    let counts: Vec<usize> = vec![10, 1000, 40];
    let sources = SourceIter::new(counts.iter().map(|c| TestSource::new(*c)).collect::<Vec<_>>());
    assert_eq!(count_all(sources), counts.iter().sum::<usize>());
}

/// A source that fails to read its files, the given number of times, before
/// it is exhausted.
struct FailingSource {
    failures: usize,
}

impl MarketSource for FailingSource {
    fn pending(&self) -> SourceResults {
        unreachable!("a specification, never run")
    }

    fn source(&self) -> &str {
        "failing"
    }

    fn next(&mut self) -> Option<Result<SourceItem, IOErr>> {
        if self.failures > 0 {
            self.failures -= 1;
            Some(Err(IOErr {
                file: None,
                fault: None,
                err: std::io::Error::from(std::io::ErrorKind::InvalidData),
            }))
        } else {
            None
        }
    }
}

#[test]
fn source_iter_skips_read_errors() {
    let mut sources = SourceIter::new(vec![FailingSource { failures: 3 }, FailingSource { failures: 0 }]);
    assert!(sources.next().is_none());
    assert!(sources.next().is_none());
}

#[test]
fn source_iter_with_no_sources_ends_at_once() {
    let mut sources: SourceIter<TestSource> = SourceIter::new(Vec::new());
    assert!(sources.next().is_none());
}

#[test]
fn source_iter_takes_turns() {
    // Each source gives its files in turn, so all are reached.
    let counts: Vec<usize> = vec![1, 2, 3];
    let sources = SourceIter::new(counts.iter().map(|c| TestSource::new(*c)).collect::<Vec<_>>());
    assert_eq!(count_all(sources), 6);
}

const MESSAGE: &[u8] = b"{\"op\":\"mcm\"}\n";

const GZ: [u8; 33] = [
    31, 139, 8, 0, 0, 0, 0, 0, 2, 3, 171, 86, 202, 47, 80, 178, 82, 202, 77, 206, 85, 170, 229, 2, 0, 109, 168,
    55, 145, 13, 0, 0, 0,
];

const BZ2: [u8; 54] = [
    66, 90, 104, 57, 49, 65, 89, 38, 83, 89, 36, 229, 94, 171, 0, 0, 5, 217, 128, 0, 16, 16, 0, 0, 16, 8, 2, 192,
    10, 32, 0, 49, 6, 76, 65, 6, 131, 106, 15, 7, 212, 212, 2, 241, 119, 36, 83, 133, 9, 2, 78, 85, 234, 176,
];

fn ok(r: Result<SourceItem, IOErr>) -> SourceItem {
    match r {
        Ok(si) => si,
        Err(e) => panic!("not read: {}", e.err),
    }
}

fn err(r: Result<SourceItem, IOErr>) -> IOErr {
    match r {
        Ok(_) => panic!("read"),
        Err(e) => e,
    }
}

fn decode(ext: Option<&str>, buf: &[u8]) -> Result<SourceItem, IOErr> {
    handle_buffer("archive.tar".to_owned(), "1.23.x".to_owned(), ext.map(|e| e.to_owned()), buf.to_vec())
}

#[test]
fn files_are_read_by_extension() {
    let json = ok(decode(Some("json"), MESSAGE));
    assert_eq!(json.source, "archive.tar");
    assert_eq!(json.file, "1.23.x");
    assert_eq!(json.deser.as_str(), "{\"op\":\"mcm\"}\n");
    let gz = ok(decode(Some("gz"), &GZ));
    assert_eq!(gz.deser.as_str(), "{\"op\":\"mcm\"}\n");
    let bz2 = ok(decode(Some("bz2"), &BZ2));
    assert_eq!(bz2.deser.as_str(), "{\"op\":\"mcm\"}\n");
}

#[test]
fn unreadable_files_are_errors_naming_the_file() {
    for (ext, buf) in [
        (Some("txt"), MESSAGE),
        (None, MESSAGE),
        (Some("gz"), MESSAGE),
        (Some("bz2"), MESSAGE),
        (Some("json"), &[0xff, 0xfe][..]),
    ] {
        match decode(ext, buf) {
            Err(e) => assert_eq!(e.file.as_deref(), Some("1.23.x")),
            Ok(_) => panic!("{:?} read", ext),
        }
    }
    let e = err(decode(Some("txt"), MESSAGE));
    assert!(matches!(&e.fault, Some(ReadFault::UnsupportedExtension(x)) if x == "txt"));
    assert_eq!(e.err.kind(), std::io::ErrorKind::Unsupported);
    assert_eq!(e.err.to_string(), "unsupported extension txt");
    let e = err(decode(None, MESSAGE));
    assert!(matches!(e.fault, Some(ReadFault::MissingExtension)));
    assert_eq!(e.err.kind(), std::io::ErrorKind::Unsupported);
    assert_eq!(e.err.to_string(), "missing file extension");
    // a file of a read format whose bytes do not read has no extension fault
    assert!(err(decode(Some("gz"), MESSAGE)).fault.is_none());
    assert!(err(decode(Some("json"), &[0xff, 0xfe])).fault.is_none());
}

/// A source whose results are given: a file by its name, or a read error.
struct ListedSource {
    results: Vec<Option<&'static str>>,
}

impl MarketSource for ListedSource {
    fn pending(&self) -> SourceResults {
        unreachable!("a specification, never run")
    }

    fn source(&self) -> &str {
        "listed"
    }

    fn next(&mut self) -> Option<Result<SourceItem, IOErr>> {
        if self.results.is_empty() {
            return None;
        }
        match self.results.remove(0) {
            Some(name) => Some(Ok(SourceItem::new(
                "listed".to_owned(),
                name.to_owned(),
                DeserializerWithData::build(Vec::new()).unwrap(),
            ))),
            None => Some(Err(IOErr { file: None, fault: None, err: std::io::Error::from(std::io::ErrorKind::InvalidData) })),
        }
    }
}

#[test]
fn source_iter_reads_in_turns() {
    let mut sources = SourceIter::new(vec![
        ListedSource { results: vec![Some("a0"), Some("a1"), Some("a2")] },
        ListedSource { results: vec![None, Some("b1")] },
        ListedSource { results: vec![Some("c0")] },
    ]);
    let mut names = Vec::new();
    while let Some(si) = sources.next() {
        names.push(si.file);
    }
    // an error uses up its source's turn; exhausted sources leave the turns
    assert_eq!(names, vec!["a0", "c0", "a1", "b1", "a2"]);
}

#[test]
fn adapter_hands_out_each_file_with_one_configuration() {
    let source = ListedSource { results: vec![None, Some("x"), None, None, Some("y"), None] };
    let mut adapter = Adapter::new(source, ConfigBuilder { cumulative_runner_tv: true, streaming_unique_id: Some(7) });
    let (first, c1) = adapter.next().unwrap();
    assert_eq!(first.file, "x");
    assert_eq!(c1.streaming_unique_id, Some(7));
    let (second, c2) = adapter.next().unwrap();
    assert_eq!(second.file, "y");
    assert_eq!(c2.streaming_unique_id, Some(8));
    assert!(adapter.next().is_none());
    // no file, no configuration taken
    assert_eq!(adapter.config.streaming_unique_id, Some(9));
}
