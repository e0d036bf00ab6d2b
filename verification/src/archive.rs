//! Workflow log archives: one log file per job in a ZIP archive.
use crate::log_types::{jobs_view, JobLog, JobLogView, LogLineView, ParsedLog};
use crate::parser::{clean_job_name, parse_job_log, spec_clean_job_name, spec_job_lines, spec_lines};
use std::io::Read;
use vstd::prelude::*;
use vstd::utf8::{decode_utf8, valid_utf8};

verus! {

#[verifier::external_type_specification]
#[verifier::external_body]
pub struct ExZipError(zip::result::ZipError);

#[verifier::external_type_specification]
#[verifier::external_body]
pub struct ExIoError(std::io::Error);

#[verifier::external_type_specification]
#[verifier::external_body]
pub struct ExFromUtf8Error(std::string::FromUtf8Error);

/// Errors that can occur during log parsing.
#[derive(Debug)]
pub enum ParseError {
    /// The archive, or one of its entries, could not be read.
    Zip(zip::result::ZipError),
    /// A log file could not be read from the archive.
    Io(std::io::Error),
    /// A log file is not valid UTF-8.
    Utf8(std::string::FromUtf8Error),
}

/// Which error a parse ends with.
pub enum ParseErrorKind {
    Zip,
    Io,
    Utf8,
}

pub open spec fn error_kind(e: ParseError) -> ParseErrorKind {
    match e {
        ParseError::Zip(_) => ParseErrorKind::Zip,
        ParseError::Io(_) => ParseErrorKind::Io,
        ParseError::Utf8(_) => ParseErrorKind::Utf8,
    }
}

/// One archive entry: its name, whether it is a directory, and its bytes
/// (or the read error).
pub struct ZipItem {
    pub name: String,
    pub is_dir: bool,
    pub content: Result<Vec<u8>, std::io::Error>,
}

pub struct ZipItemView {
    pub name: Seq<char>,
    pub is_dir: bool,
    pub content: Option<Seq<u8>>,
}

impl View for ZipItem {
    type V = ZipItemView;

    open spec fn view(&self) -> ZipItemView {
        ZipItemView {
            name: self.name@,
            is_dir: self.is_dir,
            content: match self.content {
                Ok(b) => Some(b@),
                Err(_) => None,
            },
        }
    }
}

pub open spec fn items_view(v: Seq<ZipItem>) -> Seq<ZipItemView> {
    v.map_values(|i: ZipItem| i@)
}

/// The entries read from an archive, in order, and the error that stopped
/// the reading early, if any.
pub struct ZipListing {
    pub items: Vec<ZipItem>,
    pub failure: Option<zip::result::ZipError>,
}

pub struct ZipListingView {
    pub items: Seq<ZipItemView>,
    pub failed: bool,
}

impl View for ZipListing {
    type V = ZipListingView;

    open spec fn view(&self) -> ZipListingView {
        ZipListingView { items: items_view(self.items@), failed: self.failure is Some }
    }
}

/// What `zip` reads from the given archive bytes.
pub uninterp spec fn spec_zip_listing(data: Seq<u8>) -> ZipListingView;

/// Opens the bytes with `zip::ZipArchive::new`, then for each index takes
/// `by_index`, records the entry's `name()`, `is_dir()` and the result of
/// `read_to_end`, and stops at the first `ZipError` (from opening or from
/// `by_index`). The listing is named `spec_zip_listing`; nothing more is
/// claimed of it, and the error values themselves are not described.
#[verifier::external_body]
fn read_zip(zip_data: &[u8]) -> (r: ZipListing)
    ensures
        r@ == spec_zip_listing(zip_data@),
{
    let mut items = Vec::new();
    let mut archive = match zip::ZipArchive::new(std::io::Cursor::new(zip_data)) {
        Ok(a) => a,
        Err(e) => return ZipListing { items, failure: Some(e) },
    };
    for i in 0..archive.len() {
        let mut file = match archive.by_index(i) {
            Ok(f) => f,
            Err(e) => return ZipListing { items, failure: Some(e) },
        };
        let mut bytes = Vec::new();
        let content = file.read_to_end(&mut bytes).map(|_| bytes);
        items.push(ZipItem { name: file.name().to_string(), is_dir: file.is_dir(), content });
    }
    ZipListing { items, failure: None }
}

/// `String::from_utf8`: succeeds exactly on valid UTF-8 and then holds the
/// decoded characters.
#[verifier::external_body]
fn utf8_to_string(bytes: Vec<u8>) -> (r: Result<String, std::string::FromUtf8Error>)
    ensures
        r is Ok <==> valid_utf8(bytes@),
        r matches Ok(s) ==> s@ == decode_utf8(bytes@),
{
    String::from_utf8(bytes)
}

/// The job parsed from one log file.
pub open spec fn spec_job(name: Seq<char>, text: Seq<char>) -> JobLogView {
    JobLogView { name: spec_clean_job_name(name), lines: spec_job_lines(spec_lines(text)).0 }
}

/// Entries folded in order: directories are skipped, and the first unreadable
/// or non-UTF-8 file ends the parse with its error.
pub open spec fn jobs_of(items: Seq<ZipItemView>) -> Result<Seq<JobLogView>, ParseErrorKind>
    decreases items.len(),
{
    if items.len() == 0 {
        Ok(Seq::empty())
    } else {
        match jobs_of(items.drop_last()) {
            Err(e) => Err(e),
            Ok(jobs) => {
                let it = items.last();
                if it.is_dir {
                    Ok(jobs)
                } else {
                    match it.content {
                        None => Err(ParseErrorKind::Io),
                        Some(b) => if valid_utf8(b) {
                            Ok(jobs.push(spec_job(it.name, decode_utf8(b))))
                        } else {
                            Err(ParseErrorKind::Utf8)
                        },
                    }
                }
            },
        }
    }
}

/// The jobs of an archive's listing, or the error the parse ends with.
pub open spec fn listing_jobs(l: ZipListingView) -> Result<Seq<JobLogView>, ParseErrorKind> {
    match jobs_of(l.items) {
        Err(e) => Err(e),
        Ok(jobs) => if l.failed { Err(ParseErrorKind::Zip) } else { Ok(jobs) },
    }
}

/// The jobs of a workflow log archive, or the error the parse ends with.
pub open spec fn spec_parse_workflow_logs(data: Seq<u8>) -> Result<Seq<JobLogView>, ParseErrorKind> {
    listing_jobs(spec_zip_listing(data))
}

/// Parse workflow logs from a ZIP file: each file in the archive is one job's
/// log. Job names are cleaned of their `.txt` extension and number prefix.
pub fn parse_workflow_logs(zip_data: &[u8]) -> (r: Result<ParsedLog, ParseError>)
    ensures
        match (r, spec_parse_workflow_logs(zip_data@)) {
            (Ok(p), Ok(jobs)) => jobs_view(p.jobs@) == jobs,
            (Err(e), Err(k)) => error_kind(e) == k,
            _ => false,
        },
{
    jobs_from_listing(read_zip(zip_data))
}

/// The jobs of a read archive (see `listing_jobs`).
#[verifier::loop_isolation(false)]
pub fn jobs_from_listing(listing: ZipListing) -> (r: Result<ParsedLog, ParseError>)
    ensures
        match (r, listing_jobs(listing@)) {
            (Ok(p), Ok(jobs)) => jobs_view(p.jobs@) == jobs,
            (Err(e), Err(k)) => error_kind(e) == k,
            _ => false,
        },
{
    let ghost lv = listing@;
    let ZipListing { items, failure } = listing;
    assert(lv.failed == failure is Some);
    let ghost iv = items_view(items@);
    assert(iv == lv.items);
    assert(iv.take(0) =~= Seq::<ZipItemView>::empty());
    assert(items@.len() == items.len());
    assert(iv.len() == items@.len());
    let mut rest = items;
    let mut jobs: Vec<JobLog> = Vec::new();
    let mut i: usize = 0;
    assert(items_view(rest@) =~= iv.skip(0));
    assert(jobs_view(jobs@) =~= Seq::<JobLogView>::empty());
    while rest.len() > 0
        invariant
            i + rest@.len() == iv.len(),
            iv.len() <= usize::MAX,
            iv == lv.items,
            items_view(rest@) == iv.skip(i as int),
            jobs_of(iv.take(i as int)) == Ok::<Seq<JobLogView>, ParseErrorKind>(jobs_view(jobs@)),
        decreases rest@.len(),
    {
        let ghost rest_before = rest@;
        let item = rest.remove(0);
        proof {
            assert(items_view(rest_before)[0] == rest_before[0]@);
            assert(iv.skip(i as int)[0] == item@);
            assert(iv.take(i + 1).drop_last() =~= iv.take(i as int));
            assert(iv.take(i + 1).last() == item@);
            assert forall|k: int| 0 <= k < rest@.len() implies #[trigger] items_view(rest@)[k] == iv.skip(i + 1)[k] by {
                assert(rest@[k] == rest_before[k + 1]);
                assert(items_view(rest_before)[k + 1] == rest_before[k + 1]@);
                assert(iv.skip(i as int)[k + 1] == iv.skip(i + 1)[k]);
            }
            assert(items_view(rest@) =~= iv.skip(i + 1));
        }
        let ghost itv = item@;
        let ZipItem { name, is_dir, content } = item;
        assert(itv.is_dir == is_dir);
        assert(itv.content == (match content { Ok(b) => Some(b@), Err(_) => None::<Seq<u8>> }));
        if !is_dir {
            match content {
                Err(e) => {
                    proof {
                        assert(jobs_of(iv.take(i + 1)) == Err::<Seq<JobLogView>, ParseErrorKind>(ParseErrorKind::Io));
                        lemma_jobs_of_err(iv, i as int + 1, ParseErrorKind::Io);
                    }
                    return Err(ParseError::Io(e));
                },
                Ok(bytes) => {
                    match utf8_to_string(bytes) {
                        Err(e) => {
                            proof {
                                assert(!valid_utf8(itv.content->0));
                                assert(jobs_of(iv.take(i + 1)) == Err::<Seq<JobLogView>, ParseErrorKind>(ParseErrorKind::Utf8));
                                lemma_jobs_of_err(iv, i as int + 1, ParseErrorKind::Utf8);
                            }
                            return Err(ParseError::Utf8(e));
                        },
                        Ok(text) => {
                            let clean = clean_job_name(name.as_str());
                            let job = parse_job_log(clean.as_str(), text.as_str());
                            let ghost jobs_before = jobs@;
                            jobs.push(job);
                            proof {
                                assert(jobs_view(jobs@) =~= jobs_view(jobs_before).push(job@));
                            }
                        },
                    }
                },
            }
        }
        i = i + 1;
    }
    proof {
        assert(iv.take(i as int) =~= iv);
    }
    match failure {
        Some(e) => Err(ParseError::Zip(e)),
        None => Ok(ParsedLog { jobs }),
    }
}

/// An error in a prefix of the entries is the error of the whole.
proof fn lemma_jobs_of_err(items: Seq<ZipItemView>, n: int, k: ParseErrorKind)
    requires
        0 <= n <= items.len(),
        jobs_of(items.take(n)) == Err::<Seq<JobLogView>, ParseErrorKind>(k),
    ensures
        jobs_of(items) == Err::<Seq<JobLogView>, ParseErrorKind>(k),
    decreases items.len() - n,
{
    if n < items.len() {
        let m = items.take(n + 1);
        assert(m.drop_last() =~= items.take(n));
        lemma_jobs_of_err(items, n + 1, k);
    } else {
        assert(items.take(n) =~= items);
    }
}

} // verus!
