use vstd::prelude::*;
use std::io::Read;

use crate::date::{
    ascii_upper, compact_text, dashed_day_month_year_text, date_before, day_month_year_text,
    is_valid_ymd, lemma_compact_text_injective, lemma_month_upper_injective,
    lemma_upper_day_month_year, lemma_year_text_injective, month_abbrev, month_abbrev_upper_text,
    year_text, Date,
};
use crate::text::{lemma_concat_cancel, lemma_two_digits_len, lemma_zero_padded_value, zero_padded};
use crate::instrument::InstrumentSource;

verus! {

/// The error type of the zip crate, carried through unread.
#[verifier::external_type_specification]
#[verifier::external_body]
pub struct ExZipError(zip::result::ZipError);

/// The last day that the historical archive serves; later bhavcopies are in the UDiFF format.
pub open spec fn archive_cutoff() -> (int, int, int) {
    (2024, 6, 1)
}

/// The URL of the bhavcopy of `date` in the exchange's archive.
pub open spec fn archive_url(source: InstrumentSource, date: (int, int, int)) -> Seq<char> {
    match source {
        InstrumentSource::NSE => if date_before(archive_cutoff(), date) {
            "https://nsearchives.nseindia.com/content"@ + "/cm/BhavCopy_NSE_CM_0_0_0_"@
                + compact_text(date) + "_F_0000.csv.zip"@
        } else {
            "https://nsearchives.nseindia.com/content"@ + "/historical/EQUITIES/"@ + year_text(date.0)
                + "/"@ + ascii_upper(month_abbrev(date.1)) + "/cm"@
                + ascii_upper(day_month_year_text(date)) + "bhav.csv.zip"@
        },
    }
}

/// Archive URLs of days after the cutoff that are equal are those of the same day.
proof fn lemma_late_url_injective(d1: (int, int, int), d2: (int, int, int))
    requires
        is_valid_ymd(d1.0, d1.1, d1.2),
        is_valid_ymd(d2.0, d2.1, d2.2),
        date_before(archive_cutoff(), d1),
        date_before(archive_cutoff(), d2),
        archive_url(InstrumentSource::NSE, d1) == archive_url(InstrumentSource::NSE, d2),
    ensures
        d1 == d2,
{
    let pa = "https://nsearchives.nseindia.com/content"@ + "/cm/BhavCopy_NSE_CM_0_0_0_"@;
    let z = "_F_0000.csv.zip"@;
    lemma_concat_cancel(pa, compact_text(d1), compact_text(d2), z);
    lemma_compact_text_injective(d1, d2);
}

/// An archive URL of a day after the cutoff is not that of a day up to the cutoff.
proof fn lemma_late_url_not_early(d1: (int, int, int), d2: (int, int, int))
    requires
        date_before(archive_cutoff(), d1),
        !date_before(archive_cutoff(), d2),
    ensures
        archive_url(InstrumentSource::NSE, d1) != archive_url(InstrumentSource::NSE, d2),
{
    reveal_strlit("/cm/BhavCopy_NSE_CM_0_0_0_");
    reveal_strlit("/historical/EQUITIES/");
    let p = "https://nsearchives.nseindia.com/content"@;
    let a = "/cm/BhavCopy_NSE_CM_0_0_0_"@;
    let h = "/historical/EQUITIES/"@;
    let k: int = p.len() as int + 1;
    let u1 = archive_url(InstrumentSource::NSE, d1);
    let u2 = archive_url(InstrumentSource::NSE, d2);
    assert((p + a)[k] == a[1]);
    assert((p + h)[k] == h[1]);
    assert(u1[k] == (p + a)[k]);
    assert(u2[k] == (p + h)[k]);
}

/// Archive URLs of days up to the cutoff that are equal are those of the same day.
proof fn lemma_early_url_injective(d1: (int, int, int), d2: (int, int, int))
    requires
        is_valid_ymd(d1.0, d1.1, d1.2),
        is_valid_ymd(d2.0, d2.1, d2.2),
        !date_before(archive_cutoff(), d1),
        !date_before(archive_cutoff(), d2),
        archive_url(InstrumentSource::NSE, d1) == archive_url(InstrumentSource::NSE, d2),
    ensures
        d1 == d2,
{
    let ph = "https://nsearchives.nseindia.com/content"@ + "/historical/EQUITIES/"@;
    let b = "bhav.csv.zip"@;
    let m1 = early_url_middle(d1);
    let m2 = early_url_middle(d2);
    lemma_early_url_parts(d1);
    lemma_early_url_parts(d2);
    lemma_concat_cancel(ph, m1, m2, b);
    lemma_early_middle_injective(d1, d2);
}

/// What an archive URL of a day up to the cutoff holds between its fixed start and end.
spec fn early_url_middle(d: (int, int, int)) -> Seq<char> {
    year_text(d.0) + "/"@ + ascii_upper(month_abbrev(d.1)) + "/cm"@
        + (zero_padded(d.2 as nat, 2) + ascii_upper(month_abbrev(d.1)) + year_text(d.0))
}

/// An archive URL of a day up to the cutoff is its fixed start, its middle and its fixed end.
proof fn lemma_early_url_parts(d: (int, int, int))
    requires
        !date_before(archive_cutoff(), d),
    ensures
        archive_url(InstrumentSource::NSE, d) == ("https://nsearchives.nseindia.com/content"@
            + "/historical/EQUITIES/"@) + early_url_middle(d) + "bhav.csv.zip"@,
{
    lemma_upper_day_month_year(d);
    assert(archive_url(InstrumentSource::NSE, d) =~= ("https://nsearchives.nseindia.com/content"@
        + "/historical/EQUITIES/"@) + early_url_middle(d) + "bhav.csv.zip"@);
}

/// Equal middles of archive URLs are those of the same day.
proof fn lemma_early_middle_injective(d1: (int, int, int), d2: (int, int, int))
    requires
        is_valid_ymd(d1.0, d1.1, d1.2),
        is_valid_ymd(d2.0, d2.1, d2.2),
        early_url_middle(d1) == early_url_middle(d2),
    ensures
        d1 == d2,
{
    reveal_strlit("/");
    reveal_strlit("/cm");
    let y1 = year_text(d1.0);
    let y2 = year_text(d2.0);
    let mu1 = ascii_upper(month_abbrev(d1.1));
    let mu2 = ascii_upper(month_abbrev(d2.1));
    let e1 = zero_padded(d1.2 as nat, 2);
    let e2 = zero_padded(d2.2 as nat, 2);
    let m1 = early_url_middle(d1);
    let m2 = early_url_middle(d2);
    lemma_month_upper_injective(d1.1, d1.1);
    lemma_month_upper_injective(d2.1, d2.1);
    lemma_two_digits_len(d1.2 as nat);
    lemma_two_digits_len(d2.2 as nat);
    let n: int = y1.len() as int;
    assert(m1.len() == 2 * y1.len() + 12);
    assert(m2.len() == 2 * y2.len() + 12);
    assert(y2.len() == n);
    assert(m1.subrange(0, n) =~= y1);
    assert(m2.subrange(0, n) =~= y2);
    lemma_year_text_injective(d1.0, d2.0);
    assert(m1.subrange(n + 1, n + 4) =~= mu1);
    assert(m2.subrange(n + 1, n + 4) =~= mu2);
    lemma_month_upper_injective(d1.1, d2.1);
    assert(m1.subrange(n + 7, n + 9) =~= e1);
    assert(m2.subrange(n + 7, n + 9) =~= e2);
    lemma_zero_padded_value(d1.2 as nat, 2);
    lemma_zero_padded_value(d2.2 as nat, 2);
}

/// Different days have different archive URLs: every day names its own file.
pub proof fn lemma_archive_url_injective(d1: (int, int, int), d2: (int, int, int))
    requires
        is_valid_ymd(d1.0, d1.1, d1.2),
        is_valid_ymd(d2.0, d2.1, d2.2),
        d1 != d2,
    ensures
        archive_url(InstrumentSource::NSE, d1) != archive_url(InstrumentSource::NSE, d2),
{
    let late1 = date_before(archive_cutoff(), d1);
    let late2 = date_before(archive_cutoff(), d2);
    if late1 && late2 {
        if archive_url(InstrumentSource::NSE, d1) == archive_url(InstrumentSource::NSE, d2) {
            lemma_late_url_injective(d1, d2);
        }
    } else if late1 {
        lemma_late_url_not_early(d1, d2);
    } else if late2 {
        lemma_late_url_not_early(d2, d1);
    } else {
        if archive_url(InstrumentSource::NSE, d1) == archive_url(InstrumentSource::NSE, d2) {
            lemma_early_url_injective(d1, d2);
        }
    }
}

/// The URL of the exchange's reports service for the bhavcopy of `date`.
pub open spec fn reports_api_url(date: (int, int, int)) -> Seq<char> {
    "https://www.nseindia.com/api/reports?archives="@
        + (if date_before(archive_cutoff(), date) {
            "[{\"category\":\"capital-market\",\"name\":\"CM-UDiFF Common Bhavcopy Final (zip)\",\"section\":\"equities\",\"type\":\"daily-reports\"}]"@
        } else {
            "[{\"category\":\"capital-market\",\"name\":\"CM - Bhavcopy(csv)\",\"section\":\"equities\",\"type\":\"archives\"}]"@
        }) + "&date="@ + dashed_day_month_year_text(date) + "&type=equities&mode=single"@
}

/// The day after which bhavcopies are in the UDiFF format.
fn cutoff_date() -> (d: Date)
    ensures
        d@ == archive_cutoff(),
{
    let d = Date::from_ymd_opt(2024, 6, 1);
    d.unwrap()
}

/// The archive URL of the bhavcopy that `source` published for `date`.
pub fn get_bhav_file_url(source: &InstrumentSource, date: &Date) -> (url: String)
    ensures
        url@ == archive_url(*source, date@),
{
    let cutoff = cutoff_date();
    match source {
        InstrumentSource::NSE => {
            let mut url = String::from_str("https://nsearchives.nseindia.com/content");
            if date.is_after(&cutoff) {
                let ymd = date.format_compact();
                url.append("/cm/BhavCopy_NSE_CM_0_0_0_");
                url.append(ymd.as_str());
                url.append("_F_0000.csv.zip");
            } else {
                let year = date.format_year();
                let month = month_abbrev_upper_text(date.month());
                let date_str = date.format_upper_day_month_year();
                url.append("/historical/EQUITIES/");
                url.append(year.as_str());
                url.append("/");
                url.append(month);
                url.append("/cm");
                url.append(date_str.as_str());
                url.append("bhav.csv.zip");
            }
            url
        },
    }
}

/// The URL under which the exchange's reports service lists the bhavcopy of `date`.
pub fn get_reports_api_url(date: &Date) -> (url: String)
    ensures
        url@ == reports_api_url(date@),
{
    let cutoff = cutoff_date();
    let mut url = String::from_str("https://www.nseindia.com/api/reports?archives=");
    if date.is_after(&cutoff) {
        url.append("[{\"category\":\"capital-market\",\"name\":\"CM-UDiFF Common Bhavcopy Final (zip)\",\"section\":\"equities\",\"type\":\"daily-reports\"}]");
    } else {
        url.append("[{\"category\":\"capital-market\",\"name\":\"CM - Bhavcopy(csv)\",\"section\":\"equities\",\"type\":\"archives\"}]");
    }
    url.append("&date=");
    let d = date.format_dashed_day_month_year();
    url.append(d.as_str());
    url.append("&type=equities&mode=single");
    url
}

/// The number of entries of the zip archive `archive`, or `None` where the zip crate cannot
/// read it as an archive.
pub uninterp spec fn zip_entry_count(archive: Seq<u8>) -> Option<nat>;

/// The uncompressed content of entry `index` of the zip archive `archive`, or `None` where the
/// zip crate cannot open the archive, find the entry or decompress it.
pub uninterp spec fn zip_entry_data(archive: Seq<u8>, index: int) -> Option<Seq<u8>>;

/// Opens `bytes` with `zip::ZipArchive::new` and counts its entries with `ZipArchive::len`.
/// Claimed: the outcome depends on the bytes alone (named `zip_entry_count`).
#[verifier::external_body]
fn zip_archive_len(bytes: &[u8]) -> (res: Result<usize, zip::result::ZipError>)
    ensures
        match res {
            Ok(n) => zip_entry_count(bytes@) == Some(n as nat),
            Err(_) => zip_entry_count(bytes@) is None,
        },
{
    match zip::ZipArchive::new(std::io::Cursor::new(bytes)) {
        Ok(archive) => Ok(archive.len()),
        Err(e) => Err(e),
    }
}

/// Opens `bytes` with `zip::ZipArchive::new`, takes entry `index` with `ZipArchive::by_index`
/// and reads it to the end. Claimed: the outcome depends on the bytes and the index alone
/// (named `zip_entry_data`).
#[verifier::external_body]
fn zip_archive_read(bytes: &[u8], index: usize) -> (res: Result<Vec<u8>, zip::result::ZipError>)
    ensures
        match res {
            Ok(c) => zip_entry_data(bytes@, index as int) == Some(c@),
            Err(_) => zip_entry_data(bytes@, index as int) is None,
        },
{
    let mut archive = zip::ZipArchive::new(std::io::Cursor::new(bytes))?;
    let mut file = archive.by_index(index)?;
    let mut contents = Vec::new();
    file.read_to_end(&mut contents)?;
    Ok(contents)
}

/// Why a download gives no bhavcopy.
#[derive(Debug)]
pub enum DownloadError {
    /// The server answered with a client or server error status.
    HttpStatus(u16),
    /// The body looks like a zip archive and the zip crate cannot read it.
    Archive(zip::result::ZipError),
    /// The body is a zip archive without entries.
    EmptyArchive,
}

/// What unzipping `archive` gives: the content of its first entry, or why there is none.
pub open spec fn unzip_outcome(archive: Seq<u8>) -> Result<Seq<u8>, Option<()>> {
    match zip_entry_count(archive) {
        None => Err(None),
        Some(n) => if n == 0 {
            Err(Some(()))
        } else {
            match zip_entry_data(archive, 0) {
                Some(c) => Ok(c),
                None => Err(None),
            }
        },
    }
}

/// `res` is what `unzip_outcome` describes: `Err(None)` for an error of the zip crate,
/// `Err(Some(()))` for an archive without entries.
pub open spec fn unzip_result_matches(res: Result<Vec<u8>, DownloadError>, outcome: Result<Seq<u8>, Option<()>>) -> bool {
    match outcome {
        Ok(c) => (res matches Ok(v) && v@ == c),
        Err(None) => res matches Err(DownloadError::Archive(_)),
        Err(Some(())) => res matches Err(DownloadError::EmptyArchive),
    }
}

/// The content of the first entry of a zip archive.
pub fn unzip_file(zip_bytes: &[u8]) -> (res: Result<Vec<u8>, DownloadError>)
    ensures
        unzip_result_matches(res, unzip_outcome(zip_bytes@)),
{
    let n = match zip_archive_len(zip_bytes) {
        Ok(n) => n,
        Err(e) => return Err(DownloadError::Archive(e)),
    };
    if n == 0 {
        return Err(DownloadError::EmptyArchive);
    }
    match zip_archive_read(zip_bytes, 0) {
        Ok(c) => Ok(c),
        Err(e) => Err(DownloadError::Archive(e)),
    }
}

/// The body starts with the signature of a zip archive, `PK`.
pub open spec fn starts_with_pk(b: Seq<u8>) -> bool {
    b.len() >= 2 && b[0] == 0x50u8 && b[1] == 0x4bu8
}

/// A downloaded bhavcopy: unzipped where it is a zip archive, as it is otherwise.
pub fn bhav_payload(bytes: Vec<u8>) -> (res: Result<Vec<u8>, DownloadError>)
    ensures
        starts_with_pk(bytes@) ==> unzip_result_matches(res, unzip_outcome(bytes@)),
        !starts_with_pk(bytes@) ==> (res matches Ok(v) && v@ == bytes@),
{
    if bytes.len() >= 2 && bytes[0] == 0x50u8 && bytes[1] == 0x4bu8 {
        unzip_file(bytes.as_slice())
    } else {
        Ok(bytes)
    }
}

/// The HTTP status is a client error (4xx) or a server error (5xx).
pub open spec fn is_error_status(status: u16) -> bool {
    400 <= status <= 599
}

/// What an answer of the exchange's server gives: no bhavcopy for 404, an error for any other
/// client or server error, and otherwise the bhavcopy in the body.
pub fn interpret_bhav_response(status: u16, body: Vec<u8>) -> (res: Result<Option<Vec<u8>>, DownloadError>)
    ensures
        status == 404 ==> res matches Ok(None),
        status != 404 && is_error_status(status) ==> (res matches Err(DownloadError::HttpStatus(s)) && s == status),
        !is_error_status(status) && starts_with_pk(body@) ==> match unzip_outcome(body@) {
            Ok(c) => (res matches Ok(Some(v)) && v@ == c),
            Err(None) => res matches Err(DownloadError::Archive(_)),
            Err(Some(())) => res matches Err(DownloadError::EmptyArchive),
        },
        !is_error_status(status) && !starts_with_pk(body@) ==> (res matches Ok(Some(v)) && v@ == body@),
        400 <= status < 600 && status != 404 ==> (res matches Err(DownloadError::HttpStatus(s)) && s == status),
        (status < 400 || status >= 600) && !starts_with_pk(body@) ==> (res matches Ok(Some(v)) && v@ == body@),
{
    if status == 404 {
        return Ok(None);
    }
    if 400 <= status && status <= 599 {
        return Err(DownloadError::HttpStatus(status));
    }
    match bhav_payload(body) {
        Ok(v) => Ok(Some(v)),
        Err(e) => Err(e),
    }
}

/// The error statuses are exactly the client and server errors of HTTP, 400 to 599 (those that
/// reqwest's `error_for_status` refuses); the answers whose body is read are those with any
/// other status.
pub proof fn lemma_error_statuses(status: u16)
    ensures
        is_error_status(status) <==> (400 <= status && status < 600),
        (status != 404 && !is_error_status(status)) <==> (status < 400 || status >= 600),
{
}

/// Whether the body of an answer with `status` can hold a bhavcopy, and so needs reading.
pub fn response_has_bhav_body(status: u16) -> (res: bool)
    ensures
        res == (status != 404 && !is_error_status(status)),
        res == (status < 400 || status >= 600),
{
    status != 404 && !(400 <= status && status <= 599)
}

} // verus!
