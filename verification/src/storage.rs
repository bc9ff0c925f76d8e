use vstd::prelude::*;

use crate::date::{is_valid_ymd, iso_text, lemma_iso_text_injective, Date};
use crate::text::lemma_concat_cancel;
use crate::instrument::{app_file_kind_name, instrument_source_code, AppFileKind, InstrumentSource};

verus! {

/// A downloaded bhavcopy to be stored.
#[derive(Debug)]
pub struct SaveSourceFileOptions {
    pub date: Date,
    pub source: InstrumentSource,
    pub data: Vec<u8>,
}

/// A downloaded file to be stored, by kind.
#[derive(Debug)]
pub struct AppFile {
    pub date: Date,
    pub kind: AppFileKind,
    pub data: Vec<u8>,
}

/// The storage key of the file of `source` for `date`: `<source>/<date>.json`.
pub open spec fn source_file_path(date: (int, int, int), source: InstrumentSource) -> Seq<char> {
    instrument_source_code(source) + "/"@ + iso_text(date) + ".json"@
}

/// The storage key of a file of `kind` for `date`: `<kind>/<date>.json`.
pub open spec fn app_file_path(date: (int, int, int), kind: AppFileKind) -> Seq<char> {
    app_file_kind_name(kind) + "/"@ + iso_text(date) + ".json"@
}

/// The storage key under which the bhavcopy of `kind` for `date` is kept.
pub fn get_file_path(date: &Date, kind: &InstrumentSource) -> (path: String)
    ensures
        path@ == source_file_path(date@, *kind),
{
    let mut path = String::from_str(kind.code());
    path.append("/");
    let d = date.format_iso();
    path.append(d.as_str());
    path.append(".json");
    path
}

/// The storage key under which a file of `kind` for `date` is kept.
pub fn get_app_file_path(date: &Date, kind: &AppFileKind) -> (path: String)
    ensures
        path@ == app_file_path(date@, *kind),
{
    let mut path = String::from_str(kind.name());
    path.append("/");
    let d = date.format_iso();
    path.append(d.as_str());
    path.append(".json");
    path
}

/// A storage key of a source names one day: different days are kept under different keys.
pub proof fn lemma_source_file_path_injective(d1: (int, int, int), d2: (int, int, int), source: InstrumentSource)
    requires
        is_valid_ymd(d1.0, d1.1, d1.2),
        is_valid_ymd(d2.0, d2.1, d2.2),
        source_file_path(d1, source) == source_file_path(d2, source),
    ensures
        d1 == d2,
{
    let a = instrument_source_code(source) + "/"@;
    let b = ".json"@;
    assert(source_file_path(d1, source) == a + iso_text(d1) + b);
    assert(source_file_path(d2, source) == a + iso_text(d2) + b);
    lemma_concat_cancel(a, iso_text(d1), iso_text(d2), b);
    lemma_iso_text_injective(d1, d2);
}

/// A storage key of a file kind names one day: different days are kept under different keys.
pub proof fn lemma_app_file_path_injective(d1: (int, int, int), d2: (int, int, int), kind: AppFileKind)
    requires
        is_valid_ymd(d1.0, d1.1, d1.2),
        is_valid_ymd(d2.0, d2.1, d2.2),
        app_file_path(d1, kind) == app_file_path(d2, kind),
    ensures
        d1 == d2,
{
    let a = app_file_kind_name(kind) + "/"@;
    let b = ".json"@;
    assert(app_file_path(d1, kind) == a + iso_text(d1) + b);
    assert(app_file_path(d2, kind) == a + iso_text(d2) + b);
    lemma_concat_cancel(a, iso_text(d1), iso_text(d2), b);
    lemma_iso_text_injective(d1, d2);
}

} // verus!
