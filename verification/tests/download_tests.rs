use std::io::Write;

use price_loom::date::Date;
use price_loom::download::{
    bhav_payload, get_bhav_file_url, get_reports_api_url, interpret_bhav_response, unzip_file, DownloadError,
};
use price_loom::instrument::InstrumentSource;

fn date(y: i32, m: u32, d: u32) -> Date {
    Date::from_ymd_opt(y, m, d).unwrap()
}

fn zip_of(entries: &[(&str, &[u8])]) -> Vec<u8> {
    let mut w = zip::ZipWriter::new(std::io::Cursor::new(Vec::new()));
    let options = zip::write::SimpleFileOptions::default().compression_method(zip::CompressionMethod::Deflated);
    for (name, data) in entries {
        w.start_file(*name, options).unwrap();
        w.write_all(data).unwrap();
    }
    w.finish().unwrap().into_inner()
}

#[test]
fn archive_url_after_the_cutoff() {
    assert_eq!(
        get_bhav_file_url(&InstrumentSource::NSE, &date(2024, 6, 3)),
        "https://nsearchives.nseindia.com/content/cm/BhavCopy_NSE_CM_0_0_0_20240603_F_0000.csv.zip"
    );
    assert_eq!(
        get_bhav_file_url(&InstrumentSource::NSE, &date(2024, 6, 2)),
        "https://nsearchives.nseindia.com/content/cm/BhavCopy_NSE_CM_0_0_0_20240602_F_0000.csv.zip"
    );
}

#[test]
fn archive_url_up_to_the_cutoff() {
    assert_eq!(
        get_bhav_file_url(&InstrumentSource::NSE, &date(2024, 6, 1)),
        "https://nsearchives.nseindia.com/content/historical/EQUITIES/2024/JUN/cm01JUN2024bhav.csv.zip"
    );
    assert_eq!(
        get_bhav_file_url(&InstrumentSource::NSE, &date(2019, 1, 9)),
        "https://nsearchives.nseindia.com/content/historical/EQUITIES/2019/JAN/cm09JAN2019bhav.csv.zip"
    );
}

#[test]
fn reports_api_url_by_date() {
    assert_eq!(
        get_reports_api_url(&date(2024, 6, 3)),
        "https://www.nseindia.com/api/reports?archives=[{\"category\":\"capital-market\",\"name\":\"CM-UDiFF Common Bhavcopy Final (zip)\",\"section\":\"equities\",\"type\":\"daily-reports\"}]&date=03-Jun-2024&type=equities&mode=single"
    );
    assert_eq!(
        get_reports_api_url(&date(2024, 5, 31)),
        "https://www.nseindia.com/api/reports?archives=[{\"category\":\"capital-market\",\"name\":\"CM - Bhavcopy(csv)\",\"section\":\"equities\",\"type\":\"archives\"}]&date=31-May-2024&type=equities&mode=single"
    );
}

#[test]
fn reports_filter_matches_serde_json() {
    let mut object = serde_json::Map::new();
    object.insert("name".to_string(), serde_json::Value::String("CM - Bhavcopy(csv)".to_string()));
    object.insert("type".to_string(), serde_json::Value::String("archives".to_string()));
    object.insert("category".to_string(), serde_json::Value::String("capital-market".to_string()));
    object.insert("section".to_string(), serde_json::Value::String("equities".to_string()));
    let filter = serde_json::Value::Array(vec![serde_json::Value::Object(object)]);
    let url = get_reports_api_url(&date(2024, 5, 31));
    assert!(url.contains(&format!("archives={}&", filter)));
}

#[test]
fn unzip_reads_the_first_entry() {
    let archive = zip_of(&[("a.csv", b"SYMBOL,SERIES\nINFY,EQ\n"), ("b.csv", b"other")]);
    assert_eq!(unzip_file(&archive).unwrap(), b"SYMBOL,SERIES\nINFY,EQ\n".to_vec());
}

#[test]
fn unzip_refuses_an_empty_archive() {
    let archive = zip_of(&[]);
    assert!(matches!(unzip_file(&archive), Err(DownloadError::EmptyArchive)));
}

#[test]
fn unzip_refuses_garbage() {
    assert!(matches!(unzip_file(b"PK not really a zip"), Err(DownloadError::Archive(_))));
}

#[test]
fn payload_is_unzipped_only_when_it_is_a_zip() {
    let archive = zip_of(&[("a.csv", b"x,y\n")]);
    assert_eq!(bhav_payload(archive).unwrap(), b"x,y\n".to_vec());
    assert_eq!(bhav_payload(b"x,y\n".to_vec()).unwrap(), b"x,y\n".to_vec());
    assert_eq!(bhav_payload(b"P".to_vec()).unwrap(), b"P".to_vec());
    assert_eq!(bhav_payload(Vec::new()).unwrap(), Vec::<u8>::new());
}

#[test]
fn responses_by_status() {
    assert!(matches!(interpret_bhav_response(404, b"PK".to_vec()), Ok(None)));
    assert!(matches!(interpret_bhav_response(403, b"x".to_vec()), Err(DownloadError::HttpStatus(403))));
    assert!(matches!(interpret_bhav_response(500, b"x".to_vec()), Err(DownloadError::HttpStatus(500))));
    assert_eq!(interpret_bhav_response(200, b"x".to_vec()).unwrap(), Some(b"x".to_vec()));
    assert_eq!(interpret_bhav_response(302, b"x".to_vec()).unwrap(), Some(b"x".to_vec()));
    let archive = zip_of(&[("a.csv", b"data")]);
    assert_eq!(interpret_bhav_response(200, archive).unwrap(), Some(b"data".to_vec()));
    assert!(matches!(interpret_bhav_response(200, b"PKgarbage".to_vec()), Err(DownloadError::Archive(_))));
}

#[test]
fn every_day_names_its_own_file() {
    let days = [
        date(2024, 6, 3),
        date(2024, 6, 2),
        date(2024, 6, 1),
        date(2024, 5, 31),
        date(2023, 6, 1),
        date(2024, 1, 6),
        date(1994, 11, 3),
    ];
    let urls: Vec<String> = days.iter().map(|d| get_bhav_file_url(&InstrumentSource::NSE, d)).collect();
    for i in 0..urls.len() {
        for j in 0..urls.len() {
            if i != j {
                assert_ne!(urls[i], urls[j]);
            }
        }
    }
}
