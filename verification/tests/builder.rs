use arkiv::download::{DestProvided, OnProgressProvided, UrlProvided};
use arkiv::Downloader;

#[test]
fn builder_records_url_and_directory() {
    let d = Downloader::new().url("http://host/dir/sample.zip").to_directory("fetched");
    let UrlProvided(url) = &d.url;
    assert_eq!(url, "http://host/dir/sample.zip");
    assert!(matches!(d.dest, DestProvided::Dir(ref p) if p == "fetched"));
}

#[test]
fn builder_records_temp_destination() {
    let d = Downloader::new().url("http://host/sample.tar.gz").to_temp();
    assert!(matches!(d.dest, DestProvided::TempDir));
}

#[test]
fn builder_keeps_slots_independent() {
    // the destination can be set before the URL, and a progress
    // callback can be added to either shape
    let d = Downloader::new().to_directory("somewhere").url("http://host/a.zip");
    let UrlProvided(url) = &d.url;
    assert_eq!(url, "http://host/a.zip");
    assert!(matches!(d.dest, DestProvided::Dir(_)));

    let d = Downloader::new().url("http://host/a.zip").to_temp().on_progress(|_done, _total| {});
    let OnProgressProvided(cb) = &d.on_progress;
    cb(0, 10);
    assert!(matches!(d.dest, DestProvided::TempDir));
}
