use std::io::Write;

use arkiv::Archive;

fn tar_bytes() -> Vec<u8> {
    let mut b = tar::Builder::new(Vec::new());
    let mut dir = tar::Header::new_gnu();
    dir.set_entry_type(tar::EntryType::dir());
    dir.set_path("sample/").unwrap();
    dir.set_size(0);
    dir.set_mode(0o755);
    dir.set_cksum();
    b.append(&dir, std::io::empty()).unwrap();
    let mut file = tar::Header::new_gnu();
    file.set_entry_type(tar::EntryType::file());
    file.set_path("sample/sample.txt").unwrap();
    file.set_size(7);
    file.set_mode(0o644);
    file.set_cksum();
    b.append(&file, &b"sample\n"[..]).unwrap();
    b.into_inner().unwrap()
}

fn zip_bytes() -> Vec<u8> {
    let mut w = zip::ZipWriter::new(std::io::Cursor::new(Vec::new()));
    w.add_directory("sample", zip::write::SimpleFileOptions::default()).unwrap();
    w.start_file("sample/sample.txt", zip::write::SimpleFileOptions::default()).unwrap();
    w.write_all(b"sample\n").unwrap();
    w.finish().unwrap().into_inner()
}

fn gz_bytes() -> Vec<u8> {
    let mut e = flate2::write::GzEncoder::new(Vec::new(), flate2::Compression::default());
    e.write_all(&tar_bytes()).unwrap();
    e.finish().unwrap()
}

fn bz2_bytes() -> Vec<u8> {
    let mut e = bzip2::write::BzEncoder::new(Vec::new(), bzip2::Compression::default());
    e.write_all(&tar_bytes()).unwrap();
    e.finish().unwrap()
}

fn xz_bytes() -> Vec<u8> {
    let mut e = xz2::write::XzEncoder::new(Vec::new(), 6);
    e.write_all(&tar_bytes()).unwrap();
    e.finish().unwrap()
}

fn write_sample(dir: &tempfile::TempDir, name: &str, bytes: &[u8]) -> String {
    let p = dir.path().join(name);
    fs_err::write(&p, bytes).unwrap();
    p.to_str().unwrap().to_string()
}

fn test(name: &str, bytes: &[u8]) {
    // unpack the whole archive and check the extracted file
    let scratch = tempfile::tempdir().unwrap();
    let sandbox = tempfile::tempdir().unwrap();
    let path = write_sample(&scratch, name, bytes);
    let mut archive = Archive::open(&path).unwrap();
    archive.unpack(sandbox.path().to_str().unwrap()).unwrap();
    assert_eq!(
        fs_err::read_to_string(sandbox.path().join("sample/sample.txt")).unwrap(),
        "sample\n"
    );

    // list the entries of a fresh archive over the same file
    let mut archive = Archive::open(&path).unwrap();
    let mut actual = archive.entries().unwrap();
    let mut expected = vec!["sample/".to_string(), "sample/sample.txt".to_string()];
    actual.sort();
    expected.sort();
    assert_eq!(actual, expected);
}

#[test]
fn archive_tar_zipped_archive() {
    test("sample.zip", &zip_bytes());
}

#[test]
fn archive_tar_gzipped_archive() {
    test("sample.tar.gz", &gz_bytes());
}

#[test]
fn archive_tar_bzipped_archive() {
    test("sample.tar.bz2", &bz2_bytes());
}

#[test]
fn archive_tar_xzipped_archive() {
    test("sample.tar.xz", &xz_bytes());
}
