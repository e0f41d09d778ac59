use audio_wrench::playlist::write_playlist;

#[test]
fn test_write() {
    let files = vec![
        String::from("C:\\asd\\asd.wav"),
        String::from("D:\\\\asd_asd2ü.mp3"),
    ];
    let (doc, kept) = write_playlist(&files);
    assert!(doc.starts_with("<?xml version=\"1.0\" encoding=\"UTF-8\"?>"));
    assert_eq!(kept.len(), 2);
}

#[test]
fn export_skips_references_that_do_not_convert() {
    // on this platform a Windows drive path is not absolute, so it fails URL
    // conversion and must produce no entry at all
    let files = vec![String::from("C:\\dir\\a.wav"), String::from("D:\\dir\\b.mp3")];
    let (doc, kept) = write_playlist(&files);
    assert!(!doc.contains("<location>"));
    assert_eq!(kept, vec![false, false]);
}

#[test]
fn export_absolute_paths_as_file_urls() {
    let files = vec![String::from("/dir/a.wav"), String::from("/dir/b.mp3")];
    let (doc, kept) = write_playlist(&files);
    assert!(doc.contains("<location>file:///dir/a.wav</location>"));
    assert!(doc.contains("<location>file:///dir/b.mp3</location>"));
    assert_eq!(kept, vec![true, true]);
}

#[test]
fn export_keeps_file_urls_verbatim_and_escapes() {
    let files = vec![String::from("file:///x/y&z.mp3")];
    let (doc, kept) = write_playlist(&files);
    assert!(doc.contains("<location>file:///x/y&amp;z.mp3</location>"));
    assert_eq!(kept, vec![true]);
}

#[test]
fn export_document_shape() {
    let files: Vec<String> = vec![];
    let (doc, _) = write_playlist(&files);
    assert!(doc.contains("<playlist version=\"1\" xmlns=\"http://xspf.org/ns/0/\">"));
    assert!(doc.contains("<title>Audio-Wrench Favorites</title>"));
    assert!(doc.contains("<trackList>"));
    assert!(doc.contains("</trackList>"));
    assert!(doc.ends_with("</playlist>\n"));
}
