//! What uploaded files are called.

use url_uploader::naming::{
    choose_name, decode_name, describe_file, extension, extension_for, guess_name, is_mp4_video,
    name_in_disposition, put_under_extension, read_header, segment_of, FileInfo, FileNameError, ResponseHead,
};

fn head(path: &str, disposition: Option<&str>, content_type: Option<&str>) -> ResponseHead {
    ResponseHead {
        path: path.to_string(),
        content_disposition: disposition.map(|d| d.as_bytes().to_vec()),
        content_type: content_type.map(|c| c.as_bytes().to_vec()),
        content_length: None,
    }
}

fn file(name: &str, is_video: bool) -> Result<FileInfo, FileNameError> {
    Ok(FileInfo { name: name.to_string(), is_video })
}

#[test]
fn name_is_read_from_the_header() {
    assert_eq!(name_in_disposition("attachment; filename=\"a b.txt\""), Some("a b.txt"));
    assert_eq!(name_in_disposition("attachment;filename=a.txt;x=y"), Some("a.txt"));
    assert_eq!(name_in_disposition("filename=\"\""), Some(""));
    assert_eq!(name_in_disposition("filename=filename=a"), Some("a"));
    assert_eq!(name_in_disposition("filename=\"\"a\"\""), Some("a"));
    assert_eq!(name_in_disposition("x; filename=a; filename=b"), Some("a"));
    assert_eq!(name_in_disposition("attachment; filename*=UTF-8''a"), None);
    assert_eq!(name_in_disposition("attachment; FILENAME=a"), None);
    assert_eq!(name_in_disposition("inline"), None);
    assert_eq!(name_in_disposition(""), None);
}

#[test]
fn last_segment_of_a_path() {
    assert_eq!(segment_of("/foo/bar"), Some("bar"));
    assert_eq!(segment_of("/foo"), Some("foo"));
    assert_eq!(segment_of("/foo/"), Some(""));
    assert_eq!(segment_of("/"), Some(""));
    assert_eq!(segment_of("text/plain"), None);
    assert_eq!(segment_of(""), None);
}

#[test]
fn segments_agree_with_those_of_urls() {
    for url in [
        "https://example.com",
        "https://example.com/a",
        "https://example.com/a/b.c?d=/e#/f",
        "https://example.com/a/",
        "data:text/plain,a/b",
    ] {
        let url = reqwest::Url::parse(url).unwrap();
        assert_eq!(segment_of(url.path()), url.path_segments().and_then(|s| s.last()));
    }
}

#[test]
fn extension_goes_with_the_content_type() {
    assert_eq!(extension_for(Some("image/png")), Some("png"));
    assert_eq!(extension_for(Some("application/pdf; charset=x")), Some("pdf"));
    assert_eq!(extension_for(Some("no/such-type")), None);
    assert_eq!(extension_for(Some("nonsense")), None);
    assert_eq!(extension_for(None), None);
}

#[test]
fn source_name_comes_from_header_path_or_default() {
    assert_eq!(guess_name(Some("x; filename=\"h.txt\""), "/p.zip", Some("png")), "h.txt");
    assert_eq!(guess_name(Some("inline"), "/p.zip", Some("png")), "p.zip");
    assert_eq!(guess_name(None, "/p.zip", Some("png")), "p.zip");
    assert_eq!(guess_name(None, "/p", Some("png")), "p.png");
    assert_eq!(guess_name(None, "/", Some("png")), ".png");
    assert_eq!(guess_name(None, "/p", None), "file.bin");
    assert_eq!(guess_name(None, "opaque", Some("png")), "file.bin");
}

#[test]
fn extension_stands_behind_the_last_dot() {
    assert_eq!(extension("a.tar.gz"), "gz");
    assert_eq!(extension("a."), "");
    assert_eq!(extension(".a"), "a");
    assert_eq!(extension("a"), "bin");
    assert_eq!(extension(""), "bin");
}

#[test]
fn custom_name_gets_the_extension() {
    assert_eq!(choose_name(Some("mine"), "a.zip"), "mine.zip");
    assert_eq!(choose_name(Some("mine.zip"), "a.zip"), "mine.zip");
    assert_eq!(choose_name(Some("mine.ZIP"), "a.zip"), "mine.ZIP");
    assert_eq!(choose_name(Some("mine.zip"), "a.ZIP"), "mine.zip");
    assert_eq!(choose_name(Some("minezip"), "a.zip"), "minezip.zip");
    assert_eq!(choose_name(Some("mine"), "a"), "mine.bin");
    assert_eq!(choose_name(Some(""), "a.zip"), ".zip");
    assert_eq!(choose_name(None, "a.zip"), "a.zip");
    assert_eq!(put_under_extension("A", "B", "x.b", "b"), "A");
    assert_eq!(put_under_extension("A", "B", "xb", "b"), "A.B");
}

#[test]
fn percent_signs_are_decoded() {
    assert_eq!(decode_name("a%20b"), Ok("a b".to_string()));
    assert_eq!(decode_name("%F0%9F%92%96"), Ok("💖".to_string()));
    assert_eq!(decode_name("100%"), Ok("100%".to_string()));
    assert_eq!(decode_name("%zz%4"), Ok("%zz%4".to_string()));
    assert_eq!(decode_name("%%41"), Ok("%A".to_string()));
    assert_eq!(decode_name("%2541"), Ok("%41".to_string()));
    assert_eq!(decode_name("%ff"), Err(FileNameError::NotUtf8));
}

#[test]
fn plain_name_is_kept() {
    assert_eq!(decode_name("ünïcode 𝑛𝑎𝑚𝑒.txt"), Ok("ünïcode 𝑛𝑎𝑚𝑒.txt".to_string()));
}

#[test]
fn videos_are_told_by_type_or_name() {
    assert!(is_mp4_video(Some("video/mp4; codecs=x"), "a"));
    assert!(is_mp4_video(Some("text/plain"), "a.mp4"));
    assert!(is_mp4_video(None, ".mp4"));
    assert!(!is_mp4_video(Some("video/webm"), "a.mp4x"));
    assert!(!is_mp4_video(None, "mp4"));
}

#[test]
fn files_are_described() {
    assert_eq!(
        describe_file(&head("/dir/My%20File.MP4", None, None), None),
        file("My File.MP4", true)
    );
    assert_eq!(
        describe_file(&head("/dir/x", None, Some("image/png")), Some("pic%21")),
        file("pic!.png", false)
    );
    assert_eq!(
        describe_file(
            &head("/x.zip", Some("attachment; filename=\"real.tar.gz\""), None),
            Some("mine")
        ),
        file("mine.gz", false)
    );
    assert_eq!(
        describe_file(&head("/x", None, Some("video/mp4")), Some("clip.bin")),
        file("clip.bin.mp4", true)
    );
    assert_eq!(describe_file(&head("/x", None, None), None), file("file.bin", false));
    assert_eq!(
        describe_file(&head("/%ff.zip", None, None), None),
        Err(FileNameError::NotUtf8)
    );
}

#[test]
fn headers_are_read_where_they_are_plain_text() {
    assert_eq!(read_header(&None), None);
    assert_eq!(read_header(&Some(Vec::new())), Some("".to_string()));
    assert_eq!(read_header(&Some(b"a b\t~".to_vec())), Some("a b\t~".to_string()));
    for byte in 0..=255u8 {
        let visible = (32..127).contains(&byte) || byte == 9;
        let expected = if visible { Some((byte as char).to_string()) } else { None };
        assert_eq!(read_header(&Some(vec![byte])), expected);
    }
    assert_eq!(
        describe_file(&head("/p.zip", Some("attachment; filename=\"ü.txt\""), None), None),
        file("p.zip", false)
    );
}
