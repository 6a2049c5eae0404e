use file_server_core::media::escape_html_content;
use file_server_core::media::guessed_mime_or_plain;
use file_server_core::media::MediaType;

#[test]
fn classifying_a_png_yields_the_image_category() {
    assert_eq!(MediaType::from_file_name("photo.png"), MediaType::IMAGE);
}

#[test]
fn classifying_an_unknown_extension_yields_other() {
    assert_eq!(MediaType::from_file_name("archive.unknownext"), MediaType::OTHER);
}

#[test]
fn classifying_goes_by_the_guessed_type() {
    assert_eq!(MediaType::from_file_name("notes.txt"), MediaType::TEXT);
    assert_eq!(MediaType::from_file_name("song.mp3"), MediaType::AUDIO);
    assert_eq!(MediaType::from_file_name("clip.mp4"), MediaType::VIDEO);
    assert_eq!(MediaType::from_file_name("data.bin"), MediaType::OTHER);
}

#[test]
fn a_mime_type_reduces_to_its_type_part() {
    assert_eq!(MediaType::from_mime("text/plain"), MediaType::TEXT);
    assert_eq!(MediaType::from_mime("image/png"), MediaType::IMAGE);
    assert_eq!(MediaType::from_mime("audio/mpeg"), MediaType::AUDIO);
    assert_eq!(MediaType::from_mime("video/mp4"), MediaType::VIDEO);
    assert_eq!(MediaType::from_mime("application/json"), MediaType::OTHER);
    // The type part is what stands before the slash, not any prefix of it.
    assert_eq!(MediaType::from_mime("textual/x-thing"), MediaType::OTHER);
}

#[test]
fn the_declared_content_type_falls_back_to_plain_text() {
    assert_eq!(guessed_mime_or_plain("photo.png"), "image/png");
    assert_eq!(guessed_mime_or_plain("archive.unknownext"), "text/plain");
}

#[test]
fn escaping_replaces_the_three_markup_characters() {
    assert_eq!(escape_html_content("<a> & b"), "&lt;a&gt; &amp; b");
    assert_eq!(escape_html_content("plain"), "plain");
    assert_eq!(escape_html_content(""), "");
    assert_eq!(escape_html_content("&&"), "&amp;&amp;");
}
