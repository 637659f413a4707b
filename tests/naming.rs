use pmcollection::naming::{decompressed_name, file_name};

#[test]
fn file_name_is_last_segment() {
    assert_eq!(file_name("http://host/a.txt"), "a.txt");
    assert_eq!(file_name("https://example.org/dir/sub/data.csv.gz"), "data.csv.gz");
}

#[test]
fn file_name_of_trailing_slash_is_empty() {
    assert_eq!(file_name("http://host/dir/"), "");
}

#[test]
fn file_name_without_slash_is_whole_text() {
    assert_eq!(file_name("plain"), "plain");
    assert_eq!(file_name(""), "");
}

#[test]
fn file_name_keeps_query() {
    assert_eq!(file_name("http://host/f.txt?x=1"), "f.txt?x=1");
}

#[test]
fn decompressed_name_strips_one_gz() {
    assert_eq!(decompressed_name("data.txt.gz"), "data.txt");
    assert_eq!(decompressed_name("a.gz.gz"), "a.gz");
    assert_eq!(decompressed_name(".gz"), "");
}

#[test]
fn decompressed_name_without_gz_is_unchanged() {
    assert_eq!(decompressed_name("data.txt"), "data.txt");
    assert_eq!(decompressed_name("gz"), "gz");
}
