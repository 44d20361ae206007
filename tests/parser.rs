use mediastream::duration::is_float_text;
use mediastream::text::{trim, trim_start};
use mediastream::{parse_attributes, Media, ParseError, Parser, Playlist};

fn lines_of(data: &str) -> Vec<String> {
    data.split_inclusive('\n').map(String::from).collect()
}

fn parse_all(data: &str) -> (Parser<()>, Result<(), ParseError>) {
    let mut parser = Parser::new(());
    let r = parser.parse_lines(&lines_of(data));
    (parser, r)
}

fn seconds(m: &Media) -> f64 {
    m.duration.parse::<f64>().unwrap()
}

#[test]
fn test_parse_attributes() {
    let result = parse_attributes("HELLO=\"WORLD\" FOO=\"BAR\"");
    assert!(result.contains_key("HELLO"));
    assert_eq!(result.get("FOO").unwrap(), "BAR");
    assert!(!result.contains_key("NOT_FOUND"));
}

#[test]
fn test_parse_stream() {
    let data = r"
#EXTM3U
#EXT-X-VERSION:6
#EXT-X-MEDIA-SEQUENCE:8885
#EXT-X-DISCONTINUITY-SEQUENCE:0
#EXT-X-TARGETDURATION:6
#EXT-X-INDEPENDENT-SEGMENTS
#EXTINF:6.00000000,
21-35-08882.html
#EXTINF:6.00000000,
21-35-08883.html
#EXTINF:6.00000000,
21-35-08884.html";
    let (mut parser, r) = parse_all(data);
    r.unwrap();
    let result = parser.get_playlist();
    assert_eq!(result.entries.len(), 3);
}

#[test]
fn test_parse_list() {
    let data = r#"
#EXTM3U x-tvg-url="test"

#EXTINF:1 tvg-id="a" provider-type="iptv",A
http://example.com/A.m3u8

#EXTINF:2 tvg-id="b" provider-type="iptv",B
http://example.com/C.m3u8

#EXTINF:3 tvg-id="c" provider-type="iptv",C
http://example.com/C.m3u8

#EXTINF:4 tvg-id="d" provider-type="iptv",D
http://example.com/D.m3u8
"#;
    let (mut parser, r) = parse_all(data);
    r.unwrap();
    let result = parser.get_playlist();

    assert_eq!(result.attributes.get("x-tvg-url").unwrap(), "test");
    assert_eq!(result.entries.len(), 4);
    assert_eq!(result.entries.get(1).unwrap().name.as_ref().unwrap(), "B");
    assert_eq!(
        result
            .entries
            .get(2)
            .unwrap()
            .attributes
            .get("provider-type")
            .unwrap(),
        "iptv"
    );
    assert_eq!(
        result.entries.get(3).unwrap().location,
        "http://example.com/D.m3u8"
    );
}

#[test]
fn missing_header_is_not_a_playlist() {
    let (_, r) = parse_all("\n\nhttp://example.com/A.m3u8\n#EXTM3U\n");
    assert!(matches!(r, Err(ParseError::NotAPlaylist)));
    let (_, r) = parse_all("#EXTINF:1,A\nhttp://example.com/A.m3u8\n");
    assert!(matches!(r, Err(ParseError::NotAPlaylist)));
}

#[test]
fn empty_input_is_unexpected_eof() {
    let (_, r) = parse_all("");
    assert!(matches!(r, Err(ParseError::UnexpectedEOF)));
    let (_, r) = parse_all("  \n\t\n");
    assert!(matches!(r, Err(ParseError::UnexpectedEOF)));
}

#[test]
fn entries_count_location_lines() {
    let data = "#EXTM3U\n\na.ts\n#EXT-X-FOO\n\n  b.ts  \n#EXTINF:2,\nc.ts\n#EXTINF:3,dangling\n";
    let (mut parser, r) = parse_all(data);
    r.unwrap();
    let result = parser.get_playlist();
    assert_eq!(result.entries.len(), 3);
    assert_eq!(result.entries[1].location, "b.ts");
    assert_eq!(result.entries[0].duration, "0");
}

#[test]
fn attributes_last_wins_and_order() {
    let m = parse_attributes("A=\"1\" B=\"2\"");
    assert_eq!(m.len(), 2);
    assert_eq!(m.get("A").unwrap(), "1");
    assert_eq!(m.get("B").unwrap(), "2");
    let m = parse_attributes("A=\"1\" A=\"2\"");
    assert_eq!(m.len(), 1);
    assert_eq!(m.get("A").unwrap(), "2");
}

#[test]
fn attributes_extraction_twice_is_the_same() {
    let text = "x=\"1\" y=\"2\" x=\"3\"";
    let mut parser = Parser::new(());
    parser.parse_line("#EXTM3U x=\"0\" z=\"9\"").unwrap();
    let mut first = parser.get_playlist();
    mediastream::attributes::extend_attributes(&mut first.attributes, text);
    let len_once = first.attributes.len();
    mediastream::attributes::extend_attributes(&mut first.attributes, text);
    assert_eq!(first.attributes.len(), len_once);
    assert_eq!(first.attributes.get("x").unwrap(), "3");
    assert_eq!(first.attributes.get("y").unwrap(), "2");
    assert_eq!(first.attributes.get("z").unwrap(), "9");
}

#[test]
fn attributes_odd_shapes() {
    let m = parse_attributes("=\"v\" k=unquoted a=b=\"c\" key=\"open");
    assert_eq!(m.len(), 1);
    assert_eq!(m.get("b").unwrap(), "c");
    let m = parse_attributes("k=\"\"");
    assert_eq!(m.get("k").unwrap(), "");
    let m = parse_attributes("");
    assert_eq!(m.len(), 0);
    let m = parse_attributes("A=\"x y\"B=\"z\"");
    assert_eq!(m.get("A").unwrap(), "x y");
    assert_eq!(m.get("B").unwrap(), "z");
}

#[test]
fn header_attributes_merge() {
    let (mut parser, r) = parse_all("#EXTM3U x-tvg-url=\"test\"\n");
    r.unwrap();
    let result = parser.get_playlist();
    assert_eq!(result.attributes.get("x-tvg-url").unwrap(), "test");
    assert_eq!(result.attributes.len(), 1);
}

#[test]
fn info_directive_fields() {
    let data = "#EXTM3U\n#EXTINF:1 tvg-id=\"a\" provider-type=\"iptv\",A\nhttp://example.com/A.m3u8\n";
    let (mut parser, r) = parse_all(data);
    r.unwrap();
    let result = parser.get_playlist();
    let m = &result.entries[0];
    assert_eq!(seconds(m), 1.0);
    assert_eq!(m.attributes.get("tvg-id").unwrap(), "a");
    assert_eq!(m.attributes.get("provider-type").unwrap(), "iptv");
    assert_eq!(m.name.as_deref(), Some("A"));
    assert_eq!(m.location, "http://example.com/A.m3u8");
}

#[test]
fn info_directive_without_title_or_with_empty_title() {
    let (mut parser, r) = parse_all("#EXTM3U\n#EXTINF:2.5\na\n#EXTINF:-1,\nb\n");
    r.unwrap();
    let result = parser.get_playlist();
    assert_eq!(result.entries[0].name, None);
    assert_eq!(seconds(&result.entries[0]), 2.5);
    assert_eq!(result.entries[1].name.as_deref(), Some(""));
    assert_eq!(seconds(&result.entries[1]), -1.0);
}

#[test]
fn four_entries_in_order() {
    let data = "#EXTM3U\n#EXTINF:1,A\nA.m3u8\n#EXTINF:2,B\nB.m3u8\n#EXTINF:3,C\nC.m3u8\n#EXTINF:4,D\nD.m3u8\n";
    let (mut parser, r) = parse_all(data);
    r.unwrap();
    let result = parser.get_playlist();
    assert_eq!(result.entries.len(), 4);
    assert_eq!(result.entries[1].name.as_deref(), Some("B"));
    assert_eq!(result.entries[3].location, "D.m3u8");
}

#[test]
fn bad_duration_is_missing_duration() {
    let (mut parser, r) = parse_all("#EXTM3U\n#EXTINF:abc,X\nx.ts\n");
    assert!(matches!(r, Err(ParseError::MissingDuration)));
    assert_eq!(parser.get_playlist().entries.len(), 0);
    let (_, r) = parse_all("#EXTM3U\n#EXTINF\nx.ts\n");
    assert!(matches!(r, Err(ParseError::MissingDuration)));
    let (_, r) = parse_all("#EXTM3U\n#EXTINF: 1,X\nx.ts\n");
    assert!(matches!(r, Err(ParseError::MissingDuration)));
}

#[test]
fn unknown_directive_in_extension_data() {
    let mut parser = Parser::new(());
    parser.parse_line("#EXTM3U\n").unwrap();
    parser.parse_line("#EXT-X-VERSION:6\n").unwrap();
    parser.parse_line("#EXT-X-INDEPENDENT-SEGMENTS\n").unwrap();
    parser.parse_line("#EXT-X-EMPTY:\n").unwrap();
    parser.parse_line("seg.ts\n").unwrap();
    let result = parser.get_playlist();
    let ext = &result.entries[0].extension_data;
    assert_eq!(ext.get("EXT-X-VERSION").unwrap().as_deref(), Some("6"));
    assert_eq!(ext.get("EXT-X-INDEPENDENT-SEGMENTS").unwrap(), &None);
    assert_eq!(ext.get("EXT-X-EMPTY").unwrap().as_deref(), Some(""));
}

#[test]
fn playlist_title_directive() {
    let (mut parser, r) = parse_all("#EXTM3U\n#PLAYLIST:My list\n#PLAYLIST\n");
    r.unwrap();
    assert_eq!(parser.get_playlist().title.as_deref(), Some(""));
    let (mut parser, r) = parse_all("#EXTM3U\n#PLAYLIST:My list\n");
    r.unwrap();
    assert_eq!(parser.get_playlist().title.as_deref(), Some("My list"));
}

#[test]
fn second_take_is_empty() {
    let (mut parser, r) = parse_all("#EXTM3U a=\"b\"\n#PLAYLIST:t\n#EXTINF:1,A\nA.ts\n");
    r.unwrap();
    let first = parser.get_playlist();
    assert_eq!(first.entries.len(), 1);
    let second = parser.get_playlist();
    assert_eq!(second.entries.len(), 0);
    assert_eq!(second.attributes.len(), 0);
    assert_eq!(second.title, None);
}

#[test]
fn resumed_input_keeps_pending_entry_and_header() {
    let mut parser = Parser::new(());
    parser.parse_lines(&lines_of("#EXTM3U\n#EXTINF:5,Five\n")).unwrap();
    assert_eq!(parser.get_playlist().entries.len(), 0);
    parser.parse_lines(&lines_of("five.ts\n")).unwrap();
    let result = parser.get_playlist();
    assert_eq!(result.entries.len(), 1);
    assert_eq!(result.entries[0].name.as_deref(), Some("Five"));
    assert_eq!(seconds(&result.entries[0]), 5.0);
    parser.parse_lines(&lines_of("")).unwrap();
    assert_eq!(parser.into_inner(), ());
}

#[test]
fn new_playlist_and_media_are_empty() {
    let p = Playlist::new();
    assert_eq!(p.entries.len(), 0);
    assert_eq!(p.title, None);
    let m = Media::new();
    assert_eq!(m.duration, "0");
    assert_eq!(m.location, "");
    assert_eq!(m.name, None);
}

#[test]
fn float_text_grammar() {
    for ok in ["1", "6.00000000", "-1", "+.5", "5.", "1e10", "2.5E-3", "inf", "-Infinity", "NaN"] {
        assert!(is_float_text(ok), "{ok}");
        assert!(ok.parse::<f64>().is_ok(), "{ok}");
    }
    for bad in ["", "abc", ".", "1e", "e5", "1.2.3", "--1", " 1", "infin", "1_0"] {
        assert!(!is_float_text(bad), "{bad}");
        assert!(bad.parse::<f64>().is_err(), "{bad}");
    }
}

#[test]
fn trimming_uses_unicode_white_space() {
    assert_eq!(trim(" \t a b \r\n"), "a b");
    assert_eq!(trim("\u{3000}x\u{a0}"), "x");
    assert_eq!(trim_start("  a b "), "a b ");
    assert_eq!(trim("   "), "");
}

#[test]
fn error_messages_and_io_conversion() {
    assert_eq!(ParseError::NotAPlaylist.message(), "Not a playlist file");
    assert_eq!(ParseError::MissingDuration.message(), "Duration of a media is missing");
    assert_eq!(ParseError::UnexpectedEOF.message(), "Unexpected EOF");
    let io = std::io::Error::new(std::io::ErrorKind::Other, "disk gone");
    let e = ParseError::from(io);
    assert!(matches!(e, ParseError::IoError(_)));
    assert_eq!(e.message(), "disk gone");
}
