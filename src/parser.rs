//! The line-oriented playlist parser.
use vstd::prelude::*;
use vstd::string::StrSliceExecFns;

use crate::attributes::{attribute_pairs, extend_attributes, merge_pairs};
use crate::duration::{float_text, is_float_text};
use crate::playlist::{
    lemma_opt_text_map_insert, opt_text, Media, MediaView, Playlist, PlaylistView,
};
use crate::text::{
    find_char, has_prefix, position_of, same_text, starts_with, trim,
    trim_start, trim_start_text, trim_text,
};

verus! {

/// Declares `std::io::Error` so that a failed read can be carried in a
/// `ParseError`; nothing is assumed of its contents.
#[verifier::external_type_specification]
#[verifier::external_body]
pub struct ExIoError(std::io::Error);

/// Why parsing stopped.
#[derive(Debug)]
pub enum ParseError {
    /// The first line with content does not start with `#EXTM3U`.
    NotAPlaylist,
    /// An info directive has no duration, or one that is not a number.
    MissingDuration,
    /// The input ended before the header line.
    UnexpectedEOF,
    /// Reading the input failed.
    IoError(std::io::Error),
}

impl ParseError {
    /// A description of the error for people to read.
    pub fn message(&self) -> (r: String)
        ensures
            self is NotAPlaylist ==> r@ == "Not a playlist file"@,
            self is MissingDuration ==> r@ == "Duration of a media is missing"@,
            self is UnexpectedEOF ==> r@ == "Unexpected EOF"@,
    {
        match self {
            ParseError::NotAPlaylist => "Not a playlist file".to_owned(),
            ParseError::MissingDuration => "Duration of a media is missing".to_owned(),
            ParseError::UnexpectedEOF => "Unexpected EOF".to_owned(),
            ParseError::IoError(e) => e.to_string(),
        }
    }
}

impl From<std::io::Error> for ParseError {
    fn from(value: std::io::Error) -> (r: Self) {
        ParseError::IoError(value)
    }
}

impl vstd::std_specs::convert::FromSpecImpl<std::io::Error> for ParseError {
    open spec fn obeys_from_spec() -> bool {
        true
    }

    open spec fn from_spec(v: std::io::Error) -> Self {
        ParseError::IoError(v)
    }
}

/// The header marker, `#EXTM3U`.
pub open spec fn header_marker() -> Seq<char> {
    seq!['#', 'E', 'X', 'T', 'M', '3', 'U']
}

/// Name of the info directive, `EXTINF`.
pub open spec fn info_directive() -> Seq<char> {
    seq!['E', 'X', 'T', 'I', 'N', 'F']
}

/// Name of the playlist title directive, `PLAYLIST`.
pub open spec fn title_directive() -> Seq<char> {
    seq!['P', 'L', 'A', 'Y', 'L', 'I', 'S', 'T']
}

/// What a parser holds, apart from its reader.
pub struct ParserView {
    /// Whether the header line has been read.
    pub header_read: bool,
    /// The playlist built so far.
    pub playlist: PlaylistView,
    /// The entry that the lines since the last location line describe.
    pub media: MediaView,
}

impl ParserView {
    /// A parser that has seen no line.
    pub open spec fn initial() -> ParserView {
        ParserView {
            header_read: false,
            playlist: PlaylistView::empty(),
            media: MediaView::fresh(),
        }
    }
}

// ---- The info directive: `<duration>[ <attributes>][,<title>]` ----

/// The part of an info directive's value before its first comma.
pub open spec fn info_head(v: Seq<char>) -> Seq<char> {
    v.subrange(0, find_char(v, ',', 0))
}

/// The title: what follows the first comma, if there is one.
pub open spec fn info_title(v: Seq<char>) -> Option<Seq<char>> {
    let c = find_char(v, ',', 0);
    if c < v.len() {
        Some(v.subrange(c + 1, v.len() as int))
    } else {
        None
    }
}

/// The duration token: the head up to its first space.
pub open spec fn info_duration(v: Seq<char>) -> Seq<char> {
    let h = info_head(v);
    h.subrange(0, find_char(h, ' ', 0))
}

/// The attribute text: what follows the head's first space, if there is one.
pub open spec fn info_attributes(v: Seq<char>) -> Option<Seq<char>> {
    let h = info_head(v);
    let s = find_char(h, ' ', 0);
    if s < h.len() {
        Some(h.subrange(s + 1, h.len() as int))
    } else {
        None
    }
}

/// Whether the info directive with value `v` is accepted.
pub open spec fn info_ok(v: Seq<char>) -> bool {
    float_text(info_duration(v))
}

/// The pending entry after the info directive with value `v`. The title is
/// taken even where the duration is then refused.
pub open spec fn info_media(m: MediaView, v: Seq<char>) -> MediaView {
    let named = MediaView { name: info_title(v), ..m };
    if !info_ok(v) {
        named
    } else {
        match info_attributes(v) {
            Some(a) => MediaView {
                duration: info_duration(v),
                attributes: merge_pairs(m.attributes, attribute_pairs(a)),
                ..named
            },
            None => MediaView { duration: info_duration(v), ..named },
        }
    }
}

// ---- Directive lines: `#<key>[:<value>]` ----

/// The name of the directive on line `l`, without its `#`.
pub open spec fn directive_key(l: Seq<char>) -> Seq<char> {
    let b = l.subrange(1, l.len() as int);
    b.subrange(0, find_char(b, ':', 0))
}

/// The value of the directive on line `l`: what follows its first `:`.
pub open spec fn directive_value(l: Seq<char>) -> Option<Seq<char>> {
    let b = l.subrange(1, l.len() as int);
    let c = find_char(b, ':', 0);
    if c < b.len() {
        Some(b.subrange(c + 1, b.len() as int))
    } else {
        None
    }
}

pub open spec fn value_or_empty(v: Option<Seq<char>>) -> Seq<char> {
    match v {
        Some(s) => s,
        None => Seq::empty(),
    }
}

/// The parser after the directive line `l`.
pub open spec fn directive_state(p: ParserView, l: Seq<char>) -> ParserView {
    let key = directive_key(l);
    let value = directive_value(l);
    if key == info_directive() {
        ParserView { media: info_media(p.media, value_or_empty(value)), ..p }
    } else if key == title_directive() {
        ParserView {
            playlist: PlaylistView { title: Some(value_or_empty(value)), ..p.playlist },
            ..p
        }
    } else {
        ParserView {
            media: MediaView { extension_data: p.media.extension_data.insert(key, value), ..p.media },
            ..p
        }
    }
}

/// The outcome of the directive line `l`.
pub open spec fn directive_outcome(l: Seq<char>) -> Result<(), ParseError> {
    if directive_key(l) == info_directive() && !info_ok(value_or_empty(directive_value(l))) {
        Err(ParseError::MissingDuration)
    } else {
        Ok(())
    }
}

// ---- Whole lines ----

/// The header attributes of the header line `l`.
pub open spec fn header_text(l: Seq<char>) -> Seq<char> {
    trim_start_text(l.subrange(header_marker().len() as int, l.len() as int))
}

/// Whether the raw line `raw` is blank.
pub open spec fn is_blank(raw: Seq<char>) -> bool {
    trim_text(raw).len() == 0
}

/// Whether the raw line `raw` is a location line: it has content and that
/// content does not start with `#`.
pub open spec fn is_location(raw: Seq<char>) -> bool {
    !is_blank(raw) && trim_text(raw)[0] != '#'
}

/// The parser after the header line `l`, when `l` starts with the marker.
pub open spec fn header_state(p: ParserView, l: Seq<char>) -> ParserView {
    ParserView {
        header_read: true,
        playlist: PlaylistView {
            attributes: merge_pairs(p.playlist.attributes, attribute_pairs(header_text(l))),
            ..p.playlist
        },
        ..p
    }
}

/// The parser after the location line `l`: the pending entry, with its
/// location, is appended, and a fresh one takes its place.
pub open spec fn location_state(p: ParserView, l: Seq<char>) -> ParserView {
    ParserView {
        playlist: PlaylistView {
            entries: p.playlist.entries.push(MediaView { location: l, ..p.media }),
            ..p.playlist
        },
        media: MediaView::fresh(),
        ..p
    }
}

/// The parser after the raw line `raw`, whether or not that line is accepted.
pub open spec fn step_state(p: ParserView, raw: Seq<char>) -> ParserView {
    let l = trim_text(raw);
    if l.len() == 0 {
        p
    } else if !p.header_read {
        if has_prefix(l, header_marker()) {
            header_state(p, l)
        } else {
            p
        }
    } else if l[0] == '#' {
        directive_state(p, l)
    } else {
        location_state(p, l)
    }
}

/// The outcome of the raw line `raw`.
pub open spec fn step_outcome(p: ParserView, raw: Seq<char>) -> Result<(), ParseError> {
    let l = trim_text(raw);
    if l.len() == 0 {
        Ok(())
    } else if !p.header_read {
        if has_prefix(l, header_marker()) {
            Ok(())
        } else {
            Err(ParseError::NotAPlaylist)
        }
    } else if l[0] == '#' {
        directive_outcome(l)
    } else {
        Ok(())
    }
}

/// The parser after the lines `ls`, fed one by one up to the first refused
/// one, and the outcome.
pub open spec fn run_lines(p: ParserView, ls: Seq<Seq<char>>) -> (ParserView, Result<(), ParseError>)
    decreases ls.len(),
{
    if ls.len() == 0 {
        (p, Ok(()))
    } else {
        let q = step_state(p, ls[0]);
        let r = step_outcome(p, ls[0]);
        if r is Err {
            (q, r)
        } else {
            run_lines(q, ls.drop_first())
        }
    }
}

/// The outcome of the end of the input.
pub open spec fn end_outcome(p: ParserView) -> Result<(), ParseError> {
    if p.header_read {
        Ok(())
    } else {
        Err(ParseError::UnexpectedEOF)
    }
}

/// The outcome of parsing the whole input `ls`.
pub open spec fn parse_outcome(p: ParserView, ls: Seq<Seq<char>>) -> Result<(), ParseError> {
    let (q, r) = run_lines(p, ls);
    if r is Err {
        r
    } else {
        end_outcome(q)
    }
}

/// The parser once its playlist has been handed out.
pub open spec fn taken(p: ParserView) -> ParserView {
    ParserView { playlist: PlaylistView::empty(), ..p }
}

/// The lines of `v` as character sequences.
pub open spec fn texts(v: Seq<String>) -> Seq<Seq<char>> {
    v.map_values(|l: String| l@)
}

/// A playlist parser over a reader of lines.
pub struct Parser<T> {
    /// The input, from which the caller reads the lines it feeds in.
    pub reader: T,
    header_read: bool,
    playlist: Playlist,
    media: Media,
}

impl<T> View for Parser<T> {
    type V = ParserView;

    closed spec fn view(&self) -> ParserView {
        ParserView {
            header_read: self.header_read,
            playlist: self.playlist@,
            media: self.media@,
        }
    }
}

impl<T> Parser<T> {
    /// The reader that the parser holds.
    pub closed spec fn input(&self) -> T {
        self.reader
    }

    /// A parser over `reader` that has seen no line.
    pub fn new(reader: T) -> (r: Self)
        ensures
            r@ == ParserView::initial(),
            r.input() == reader,
    {
        Parser { reader, header_read: false, playlist: Playlist::new(), media: Media::new() }
    }

    /// Hands out the playlist built so far and starts an empty one. The
    /// pending entry and the header state are kept.
    pub fn get_playlist(&mut self) -> (r: Playlist)
        ensures
            r@ == old(self)@.playlist,
            final(self)@ == taken(old(self)@),
            final(self).input() == old(self).input(),
    {
        let mut result = Playlist::new();
        std::mem::swap(&mut self.playlist, &mut result);
        result
    }

    /// The reader.
    pub fn into_inner(self) -> (r: T)
        ensures
            r == self.input(),
    {
        self.reader
    }

    fn parse_m3u_header(&mut self, line: &str) -> (r: Result<(), ParseError>)
        ensures
            if has_prefix(line@, header_marker()) {
                r == Ok::<(), ParseError>(()) && final(self)@ == header_state(old(self)@, line@)
            } else {
                r == Err::<(), ParseError>(ParseError::NotAPlaylist) && final(self)@ == old(self)@
            },
            final(self).reader == old(self).reader,
    {
        proof {
            reveal_strlit("#EXTM3U");
            assert("#EXTM3U"@ =~= header_marker());
        }
        let marker = "#EXTM3U";
        if !starts_with(line, marker) {
            return Err(ParseError::NotAPlaylist);
        }
        let rest = line.substring_char(marker.unicode_len(), line.unicode_len());
        let text = trim_start(rest);
        extend_attributes(&mut self.playlist.attributes, text.as_str());
        self.header_read = true;
        assert(self@.playlist.entries =~= old(self)@.playlist.entries);
        Ok(())
    }

    fn parse_media_info(&mut self, value: &str) -> (r: Result<(), ParseError>)
        ensures
            final(self)@ == (ParserView { media: info_media(old(self)@.media, value@), ..old(self)@ }),
            r == (if info_ok(value@) {
                Ok(())
            } else {
                Err(ParseError::MissingDuration)
            }),
            final(self).reader == old(self).reader,
    {
        let ghost v = value@;
        let n = value.unicode_len();
        let c = position_of(value, ',');
        let head = value.substring_char(0, c);
        if c < n {
            self.media.name = Some(value.substring_char(c + 1, n).to_owned());
        } else {
            self.media.name = None;
        }
        let ghost named = MediaView { name: info_title(v), ..old(self)@.media };
        assert(self.media@ == named);
        let h = head.unicode_len();
        let sp = position_of(head, ' ');
        let duration = head.substring_char(0, sp);
        if !is_float_text(duration) {
            return Err(ParseError::MissingDuration);
        }
        self.media.duration = duration.to_owned();
        if sp < h {
            let text = head.substring_char(sp + 1, h);
            extend_attributes(&mut self.media.attributes, text);
        }
        assert(self.media@ == info_media(old(self)@.media, v));
        Ok(())
    }

    fn parse_directive(&mut self, line: &str) -> (r: Result<(), ParseError>)
        requires
            line@.len() > 0,
        ensures
            final(self)@ == directive_state(old(self)@, line@),
            r == directive_outcome(line@),
            final(self).reader == old(self).reader,
    {
        let ghost l = line@;
        let n = line.unicode_len();
        let body = line.substring_char(1, n);
        let b = body.unicode_len();
        let c = position_of(body, ':');
        let key = body.substring_char(0, c).to_owned();
        let value: Option<String> = if c < b {
            Some(body.substring_char(c + 1, b).to_owned())
        } else {
            None
        };
        assert(key@ == directive_key(l));
        assert(opt_text(value) == directive_value(l));
        proof {
            reveal_strlit("EXTINF");
            reveal_strlit("PLAYLIST");
            assert("EXTINF"@ =~= info_directive());
            assert("PLAYLIST"@ =~= title_directive());
        }
        if same_text(key.as_str(), "EXTINF") {
            let v = match value {
                Some(v) => v,
                None => String::new(),
            };
            assert(v@ == value_or_empty(directive_value(l)));
            self.parse_media_info(v.as_str())
        } else if same_text(key.as_str(), "PLAYLIST") {
            let v = match value {
                Some(v) => v,
                None => String::new(),
            };
            assert(v@ == value_or_empty(directive_value(l)));
            self.playlist.title = Some(v);
            assert(self@.playlist.entries =~= old(self)@.playlist.entries);
            Ok(())
        } else {
            proof {
                lemma_opt_text_map_insert(self.media.extension_data@, key@, value);
            }
            self.media.extension_data.insert(key, value);
            Ok(())
        }
    }

    /// Feeds one line of input, as read, to the parser. Blank lines are
    /// passed over. The first line with content must start with `#EXTM3U`;
    /// after it, a line that starts with `#` is a directive, and any other
    /// line is the location of the pending entry, which then joins the
    /// playlist. A refused line may leave the pending entry changed.
    pub fn parse_line(&mut self, raw: &str) -> (r: Result<(), ParseError>)
        ensures
            final(self)@ == step_state(old(self)@, raw@),
            r == step_outcome(old(self)@, raw@),
            final(self).input() == old(self).input(),
    {
        let line = trim(raw);
        let n = line.unicode_len();
        if n == 0 {
            return Ok(());
        }
        if !self.header_read {
            return self.parse_m3u_header(line.as_str());
        }
        if line.as_str().get_char(0) == '#' {
            self.parse_directive(line.as_str())
        } else {
            let ghost p = self@;
            self.media.location = line;
            let mut media = Media::new();
            std::mem::swap(&mut self.media, &mut media);
            self.playlist.entries.push(media);
            assert(self@.playlist.entries =~= location_state(p, trim_text(raw@)).playlist.entries);
            Ok(())
        }
    }

    /// The outcome of the end of the input: it is refused only where the
    /// header line never came.
    pub fn finish(&self) -> (r: Result<(), ParseError>)
        ensures
            r == end_outcome(self@),
    {
        if self.header_read {
            Ok(())
        } else {
            Err(ParseError::UnexpectedEOF)
        }
    }

    /// Parses an input that consists of `lines`: feeds them in turn, stops
    /// at the first refused one, and then reports the end of the input.
    pub fn parse_lines(&mut self, lines: &Vec<String>) -> (r: Result<(), ParseError>)
        ensures
            final(self)@ == run_lines(old(self)@, texts(lines@)).0,
            r == parse_outcome(old(self)@, texts(lines@)),
            final(self).input() == old(self).input(),
    {
        let ghost ls = texts(lines@);
        let ghost start = self@;
        let mut i: usize = 0;
        assert(ls.skip(0) =~= ls);
        while i < lines.len()
            invariant
                ls == texts(lines@),
                start == old(self)@,
                0 <= i <= lines@.len(),
                run_lines(start, ls) == run_lines(self@, ls.skip(i as int)),
                self.input() == old(self).input(),
            decreases lines@.len() - i,
        {
            let ghost before = self@;
            assert(ls.skip(i as int)[0] == lines@[i as int]@);
            assert(ls.skip(i as int).drop_first() =~= ls.skip(i + 1));
            let r = self.parse_line(lines[i].as_str());
            if r.is_err() {
                assert(run_lines(before, ls.skip(i as int)) == (self@, r));
                return r;
            }
            assert(r == Ok::<(), ParseError>(()));
            i = i + 1;
        }
        assert(ls.skip(i as int) =~= Seq::<Seq<char>>::empty());
        self.finish()
    }
}

} // verus!
