//! The parsed playlist and its media entries.
use vstd::hash_map::StringHashMap;
use vstd::prelude::*;

use crate::attributes::text_map;

verus! {

/// An optional string as an optional character sequence.
pub open spec fn opt_text(o: Option<String>) -> Option<Seq<char>> {
    match o {
        Some(s) => Some(s@),
        None => None,
    }
}

/// The contents of a string-keyed map of optional strings.
pub open spec fn opt_text_map(m: Map<Seq<char>, Option<String>>) -> Map<
    Seq<char>,
    Option<Seq<char>>,
> {
    Map::new(|k: Seq<char>| m.contains_key(k), |k: Seq<char>| opt_text(m[k]))
}

pub proof fn lemma_opt_text_map_insert(
    m: Map<Seq<char>, Option<String>>,
    k: Seq<char>,
    v: Option<String>,
)
    ensures
        opt_text_map(m.insert(k, v)) == opt_text_map(m).insert(k, opt_text(v)),
{
    assert(opt_text_map(m.insert(k, v)) =~= opt_text_map(m).insert(k, opt_text(v)));
}

/// The text of the duration that an entry has before any info directive.
pub open spec fn default_duration() -> Seq<char> {
    seq!['0']
}

/// One media entry of a playlist.
pub struct Media {
    /// Length in seconds, as the text of a decimal number.
    pub duration: String,
    /// The title that trails the info directive, if it had one.
    pub name: Option<String>,
    /// Where the media is found.
    pub location: String,
    /// Attributes of the info directive.
    pub attributes: StringHashMap<String>,
    /// Directives that have no meaning of their own here, by name.
    pub extension_data: StringHashMap<Option<String>>,
}

pub struct MediaView {
    pub duration: Seq<char>,
    pub name: Option<Seq<char>>,
    pub location: Seq<char>,
    pub attributes: Map<Seq<char>, Seq<char>>,
    pub extension_data: Map<Seq<char>, Option<Seq<char>>>,
}

impl MediaView {
    /// An entry that no line has touched yet.
    pub open spec fn fresh() -> MediaView {
        MediaView {
            duration: default_duration(),
            name: None,
            location: Seq::empty(),
            attributes: Map::empty(),
            extension_data: Map::empty(),
        }
    }
}

impl View for Media {
    type V = MediaView;

    open spec fn view(&self) -> MediaView {
        MediaView {
            duration: self.duration@,
            name: opt_text(self.name),
            location: self.location@,
            attributes: text_map(self.attributes@),
            extension_data: opt_text_map(self.extension_data@),
        }
    }
}

impl Media {
    /// An entry with duration `0`, no name, an empty location and no
    /// attributes or extension data.
    pub fn new() -> (r: Media)
        ensures
            r@ == MediaView::fresh(),
    {
        let r = Media {
            duration: "0".to_owned(),
            name: None,
            location: String::new(),
            attributes: StringHashMap::new(),
            extension_data: StringHashMap::new(),
        };
        proof {
            reveal_strlit("0");
            assert(r.duration@ =~= default_duration());
            assert(text_map(r.attributes@) =~= Map::empty());
            assert(opt_text_map(r.extension_data@) =~= Map::empty());
        }
        r
    }
}

/// A parsed playlist.
pub struct Playlist {
    /// Attributes of the header line.
    pub attributes: StringHashMap<String>,
    /// The playlist's title, if a title directive gave one.
    pub title: Option<String>,
    /// The entries, in the order of their location lines.
    pub entries: Vec<Media>,
}

pub struct PlaylistView {
    pub attributes: Map<Seq<char>, Seq<char>>,
    pub title: Option<Seq<char>>,
    pub entries: Seq<MediaView>,
}

impl PlaylistView {
    /// A playlist with nothing in it.
    pub open spec fn empty() -> PlaylistView {
        PlaylistView { attributes: Map::empty(), title: None, entries: Seq::empty() }
    }
}

impl View for Playlist {
    type V = PlaylistView;

    open spec fn view(&self) -> PlaylistView {
        PlaylistView {
            attributes: text_map(self.attributes@),
            title: opt_text(self.title),
            entries: self.entries@.map_values(|m: Media| m@),
        }
    }
}

impl Playlist {
    /// A playlist with no attributes, no title and no entries.
    pub fn new() -> (r: Playlist)
        ensures
            r@ == PlaylistView::empty(),
    {
        let r = Playlist { attributes: StringHashMap::new(), title: None, entries: Vec::new() };
        proof {
            assert(text_map(r.attributes@) =~= Map::empty());
            assert(r@.entries =~= Seq::<MediaView>::empty());
        }
        r
    }
}

} // verus!
