//! Properties of the parser over whole inputs.
use vstd::prelude::*;

use crate::attributes::{attribute_pairs, merge_pairs};
use crate::playlist::PlaylistView;
use crate::parser::{
    directive_key, directive_value, header_marker, header_text, info_directive, info_ok,
    is_blank, is_location, parse_outcome, run_lines, step_outcome, step_state, taken, title_directive,
    value_or_empty, ParseError, ParserView,
};
use crate::text::{has_prefix, trim_text};

verus! {

/// How many of the lines `ls` are location lines.
pub open spec fn location_count(ls: Seq<Seq<char>>) -> nat
    decreases ls.len(),
{
    if ls.len() == 0 {
        0
    } else {
        (if is_location(ls[0]) {
            1nat
        } else {
            0nat
        }) + location_count(ls.drop_first())
    }
}

/// A parser that has not read its header refuses an input whose first line
/// with content does not start with the header marker.
pub proof fn lemma_missing_header_refused(p: ParserView, ls: Seq<Seq<char>>, i: int)
    requires
        !p.header_read,
        0 <= i < ls.len(),
        forall|j: int| 0 <= j < i ==> is_blank(#[trigger] ls[j]),
        !is_blank(ls[i]),
        !has_prefix(trim_text(ls[i]), header_marker()),
    ensures
        parse_outcome(p, ls) == Err::<(), ParseError>(ParseError::NotAPlaylist),
    decreases i,
{
    if i > 0 {
        assert(is_blank(ls[0]));
        let rest = ls.drop_first();
        assert forall|j: int| 0 <= j < i - 1 implies is_blank(#[trigger] rest[j]) by {
            assert(rest[j] == ls[j + 1]);
        }
        lemma_missing_header_refused(p, rest, i - 1);
    }
}

/// Each line that is accepted appends one entry if it is a location line,
/// and none otherwise.
pub proof fn lemma_step_entries(p: ParserView, raw: Seq<char>)
    requires
        step_outcome(p, raw) is Ok,
    ensures
        step_state(p, raw).playlist.entries.len() == p.playlist.entries.len() + (if is_location(
            raw,
        ) {
            1int
        } else {
            0int
        }),
{
}

/// Where an input is accepted line by line, the playlist gains exactly one
/// entry per location line.
pub proof fn lemma_entries_count_location_lines(p: ParserView, ls: Seq<Seq<char>>)
    requires
        run_lines(p, ls).1 is Ok,
    ensures
        run_lines(p, ls).0.playlist.entries.len() == p.playlist.entries.len() + location_count(ls),
    decreases ls.len(),
{
    if ls.len() > 0 {
        lemma_step_entries(p, ls[0]);
        lemma_entries_count_location_lines(step_state(p, ls[0]), ls.drop_first());
    }
}

/// A new parser that accepts a whole input holds one entry per location
/// line of it.
pub proof fn lemma_parsed_entries(ls: Seq<Seq<char>>)
    requires
        parse_outcome(ParserView::initial(), ls) is Ok,
    ensures
        run_lines(ParserView::initial(), ls).0.playlist.entries.len() == location_count(ls),
{
    lemma_entries_count_location_lines(ParserView::initial(), ls);
}

/// The header line's attributes are merged into the playlist's, a later
/// pair overwriting an earlier one.
pub proof fn lemma_header_attributes_merged(p: ParserView, raw: Seq<char>)
    requires
        !p.header_read,
        !is_blank(raw),
        has_prefix(trim_text(raw), header_marker()),
    ensures
        step_outcome(p, raw) is Ok,
        step_state(p, raw).header_read,
        step_state(p, raw).playlist.attributes == merge_pairs(
            p.playlist.attributes,
            attribute_pairs(header_text(trim_text(raw))),
        ),
{
}

/// A directive other than the info and title directives is accepted and
/// kept, by name, in the pending entry's extension data.
pub proof fn lemma_unknown_directive_kept(p: ParserView, raw: Seq<char>)
    requires
        p.header_read,
        !is_blank(raw),
        trim_text(raw)[0] == '#',
        directive_key(trim_text(raw)) != info_directive(),
        directive_key(trim_text(raw)) != title_directive(),
    ensures
        step_outcome(p, raw) is Ok,
        step_state(p, raw).media.extension_data.contains_key(directive_key(trim_text(raw))),
        step_state(p, raw).media.extension_data[directive_key(trim_text(raw))]
            == directive_value(trim_text(raw)),
        step_state(p, raw).playlist == p.playlist,
{
}

/// An info directive whose duration is not a number is refused with
/// `MissingDuration`, and no entry is appended.
pub proof fn lemma_bad_duration_refused(p: ParserView, raw: Seq<char>)
    requires
        p.header_read,
        !is_blank(raw),
        trim_text(raw)[0] == '#',
        directive_key(trim_text(raw)) == info_directive(),
        !info_ok(value_or_empty(directive_value(trim_text(raw)))),
    ensures
        step_outcome(p, raw) == Err::<(), ParseError>(ParseError::MissingDuration),
        step_state(p, raw).playlist == p.playlist,
{
}

/// Taking the playlist leaves an empty one behind, so a second take, with
/// no line fed in between, yields an empty playlist.
pub proof fn lemma_second_take_empty(p: ParserView)
    ensures
        taken(p).playlist == PlaylistView::empty(),
        taken(taken(p)) == taken(p),
        taken(p).media == p.media,
        taken(p).header_read == p.header_read,
{
}

} // verus!
