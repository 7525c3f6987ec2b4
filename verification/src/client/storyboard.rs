//! The storyboard a stream may name: a WebVTT file whose cues each point at
//! a region of a sprite image, shown while seeking.
//!
//! A cue is a line `start --> end` followed by the line of its image,
//! `sprite.jpg#xywh=x,y,w,h`. Reading the times takes fractions of a
//! second, which the front end does; everything else is read here.

use vstd::prelude::*;
use crate::client::models::StoryboardCue;
use crate::text::{
    chars_of, find_char, find_seq, first_occurrence, has_prefix, lemma_first_index,
    lemma_first_occurrence, occurs_at, opt_view, parse_u32, parsed_u32, slice_vec, split_char, split_on,
    split_once, split_once_char, starts_with, string_of, string_views, trim, trimmed, views,
};

verus! {

/// The lines of a text as `str::lines` gives them: the pieces between
/// `\n`s, without the empty one after a final line ending. A `\r` before a
/// `\n` stays on its line; trimming removes it.
pub open spec fn text_lines(s: Seq<char>) -> Seq<Seq<char>> {
    let pieces = split_on(s, '\n');
    if pieces.last().len() == 0 {
        pieces.drop_last()
    } else {
        pieces
    }
}

/// The trimmed lines of a storyboard file.
pub open spec fn trimmed_lines(s: Seq<char>) -> Seq<Seq<char>> {
    text_lines(s).map_values(|l: Seq<char>| trimmed(l))
}

/// The lines of a storyboard file, each trimmed, in order.
pub fn storyboard_lines(vtt: &str) -> (r: Vec<String>)
    ensures
        string_views(r@) == trimmed_lines(vtt@),
{
    let pieces = split_char(&chars_of(vtt), '\n');
    let ghost pv = views(pieces@);
    let n = if pieces[pieces.len() - 1].len() == 0 {
        pieces.len() - 1
    } else {
        pieces.len()
    };
    let ghost lines = text_lines(vtt@);
    assert(lines =~= pv.subrange(0, n as int));
    let mut r: Vec<String> = Vec::new();
    let mut i: usize = 0;
    while i < n
        invariant
            i <= n <= pieces@.len(),
            pv == views(pieces@),
            lines == pv.subrange(0, n as int),
            string_views(r@) =~= lines.subrange(0, i as int).map_values(|l: Seq<char>| trimmed(l)),
        decreases n - i,
    {
        let ghost before = r@;
        let line = string_of(trim(&pieces[i]).as_slice());
        r.push(line);
        assert(string_views(r@) =~= string_views(before).push(line@));
        assert(lines.subrange(0, i + 1).map_values(|l: Seq<char>| trimmed(l)) =~= lines.subrange(
            0,
            i as int,
        ).map_values(|l: Seq<char>| trimmed(l)).push(trimmed(lines[i as int])));
        i += 1;
    }
    assert(lines.subrange(0, n as int) =~= lines);
    r
}

/// `str::split_once(sep)`: the text before and after the first `sep`.
pub open spec fn split_once_at(s: Seq<char>, sep: Seq<char>) -> Option<(Seq<char>, Seq<char>)> {
    match first_occurrence(s, sep) {
        Some(i) => Some((s.subrange(0, i), s.subrange(i + sep.len(), s.len() as int))),
        None => None,
    }
}

/// The two times a cue line gives, as written: the text before and after
/// the first ` --> `; none on any other line.
pub fn cue_time_texts(line: &str) -> (r: Option<(String, String)>)
    ensures
        match r {
            Some((a, b)) => split_once_at(line@, " --> "@) == Some((a@, b@)),
            None => split_once_at(line@, " --> "@) is None,
        },
{
    let s = chars_of(line);
    let sep = chars_of(" --> ");
    match find_seq(&s, &sep) {
        Some(i) => {
            proof {
                lemma_first_occurrence(s@, sep@, i as int);
                assert(occurs_at(s@, sep@, i as int));
            }
            let width: usize = sep.len();
            let total: usize = s.len();
            assert(i + width <= total);
            let after: usize = i + width;
            let start = string_of(slice_vec(&s, 0, i).as_slice());
            let end = string_of(slice_vec(&s, after, s.len()).as_slice());
            Some((start, end))
        },
        None => None,
    }
}

/// The numbers among the pieces that read as `u32`, in order; the others
/// are skipped.
pub open spec fn read_numbers(pieces: Seq<Seq<char>>) -> Seq<u32>
    decreases pieces.len(),
{
    if pieces.len() == 0 {
        seq![]
    } else {
        match parsed_u32(pieces.last()) {
            Some(v) => read_numbers(pieces.drop_last()).push(v),
            None => read_numbers(pieces.drop_last()),
        }
    }
}

/// The region of the sprite a cue shows: the four numbers of an
/// `xywh=x,y,w,h` fragment, or a 150 by 75 region at the corner when the
/// fragment does not give exactly four.
pub open spec fn cue_region(fragment: Seq<char>) -> (u32, u32, u32, u32) {
    if starts_with(fragment, "xywh="@) {
        let values = read_numbers(split_on(fragment.subrange(5, fragment.len() as int), ','));
        if values.len() == 4 {
            (values[0], values[1], values[2], values[3])
        } else {
            (0, 0, 150, 75)
        }
    } else {
        (0, 0, 150, 75)
    }
}

fn region_of(fragment: &Vec<char>) -> (r: (u32, u32, u32, u32))
    ensures
        r == cue_region(fragment@),
{
    proof {
        reveal_strlit("xywh=");
    }
    if !has_prefix(fragment, "xywh=") {
        return (0, 0, 150, 75);
    }
    let pieces = split_char(&slice_vec(fragment, 5, fragment.len()), ',');
    let ghost pv = views(pieces@);
    let mut values: Vec<u32> = Vec::new();
    let mut i: usize = 0;
    while i < pieces.len()
        invariant
            i <= pieces@.len(),
            pv == views(pieces@),
            values@ == read_numbers(pv.subrange(0, i as int)),
        decreases pieces.len() - i,
    {
        assert(pv.subrange(0, i + 1).drop_last() =~= pv.subrange(0, i as int));
        assert(pv.subrange(0, i + 1).last() == pieces@[i as int]@);
        match parse_u32(&pieces[i]) {
            Some(v) => {
                values.push(v);
            },
            None => {},
        }
        i += 1;
    }
    assert(pv.subrange(0, pv.len() as int) =~= pv);
    if values.len() == 4 {
        (values[0], values[1], values[2], values[3])
    } else {
        (0, 0, 150, 75)
    }
}

/// The address `url::Url::join` resolves `reference` to against `base`;
/// nothing when `base` does not read as an address or the join fails.
pub uninterp spec fn url_joined(base: Seq<char>, reference: Seq<char>) -> Option<Seq<char>>;

/// `url::Url::parse(base)`, `Url::join(reference)` and the address
/// written out.
#[verifier::external_body]
fn join_url(base: &str, reference: &str) -> (r: Option<String>)
    ensures
        opt_view(r) == url_joined(base@, reference@),
{
    match url::Url::parse(base) {
        Ok(parsed) => match parsed.join(reference) {
            Ok(joined) => Some(joined.to_string()),
            Err(_) => None,
        },
        Err(_) => None,
    }
}

/// A cue as plain values.
pub struct CueView {
    pub start_ms: u64,
    pub end_ms: u64,
    pub image_url: Seq<char>,
    pub region: (u32, u32, u32, u32),
}

pub open spec fn cue_view(c: StoryboardCue) -> CueView {
    CueView {
        start_ms: c.start_ms,
        end_ms: c.end_ms,
        image_url: c.image_url@,
        region: (c.x, c.y, c.width, c.height),
    }
}

/// The cue for an image line: the image, resolved against the storyboard's
/// own address where that works, and the region its fragment names.
pub open spec fn cue_of(start_ms: u64, end_ms: u64, image_line: Seq<char>, source_url: Seq<char>) -> CueView {
    let (image, fragment) = match split_once(image_line, '#') {
        Some(parts) => parts,
        None => (image_line, seq![]),
    };
    CueView {
        start_ms,
        end_ms,
        image_url: match url_joined(source_url, image) {
            Some(u) => u,
            None => image,
        },
        region: cue_region(fragment),
    }
}

fn cue_at(start_ms: u64, end_ms: u64, image_line: &String, source_url: &str) -> (r: StoryboardCue)
    ensures
        cue_view(r) == cue_of(start_ms, end_ms, image_line@, source_url@),
{
    let line = chars_of(image_line.as_str());
    let (image, fragment) = match split_once_char(&line, '#') {
        Some(parts) => parts,
        None => (line, Vec::new()),
    };
    let image_text = string_of(image.as_slice());
    let image_url = match join_url(source_url, image_text.as_str()) {
        Some(u) => u,
        None => image_text,
    };
    let region = region_of(&fragment);
    StoryboardCue { start_ms, end_ms, image_url, x: region.0, y: region.1, width: region.2, height: region.3 }
}

/// The cues among the first `n` lines: a line with times is followed by
/// the line of its image; `times[i]` are the times line `i` gives, if it is
/// a cue line whose times read.
pub open spec fn cues_upto(lines: Seq<Seq<char>>, times: Seq<Option<(u64, u64)>>, source_url: Seq<char>, n: int) -> Seq<CueView>
    decreases n,
{
    if n <= 0 {
        seq![]
    } else {
        let init = cues_upto(lines, times, source_url, n - 1);
        match times[n - 1] {
            Some((start, end)) => init.push(cue_of(start, end, lines[n], source_url)),
            None => init,
        }
    }
}

pub open spec fn cues_of(lines: Seq<Seq<char>>, times: Seq<Option<(u64, u64)>>, source_url: Seq<char>) -> Seq<CueView> {
    if lines.len() == 0 {
        seq![]
    } else {
        cues_upto(lines, times, source_url, lines.len() - 1)
    }
}

/// The storyboard's cues, in order, from its trimmed lines and the times
/// each line gives (none for a line that is not a cue line or whose times
/// do not read). A cue line on the last line has no image and gives none.
pub fn storyboard_cues(lines: &Vec<String>, times: &Vec<Option<(u64, u64)>>, source_url: &str) -> (r: Vec<StoryboardCue>)
    requires
        times@.len() == lines@.len(),
    ensures
        r@.map_values(|c: StoryboardCue| cue_view(c)) == cues_of(string_views(lines@), times@, source_url@),
{
    let ghost lv = string_views(lines@);
    let mut out: Vec<StoryboardCue> = Vec::new();
    if lines.len() == 0 {
        assert(out@.map_values(|c: StoryboardCue| cue_view(c)) =~= seq![]);
        return out;
    }
    let mut i: usize = 0;
    while i + 1 < lines.len()
        invariant
            i < lines@.len(),
            times@.len() == lines@.len(),
            lv == string_views(lines@),
            out@.map_values(|c: StoryboardCue| cue_view(c)) == cues_upto(lv, times@, source_url@, i as int),
        decreases lines.len() - i,
    {
        let ghost before = out@;
        match times[i] {
            Some((start, end)) => {
                let cue = cue_at(start, end, &lines[i + 1], source_url);
                out.push(cue);
                assert(out@ =~= before.push(cue));
                assert(out@.map_values(|c: StoryboardCue| cue_view(c)) =~= before.map_values(
                    |c: StoryboardCue| cue_view(c),
                ).push(cue_view(cue)));
            },
            None => {},
        }
        i += 1;
    }
    out
}

} // verus!
