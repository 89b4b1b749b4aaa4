//! The record of one beatmap and the name of the archive it is saved under.

use vstd::prelude::*;
use vstd::string::*;
use crate::text::{
    chars_of, char_is_control, decimal_digits, decimal_string, is_control, is_digit,
    lemma_decimal_round_trip, lemma_trimmed_keeps, string_of, trim_bounds, trimmed, Strip,
};

verus! {

/// One entry of a player's most-played list.
#[derive(Debug, Clone)]
pub struct BeatmapInfo {
    pub beatmap_id: u32,
    pub beatmapset_id: u32,
    pub title: String,
    pub artist: String,
    pub version: String,
    pub play_count: u32,
    pub download_link: String,
}

/// Characters that may not stand in a file name: `< > : " / \ | ? *` and the
/// control codes.
pub open spec fn is_unsafe_char(c: char) -> bool {
    ||| c == '<'
    ||| c == '>'
    ||| c == ':'
    ||| c == '"'
    ||| c == '/'
    ||| c == '\\'
    ||| c == '|'
    ||| c == '?'
    ||| c == '*'
    ||| is_control(c)
}

/// An unsafe character becomes an underscore; every other character stays.
pub open spec fn replace_unsafe(c: char) -> char {
    if is_unsafe_char(c) {
        '_'
    } else {
        c
    }
}

/// A text with every unsafe character replaced.
pub open spec fn replaced(s: Seq<char>) -> Seq<char> {
    Seq::new(s.len(), |i: int| replace_unsafe(s[i]))
}

/// A text made fit for a file name: unsafe characters replaced, then full
/// stops and spaces removed from both ends.
pub open spec fn sanitized(s: Seq<char>) -> Seq<char> {
    trimmed(replaced(s), Strip::DotsAndSpaces)
}

/// The archive name for a beatmap set:
/// `"{beatmapset_id} {artist} - {title}.osz"` with artist and title sanitized.
pub open spec fn archive_name(beatmapset_id: u32, artist: Seq<char>, title: Seq<char>) -> Seq<
    char,
> {
    decimal_digits(beatmapset_id as nat) + " "@ + sanitized(artist) + " - "@ + sanitized(title)
        + ".osz"@
}

fn char_is_unsafe(c: char) -> (b: bool)
    ensures
        b == is_unsafe_char(c),
{
    c == '<' || c == '>' || c == ':' || c == '"' || c == '/' || c == '\\' || c == '|' || c == '?'
        || c == '*' || char_is_control(c)
}

/// Makes a text fit for a file name.
pub fn sanitize_filename(s: &str) -> (r: String)
    ensures
        r@ == sanitized(s@),
{
    let chars = chars_of(s);
    let mut out: Vec<char> = Vec::new();
    let mut i: usize = 0;
    while i < chars.len()
        invariant
            i <= chars.len(),
            out.len() == i,
            forall|k: int| 0 <= k < i ==> out@[k] == replace_unsafe(chars@[k]),
        decreases chars.len() - i,
    {
        let c: char = chars[i];
        if char_is_unsafe(c) {
            out.push('_');
        } else {
            out.push(c);
        }
        i += 1;
    }
    assert(out@ =~= replaced(s@));
    let (from, to) = trim_bounds(&out, Strip::DotsAndSpaces);
    string_of(&out, from, to)
}

impl BeatmapInfo {
    /// The name of the archive file for this beatmap's set.
    pub open spec fn spec_filename(&self) -> Seq<char> {
        archive_name(self.beatmapset_id, self.artist@, self.title@)
    }

    /// The name of the archive file for this beatmap's set.
    pub fn filename(&self) -> (r: String)
        ensures
            r@ == self.spec_filename(),
    {
        let artist = sanitize_filename(self.artist.as_str());
        let title = sanitize_filename(self.title.as_str());
        let mut name = decimal_string(self.beatmapset_id as u64);
        name.append(" ");
        name.append(artist.as_str());
        name.append(" - ");
        name.append(title.as_str());
        name.append(".osz");
        name
    }
}

/// A sanitized text holds no unsafe character and neither begins nor ends
/// with a full stop or a space.
pub proof fn lemma_sanitized_is_safe(s: Seq<char>)
    ensures
        forall|i: int| 0 <= i < sanitized(s).len() ==> !is_unsafe_char(#[trigger] sanitized(s)[i]),
        sanitized(s).len() > 0 ==> !Strip::DotsAndSpaces.strips(sanitized(s)[0])
            && !Strip::DotsAndSpaces.strips(sanitized(s).last()),
{
    let holds = |c: char| !is_unsafe_char(c);
    let r = replaced(s);
    assert forall|i: int| 0 <= i < r.len() implies holds(#[trigger] r[i]) by {
        assert(r[i] == replace_unsafe(s[i]));
    }
    lemma_trimmed_keeps(r, Strip::DotsAndSpaces, holds);
}

/// The name of an archive is fit for a file name, whatever the artist and
/// the title are: it holds none of `< > : " / \ | ? *` and no control code,
/// it neither begins nor ends with a full stop or a space, and it begins
/// with the id of the beatmap set and a space.
pub proof fn lemma_archive_name_is_safe(beatmapset_id: u32, artist: Seq<char>, title: Seq<char>)
    ensures
        forall|i: int|
            0 <= i < archive_name(beatmapset_id, artist, title).len() ==> !is_unsafe_char(
                #[trigger] archive_name(beatmapset_id, artist, title)[i],
            ),
        archive_name(beatmapset_id, artist, title).len() > 0,
        !Strip::DotsAndSpaces.strips(archive_name(beatmapset_id, artist, title)[0]),
        !Strip::DotsAndSpaces.strips(archive_name(beatmapset_id, artist, title).last()),
        archive_name(beatmapset_id, artist, title).take(
            decimal_digits(beatmapset_id as nat).len() as int + 1,
        ) == decimal_digits(beatmapset_id as nat) + " "@,
{
    reveal_strlit(" ");
    reveal_strlit(" - ");
    reveal_strlit(".osz");
    let id = decimal_digits(beatmapset_id as nat);
    let a = sanitized(artist);
    let t = sanitized(title);
    let name = archive_name(beatmapset_id, artist, title);
    lemma_decimal_round_trip(beatmapset_id as nat);
    lemma_sanitized_is_safe(artist);
    lemma_sanitized_is_safe(title);
    let id_end = id.len() as int;
    let artist_from = id_end + 1;
    let artist_end = artist_from + a.len();
    let title_from = artist_end + 3;
    let title_end = title_from + t.len();
    assert(name.len() == title_end + 4);
    assert forall|i: int| 0 <= i < name.len() implies !is_unsafe_char(#[trigger] name[i]) by {
        if i < id_end {
            assert(name[i] == id[i]);
            assert(is_digit(id[i]));
        } else if i < artist_from {
            assert(name[i] == ' ');
        } else if i < artist_end {
            assert(name[i] == a[i - artist_from]);
        } else if i < title_from {
            assert(name[i] == " - "@[i - artist_end]);
        } else if i < title_end {
            assert(name[i] == t[i - title_from]);
        } else {
            assert(name[i] == ".osz"@[i - title_end]);
        }
    }
    assert(name[0] == id[0]);
    assert(is_digit(id[0]));
    assert(name.last() == 'z');
    assert(name.take(id_end + 1) =~= id + " "@);
}

} // verus!
