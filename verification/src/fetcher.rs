//! Collecting a player's most-played list, one page after the other.
//!
//! The caller asks the API for a page of `PAGE_LIMIT` entries at the offset
//! it is given, hands the page over, and goes on while it is told that more
//! may follow.

use vstd::prelude::*;
use crate::text::{decimal_digits, push_decimal};
use crate::types::BeatmapInfo;

verus! {

/// How many entries are asked for at once.
pub const PAGE_LIMIT: usize = 50;

/// One entry of a page of the most-played list.
#[derive(Debug, Clone)]
pub struct MostPlayedEntry {
    pub map_id: u32,
    pub mapset_id: u32,
    pub title: String,
    pub artist: String,
    pub version: String,
    /// How often the player has played the beatmap.
    pub count: usize,
}

/// The page of a beatmap set on the osu! site.
pub open spec fn beatmapset_link(mapset_id: u32) -> Seq<char> {
    "https://osu.ppy.sh/beatmapsets/"@ + decimal_digits(mapset_id as nat)
}

/// Whether a record is the one made from an entry: the ids and texts are
/// taken over, the play count is kept in 32 bits, and the link leads to the
/// page of the beatmap set.
pub open spec fn is_record_of(info: BeatmapInfo, entry: MostPlayedEntry) -> bool {
    &&& info.beatmap_id == entry.map_id
    &&& info.beatmapset_id == entry.mapset_id
    &&& info.title@ == entry.title@
    &&& info.artist@ == entry.artist@
    &&& info.version@ == entry.version@
    &&& info.play_count == (entry.count as int) % 0x1_0000_0000
    &&& info.download_link@ == beatmapset_link(entry.mapset_id)
}

/// The record made from an entry.
pub fn record_of(entry: &MostPlayedEntry) -> (info: BeatmapInfo)
    ensures
        is_record_of(info, *entry),
{
    let mut link = "https://osu.ppy.sh/beatmapsets/".to_owned();
    push_decimal(&mut link, entry.mapset_id as u64);
    let wide: u64 = entry.count as u64;
    BeatmapInfo {
        beatmap_id: entry.map_id,
        beatmapset_id: entry.mapset_id,
        title: entry.title.clone(),
        artist: entry.artist.clone(),
        version: entry.version.clone(),
        play_count: (wide % 0x1_0000_0000) as u32,
        download_link: link,
    }
}

/// The records collected so far.
#[derive(Debug)]
pub struct FetchProgress {
    maps: Vec<BeatmapInfo>,
}

impl View for FetchProgress {
    type V = Seq<BeatmapInfo>;

    closed spec fn view(&self) -> Seq<BeatmapInfo> {
        self.maps@
    }
}

impl FetchProgress {
    /// Nothing collected yet.
    pub fn new() -> (progress: Self)
        ensures
            progress@ == Seq::<BeatmapInfo>::empty(),
    {
        FetchProgress { maps: Vec::new() }
    }

    /// The offset at which the next page starts: the number of records
    /// collected.
    pub fn next_offset(&self) -> (offset: usize)
        ensures
            offset == self@.len(),
    {
        self.maps.len()
    }

    /// Takes a page over: a record for each entry is added at the end, in the
    /// order of the page.  The result says whether another page may follow:
    /// it may unless this one came back short.
    pub fn add_batch(&mut self, batch: &[MostPlayedEntry]) -> (more: bool)
        ensures
            more == (batch@.len() >= PAGE_LIMIT),
            final(self)@.len() == old(self)@.len() + batch@.len(),
            forall|i: int| 0 <= i < old(self)@.len() ==> final(self)@[i] == old(self)@[i],
            forall|j: int|
                0 <= j < batch@.len() ==> is_record_of(
                    #[trigger] final(self)@[old(self)@.len() + j],
                    batch@[j],
                ),
    {
        let mut j: usize = 0;
        while j < batch.len()
            invariant
                j <= batch.len(),
                self@.len() == old(self)@.len() + j,
                forall|i: int| 0 <= i < old(self)@.len() ==> self@[i] == old(self)@[i],
                forall|k: int|
                    0 <= k < j ==> is_record_of(#[trigger] self@[old(self)@.len() + k], batch@[k]),
            decreases batch.len() - j,
        {
            let info = record_of(&batch[j]);
            self.maps.push(info);
            j += 1;
        }
        batch.len() >= PAGE_LIMIT
    }

    /// The records collected, in the order in which they came.
    pub fn into_maps(self) -> (maps: Vec<BeatmapInfo>)
        ensures
            maps@ == self@,
    {
        self.maps
    }
}

} // verus!
