//! Planning a run: which archives are already there, which are missing, and
//! how many downloads may be in flight at once.
//!
//! The caller lists the output directory, starts the downloads it is handed
//! and reports how each ended.

use std::collections::HashSet;
use vstd::prelude::*;
use vstd::std_specs::hash::*;
use vstd::string::*;
use crate::mirror::Mirror;
use crate::text::{
    chars_of, char_is_whitespace, decimal_digits, is_digit, is_whitespace,
    lemma_decimal_round_trip, lemma_trim_front_is_suffix, parse_u32, parse_u32_spec, push_decimal,
    string_of,
    trim_front, Strip,
};
use crate::types::{archive_name, sanitized, BeatmapInfo};
use crate::worker::DownloadError;

verus! {

broadcast use group_hash_axioms;

// ---------------------------------------------------------------------------
// What is already in the output directory
// ---------------------------------------------------------------------------

/// One entry of the output directory, as far as it could be read.
#[derive(Debug, Clone)]
pub struct ScannedFile {
    /// The file name, or `None` where it is not valid Unicode.
    pub name: Option<String>,
    /// The size in bytes, or `None` where it could not be read.
    pub size: Option<u64>,
}

/// Whether a file name has the extension `osz`: it ends in `.osz`, and
/// something stands before that.
pub open spec fn is_archive_name(name: Seq<char>) -> bool {
    name.len() > 4 && name.subrange(name.len() - 4, name.len() as int) == ".osz"@
}

/// The number of characters before the first white space.
pub open spec fn token_len(s: Seq<char>) -> nat
    decreases s.len(),
{
    if s.len() > 0 && !is_whitespace(s[0]) {
        1 + token_len(s.drop_first())
    } else {
        0
    }
}

/// The first run of characters without white space in a text, after any
/// leading white space.
pub open spec fn first_token(s: Seq<char>) -> Seq<char> {
    let rest = trim_front(s, Strip::Whitespace);
    rest.take(token_len(rest) as int)
}

/// The beatmap set that an archive file belongs to: the number that its name
/// begins with.
pub open spec fn archive_id(name: Seq<char>) -> Option<u32> {
    if is_archive_name(name) {
        parse_u32_spec(first_token(name))
    } else {
        None
    }
}

/// The beatmap set whose archive a directory entry is: the entry has a
/// readable name and size, is not empty, and is named as an archive of that
/// set.
pub open spec fn file_id(f: ScannedFile) -> Option<u32> {
    match (f.name, f.size) {
        (Some(name), Some(size)) => if size != 0 {
            archive_id(name@)
        } else {
            None
        },
        _ => None,
    }
}

/// The beatmap sets that have an archive among the given directory entries.
pub open spec fn existing_ids(files: Seq<ScannedFile>) -> Set<u32> {
    Set::new(|id: u32| exists|i: int| 0 <= i < files.len() && #[trigger] file_id(files[i]) == Some(id))
}

/// The beatmaps whose set has no archive yet, in the order of the list.
pub open spec fn work_set(maps: Seq<BeatmapInfo>, existing: Set<u32>) -> Seq<BeatmapInfo> {
    maps.filter(|m: BeatmapInfo| !existing.contains(m.beatmapset_id))
}

/// A run of `k` characters without white space, followed by white space or
/// the end, is the first token.
pub proof fn lemma_token_len(s: Seq<char>, k: int)
    requires
        0 <= k <= s.len(),
        forall|i: int| 0 <= i < k ==> !is_whitespace(#[trigger] s[i]),
        k < s.len() ==> is_whitespace(s[k]),
    ensures
        token_len(s) == k,
    decreases k,
{
    if k > 0 {
        let t = s.drop_first();
        assert forall|i: int| 0 <= i < k - 1 implies !is_whitespace(#[trigger] t[i]) by {
            assert(t[i] == s[i + 1]);
        }
        lemma_token_len(t, k - 1);
    }
}

/// The beatmap set that an archive file belongs to, by its name.
pub fn archive_id_of(name: &str) -> (r: Option<u32>)
    ensures
        r == archive_id(name@),
{
    let chars = chars_of(name);
    let n: usize = chars.len();
    proof {
        reveal_strlit(".osz");
    }
    if n <= 4 || chars[n - 4] != '.' || chars[n - 3] != 'o' || chars[n - 2] != 's' || chars[n - 1]
        != 'z' {
        assert(!is_archive_name(name@)) by {
            if n > 4 {
                let tail = name@.subrange(n - 4, n as int);
                assert(tail[0] == chars@[n - 4]);
                assert(tail[1] == chars@[n - 3]);
                assert(tail[2] == chars@[n - 2]);
                assert(tail[3] == chars@[n - 1]);
            }
        }
        return None;
    }
    assert(name@.subrange(n - 4, n as int) =~= ".osz"@);
    let mut i: usize = 0;
    while i < n && char_is_whitespace(chars[i])
        invariant
            i <= n,
            n == chars.len(),
            forall|k: int| 0 <= k < i ==> Strip::Whitespace.strips(#[trigger] chars@[k]),
        decreases n - i,
    {
        i += 1;
    }
    let mut j: usize = i;
    while j < n && !char_is_whitespace(chars[j])
        invariant
            i <= j <= n,
            n == chars.len(),
            forall|k: int| i <= k < j ==> !is_whitespace(#[trigger] chars@[k]),
        decreases n - j,
    {
        j += 1;
    }
    proof {
        lemma_trim_front_is_suffix(chars@, Strip::Whitespace, i as int);
        let rest = chars@.subrange(i as int, n as int);
        assert forall|k: int| 0 <= k < j - i implies !is_whitespace(#[trigger] rest[k]) by {
            assert(rest[k] == chars@[k + i]);
        }
        if j < n {
            assert(rest[j - i] == chars@[j as int]);
        }
        lemma_token_len(rest, j - i);
        assert(rest.take(j - i) =~= chars@.subrange(i as int, j as int));
    }
    let token = string_of(&chars, i, j);
    parse_u32(token.as_str())
}

/// The beatmap set whose archive a directory entry is.
pub fn scanned_id(file: &ScannedFile) -> (r: Option<u32>)
    ensures
        r == file_id(*file),
{
    match (&file.name, &file.size) {
        (Some(name), Some(size)) => if *size != 0 {
            archive_id_of(name.as_str())
        } else {
            None
        },
        _ => None,
    }
}

/// The beatmap sets that have an archive among the given directory entries.
pub fn existing_mapsets(files: &[ScannedFile]) -> (existing: HashSet<u32>)
    ensures
        existing@ == existing_ids(files@),
{
    let mut existing: HashSet<u32> = HashSet::new();
    let mut i: usize = 0;
    while i < files.len()
        invariant
            i <= files.len(),
            existing@ == existing_ids(files@.take(i as int)),
        decreases files.len() - i,
    {
        let ghost before = files@.take(i as int);
        let ghost after = files@.take(i + 1);
        let found = scanned_id(&files[i]);
        if let Some(id) = found {
            existing.insert(id);
        }
        proof {
            assert forall|id: u32| existing@.contains(id) <==> existing_ids(after).contains(
                id,
            ) by {
                if existing_ids(before).contains(id) {
                    let k = choose|k: int|
                        0 <= k < before.len() && #[trigger] file_id(before[k]) == Some(id);
                    assert(after[k] == before[k]);
                }
                if found == Some(id) {
                    assert(after[i as int] == files@[i as int]);
                }
                if existing_ids(after).contains(id) {
                    let k = choose|k: int|
                        0 <= k < after.len() && #[trigger] file_id(after[k]) == Some(id);
                    if k < i {
                        assert(before[k] == after[k]);
                    }
                }
            }
            assert(existing@ =~= existing_ids(after));
        }
        i += 1;
    }
    assert(files@.take(files.len() as int) =~= files@);
    existing
}

/// The beatmaps whose set is not among the existing ones, in the order of
/// the list.
pub fn missing_maps<'a>(maps: &'a [BeatmapInfo], existing: &HashSet<u32>) -> (missing: Vec<
    &'a BeatmapInfo,
>)
    ensures
        missing@.map_values(|b: &BeatmapInfo| *b) == work_set(maps@, existing@),
{
    let mut missing: Vec<&'a BeatmapInfo> = Vec::new();
    let ghost keep = |m: BeatmapInfo| !existing@.contains(m.beatmapset_id);
    let mut i: usize = 0;
    proof {
        reveal(Seq::filter);
        assert(missing@.map_values(|b: &BeatmapInfo| *b) =~= maps@.take(0).filter(keep));
    }
    while i < maps.len()
        invariant
            i <= maps.len(),
            keep == |m: BeatmapInfo| !existing@.contains(m.beatmapset_id),
            missing@.map_values(|b: &BeatmapInfo| *b) == maps@.take(i as int).filter(keep),
        decreases maps.len() - i,
    {
        let ghost before = missing@.map_values(|b: &BeatmapInfo| *b);
        let m = &maps[i];
        if !existing.contains(&m.beatmapset_id) {
            missing.push(m);
        }
        proof {
            reveal(Seq::filter);
            let upto = maps@.take(i + 1);
            assert(upto.drop_last() =~= maps@.take(i as int));
            assert(upto.last() == maps@[i as int]);
            if keep(maps@[i as int]) {
                assert(missing@.map_values(|b: &BeatmapInfo| *b) =~= before.push(maps@[i as int]));
            } else {
                assert(missing@.map_values(|b: &BeatmapInfo| *b) =~= before);
            }
        }
        i += 1;
    }
    assert(maps@.take(maps.len() as int) =~= maps@);
    missing
}

/// The counts that a run starts from, and what is left to download.
#[derive(Debug)]
pub struct DownloadPlan<'a> {
    /// How many beatmaps the list holds.
    pub total: usize,
    /// How many beatmap sets have an archive in the output directory.
    pub already_downloaded: usize,
    /// The beatmaps whose archive is missing, in the order of the list.
    pub missing: Vec<&'a BeatmapInfo>,
}

/// Compares a list of beatmaps with the entries of the output directory.
///
/// What is left to download is the list without every beatmap whose set has
/// an archive of non-zero size among the entries.
pub fn plan_downloads<'a>(maps: &'a [BeatmapInfo], files: &[ScannedFile]) -> (plan: DownloadPlan<
    'a,
>)
    ensures
        plan.total == maps@.len(),
        plan.already_downloaded == existing_ids(files@).len(),
        plan.missing@.map_values(|b: &BeatmapInfo| *b) == work_set(maps@, existing_ids(files@)),
{
    let existing = existing_mapsets(files);
    let missing = missing_maps(maps, &existing);
    DownloadPlan { total: maps.len(), already_downloaded: existing.len(), missing }
}

/// An archive saved under the name that a beatmap's set is given is found
/// again as an archive of that set.
pub proof fn lemma_saved_archive_is_found(beatmapset_id: u32, artist: Seq<char>, title: Seq<char>)
    ensures
        archive_id(archive_name(beatmapset_id, artist, title)) == Some(beatmapset_id),
{
    reveal_strlit(" ");
    reveal_strlit(" - ");
    reveal_strlit(".osz");
    let digits = decimal_digits(beatmapset_id as nat);
    let name = archive_name(beatmapset_id, artist, title);
    lemma_decimal_round_trip(beatmapset_id as nat);
    let n = name.len() as int;
    let d = digits.len() as int;
    assert(n == d + 1 + sanitized(artist).len() + 3 + sanitized(title).len() + 4);
    assert(name.subrange(n - 4, n) =~= ".osz"@);
    assert forall|i: int| 0 <= i < d implies !is_whitespace(#[trigger] name[i]) by {
        assert(name[i] == digits[i]);
        assert(is_digit(digits[i]));
    }
    assert(name[d] == ' ');
    assert(!Strip::Whitespace.strips(name[0]));
    lemma_trim_front_is_suffix(name, Strip::Whitespace, 0);
    assert(name.subrange(0, n) =~= name);
    lemma_token_len(name, d);
    assert(name.take(d) =~= digits);
}

/// Whether a directory entry is a file of the given name that is not empty.
pub open spec fn is_saved_as(f: ScannedFile, name: Seq<char>) -> bool {
    &&& f.size is Some
    &&& f.size->0 != 0
    &&& f.name is Some
    &&& f.name->0@ == name
}

/// Whether a beatmap has its archive among the directory entries: a file
/// that is not empty, under the name its set is given.
pub open spec fn has_archive(files: Seq<ScannedFile>, map: BeatmapInfo) -> bool {
    exists|j: int| 0 <= j < files.len() && is_saved_as(#[trigger] files[j], map.spec_filename())
}

/// Once every beatmap of a list has its archive in the output directory,
/// under the name its set is given and with a size above zero, nothing is
/// left to download.
pub proof fn lemma_rerun_is_up_to_date(maps: Seq<BeatmapInfo>, files: Seq<ScannedFile>)
    requires
        forall|i: int| 0 <= i < maps.len() ==> has_archive(files, #[trigger] maps[i]),
    ensures
        work_set(maps, existing_ids(files)) == Seq::<BeatmapInfo>::empty(),
{
    let existing = existing_ids(files);
    let keep = |m: BeatmapInfo| !existing.contains(m.beatmapset_id);
    assert forall|i: int| 0 <= i < maps.len() implies !keep(#[trigger] maps[i]) by {
        let m = maps[i];
        assert(has_archive(files, m));
        let j = choose|j: int|
            0 <= j < files.len() && is_saved_as(#[trigger] files[j], m.spec_filename());
        lemma_saved_archive_is_found(m.beatmapset_id, m.artist@, m.title@);
        assert(file_id(files[j]) == Some(m.beatmapset_id));
    }
    maps.lemma_all_neg_filter_empty(keep);
    assert(maps.filter(keep) =~= Seq::<BeatmapInfo>::empty());
}

// ---------------------------------------------------------------------------
// Running the downloads
// ---------------------------------------------------------------------------

/// Where a run stands.
pub ghost struct RunState {
    /// How many downloads the run has to make.
    pub total: nat,
    /// How many downloads may be in flight at once.
    pub limit: nat,
    /// How many downloads are in flight.
    pub in_flight: nat,
    /// How many downloads ended well.
    pub succeeded: nat,
    /// How many downloads failed.
    pub failed: nat,
}

/// What moves a run on.
pub ghost enum RunEvent {
    /// The caller asks for the next download to start.
    Dispatch,
    /// A download ended, well (`true`) or not.
    Complete(bool),
}

impl RunState {
    /// How many downloads were started so far.
    pub open spec fn started(self) -> nat {
        self.succeeded + self.failed + self.in_flight
    }

    pub open spec fn wf(self) -> bool {
        self.in_flight <= self.limit && self.started() <= self.total
    }

    /// A run before anything was started.
    pub open spec fn start(total: nat, limit: nat) -> RunState {
        RunState { total, limit, in_flight: 0, succeeded: 0, failed: 0 }
    }

    /// Asking for the next download: it is handed out, by its place in the
    /// work set, while fewer than `limit` are in flight and some are left.
    pub open spec fn dispatch(self) -> (RunState, Option<nat>) {
        if self.in_flight < self.limit && self.started() < self.total {
            (RunState { in_flight: self.in_flight + 1, ..self }, Some(self.started()))
        } else {
            (self, None)
        }
    }

    /// A download that was in flight has ended.  With none in flight the
    /// report is passed over.
    pub open spec fn complete(self, ok: bool) -> RunState {
        if self.in_flight == 0 {
            self
        } else if ok {
            RunState {
                in_flight: (self.in_flight - 1) as nat,
                succeeded: self.succeeded + 1,
                ..self
            }
        } else {
            RunState { in_flight: (self.in_flight - 1) as nat, failed: self.failed + 1, ..self }
        }
    }

    pub open spec fn step(self, event: RunEvent) -> RunState {
        match event {
            RunEvent::Dispatch => self.dispatch().0,
            RunEvent::Complete(ok) => self.complete(ok),
        }
    }

    /// The state after a sequence of events.
    pub open spec fn after(self, events: Seq<RunEvent>) -> RunState
        decreases events.len(),
    {
        if events.len() == 0 {
            self
        } else {
            self.after(events.drop_last()).step(events.last())
        }
    }

    /// Whether every download was started and has ended.
    pub open spec fn finished(self) -> bool {
        self.started() == self.total && self.in_flight == 0
    }
}

/// Whatever happens in a run, it stays well formed: no more downloads are in
/// flight than the limit allows, and no more are started than there are.
pub proof fn lemma_run_stays_well_formed(s: RunState, events: Seq<RunEvent>)
    requires
        s.wf(),
    ensures
        s.after(events).wf(),
        s.after(events).total == s.total,
        s.after(events).limit == s.limit,
    decreases events.len(),
{
    if events.len() > 0 {
        lemma_run_stays_well_formed(s, events.drop_last());
    }
}

/// However a run on a mirror goes, the number of downloads in flight never
/// exceeds what the mirror allows: one at a time on the alternative mirror.
pub proof fn lemma_never_over_limit(total: nat, mirror: Mirror, events: Seq<RunEvent>)
    ensures
        RunState::start(total, mirror.max_concurrent() as nat).after(events).in_flight
            <= mirror.max_concurrent(),
        mirror == Mirror::Catboy ==> RunState::start(total, 1).after(events).in_flight <= 1,
{
    lemma_run_stays_well_formed(RunState::start(total, mirror.max_concurrent() as nat), events);
}

/// While as many downloads are in flight as the limit allows, no further one
/// is handed out.
pub proof fn lemma_no_dispatch_at_limit(s: RunState)
    requires
        s.in_flight >= s.limit,
    ensures
        s.dispatch() == (s, None::<nat>),
{
}

/// A download that failed, and why.
#[derive(Debug, Clone, PartialEq, Eq)]
pub struct Failure {
    pub beatmapset_id: u32,
    pub error: DownloadError,
}

impl Failure {
    /// The line that reports the failure.
    pub open spec fn spec_describe(self) -> Seq<char> {
        "Failed to download "@ + decimal_digits(self.beatmapset_id as nat) + ": "@
            + self.error.spec_message()
    }

    /// The line that reports the failure.
    pub fn describe(&self) -> (line: String)
        ensures
            line@ == self.spec_describe(),
    {
        let mut line = "Failed to download ".to_owned();
        push_decimal(&mut line, self.beatmapset_id as u64);
        line.append(": ");
        line.append(self.error.message().as_str());
        line
    }
}

/// The counts of a run.
#[derive(Debug, Clone, Copy, PartialEq, Eq, Structural)]
pub struct Summary {
    /// How many downloads the run had to make.
    pub attempted: usize,
    pub succeeded: usize,
    pub failed: usize,
}

/// How a run ended.
#[derive(Debug, Clone, Copy, PartialEq, Eq, Structural)]
pub enum RunOutcome {
    /// There was nothing to download.
    UpToDate,
    /// Every download ended well.
    Complete,
    /// Some downloads failed.
    PartialFailure,
}

impl Summary {
    /// How a run with these counts ended.
    pub open spec fn spec_outcome(self) -> RunOutcome {
        if self.attempted == 0 {
            RunOutcome::UpToDate
        } else if self.failed == 0 {
            RunOutcome::Complete
        } else {
            RunOutcome::PartialFailure
        }
    }

    /// How a run with these counts ended.
    pub fn outcome(&self) -> (outcome: RunOutcome)
        ensures
            outcome == self.spec_outcome(),
    {
        if self.attempted == 0 {
            RunOutcome::UpToDate
        } else if self.failed == 0 {
            RunOutcome::Complete
        } else {
            RunOutcome::PartialFailure
        }
    }
}

/// A run over a work set: hands out the downloads, at most as many at once
/// as the mirror allows, and keeps count of how they ended.
#[derive(Debug)]
pub struct DownloadRun {
    total: usize,
    limit: usize,
    in_flight: usize,
    succeeded: usize,
    failed: usize,
}

impl View for DownloadRun {
    type V = RunState;

    closed spec fn view(&self) -> RunState {
        RunState {
            total: self.total as nat,
            limit: self.limit as nat,
            in_flight: self.in_flight as nat,
            succeeded: self.succeeded as nat,
            failed: self.failed as nat,
        }
    }
}

impl DownloadRun {
    #[verifier::type_invariant]
    closed spec fn inv(&self) -> bool {
        self@.wf()
    }

    /// A run over a work set of `total` downloads on the given mirror.
    pub fn new(total: usize, mirror: Mirror) -> (run: Self)
        ensures
            run@ == RunState::start(total as nat, mirror.max_concurrent() as nat),
            run@.wf(),
    {
        DownloadRun { total, limit: mirror.max_concurrent(), in_flight: 0, succeeded: 0, failed: 0 }
    }

    /// Whether there is nothing to download at all.
    pub fn is_up_to_date(&self) -> (b: bool)
        ensures
            b == (self@.total == 0),
    {
        self.total == 0
    }

    /// Hands out the next download to start, by its place in the work set,
    /// or `None` while the limit is reached or nothing is left to start.
    pub fn next_dispatch(&mut self) -> (next: Option<usize>)
        ensures
            final(self)@ == old(self)@.dispatch().0,
            final(self)@.wf(),
            match next {
                Some(i) => old(self)@.dispatch().1 == Some(i as nat),
                None => old(self)@.dispatch().1 is None,
            },
    {
        proof {
            use_type_invariant(&*self);
        }
        let started: usize = self.succeeded + self.failed + self.in_flight;
        if self.in_flight < self.limit && started < self.total {
            self.in_flight = self.in_flight + 1;
            Some(started)
        } else {
            None
        }
    }

    /// Takes the report that a download has ended, well or not.  A failure
    /// does not stop the run.  The result says whether the report was
    /// counted: it is not while no download is in flight.
    pub fn complete(&mut self, outcome: &Result<(), DownloadError>) -> (counted: bool)
        ensures
            counted == (old(self)@.in_flight > 0),
            final(self)@ == old(self)@.complete(outcome is Ok),
            final(self)@.wf(),
    {
        proof {
            use_type_invariant(&*self);
        }
        if self.in_flight == 0 {
            return false;
        }
        self.in_flight = self.in_flight - 1;
        match outcome {
            Ok(_) => {
                self.succeeded = self.succeeded + 1;
            },
            Err(_) => {
                self.failed = self.failed + 1;
            },
        }
        true
    }

    /// Whether every download was started and has ended.
    pub fn is_finished(&self) -> (b: bool)
        ensures
            b == self@.finished(),
    {
        proof {
            use_type_invariant(self);
        }
        self.in_flight == 0 && self.succeeded + self.failed == self.total
    }

    /// How many downloads are in flight: never more than the limit.
    pub fn in_flight(&self) -> (n: usize)
        ensures
            n == self@.in_flight,
            n <= self@.limit,
    {
        proof {
            use_type_invariant(self);
        }
        self.in_flight
    }

    /// The counts of the run as it stands.
    pub fn summary(&self) -> (summary: Summary)
        ensures
            summary.attempted == self@.total,
            summary.succeeded == self@.succeeded,
            summary.failed == self@.failed,
    {
        Summary { attempted: self.total, succeeded: self.succeeded, failed: self.failed }
    }
}

// ---------------------------------------------------------------------------
// Jitter
// ---------------------------------------------------------------------------

/// The pause before a download's first request is shorter than this, in
/// milliseconds.
pub const MAX_JITTER_MS: u64 = 500;

/// `rand::random::<u64>`: a number drawn from the thread's generator.  Nothing
/// is claimed of it.
#[verifier::external_body]
fn random_u64() -> (r: u64) {
    rand::random::<u64>()
}

/// The pause that a random number stands for.
pub fn jitter_from(random: u64) -> (ms: u64)
    ensures
        ms == random % MAX_JITTER_MS,
{
    random % MAX_JITTER_MS
}

/// A random pause before a download's first request, so that downloads that
/// start together do not all ask at once.
pub fn start_jitter() -> (ms: u64)
    ensures
        ms < MAX_JITTER_MS,
{
    jitter_from(random_u64())
}

} // verus!
