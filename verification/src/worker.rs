//! One download: what to do with each response of the mirror.
//!
//! The caller makes the requests and writes the archive.  After each response
//! it reports the status and the headers, and is told whether to save the
//! body, to retry after a pause, or to give up.

use vstd::prelude::*;
use reqwest::header::HeaderMap;
use crate::headers::{get_header_u64, header_u64};
use crate::limiter::RateLimiter;
use crate::mirror::{is_success, status_is_success, Mirror};
use crate::text::{decimal_digits, push_decimal};
use crate::types::BeatmapInfo;

verus! {

/// How many times a download is tried again after the mirror refused it for
/// the rate limit.
pub const MAX_RETRIES: u32 = 5;

/// The pause before a retry, in seconds, where the mirror names none.
pub const DEFAULT_RETRY_SECS: u64 = 10;

/// The status with which a mirror refuses a request for the rate limit.
pub const TOO_MANY_REQUESTS: u16 = 429;

/// Why a download failed.
#[derive(Debug, Clone, PartialEq, Eq)]
pub enum DownloadError {
    /// The mirror still refused the request for the rate limit after the
    /// last retry.
    RateLimitExceeded,
    /// The mirror answered with a status that is neither success nor a
    /// refusal for the rate limit.
    HttpError(u16),
    /// The archive could not be written.
    Io(String),
    /// The request did not get through.
    Transport(String),
}

/// What to do after a response.
#[derive(Debug, Clone, PartialEq, Eq)]
pub enum ResponseAction {
    /// Sleep this many seconds, then ask the limiter again and repeat the
    /// request.
    Retry(u64),
    /// Give up on this archive.
    Fail(DownloadError),
    /// Write the body to the archive file.
    Save,
}

/// The action after a response with the given status, for a download that
/// was retried `retry_count` times before, and the number of retries
/// afterwards.  `retry_after` is the pause that the response names.
pub open spec fn respond(status: u16, retry_after: Option<u64>, retry_count: u32) -> (
    ResponseAction,
    u32,
) {
    if status == TOO_MANY_REQUESTS {
        if retry_count >= MAX_RETRIES {
            (ResponseAction::Fail(DownloadError::RateLimitExceeded), retry_count)
        } else {
            (
                ResponseAction::Retry(
                    match retry_after {
                        Some(secs) => secs,
                        None => DEFAULT_RETRY_SECS,
                    },
                ),
                (retry_count + 1) as u32,
            )
        }
    } else if !is_success(status) {
        (ResponseAction::Fail(DownloadError::HttpError(status)), retry_count)
    } else {
        (ResponseAction::Save, retry_count)
    }
}

impl DownloadError {
    /// What a failure reads like in a report.
    pub open spec fn spec_message(self) -> Seq<char> {
        match self {
            DownloadError::RateLimitExceeded => "Hit rate limit too many times"@,
            DownloadError::HttpError(status) => "Failed: HTTP "@ + decimal_digits(status as nat),
            DownloadError::Io(text) => text@,
            DownloadError::Transport(text) => text@,
        }
    }

    /// What a failure reads like in a report.
    pub fn message(&self) -> (text: String)
        ensures
            text@ == self.spec_message(),
    {
        match self {
            DownloadError::RateLimitExceeded => "Hit rate limit too many times".to_owned(),
            DownloadError::HttpError(status) => {
                let mut text = "Failed: HTTP ".to_owned();
                push_decimal(&mut text, *status as u64);
                text
            },
            DownloadError::Io(text) => text.clone(),
            DownloadError::Transport(text) => text.clone(),
        }
    }
}

/// The state of one download.
#[derive(Debug)]
pub struct DownloadTask {
    beatmapset_id: u32,
    url: String,
    filename: String,
    retry_count: u32,
}

impl DownloadTask {
    pub closed spec fn spec_beatmapset_id(&self) -> u32 {
        self.beatmapset_id
    }

    pub closed spec fn spec_url(&self) -> Seq<char> {
        self.url@
    }

    pub closed spec fn spec_filename(&self) -> Seq<char> {
        self.filename@
    }

    pub closed spec fn spec_retry_count(&self) -> u32 {
        self.retry_count
    }

    /// A download that has not been tried yet: where to fetch the archive of
    /// the beatmap's set and which file to write it to.
    pub fn new(beatmap: &BeatmapInfo, mirror: Mirror) -> (task: Self)
        ensures
            task.beatmapset_id() == beatmap.beatmapset_id,
            task.spec_url() == mirror.spec_download_url(beatmap.beatmapset_id),
            task.spec_filename() == beatmap.spec_filename(),
            task.retry_count() == 0,
    {
        DownloadTask {
            beatmapset_id: beatmap.beatmapset_id,
            url: mirror.download_url(beatmap.beatmapset_id),
            filename: beatmap.filename(),
            retry_count: 0,
        }
    }

    #[verifier::when_used_as_spec(spec_beatmapset_id)]
    pub fn beatmapset_id(&self) -> (id: u32)
        ensures
            id == self.spec_beatmapset_id(),
    {
        self.beatmapset_id
    }

    /// The address to request.
    pub fn url(&self) -> (url: &str)
        ensures
            url@ == self.spec_url(),
    {
        self.url.as_str()
    }

    /// The name of the file to write, inside the output directory.
    pub fn filename(&self) -> (name: &str)
        ensures
            name@ == self.spec_filename(),
    {
        self.filename.as_str()
    }

    /// How often the request was repeated after a refusal for the rate limit.
    #[verifier::when_used_as_spec(spec_retry_count)]
    pub fn retry_count(&self) -> (n: u32)
        ensures
            n == self.spec_retry_count(),
    {
        self.retry_count
    }

    /// Takes a response that arrived at time `now`.
    ///
    /// The limiter takes over what the headers say of the quota, whatever the
    /// status.  A refusal for the rate limit is retried after the pause that
    /// the response names in `retry-after`, or `DEFAULT_RETRY_SECS`, until
    /// `MAX_RETRIES` retries were made.  Any other status without success
    /// fails the download at once.
    pub fn on_response(
        &mut self,
        limiter: &mut RateLimiter,
        status: u16,
        headers: &HeaderMap,
        now: u64,
    ) -> (action: ResponseAction)
        ensures
            final(self).beatmapset_id() == old(self).beatmapset_id(),
            final(self).spec_url() == old(self).spec_url(),
            final(self).spec_filename() == old(self).spec_filename(),
            (action, final(self).retry_count()) == respond(
                status,
                header_u64(*headers, "retry-after"@),
                old(self).retry_count(),
            ),
            final(limiter).mirror() == old(limiter).mirror(),
            old(limiter).mirror().supports_header_feedback() ==> final(limiter)@
                == crate::limiter::observed(old(limiter)@, *headers, now),
            !old(limiter).mirror().supports_header_feedback() ==> final(limiter)@ == old(
                limiter,
            )@,
    {
        limiter.update_from_headers(headers, now);
        if status == TOO_MANY_REQUESTS {
            if self.retry_count >= MAX_RETRIES {
                return ResponseAction::Fail(DownloadError::RateLimitExceeded);
            }
            let wait_secs = match get_header_u64(headers, "retry-after") {
                Some(secs) => secs,
                None => DEFAULT_RETRY_SECS,
            };
            self.retry_count = self.retry_count + 1;
            return ResponseAction::Retry(wait_secs);
        }
        if !status_is_success(status) {
            return ResponseAction::Fail(DownloadError::HttpError(status));
        }
        ResponseAction::Save
    }
}

/// The number of retries after a run of responses, each with its status and
/// the pause it names.
pub open spec fn retries_after(responses: Seq<(u16, Option<u64>)>, retry_count: u32) -> u32
    decreases responses.len(),
{
    if responses.len() == 0 {
        retry_count
    } else {
        respond(
            responses.last().0,
            responses.last().1,
            retries_after(responses.drop_last(), retry_count),
        ).1
    }
}

/// Whatever the mirror answers, and however often, a download is retried at
/// most `MAX_RETRIES` times: once that many retries were made, a further
/// refusal for the rate limit fails the download.
pub proof fn lemma_retries_are_bounded(responses: Seq<(u16, Option<u64>)>, retry_after: Option<u64>)
    ensures
        retries_after(responses, 0) <= MAX_RETRIES,
        retries_after(responses, 0) == MAX_RETRIES ==> respond(
            TOO_MANY_REQUESTS,
            retry_after,
            retries_after(responses, 0),
        ).0 == ResponseAction::Fail(DownloadError::RateLimitExceeded),
    decreases responses.len(),
{
    if responses.len() > 0 {
        lemma_retries_are_bounded(responses.drop_last(), retry_after);
    }
}

} // verus!
