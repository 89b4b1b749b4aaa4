use osu_beatmap_downloader::limiter::{RateLimitState, RateLimiter};
use osu_beatmap_downloader::mirror::Mirror;
use osu_beatmap_downloader::types::BeatmapInfo;
use osu_beatmap_downloader::worker::{
    DownloadError, DownloadTask, ResponseAction, DEFAULT_RETRY_SECS, MAX_RETRIES,
    TOO_MANY_REQUESTS,
};
use reqwest::header::{HeaderMap, HeaderValue};

fn beatmap() -> BeatmapInfo {
    BeatmapInfo {
        beatmap_id: 11,
        beatmapset_id: 123,
        title: "Song: Remix".to_string(),
        artist: "DJ *".to_string(),
        version: "Hard".to_string(),
        play_count: 9,
        download_link: "https://osu.ppy.sh/beatmapsets/123".to_string(),
    }
}

fn retry_after(secs: &'static str) -> HeaderMap {
    let mut headers = HeaderMap::new();
    headers.insert("retry-after", HeaderValue::from_static(secs));
    headers
}

#[test]
fn new_task_knows_where_to_fetch_and_write() {
    let task = DownloadTask::new(&beatmap(), Mirror::Nerinyan);
    assert_eq!(task.beatmapset_id(), 123);
    assert_eq!(task.url(), "https://api.nerinyan.moe/d/123");
    assert_eq!(task.filename(), "123 DJ _ - Song_ Remix.osz");
    assert_eq!(task.retry_count(), 0);
    let task = DownloadTask::new(&beatmap(), Mirror::Catboy);
    assert_eq!(task.url(), "https://catboy.best/d/123");
}

#[test]
fn success_is_saved() {
    let mut limiter = RateLimiter::new(Mirror::Nerinyan, 0);
    let mut task = DownloadTask::new(&beatmap(), Mirror::Nerinyan);
    for status in [200u16, 201, 204, 299] {
        assert_eq!(
            task.on_response(&mut limiter, status, &HeaderMap::new(), 10),
            ResponseAction::Save
        );
    }
    assert_eq!(task.retry_count(), 0);
}

#[test]
fn other_statuses_fail_at_once() {
    let mut limiter = RateLimiter::new(Mirror::Nerinyan, 0);
    let mut task = DownloadTask::new(&beatmap(), Mirror::Nerinyan);
    for status in [100u16, 199, 300, 301, 400, 404, 428, 430, 500, 503] {
        assert_eq!(
            task.on_response(&mut limiter, status, &retry_after("3"), 10),
            ResponseAction::Fail(DownloadError::HttpError(status))
        );
    }
    assert_eq!(task.retry_count(), 0);
}

#[test]
fn rate_limit_is_retried_after_the_named_pause() {
    let mut limiter = RateLimiter::new(Mirror::Catboy, 0);
    let mut task = DownloadTask::new(&beatmap(), Mirror::Catboy);
    assert_eq!(
        task.on_response(&mut limiter, TOO_MANY_REQUESTS, &retry_after("7"), 10),
        ResponseAction::Retry(7)
    );
    assert_eq!(task.retry_count(), 1);
    assert_eq!(
        task.on_response(&mut limiter, 429, &HeaderMap::new(), 10),
        ResponseAction::Retry(DEFAULT_RETRY_SECS)
    );
    assert_eq!(
        task.on_response(&mut limiter, 429, &retry_after("later"), 10),
        ResponseAction::Retry(10)
    );
    assert_eq!(task.retry_count(), 3);
}

#[test]
fn rate_limit_fails_after_the_last_retry() {
    let mut limiter = RateLimiter::new(Mirror::Catboy, 0);
    let mut task = DownloadTask::new(&beatmap(), Mirror::Catboy);
    for retry in 1..=MAX_RETRIES {
        assert_eq!(
            task.on_response(&mut limiter, 429, &retry_after("0"), 10),
            ResponseAction::Retry(0)
        );
        assert_eq!(task.retry_count(), retry);
    }
    assert_eq!(MAX_RETRIES, 5);
    assert_eq!(
        task.on_response(&mut limiter, 429, &retry_after("0"), 10),
        ResponseAction::Fail(DownloadError::RateLimitExceeded)
    );
    assert_eq!(task.retry_count(), 5);
    assert_eq!(
        task.on_response(&mut limiter, 200, &HeaderMap::new(), 10),
        ResponseAction::Save
    );
}

#[test]
fn every_response_feeds_the_limiter() {
    let mut limiter = RateLimiter::new(Mirror::Nerinyan, 0);
    let mut task = DownloadTask::new(&beatmap(), Mirror::Nerinyan);
    let mut headers = retry_after("4");
    headers.insert("x-ratelimit-remaining-minute", HeaderValue::from_static("0"));
    headers.insert("x-ratelimit-limit-minute", HeaderValue::from_static("20"));
    assert_eq!(task.on_response(&mut limiter, 429, &headers, 1_000), ResponseAction::Retry(4));
    assert_eq!(
        limiter.state(),
        RateLimitState { remaining: 0, reset_at: 6_000, limit_cap: 20, download_count: 0 }
    );
    let mut headers = HeaderMap::new();
    headers.insert("x-ratelimit-remaining-minute", HeaderValue::from_static("19"));
    assert_eq!(
        task.on_response(&mut limiter, 404, &headers, 2_000),
        ResponseAction::Fail(DownloadError::HttpError(404))
    );
    assert_eq!(limiter.state().remaining, 19);
}

#[test]
fn error_messages() {
    assert_eq!(DownloadError::RateLimitExceeded.message(), "Hit rate limit too many times");
    assert_eq!(DownloadError::HttpError(404).message(), "Failed: HTTP 404");
    assert_eq!(DownloadError::HttpError(500).message(), "Failed: HTTP 500");
    assert_eq!(DownloadError::Io("disk full".to_string()).message(), "disk full");
    assert_eq!(DownloadError::Transport("timed out".to_string()).message(), "timed out");
}
