//! The yt-dlp subprocess: its arguments, and what its output and its failures
//! come to.

use crate::classifier::UrlCategory;
use crate::resolver::{ResolveError, ResolveFault, ResolveModel, ResolveResult};
use crate::text::{
    char_index, chars_of, clone_opt, clone_texts, contains, decimal_text, index_of_char, join2,
    join3, number_text, opt_text, owned, push_text, same_text, str_contains, substring, texts,
};
use vstd::prelude::*;

verus! {

/// Timeout for the subprocess, in seconds.
pub const YTDLP_TIMEOUT_SECS: u64 = 30;

/// Subtitle languages to request.
pub const DEFAULT_SUB_LANGS: &'static str = "en,es,fr,de";

/// Subtitle format to request.
pub const SUB_FORMAT: &'static str = "vtt";

/// The format selection: merged H.264 up to 1080 lines, then anything merged
/// up to 1080 lines, then separate streams.
pub const H264_FORMAT_STRING: &'static str =
    "best[vcodec^=avc1][height<=1080]/best[height<=1080]/bestvideo[vcodec^=avc1][height<=1080]+bestaudio";

/// Parsed output of `yt-dlp --dump-json`.
#[derive(Debug)]
pub struct YtdlpOutput {
    /// The webpage URL (same as input).
    pub webpage_url: Option<String>,
    /// Direct media URL of a merged format.
    pub url: Option<String>,
    /// The streams, where video and audio are separate.
    pub requested_formats: Option<Vec<RequestedFormat>>,
    /// Video title.
    pub title: Option<String>,
    /// Duration in milliseconds, where it is known and not negative.
    pub duration_ms: Option<u64>,
    /// Thumbnail URL.
    pub thumbnail: Option<String>,
    /// Video codec of the selected format.
    pub vcodec: Option<String>,
    /// Audio codec of the selected format.
    pub acodec: Option<String>,
    /// Video width.
    pub width: Option<i64>,
    /// Video height.
    pub height: Option<i64>,
    /// Languages of the available subtitles.
    pub subtitles: Vec<String>,
    /// The format identifier.
    pub format: Option<String>,
}

/// A single stream of the `requested_formats` array.
#[derive(Debug, PartialEq)]
pub struct RequestedFormat {
    /// Stream URL.
    pub url: Option<String>,
    /// Video codec, `none` for audio only.
    pub vcodec: Option<String>,
    /// Audio codec, `none` for video only.
    pub acodec: Option<String>,
    /// Video width.
    pub width: Option<i64>,
    /// Video height.
    pub height: Option<i64>,
}

/// Whether a codec field names a codec.
pub open spec fn names_codec(codec: Option<String>) -> bool {
    match codec {
        Some(c) => c@ != "none"@ && c@.len() > 0,
        None => false,
    }
}

/// Whether a format has an address, and video, or audio alone.
pub open spec fn has_stream(format: RequestedFormat, video: bool) -> bool {
    &&& format.url is Some && format.url->0@.len() > 0
    &&& names_codec(format.vcodec) == video
    &&& video || names_codec(format.acodec)
}

/// The index of the first format, from `i` on, with video, or with audio alone.
pub open spec fn stream_at(formats: Seq<RequestedFormat>, video: bool, i: int) -> Option<int>
    decreases formats.len() - i,
{
    if i < 0 || i >= formats.len() {
        None
    } else if has_stream(formats[i], video) {
        Some(i)
    } else {
        stream_at(formats, video, i + 1)
    }
}

/// The error of an output without any address.
pub open spec fn no_playable_url() -> ResolveFault {
    ResolveFault::NoMediaFound(
        "yt-dlp returned no playable URL (neither top-level `url` nor `requested_formats`)"@,
    )
}

/// The media address of an output, and the audio address where that is
/// separate: of a format with audio alone, beside one with video alone.
pub open spec fn output_urls(out: YtdlpOutput) -> Option<(Seq<char>, Option<Seq<char>>)> {
    match out.url {
        Some(u) if u@.len() > 0 => Some((u@, None)),
        _ => match out.requested_formats {
            Some(formats) => match stream_at(formats@, true, 0) {
                Some(v) => Some(
                    (
                        formats@[v].url->0@,
                        match stream_at(formats@, false, 0) {
                            Some(a) if !names_codec(formats@[v].acodec) => Some(
                                formats@[a].url->0@,
                            ),
                            _ => None,
                        },
                    ),
                ),
                None => None,
            },
            None => None,
        },
    }
}

fn is_codec(codec: &Option<String>) -> (r: bool)
    ensures
        r == names_codec(*codec),
{
    match codec {
        Some(c) => !same_text(c.as_str(), "none") && !c.as_str().is_empty(),
        None => false,
    }
}

fn find_stream(formats: &Vec<RequestedFormat>, video: bool) -> (r: Option<usize>)
    ensures
        match r {
            Some(k) => stream_at(formats@, video, 0) == Some(k as int) && k < formats@.len()
                && has_stream(formats@[k as int], video),
            None => stream_at(formats@, video, 0) is None,
        },
{
    let mut i: usize = 0;
    while i < formats.len()
        invariant
            i <= formats@.len(),
            stream_at(formats@, video, 0) == stream_at(formats@, video, i as int),
        decreases formats.len() - i,
    {
        match &formats[i].url {
            Some(u) => {
                if !u.as_str().is_empty() && is_codec(&formats[i].vcodec) == video && (video
                    || is_codec(&formats[i].acodec)) {
                    return Some(i);
                }
            },
            None => {},
        }
        i = i + 1;
    }
    None
}

impl YtdlpOutput {
    /// The media address of this output, and the audio address where that is
    /// separate.
    pub fn resolve_urls(&self) -> (r: Result<(String, Option<String>), ResolveError>)
        ensures
            match output_urls(*self) {
                Some((video, audio)) => r matches Ok((v, a)) && v@ == video && opt_text(a) == audio,
                None => r matches Err(e) && e@ == no_playable_url(),
            },
    {
        match &self.url {
            Some(u) => {
                if !u.as_str().is_empty() {
                    return Ok((owned(u.as_str()), None));
                }
            },
            None => {},
        }
        match &self.requested_formats {
            Some(formats) => {
                match find_stream(formats, true) {
                    Some(v) => {
                        let audio = match find_stream(formats, false) {
                            Some(a) => if is_codec(&formats[v].acodec) {
                                None
                            } else {
                                clone_opt(&formats[a].url)
                            },
                            None => None,
                        };
                        return Ok((clone_opt(&formats[v].url).unwrap(), audio));
                    },
                    None => {},
                }
            },
            None => {},
        }
        Err(
            ResolveError::NoMediaFound(
                owned(
                    "yt-dlp returned no playable URL (neither top-level `url` nor `requested_formats`)",
                ),
            ),
        )
    }
}

/// Whether an optional text holds a word.
pub open spec fn mentions(text: Option<Seq<char>>, word: Seq<char>) -> bool {
    match text {
        Some(t) => contains(t, word),
        None => false,
    }
}

/// The category that a format identifier tells.
pub open spec fn category_of_format(format: Option<Seq<char>>) -> UrlCategory {
    if mentions(format, "hls"@) {
        UrlCategory::HlsManifest
    } else if mentions(format, "dash"@) {
        UrlCategory::DashManifest
    } else {
        UrlCategory::DirectMedia
    }
}

/// The MIME type that codecs and container tell.
pub open spec fn mime_of_codecs(
    category: UrlCategory,
    vcodec: Option<Seq<char>>,
    acodec: Option<Seq<char>>,
    format: Option<Seq<char>>,
) -> Option<Seq<char>> {
    if category == UrlCategory::Magnet {
        Some("application/x-magnet"@)
    } else if vcodec is Some && vcodec->0 != "none"@ {
        if mentions(vcodec, "vp9"@) || mentions(vcodec, "vp09"@) || mentions(vcodec, "av1"@)
            || mentions(format, "webm"@) {
            Some("video/webm"@)
        } else {
            Some("video/mp4"@)
        }
    } else if acodec is Some && acodec->0 != "none"@ {
        if mentions(acodec, "opus"@) || mentions(format, "webm"@) {
            Some("audio/ogg"@)
        } else {
            Some("audio/mp4"@)
        }
    } else {
        None
    }
}

fn has_word(text: &Option<String>, word: &str) -> (r: bool)
    ensures
        r == mentions(opt_text(*text), word@),
{
    match text {
        Some(t) => str_contains(t.as_str(), word),
        None => false,
    }
}

/// Determine the URL category from yt-dlp output.
pub fn determine_category(ytdlp: &YtdlpOutput) -> (r: UrlCategory)
    ensures
        r == category_of_format(opt_text(ytdlp.format)),
{
    if has_word(&ytdlp.format, "hls") {
        UrlCategory::HlsManifest
    } else if has_word(&ytdlp.format, "dash") {
        UrlCategory::DashManifest
    } else {
        UrlCategory::DirectMedia
    }
}

fn is_not_none(codec: &Option<String>) -> (r: bool)
    ensures
        r == (opt_text(*codec) is Some && opt_text(*codec)->0 != "none"@),
{
    match codec {
        Some(c) => !same_text(c.as_str(), "none"),
        None => false,
    }
}

/// Determine the MIME type from codec and container information.
pub fn determine_mime_type(
    category: &UrlCategory,
    vcodec: &Option<String>,
    acodec: &Option<String>,
    format: &Option<String>,
) -> (r: Option<String>)
    ensures
        opt_text(r) == mime_of_codecs(
            *category,
            opt_text(*vcodec),
            opt_text(*acodec),
            opt_text(*format),
        ),
{
    if *category == UrlCategory::Magnet {
        Some(owned("application/x-magnet"))
    } else if is_not_none(vcodec) {
        if has_word(vcodec, "vp9") || has_word(vcodec, "vp09") || has_word(vcodec, "av1")
            || has_word(format, "webm") {
            Some(owned("video/webm"))
        } else {
            Some(owned("video/mp4"))
        }
    } else if is_not_none(acodec) {
        if has_word(acodec, "opus") || has_word(format, "webm") {
            Some(owned("audio/ogg"))
        } else {
            Some(owned("audio/mp4"))
        }
    } else {
        None
    }
}

// ---------------------------------------------------------------------------
// Arguments
// ---------------------------------------------------------------------------

/// The proxy address that isolates a stream by its user name.
pub open spec fn isolated_proxy(user: Seq<char>, address: Seq<char>) -> Seq<char> {
    "socks5h://"@ + user + "@"@ + address
}

/// The proxy address that isolates a stream by its user name.
pub fn isolated_proxy_url(user: &str, address: &str) -> (r: String)
    ensures
        r@ == isolated_proxy(user@, address@),
{
    let mut r = join3("socks5h://", user, "@");
    push_text(&mut r, address);
    r
}

/// The arguments of the subprocess.
pub open spec fn ytdlp_arguments(
    url: Seq<char>,
    proxy: Seq<char>,
    temp_dir: Seq<char>,
    extract_subs: bool,
) -> Seq<Seq<char>> {
    let base = seq![
        "--dump-json"@,
        "--no-download"@,
        "--no-warnings"@,
        "--socket-timeout"@,
        "30"@,
        "--proxy"@,
        proxy,
        "--format"@,
        H264_FORMAT_STRING@,
        "--paths"@,
        temp_dir,
    ];
    let subs = if extract_subs {
        seq![
            "--write-subs"@,
            "--write-auto-subs"@,
            "--sub-langs"@,
            DEFAULT_SUB_LANGS@,
            "--sub-format"@,
            SUB_FORMAT@,
        ]
    } else {
        Seq::empty()
    };
    (base + subs).push(url)
}

/// The arguments of the subprocess that resolves a page through the proxy,
/// writing subtitles, if any, below `temp_dir`.
pub fn ytdlp_args(
    url: &str,
    socks_addr: &str,
    isolation_username: &str,
    temp_dir: &str,
    extract_subs: bool,
) -> (r: Vec<String>)
    ensures
        texts(r@) == ytdlp_arguments(
            url@,
            isolated_proxy(isolation_username@, socks_addr@),
            temp_dir@,
            extract_subs,
        ),
{
    let proxy = isolated_proxy_url(isolation_username, socks_addr);
    let mut r: Vec<String> = vec![
        owned("--dump-json"),
        owned("--no-download"),
        owned("--no-warnings"),
        owned("--socket-timeout"),
        owned("30"),
        owned("--proxy"),
        proxy,
        owned("--format"),
        owned(H264_FORMAT_STRING),
        owned("--paths"),
        owned(temp_dir),
    ];
    if extract_subs {
        r.push(owned("--write-subs"));
        r.push(owned("--write-auto-subs"));
        r.push(owned("--sub-langs"));
        r.push(owned(DEFAULT_SUB_LANGS));
        r.push(owned("--sub-format"));
        r.push(owned(SUB_FORMAT));
    }
    r.push(owned(url));
    assert(texts(r@) =~= ytdlp_arguments(
        url@,
        isolated_proxy(isolation_username@, socks_addr@),
        temp_dir@,
        extract_subs,
    ));
    r
}

// ---------------------------------------------------------------------------
// Outcome
// ---------------------------------------------------------------------------

/// The low 32 bits of a number.
pub open spec fn low32(n: i64) -> u32 {
    (n % 0x1_0000_0000) as u32
}

pub open spec fn opt_low32(n: Option<i64>) -> Option<u32> {
    match n {
        Some(v) => Some(low32(v)),
        None => None,
    }
}

fn to_low32(n: i64) -> (r: u32)
    ensures
        r == low32(n),
{
    let rest: i64 = if n >= 0 {
        n % 0x1_0000_0000
    } else {
        let above: i64 = -(n + 1);
        0xffff_ffff - above % 0x1_0000_0000
    };
    assert(rest == n % 0x1_0000_0000) by {
        if n < 0 {
            let above = -(n + 1);
            assert(n == -1 - above);
            assert(0xffff_ffff - above % 0x1_0000_0000 == (-1 - above) % 0x1_0000_0000)
                by (nonlinear_arith)
                requires
                    above >= 0,
            ;
        }
    }
    rest as u32
}

/// The result of a successful run.
pub open spec fn ytdlp_result(
    url: Seq<char>,
    out: YtdlpOutput,
    video: Seq<char>,
    audio: Option<Seq<char>>,
) -> ResolveModel {
    let category = category_of_format(opt_text(out.format));
    ResolveModel {
        source_url: url,
        direct_url: video,
        audio_url: audio,
        category,
        mime_type: mime_of_codecs(
            category,
            opt_text(out.vcodec),
            opt_text(out.acodec),
            opt_text(out.format),
        ),
        content_length: None,
        used_tor: true,
        title: opt_text(out.title),
        duration: out.duration_ms,
        thumbnail: opt_text(out.thumbnail),
        vcodec: opt_text(out.vcodec),
        acodec: opt_text(out.acodec),
        width: opt_low32(out.width),
        height: opt_low32(out.height),
        subtitle_tracks: texts(out.subtitles@),
        cookies: Seq::empty(),
        resolver_type: Seq::empty(),
    }
}

/// What the parsed output of a successful run comes to.
pub fn ytdlp_outcome(url: &str, ytdlp: &YtdlpOutput) -> (r: Result<ResolveResult, ResolveError>)
    ensures
        match output_urls(*ytdlp) {
            Some((video, audio)) => r matches Ok(result) && result@ == ytdlp_result(
                url@,
                *ytdlp,
                video,
                audio,
            ),
            None => r matches Err(e) && e@ == no_playable_url(),
        },
{
    match ytdlp.resolve_urls() {
        Err(e) => Err(e),
        Ok((direct_url, audio_url)) => {
            let category = determine_category(ytdlp);
            let result = ResolveResult {
                source_url: owned(url),
                direct_url,
                audio_url,
                category,
                mime_type: determine_mime_type(
                    &category,
                    &ytdlp.vcodec,
                    &ytdlp.acodec,
                    &ytdlp.format,
                ),
                content_length: None,
                used_tor: true,
                title: clone_opt(&ytdlp.title),
                duration: ytdlp.duration_ms,
                thumbnail: clone_opt(&ytdlp.thumbnail),
                vcodec: clone_opt(&ytdlp.vcodec),
                acodec: clone_opt(&ytdlp.acodec),
                width: match ytdlp.width {
                    Some(n) => Some(to_low32(n)),
                    None => None,
                },
                height: match ytdlp.height {
                    Some(n) => Some(to_low32(n)),
                    None => None,
                },
                subtitle_tracks: clone_texts(&ytdlp.subtitles),
                cookies: Vec::new(),
                resolver_type: String::new(),
            };
            assert(result@.cookies =~= Seq::empty());
            Ok(result)
        },
    }
}

/// The first line of a text without its terminator; `None` for an empty text.
pub open spec fn first_line(s: Seq<char>) -> Option<Seq<char>> {
    let k = char_index(s, '\n', 0);
    if s.len() == 0 {
        None
    } else if k >= s.len() {
        Some(s)
    } else if k > 0 && s[k - 1] == '\r' {
        Some(s.take(k - 1))
    } else {
        Some(s.take(k))
    }
}

/// The first line of a text.
pub fn read_first_line(s: &str) -> (r: Option<String>)
    ensures
        opt_text(r) == first_line(s@),
{
    let v = chars_of(s);
    if v.len() == 0 {
        return None;
    }
    let k: usize = index_of_char(&v, '\n', 0);
    let end: usize = if k < v.len() && k > 0 && v[k - 1] == '\r' {
        k - 1
    } else {
        k
    };
    let r = substring(&v, 0, end);
    assert(r@ =~= s@.take(end as int));
    assert(s@.take(s@.len() as int) =~= s@);
    Some(r)
}

/// A number in decimal, with a sign where it is negative.
pub open spec fn integer_text(n: int) -> Seq<char> {
    if n < 0 {
        "-"@ + decimal_text((-n) as nat)
    } else {
        decimal_text(n as nat)
    }
}

fn write_integer(n: i32) -> (r: String)
    ensures
        r@ == integer_text(n as int),
{
    if n < 0 {
        let magnitude: u64 = (-(n as i64)) as u64;
        join2("-", number_text(magnitude).as_str())
    } else {
        number_text(n as u64)
    }
}

/// The error of a run that exited with a failure.
pub fn ytdlp_failure(code: Option<i32>, stderr: &str) -> (r: ResolveError)
    ensures
        r@ == ResolveFault::NoMediaFound(
            "yt-dlp exited with "@ + integer_text(
                match code {
                    Some(c) => c as int,
                    None => -1,
                },
            ) + ": "@ + match first_line(stderr@) {
                Some(line) => line,
                None => "unknown error"@,
            },
        ),
{
    let exit: i32 = match code {
        Some(c) => c,
        None => -1,
    };
    let mut message = join3("yt-dlp exited with ", write_integer(exit).as_str(), ": ");
    match read_first_line(stderr) {
        Some(line) => push_text(&mut message, line.as_str()),
        None => push_text(&mut message, "unknown error"),
    }
    ResolveError::NoMediaFound(message)
}

/// The error of a run that took too long.
pub fn ytdlp_timed_out() -> (r: ResolveError)
    ensures
        r@ == ResolveFault::Network("yt-dlp timed out after "@ + decimal_text(30) + "s"@),
{
    ResolveError::Network(
        join3("yt-dlp timed out after ", number_text(YTDLP_TIMEOUT_SECS).as_str(), "s"),
    )
}

/// The error of a subprocess that could not be started.
pub fn ytdlp_not_started(binary_missing: bool, cause: &str) -> (r: ResolveError)
    ensures
        r@ == if binary_missing {
            ResolveFault::TorUnavailable(
                "yt-dlp binary not found \u{2014} install with: pip install yt-dlp"@,
            )
        } else {
            ResolveFault::Network("failed to spawn yt-dlp: "@ + cause@)
        },
{
    if binary_missing {
        ResolveError::TorUnavailable(
            owned("yt-dlp binary not found \u{2014} install with: pip install yt-dlp"),
        )
    } else {
        ResolveError::Network(join2("failed to spawn yt-dlp: ", cause))
    }
}

// ---------------------------------------------------------------------------
// Laws
// ---------------------------------------------------------------------------

/// A merged format wins: where the output has a top-level address, that is
/// played and no separate audio.
pub proof fn lemma_merged_first(out: YtdlpOutput)
    requires
        out.url is Some,
        out.url->0@.len() > 0,
    ensures
        output_urls(out) == Some((out.url->0@, None::<Seq<char>>)),
{
}

proof fn lemma_stream_at(formats: Seq<RequestedFormat>, video: bool, i: int)
    requires
        0 <= i,
    ensures
        stream_at(formats, video, i) matches Some(k) ==> i <= k < formats.len() && has_stream(
            formats[k],
            video,
        ),
    decreases formats.len() - i,
{
    if i < formats.len() && !has_stream(formats[i], video) {
        lemma_stream_at(formats, video, i + 1);
    }
}

/// Whether one format has video alone and a second one audio alone, under
/// these addresses.
pub open spec fn separate_streams(
    formats: Seq<RequestedFormat>,
    v: int,
    a: int,
    video: Seq<char>,
    audio: Seq<char>,
) -> bool {
    &&& 0 <= v < formats.len()
    &&& 0 <= a < formats.len()
    &&& v != a
    &&& names_codec(formats[v].vcodec)
    &&& !names_codec(formats[v].acodec)
    &&& names_codec(formats[a].acodec)
    &&& !names_codec(formats[a].vcodec)
    &&& opt_text(formats[v].url) == Some(video)
    &&& opt_text(formats[a].url) == Some(audio)
}

/// An audio address is given only for a separate stream: one of the requested
/// formats, with audio and without video, has it, and another one, with video
/// and without audio, has the media address.
pub proof fn lemma_audio_is_separate(out: YtdlpOutput)
    ensures
        output_urls(out) matches Some((video, Some(audio))) ==> {
            &&& out.requested_formats is Some
            &&& exists|v: int, a: int| #[trigger]
                separate_streams(out.requested_formats->0@, v, a, video, audio)
        },
{
    if let Some((video, Some(audio))) = output_urls(out) {
        let formats = out.requested_formats->0@;
        let v = stream_at(formats, true, 0)->0;
        let a = stream_at(formats, false, 0)->0;
        lemma_stream_at(formats, true, 0);
        lemma_stream_at(formats, false, 0);
        assert(separate_streams(formats, v, a, video, audio));
    }
}

/// A page is never fetched past the proxy: the arguments always name the
/// isolating one, and the address comes last.
pub proof fn lemma_arguments_use_proxy(
    url: Seq<char>,
    proxy: Seq<char>,
    temp_dir: Seq<char>,
    extract_subs: bool,
)
    ensures
        ytdlp_arguments(url, proxy, temp_dir, extract_subs)[5] == "--proxy"@,
        ytdlp_arguments(url, proxy, temp_dir, extract_subs)[6] == proxy,
        ytdlp_arguments(url, proxy, temp_dir, extract_subs).last() == url,
{
}

} // verus!
