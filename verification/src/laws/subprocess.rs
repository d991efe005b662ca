//! Laws of the yt-dlp subprocess: what it is told, and what its output comes
//! to.

use crate::classifier::UrlCategory;
use crate::text::{contains, decimal_text, opt_text, texts};
use crate::ytdlp::{
    category_of_format, first_line, has_stream, integer_text, isolated_proxy, low32, mime_of_codecs,
    no_playable_url, output_urls, stream_at, ytdlp_arguments, ytdlp_result, RequestedFormat,
    YtdlpOutput,
};
use crate::resolver::ResolveFault;
use vstd::prelude::*;

verus! {

// ---------------------------------------------------------------------------
// Addresses
// ---------------------------------------------------------------------------

/// Whether a codec is named: `none` and nothing name none.
pub open spec fn coded(codec: Option<String>) -> bool {
    codec matches Some(name) && name@.len() > 0 && name@ != "none"@
}

/// Whether an address is there.
pub open spec fn addressed(format: RequestedFormat) -> bool {
    format.url matches Some(url) && url@.len() > 0
}

/// Whether a format is the first one with an address and video.
pub open spec fn is_first_video(formats: Seq<RequestedFormat>, v: int) -> bool {
    &&& 0 <= v < formats.len()
    &&& addressed(formats[v]) && coded(formats[v].vcodec)
    &&& forall|j: int|
        0 <= j < v ==> !(addressed(#[trigger] formats[j]) && coded(formats[j].vcodec))
}

/// Whether a format is the first one with an address and audio alone.
pub open spec fn is_first_audio(formats: Seq<RequestedFormat>, a: int) -> bool {
    &&& 0 <= a < formats.len()
    &&& addressed(formats[a]) && coded(formats[a].acodec) && !coded(formats[a].vcodec)
    &&& forall|j: int|
        0 <= j < a ==> !(addressed(#[trigger] formats[j]) && coded(formats[j].acodec) && !coded(
            formats[j].vcodec,
        ))
}

proof fn lemma_first_stream(formats: Seq<RequestedFormat>, video: bool, i: int)
    requires
        0 <= i,
    ensures
        match stream_at(formats, video, i) {
            Some(k) => i <= k < formats.len() && has_stream(formats[k], video) && forall|j: int|
                i <= j < k ==> !has_stream(#[trigger] formats[j], video),
            None => forall|j: int|
                i <= j < formats.len() ==> !has_stream(#[trigger] formats[j], video),
        },
    decreases formats.len() - i,
{
    if i < formats.len() && !has_stream(formats[i], video) {
        lemma_first_stream(formats, video, i + 1);
    }
}

proof fn lemma_streams(formats: Seq<RequestedFormat>)
    ensures
        match stream_at(formats, true, 0) {
            Some(v) => is_first_video(formats, v),
            None => forall|v: int| !is_first_video(formats, v),
        },
        match stream_at(formats, false, 0) {
            Some(a) => is_first_audio(formats, a),
            None => forall|a: int| !is_first_audio(formats, a),
        },
{
    lemma_first_stream(formats, true, 0);
    lemma_first_stream(formats, false, 0);
    if let Some(v) = stream_at(formats, true, 0) {
        assert forall|j: int| 0 <= j < v implies !(addressed(#[trigger] formats[j]) && coded(
            formats[j].vcodec,
        )) by {
            assert(!has_stream(formats[j], true));
        }
    } else {
        assert forall|v: int| !is_first_video(formats, v) by {
            if is_first_video(formats, v) {
                assert(has_stream(formats[v], true));
            }
        }
    }
    if let Some(a) = stream_at(formats, false, 0) {
        assert forall|j: int| 0 <= j < a implies !(addressed(#[trigger] formats[j]) && coded(
            formats[j].acodec,
        ) && !coded(formats[j].vcodec)) by {
            assert(!has_stream(formats[j], false));
        }
    } else {
        assert forall|a: int| !is_first_audio(formats, a) by {
            if is_first_audio(formats, a) {
                assert(has_stream(formats[a], false));
            }
        }
    }
}

/// A merged address is played as it is, without separate audio.
pub proof fn law_merged_address(out: YtdlpOutput)
    requires
        out.url is Some,
        out.url->0@.len() > 0,
    ensures
        output_urls(out) matches Some((media, audio)) && media == out.url->0@ && audio is None,
{
}

/// Without a merged address the first format with video is played; where that
/// has no audio, the first one with audio alone goes with it.
pub proof fn law_split_addresses(out: YtdlpOutput, formats: Seq<RequestedFormat>, v: int)
    requires
        out.url is None || out.url->0@.len() == 0,
        out.requested_formats is Some,
        out.requested_formats->0@ == formats,
        is_first_video(formats, v),
    ensures
        output_urls(out) matches Some((media, audio)) && {
            &&& Some(media) == opt_text(formats[v].url)
            &&& coded(formats[v].acodec) ==> audio is None
            &&& audio matches Some(address) ==> exists|a: int| #[trigger]
                is_first_audio(formats, a) && opt_text(formats[a].url) == Some(address)
            &&& audio is None && !coded(formats[v].acodec) ==> forall|a: int| !is_first_audio(
                formats,
                a,
            )
        },
{
    lemma_streams(formats);
    let k = stream_at(formats, true, 0)->0;
    if k < v {
        assert(addressed(formats[k]) && coded(formats[k].vcodec));
    }
    if v < k {
        assert(addressed(formats[v]) && coded(formats[v].vcodec));
    }
    if let Some(a) = stream_at(formats, false, 0) {
        assert(is_first_audio(formats, a));
    }
}

/// Nothing can be played where neither is there.
pub proof fn law_no_address(out: YtdlpOutput)
    requires
        out.url is None || out.url->0@.len() == 0,
        out.requested_formats matches Some(formats) ==> forall|j: int|
            0 <= j < formats@.len() ==> !(addressed(#[trigger] formats@[j]) && coded(
                formats@[j].vcodec,
            )),
    ensures
        output_urls(out) is None,
{
    if let Some(formats) = out.requested_formats {
        lemma_first_stream(formats@, true, 0);
        if let Some(k) = stream_at(formats@, true, 0) {
            assert(addressed(formats@[k]) && coded(formats@[k].vcodec));
        }
    }
}

// ---------------------------------------------------------------------------
// Results
// ---------------------------------------------------------------------------

/// What the output says is what the result says; it is reported under the
/// submitted address, as fetched over Tor.
pub proof fn law_output_reported(
    url: Seq<char>,
    out: YtdlpOutput,
    video: Seq<char>,
    audio: Option<Seq<char>>,
)
    ensures
        ({
            let model = ytdlp_result(url, out, video, audio);
            &&& model.source_url == url
            &&& model.direct_url == video
            &&& model.audio_url == audio
            &&& model.used_tor
            &&& model.title == opt_text(out.title)
            &&& model.duration == out.duration_ms
            &&& model.thumbnail == opt_text(out.thumbnail)
            &&& model.vcodec == opt_text(out.vcodec)
            &&& model.acodec == opt_text(out.acodec)
            &&& model.subtitle_tracks == texts(out.subtitles@)
            &&& model.content_length is None
            &&& model.cookies.len() == 0
            &&& out.width is None ==> model.width is None
            &&& out.width matches Some(w) ==> (0 <= w <= u32::MAX ==> model.width == Some(w as u32))
            &&& out.height is None ==> model.height is None
            &&& out.height matches Some(h) ==> (0 <= h <= u32::MAX ==> model.height == Some(
                h as u32,
            ))
            &&& out.format is None ==> model.category == UrlCategory::DirectMedia
        }),
{
}

/// A number beyond 32 bits keeps the low ones.
pub proof fn law_low_bits(n: i64, k: int)
    requires
        0 <= n + k * 0x1_0000_0000 <= u32::MAX,
    ensures
        low32(n) == n + k * 0x1_0000_0000,
{
    assert(n % 0x1_0000_0000 == n + k * 0x1_0000_0000) by (nonlinear_arith)
        requires
            0 <= n + k * 0x1_0000_0000 <= 0xffff_ffff,
    ;
}

/// A format that speaks of HLS or DASH is a manifest, HLS before DASH, and
/// every other one a file.
pub proof fn law_format_category(format: Seq<char>)
    ensures
        category_of_format(Some(format)) == UrlCategory::HlsManifest <==> contains(format, "hls"@),
        category_of_format(Some(format)) == UrlCategory::DashManifest <==> contains(format, "dash"@)
            && !contains(format, "hls"@),
        category_of_format(Some(format)) == UrlCategory::DirectMedia <==> !contains(format, "dash"@)
            && !contains(format, "hls"@),
{
}

/// Whether a text is there and holds a word.
pub open spec fn speaks_of(text: Option<Seq<char>>, word: Seq<char>) -> bool {
    text matches Some(t) && contains(t, word)
}

/// The MIME type goes by the codecs: VP9, AV1 and WebM are `video/webm`, other
/// video is `video/mp4`; Opus, and audio in WebM, is `audio/ogg`, other audio
/// `audio/mp4`.
pub proof fn law_codec_type(
    category: UrlCategory,
    vcodec: Option<Seq<char>>,
    acodec: Option<Seq<char>>,
    format: Option<Seq<char>>,
)
    ensures
        ({
            let r = mime_of_codecs(category, vcodec, acodec, format);
            let video = vcodec matches Some(c) && c != "none"@;
            let audio = acodec matches Some(c) && c != "none"@;
            let web = speaks_of(vcodec, "vp9"@) || speaks_of(vcodec, "vp09"@) || speaks_of(
                vcodec,
                "av1"@,
            ) || speaks_of(format, "webm"@);
            let free = speaks_of(acodec, "opus"@) || speaks_of(format, "webm"@);
            &&& category == UrlCategory::Magnet ==> r == Some("application/x-magnet"@)
            &&& category != UrlCategory::Magnet && video && web ==> r == Some("video/webm"@)
            &&& category != UrlCategory::Magnet && video && !web ==> r == Some("video/mp4"@)
            &&& category != UrlCategory::Magnet && !video && audio && free ==> r == Some(
                "audio/ogg"@,
            )
            &&& category != UrlCategory::Magnet && !video && audio && !free ==> r == Some(
                "audio/mp4"@,
            )
            &&& category != UrlCategory::Magnet && !video && !audio ==> r is None
        }),
{
}

// ---------------------------------------------------------------------------
// Arguments
// ---------------------------------------------------------------------------

/// Whether an argument is followed by a value.
pub open spec fn passes(args: Seq<Seq<char>>, k: int, flag: Seq<char>, value: Seq<char>) -> bool {
    0 <= k && k + 1 < args.len() && args[k] == flag && args[k + 1] == value
}

/// The subprocess is told to print what it finds and download nothing, to go
/// through the given proxy, to choose H.264 of up to 1080 lines, to give up
/// after 30 seconds, and to write below the given directory; the address comes
/// last.
pub proof fn law_arguments(
    url: Seq<char>,
    proxy: Seq<char>,
    temp_dir: Seq<char>,
    extract_subs: bool,
)
    ensures
        ({
            let args = ytdlp_arguments(url, proxy, temp_dir, extract_subs);
            &&& args.contains("--dump-json"@)
            &&& args.contains("--no-download"@)
            &&& args.contains("--no-warnings"@)
            &&& exists|k: int| passes(args, k, "--proxy"@, proxy)
            &&& exists|k: int| passes(args, k, "--socket-timeout"@, "30"@)
            &&& exists|k: int| passes(args, k, "--paths"@, temp_dir)
            &&& exists|k: int|
                passes(
                    args,
                    k,
                    "--format"@,
                    "best[vcodec^=avc1][height<=1080]/best[height<=1080]/bestvideo[vcodec^=avc1][height<=1080]+bestaudio"@,
                )
            &&& args.last() == url
            &&& extract_subs ==> {
                &&& args.contains("--write-subs"@)
                &&& args.contains("--write-auto-subs"@)
                &&& exists|k: int| passes(args, k, "--sub-langs"@, "en,es,fr,de"@)
                &&& exists|k: int| passes(args, k, "--sub-format"@, "vtt"@)
                &&& args.len() == 18
            }
            &&& !extract_subs ==> args.len() == 12
        }),
{
    let args = ytdlp_arguments(url, proxy, temp_dir, extract_subs);
    assert(args[0] == "--dump-json"@);
    assert(args[1] == "--no-download"@);
    assert(args[2] == "--no-warnings"@);
    assert(passes(args, 3, "--socket-timeout"@, "30"@));
    assert(passes(args, 5, "--proxy"@, proxy));
    assert(passes(
        args,
        7,
        "--format"@,
        "best[vcodec^=avc1][height<=1080]/best[height<=1080]/bestvideo[vcodec^=avc1][height<=1080]+bestaudio"@,
    ));
    assert(passes(args, 9, "--paths"@, temp_dir));
    if extract_subs {
        assert(args[11] == "--write-subs"@);
        assert(args[12] == "--write-auto-subs"@);
        assert(passes(args, 13, "--sub-langs"@, "en,es,fr,de"@));
        assert(passes(args, 15, "--sub-format"@, "vtt"@));
    }
}

/// A proxy address names the user that isolates the stream, and where it is;
/// host names are resolved on its side.
pub proof fn law_proxy_address(user: Seq<char>, address: Seq<char>)
    ensures
        isolated_proxy(user, address) == "socks5h://"@ + user + "@"@ + address,
{
}

// ---------------------------------------------------------------------------
// Failures
// ---------------------------------------------------------------------------

/// The first line of a text is what stands before its first line feed, and
/// before a carriage return there.
pub proof fn law_first_line(line: Seq<char>, rest: Seq<char>)
    requires
        forall|i: int| 0 <= i < line.len() ==> #[trigger] line[i] != '\n' && line[i] != '\r',
    ensures
        first_line(line + "\n"@ + rest) == Some(line),
        first_line(line + "\r\n"@ + rest) == Some(line),
        line.len() > 0 ==> first_line(line) == Some(line),
        first_line(Seq::empty()) is None,
{
    reveal_strlit("\n");
    reveal_strlit("\r\n");
    let a = line + "\n"@ + rest;
    let b = line + "\r\n"@ + rest;
    crate::text::lemma_char_index(a, '\n', 0);
    crate::text::lemma_char_index(b, '\n', 0);
    crate::text::lemma_char_index(line, '\n', 0);
    let n = line.len() as int;
    assert(a[n] == '\n');
    assert(b[n] == '\r');
    assert(b[n + 1] == '\n');
    let i = crate::text::char_index(a, '\n', 0);
    if i < n {
        assert(a[i] == line[i]);
    }
    assert(i == n);
    if n > 0 {
        assert(a[n - 1] == line[n - 1]);
    }
    assert(a.take(n) =~= line);
    let j = crate::text::char_index(b, '\n', 0);
    if j < n {
        assert(b[j] == line[j]);
    }
    assert(j == n + 1);
    assert(b.take(n) =~= line);
}

/// Negative numbers are written with a sign.
pub proof fn law_integer_written(n: int)
    ensures
        n >= 0 ==> integer_text(n) == decimal_text(n as nat),
        n < 0 ==> integer_text(n) == "-"@ + decimal_text((-n) as nat),
{
}

/// What is said where nothing can be played.
pub proof fn law_no_address_said()
    ensures
        no_playable_url() == ResolveFault::NoMediaFound(
            "yt-dlp returned no playable URL (neither top-level `url` nor `requested_formats`)"@,
        ),
{
}

} // verus!
