//! The Voe resolver: undoing the player's obfuscation, and the steps from a
//! page address to a playable link.

use crate::codec::{
    activation_encoded, activation_plain, b64_cleaned, b64_decode, b64_text, base64_decode,
    clean_base64, encode_activation, is_b64_char, lowered, remove_each, replace_patterns, rot13,
    rot13_text, safe_b64_decode, shift_chars, voe_markers,
};
use crate::deobfuscation::{capture, captured, chain_output, has_rq, is_hls, is_hls_url};
use crate::json::{
    filled_member, json_object_text, json_parse, json_strings, member, parse_json, parse_strings,
    write_string_object, Json, Tree,
};
use crate::links::{join_url, parse_url, url_join, url_parse, UrlModel};
use crate::markup::{element_texts, select_texts};
use crate::media::{
    build_result, custom_result, decoy, extract_link_from_text, extract_media_from_json_value,
    extract_thumbnail, extract_title, is_decoy, link_in_text, media_link, open_link, page_thumbnail,
    page_title, try_fallback_urls,
};
use crate::provider::StepModel;
use crate::resolver::{host_or, ResolveError, ResolveFault, ResolveResult};
use crate::text::{
    join2, join3, opt_str, opt_text, owned, push_text, remove_all, same_text, starts_with,
    str_contains, str_reverse, str_starts_with, str_trim, str_without_char, string_from_utf8,
    text_pairs, texts, trim, without_char,
};
use vstd::prelude::*;
use vstd::utf8::{decode_utf8, valid_utf8};

verus! {

// ---------------------------------------------------------------------------
// Decoding
// ---------------------------------------------------------------------------

/// The inner half of the Voe obfuscation: Base64, shifted by three, reversed,
/// Base64 again.
pub open spec fn inner_plain(stripped: Seq<char>) -> Option<Seq<char>> {
    match b64_text(stripped) {
        Some(shifted) => b64_text(lowered(shifted, 3).reverse()),
        None => None,
    }
}

/// The text behind the blob of an embedded JSON script.
pub open spec fn script_plain(blob: Seq<char>) -> Option<Seq<char>> {
    inner_plain(remove_each(rot13_text(blob), voe_markers()))
}

/// The text behind the `MKGMa` variable.
pub open spec fn mkgma_plain(blob: Seq<char>) -> Option<Seq<char>> {
    inner_plain(without_char(rot13_text(blob), '_'))
}

/// The text behind the `a168c` variable: reversed Base64.
pub open spec fn a168c_plain(blob: Seq<char>) -> Option<Seq<char>> {
    match b64_cleaned(blob) {
        Some(clean) => match b64_decode(clean) {
            Some(bytes) => if valid_utf8(bytes) {
                Some(decode_utf8(bytes).reverse())
            } else {
                None
            },
            None => None,
        },
        None => None,
    }
}

fn decode_inner(stripped: &str) -> (r: Option<String>)
    ensures
        opt_text(r) == inner_plain(stripped@),
{
    match safe_b64_decode(stripped) {
        Some(shifted) => {
            let lowered_text = shift_chars(shifted.as_str(), 3);
            let reversed = str_reverse(lowered_text.as_str());
            safe_b64_decode(reversed.as_str())
        },
        None => None,
    }
}

/// The text behind the blob of an embedded JSON script.
pub fn decode_script(blob: &str) -> (r: Option<String>)
    ensures
        opt_text(r) == script_plain(blob@),
{
    let rotated = rot13(blob);
    let stripped = replace_patterns(rotated.as_str());
    decode_inner(stripped.as_str())
}

/// The text behind the `MKGMa` variable.
pub fn decode_mkgma(blob: &str) -> (r: Option<String>)
    ensures
        opt_text(r) == mkgma_plain(blob@),
{
    let rotated = rot13(blob);
    let stripped = str_without_char(rotated.as_str(), '_');
    decode_inner(stripped.as_str())
}

/// The text behind the `a168c` variable.
pub fn decode_a168c(blob: &str) -> (r: Option<String>)
    ensures
        opt_text(r) == a168c_plain(blob@),
{
    match clean_base64(blob) {
        Some(clean) => match base64_decode(clean.as_str()) {
            Some(bytes) => match string_from_utf8(bytes) {
                Some(text) => Some(str_reverse(text.as_str())),
                None => None,
            },
            None => None,
        },
        None => None,
    }
}

// ---------------------------------------------------------------------------
// Links in the decoded text
// ---------------------------------------------------------------------------

/// A link with the request token appended, where it has none yet.
pub open spec fn authorized(url: Seq<char>, token: Option<Seq<char>>) -> Seq<char> {
    match token {
        Some(t) => if has_rq(url) {
            url
        } else {
            url + "&rq="@ + t
        },
        None => url,
    }
}

/// The link in an embedded JSON script's document. In order: the direct
/// download unless it is HLS, the player's source, the MP4 levels, HLS.
pub open spec fn script_document_link(tree: Tree) -> Option<Seq<char>> {
    let token = filled_member(tree, "request"@);
    let direct = filled_member(tree, "direct_access_url"@);
    let source = filled_member(tree, "source"@);
    let mp4 = match member(tree, "mp4"@) {
        Some(value) => media_link(value),
        None => None,
    };
    if direct is Some && !is_hls(direct->0) {
        Some(authorized(direct->0, token))
    } else if source is Some {
        source
    } else if mp4 is Some {
        Some(authorized(mp4->0, token))
    } else {
        filled_member(tree, "hls"@)
    }
}

/// A link that is there and no decoy.
pub open spec fn genuine(url: Option<Seq<char>>) -> Option<Seq<char>> {
    match url {
        Some(u) => if decoy(u) {
            None
        } else {
            Some(u)
        },
        None => None,
    }
}

/// The link in a variable's document. In order, decoys left out: the player's
/// source, the MP4 levels, the direct download, HLS.
pub open spec fn variable_document_link(tree: Tree) -> Option<Seq<char>> {
    let source = genuine(filled_member(tree, "source"@));
    let mp4 = match member(tree, "mp4"@) {
        Some(value) => genuine(media_link(value)),
        None => None,
    };
    let direct = genuine(filled_member(tree, "direct_access_url"@));
    if source is Some {
        source
    } else if mp4 is Some {
        mp4
    } else if direct is Some {
        direct
    } else {
        genuine(filled_member(tree, "hls"@))
    }
}

/// The link in the decoded text of a script: that of its document, else the
/// first one in the text.
pub open spec fn script_text_link(text: Seq<char>) -> Option<Seq<char>> {
    match json_parse(text) {
        Ok(tree) => if script_document_link(tree) is Some {
            script_document_link(tree)
        } else {
            link_in_text(text)
        },
        Err(_) => link_in_text(text),
    }
}

/// The link in the decoded text of a variable.
pub open spec fn variable_text_link(text: Seq<char>) -> Option<Seq<char>> {
    match json_parse(text) {
        Ok(tree) => if variable_document_link(tree) is Some {
            variable_document_link(tree)
        } else {
            link_in_text(text)
        },
        Err(_) => link_in_text(text),
    }
}

/// The link behind the obfuscated JSON array of a script tag.
pub open spec fn script_link(raw: Seq<char>) -> Option<Seq<char>> {
    match json_strings(raw) {
        Some(items) => if items.len() > 0 {
            match script_plain(items[0]) {
                Some(text) => script_text_link(text),
                None => None,
            }
        } else {
            None
        },
        None => None,
    }
}

fn authorize(url: &str, token: &Option<String>) -> (r: String)
    ensures
        r@ == authorized(url@, opt_text(*token)),
{
    match token {
        Some(t) => if str_contains(url, "&rq=") || str_contains(url, "?rq=") {
            owned(url)
        } else {
            join3(url, "&rq=", t.as_str())
        },
        None => owned(url),
    }
}

/// The link in an embedded JSON script's document.
pub fn link_of_script_document(document: &Json) -> (r: Option<String>)
    ensures
        opt_text(r) == script_document_link(document@),
{
    let token = document.get_filled("request");
    match document.get_filled("direct_access_url") {
        Some(url) => {
            if !is_hls_url(url.as_str()) {
                return Some(authorize(url.as_str(), &token));
            }
        },
        None => {},
    }
    match document.get_filled("source") {
        Some(url) => {
            return Some(url);
        },
        None => {},
    }
    match document.get("mp4") {
        Some(value) => match extract_media_from_json_value(value) {
            Some(url) => {
                return Some(authorize(url.as_str(), &token));
            },
            None => {},
        },
        None => {},
    }
    document.get_filled("hls")
}

fn keep_genuine(url: Option<String>) -> (r: Option<String>)
    ensures
        opt_text(r) == genuine(opt_text(url)),
{
    match url {
        Some(u) => if is_decoy(u.as_str()) {
            None
        } else {
            Some(u)
        },
        None => None,
    }
}

/// The link in a variable's document.
pub fn link_of_variable_document(document: &Json) -> (r: Option<String>)
    ensures
        opt_text(r) == variable_document_link(document@),
{
    let source = keep_genuine(document.get_filled("source"));
    if source.is_some() {
        return source;
    }
    match document.get("mp4") {
        Some(value) => {
            let mp4 = keep_genuine(extract_media_from_json_value(value));
            if mp4.is_some() {
                return mp4;
            }
        },
        None => {},
    }
    let direct = keep_genuine(document.get_filled("direct_access_url"));
    if direct.is_some() {
        return direct;
    }
    keep_genuine(document.get_filled("hls"))
}

fn link_of_script_text(text: &str) -> (r: Option<String>)
    ensures
        opt_text(r) == script_text_link(text@),
{
    match parse_json(text) {
        Ok(document) => match link_of_script_document(&document) {
            Some(url) => Some(url),
            None => extract_link_from_text(text),
        },
        Err(_) => extract_link_from_text(text),
    }
}

fn link_of_variable_text(text: &str) -> (r: Option<String>)
    ensures
        opt_text(r) == variable_text_link(text@),
{
    match parse_json(text) {
        Ok(document) => match link_of_variable_document(&document) {
            Some(url) => Some(url),
            None => extract_link_from_text(text),
        },
        Err(_) => extract_link_from_text(text),
    }
}

/// Decode the obfuscated JSON array found in a script tag.
pub fn deobfuscate_embedded_json(raw_json: &str) -> (r: Option<String>)
    ensures
        opt_text(r) == script_link(raw_json@),
{
    match parse_strings(raw_json) {
        Some(items) => {
            if items.len() == 0 {
                return None;
            }
            assert(texts(items@)[0] == items@[0]@);
            match decode_script(items[0].as_str()) {
                Some(text) => link_of_script_text(text.as_str()),
                None => None,
            }
        },
        None => None,
    }
}

// ---------------------------------------------------------------------------
// Links in a page
// ---------------------------------------------------------------------------

/// The first genuine link behind the script tags from `i` on.
pub open spec fn script_tags_link(found: Seq<Seq<char>>, i: int) -> Option<Seq<char>>
    decreases found.len() - i,
{
    if i < 0 || i >= found.len() {
        None
    } else {
        let raw = trim(found[i]);
        if raw.len() > 0 && genuine(script_link(raw)) is Some {
            script_link(raw)
        } else {
            script_tags_link(found, i + 1)
        }
    }
}

/// Method 8: the embedded JSON script tags.
pub open spec fn method8(html: Seq<char>) -> Option<Seq<char>> {
    match element_texts(html, "script[type='application/json']"@) {
        Some(found) => script_tags_link(found, 0),
        None => None,
    }
}

/// Method 7: the `MKGMa` variable.
pub open spec fn method7(html: Seq<char>) -> Option<Seq<char>> {
    match captured(r#"MKGMa="(.*?)""#@, html) {
        Some(blob) => match mkgma_plain(blob) {
            Some(text) => variable_text_link(text),
            None => None,
        },
        None => None,
    }
}

/// Method 6: the `a168c` variable.
pub open spec fn method6(html: Seq<char>) -> Option<Seq<char>> {
    match captured(r#"a168c\s*=\s*'([^']+)'"#@, html) {
        Some(blob) => match a168c_plain(blob) {
            Some(text) => variable_text_link(text),
            None => None,
        },
        None => None,
    }
}

/// The media link of a Voe page: the first method that finds one, the newest
/// obfuscation first and openly shown links last.
pub open spec fn page_link(html: Seq<char>) -> Option<Seq<char>> {
    if method8(html) is Some {
        method8(html)
    } else if method7(html) is Some {
        method7(html)
    } else if method6(html) is Some {
        method6(html)
    } else {
        open_link(html)
    }
}

/// The first genuine link behind the texts of script tags.
pub fn link_of_script_tags(found: &Vec<String>) -> (r: Option<String>)
    ensures
        opt_text(r) == script_tags_link(texts(found@), 0),
{
    let mut i: usize = 0;
    while i < found.len()
        invariant
            i <= found@.len(),
            script_tags_link(texts(found@), 0) == script_tags_link(texts(found@), i as int),
        decreases found.len() - i,
    {
        assert(texts(found@)[i as int] == found@[i as int]@);
        let raw = str_trim(found[i].as_str());
        if !raw.as_str().is_empty() {
            match deobfuscate_embedded_json(raw.as_str()) {
                Some(url) => {
                    if !is_decoy(url.as_str()) {
                        return Some(url);
                    }
                },
                None => {},
            }
        }
        i = i + 1;
    }
    None
}

/// Decode the obfuscated JSON found in the script tags of a page.
pub fn try_method8(html: &str) -> (r: Option<String>)
    ensures
        opt_text(r) == method8(html@),
{
    match select_texts(html, "script[type='application/json']") {
        Some(found) => link_of_script_tags(&found),
        None => None,
    }
}

/// Decode the `MKGMa` variable of a page.
pub fn try_method7(html: &str) -> (r: Option<String>)
    ensures
        opt_text(r) == method7(html@),
{
    match capture(r#"MKGMa="(.*?)""#, html) {
        Some(blob) => match decode_mkgma(blob.as_str()) {
            Some(text) => link_of_variable_text(text.as_str()),
            None => None,
        },
        None => None,
    }
}

/// Decode the `a168c` variable of a page.
pub fn try_method6(html: &str) -> (r: Option<String>)
    ensures
        opt_text(r) == method6(html@),
{
    match capture(r#"a168c\s*=\s*'([^']+)'"#, html) {
        Some(blob) => match decode_a168c(blob.as_str()) {
            Some(text) => link_of_variable_text(text.as_str()),
            None => None,
        },
        None => None,
    }
}

/// The media link of a Voe page.
pub fn find_page_link(html: &str) -> (r: Option<String>)
    ensures
        opt_text(r) == page_link(html@),
{
    match try_method8(html) {
        Some(url) => Some(url),
        None => match try_method7(html) {
            Some(url) => Some(url),
            None => match try_method6(html) {
                Some(url) => Some(url),
                None => try_fallback_urls(html),
            },
        },
    }
}

// ---------------------------------------------------------------------------
// Script redirects
// ---------------------------------------------------------------------------

/// Patterns of script redirects, in the order of trying.
pub open spec fn redirect_patterns() -> Seq<Seq<char>> {
    seq![
        r#"window\.location\.href\s*=\s*['"]([^'"]+)['"]"#@,
        r#"window\.location\s*=\s*['"]([^'"]+)['"]"#@,
        r#"location\.href\s*=\s*['"]([^'"]+)['"]"#@,
        r#"window\.location\.replace\(['"]([^'"]+)['"]\)"#@,
    ]
}

/// Where a redirect leads: absolute addresses as they are, others relative to
/// the page.
pub open spec fn redirect_target(target: Seq<char>, page_url: Seq<char>) -> Option<Seq<char>> {
    if starts_with(target, "http"@) {
        Some(target)
    } else {
        url_join(page_url, target)
    }
}

/// Where a page redirects to, by the patterns from `i` on; the page itself
/// where no pattern leads anywhere.
pub open spec fn redirected(html: Seq<char>, page_url: Seq<char>, i: int) -> Seq<char>
    decreases redirect_patterns().len() - i,
{
    if i < 0 || i >= redirect_patterns().len() {
        page_url
    } else {
        let target = match captured(redirect_patterns()[i], html) {
            Some(t) => redirect_target(t, page_url),
            None => None,
        };
        if target is Some {
            target->0
        } else {
            redirected(html, page_url, i + 1)
        }
    }
}

/// Follow script redirects in a page; the page's own address where there are
/// none.
pub fn follow_js_redirect(html: &str, original_url: &str) -> (r: String)
    ensures
        r@ == redirected(html@, original_url@, 0),
{
    let patterns: [&str; 4] = [
        r#"window\.location\.href\s*=\s*['"]([^'"]+)['"]"#,
        r#"window\.location\s*=\s*['"]([^'"]+)['"]"#,
        r#"location\.href\s*=\s*['"]([^'"]+)['"]"#,
        r#"window\.location\.replace\(['"]([^'"]+)['"]\)"#,
    ];
    assert(forall|k: int| 0 <= k < 4 ==> (#[trigger] patterns@[k])@ == redirect_patterns()[k]);
    let mut i: usize = 0;
    while i < 4
        invariant
            i <= 4,
            patterns@.len() == 4,
            forall|k: int| 0 <= k < 4 ==> (#[trigger] patterns@[k])@ == redirect_patterns()[k],
            redirected(html@, original_url@, 0) == redirected(html@, original_url@, i as int),
        decreases 4 - i,
    {
        match capture(patterns[i], html) {
            Some(target) => {
                if str_starts_with(target.as_str(), "http") {
                    return target;
                }
                match join_url(original_url, target.as_str()) {
                    Some(joined) => {
                        return joined;
                    },
                    None => {},
                }
            },
            None => {},
        }
        i = i + 1;
    }
    owned(original_url)
}

// ---------------------------------------------------------------------------
// Session activation
// ---------------------------------------------------------------------------

/// A request that activates a download session.
#[derive(Debug)]
pub struct Activation {
    /// Where to post.
    pub url: String,
    /// The form body.
    pub body: String,
}

/// Members of the activation payload.
pub open spec fn activation_fields(file_code: Seq<char>) -> Seq<(Seq<char>, Seq<char>)> {
    seq![
        ("c3d"@, file_code),
        ("g7h"@, "0"@),
        ("i9j"@, ""@),
        (
            "k1l"@,
            "ANGLE (NVIDIA, NVIDIA GeForce GTX 1060 6GB Direct3D11 vs_5_0 ps_5_0, D3D11)"@,
        ),
        ("a1b"@, ""@),
        ("e5f"@, ""@),
        ("m2n"@, ""@),
        ("o3p"@, ""@),
    ]
}

/// Where the activation request of a page goes.
pub open spec fn activation_url(page: UrlModel) -> Seq<char> {
    page.scheme + "://"@ + host_or(page, "localhost"@) + "/engine/update"@
}

/// The last segment of a URL's path, where it is not empty.
pub open spec fn last_segment(url: UrlModel) -> Option<Seq<char>> {
    match url.segments {
        Some(parts) => if parts.len() > 0 && parts.last().len() > 0 {
            Some(parts.last())
        } else {
            None
        },
        None => None,
    }
}

/// The file code of a page: the last segment of its address.
pub open spec fn file_code_of(url: Seq<char>) -> Option<Seq<char>> {
    match url_parse(url) {
        Ok(parts) => last_segment(parts),
        Err(_) => None,
    }
}

/// The file code of a page: the last segment of its address.
pub fn file_code(url: &str) -> (r: Option<String>)
    ensures
        opt_text(r) == file_code_of(url@),
{
    match parse_url(url) {
        Ok(parts) => match &parts.segments {
            Some(list) => {
                if list.len() == 0 {
                    return None;
                }
                let last = &list[list.len() - 1];
                assert(texts(list@).last() == last@);
                if last.as_str().is_empty() {
                    None
                } else {
                    Some(owned(last.as_str()))
                }
            },
            None => None,
        },
        Err(_) => None,
    }
}

/// The request that activates the download session of a page. There is none
/// where the page's address cannot be parsed.
pub fn voe_engine_update(page_url: &str, file_code: Option<&str>) -> (r: Option<Activation>)
    ensures
        ({
            let fields = activation_fields(
                match opt_str(file_code) {
                    Some(code) => code,
                    None => ""@,
                },
            );
            match url_parse(page_url@) {
                Ok(page) => {
                    let payload = json_object_text(fields);
                    &&& payload is Some
                    &&& r matches Some(a) && a.url@ == activation_url(page) && a.body@ == "data="@
                        + activation_encoded(payload->0)
                    &&& activation_plain(activation_encoded(payload->0)) == payload
                },
                Err(_) => r is None,
            }
        }),
{
    let page = match parse_url(page_url) {
        Ok(page) => page,
        Err(_) => {
            return None;
        },
    };
    let host = match &page.host {
        Some(host) => owned(host.as_str()),
        None => owned("localhost"),
    };
    let mut url = join3(page.scheme.as_str(), "://", host.as_str());
    push_text(&mut url, "/engine/update");
    let code = match file_code {
        Some(code) => owned(code),
        None => owned(""),
    };
    let fields: Vec<(String, String)> = vec![
        (owned("c3d"), code),
        (owned("g7h"), owned("0")),
        (owned("i9j"), owned("")),
        (
            owned("k1l"),
            owned("ANGLE (NVIDIA, NVIDIA GeForce GTX 1060 6GB Direct3D11 vs_5_0 ps_5_0, D3D11)"),
        ),
        (owned("a1b"), owned("")),
        (owned("e5f"), owned("")),
        (owned("m2n"), owned("")),
        (owned("o3p"), owned("")),
    ];
    assert(text_pairs(fields@) =~= activation_fields(code@));
    match write_string_object(fields) {
        Some(payload) => {
            let encoded = encode_activation(payload.as_str());
            let body = join2("data=", encoded.as_str());
            Some(Activation { url, body })
        },
        None => None,
    }
}

// ---------------------------------------------------------------------------
// Resolution
// ---------------------------------------------------------------------------

/// What resolving a Voe page came to.
#[derive(Debug)]
pub struct VoeOutcome {
    /// The result.
    pub result: ResolveResult,
    /// The request to send before the result is used.
    pub activation: Option<Activation>,
}

/// What to do next when resolving a Voe page.
#[derive(Debug)]
pub enum VoeStep {
    /// Fetch the page that the first one redirects to, with the first one as
    /// referer, and go on with [`voe_finish`].
    Follow { url: String },
    /// Done.
    Done(Result<VoeOutcome, ResolveError>),
}

/// Whether an outcome is what the final page of a Voe address comes to. The
/// result is reported under the submitted address; the activation goes to the
/// host of the final page.
pub open spec fn voe_outcome(
    r: Result<VoeOutcome, ResolveError>,
    url: Seq<char>,
    final_url: Seq<char>,
    html: Seq<char>,
    cookies: Seq<Seq<char>>,
) -> bool {
    match page_link(html) {
        Some(link) => {
            &&& r is Ok
            &&& r->Ok_0.result@ == custom_result(
                url,
                link,
                page_title(html),
                page_thumbnail(html),
                cookies,
            )
            &&& match url_parse(final_url) {
                Ok(page) => {
                    let payload = json_object_text(activation_fields(code_or_empty(url)));
                    &&& payload is Some
                    &&& r->Ok_0.activation matches Some(a) && a.url@ == activation_url(page)
                        && a.body@ == "data="@ + activation_encoded(payload->0)
                    &&& activation_plain(activation_encoded(payload->0)) == payload
                },
                Err(_) => r->Ok_0.activation is None,
            }
        },
        None => {
            &&& r is Err
            &&& r->Err_0@ == ResolveFault::NoMediaFound(
                "Voe resolver: could not extract media URL from "@ + final_url,
            )
        },
    }
}

/// The file code of a page, empty where it has none.
pub open spec fn code_or_empty(url: Seq<char>) -> Seq<char> {
    match file_code_of(url) {
        Some(code) => code,
        None => ""@,
    }
}

/// Goes on after the first page was fetched: follows its redirect, or reads it.
pub fn voe_after_first_page(url: &str, html: &str, cookies: Vec<String>) -> (r: VoeStep)
    ensures
        match r {
            VoeStep::Follow { url: target } => target@ == redirected(html@, url@, 0) && target@
                != url@,
            VoeStep::Done(outcome) => redirected(html@, url@, 0) == url@ && voe_outcome(
                outcome,
                url@,
                url@,
                html@,
                texts(cookies@),
            ),
        },
{
    let target = follow_js_redirect(html, url);
    if same_text(target.as_str(), url) {
        VoeStep::Done(voe_finish(url, url, html, cookies))
    } else {
        VoeStep::Follow { url: target }
    }
}

/// Reads the final page of a Voe address, `url` being the submitted one.
/// `cookies` are those of all pages fetched on the way.
pub fn voe_finish(url: &str, final_url: &str, html: &str, cookies: Vec<String>) -> (r: Result<
    VoeOutcome,
    ResolveError,
>)
    ensures
        voe_outcome(r, url@, final_url@, html@, texts(cookies@)),
{
    match find_page_link(html) {
        Some(link) => {
            let title = extract_title(html);
            let thumbnail = extract_thumbnail(html);
            let code = file_code(url);
            let activation = match &code {
                Some(c) => voe_engine_update(final_url, Some(c.as_str())),
                None => voe_engine_update(final_url, None),
            };
            let result = build_result(url, link.as_str(), &title, &thumbnail, cookies);
            Ok(VoeOutcome { result, activation })
        },
        None => Err(
            ResolveError::NoMediaFound(
                join2("Voe resolver: could not extract media URL from ", final_url),
            ),
        ),
    }
}

// ---------------------------------------------------------------------------
// Laws
// ---------------------------------------------------------------------------

/// A result is reported under the submitted address, wherever the page
/// redirects to.
pub proof fn lemma_voe_keeps_address(
    r: Result<VoeOutcome, ResolveError>,
    url: Seq<char>,
    final_url: Seq<char>,
    html: Seq<char>,
    cookies: Seq<Seq<char>>,
)
    requires
        voe_outcome(r, url, final_url, html, cookies),
    ensures
        r matches Ok(outcome) ==> outcome.result@.source_url == url,
{
}

/// The steps that undo the obfuscation of an embedded JSON script.
pub open spec fn script_steps() -> Seq<StepModel> {
    seq![
        StepModel::Rot13,
        StepModel::StripMarkers(voe_markers()),
        StepModel::Base64Decode,
        StepModel::CharShift(3),
        StepModel::Reverse,
        StepModel::Base64Decode,
    ]
}

/// Decoding a script is running the pipeline of its steps.
pub proof fn lemma_script_is_pipeline(blob: Seq<char>)
    ensures
        script_plain(blob) == chain_output(script_steps(), blob),
{
    let s = script_steps();
    reveal_with_fuel(chain_output, 7);
    assert(s.skip(1)[0] == s[1]);
    assert(s.skip(1).skip(1)[0] == s[2]);
    assert(s.skip(1).skip(1).skip(1)[0] == s[3]);
    assert(s.skip(1).skip(1).skip(1).skip(1)[0] == s[4]);
    assert(s.skip(1).skip(1).skip(1).skip(1).skip(1)[0] == s[5]);
}

/// A piece of an obfuscated text: a character of its payload, or a separator.
pub enum Piece {
    Payload(char),
    Separator(int),
}

/// The written form of a piece.
pub open spec fn piece_text(piece: Piece) -> Seq<char> {
    match piece {
        Piece::Payload(c) => seq![c],
        Piece::Separator(k) => voe_markers()[k],
    }
}

/// The written form of a list of pieces.
pub open spec fn pieces_text(pieces: Seq<Piece>) -> Seq<char>
    decreases pieces.len(),
{
    if pieces.len() == 0 {
        Seq::empty()
    } else {
        piece_text(pieces[0]) + pieces_text(pieces.skip(1))
    }
}

/// The pieces without the separators numbered below `k`.
pub open spec fn without_separators(pieces: Seq<Piece>, k: int) -> Seq<Piece>
    decreases pieces.len(),
{
    if pieces.len() == 0 {
        Seq::empty()
    } else {
        let rest = without_separators(pieces.skip(1), k);
        match pieces[0] {
            Piece::Separator(j) if j < k => rest,
            p => seq![p] + rest,
        }
    }
}

/// Whether the payload is Base64, the separators are known ones, and no two of
/// them touch.
pub open spec fn well_scattered(pieces: Seq<Piece>) -> bool {
    forall|i: int|
        0 <= i < pieces.len() ==> match #[trigger] pieces[i] {
            Piece::Payload(c) => is_b64_char(c),
            Piece::Separator(k) => 0 <= k < 7 && (i + 1 < pieces.len() ==> pieces[i + 1]
                is Payload),
        }
}

proof fn lemma_markers()
    ensures
        voe_markers().len() == 7,
        forall|k: int| 0 <= k < 7 ==> (#[trigger] voe_markers()[k]).len() == 2,
        forall|k: int|
            0 <= k < 7 ==> !is_b64_char((#[trigger] voe_markers()[k])[0]) && !is_b64_char(
                voe_markers()[k][1],
            ),
        forall|j: int, k: int|
            0 <= j < 7 && 0 <= k < 7 && j != k ==> (#[trigger] voe_markers()[j]) != (
            #[trigger] voe_markers()[k]),
{
    reveal_strlit("@$");
    reveal_strlit("^^");
    reveal_strlit("~@");
    reveal_strlit("%?");
    reveal_strlit("*~");
    reveal_strlit("!!");
    reveal_strlit("#&");
    let m = voe_markers();
    assert(m[0][0] == '@' && m[1][0] == '^' && m[2][0] == '~' && m[3][0] == '%' && m[4][0] == '*'
        && m[5][0] == '!' && m[6][0] == '#');
    assert(m[0][1] == '$' && m[1][1] == '^' && m[2][1] == '@' && m[3][1] == '?' && m[4][1] == '~'
        && m[5][1] == '!' && m[6][1] == '&');
}

/// Removing one separator removes exactly its pieces.
proof fn lemma_remove_separator(pieces: Seq<Piece>, k: int)
    requires
        well_scattered(pieces),
        0 <= k < 7,
        forall|i: int|
            0 <= i < pieces.len() ==> ((#[trigger] pieces[i]) matches Piece::Separator(j) ==> j
                >= k),
    ensures
        remove_all(pieces_text(pieces), voe_markers()[k]) == pieces_text(
            without_separators(pieces, k + 1),
        ),
        well_scattered(without_separators(pieces, k + 1)),
        forall|i: int|
            0 <= i < without_separators(pieces, k + 1).len() ==> ((
            #[trigger] without_separators(pieces, k + 1)[i]) matches Piece::Separator(j) ==> j >= k
                + 1),
        pieces.len() > 0 && pieces[0] is Payload ==> without_separators(pieces, k + 1).len() > 0
            && without_separators(pieces, k + 1)[0] == pieces[0],
    decreases pieces.len(),
{
    lemma_markers();
    let mark = voe_markers()[k];
    let text = pieces_text(pieces);
    if pieces.len() > 0 {
        let rest = pieces.skip(1);
        assert(well_scattered(rest)) by {
            assert forall|i: int| 0 <= i < rest.len() implies match #[trigger] rest[i] {
                Piece::Payload(c) => is_b64_char(c),
                Piece::Separator(k) => 0 <= k < 7 && (i + 1 < rest.len() ==> rest[i + 1]
                    is Payload),
            } by {
                assert(rest[i] == pieces[i + 1]);
                if i + 1 < rest.len() {
                    assert(rest[i + 1] == pieces[i + 2]);
                }
            }
        }
        assert forall|i: int| 0 <= i < rest.len() implies ((
        #[trigger] rest[i]) matches Piece::Separator(j) ==> j >= k) by {
            assert(rest[i] == pieces[i + 1]);
        }
        lemma_remove_separator(rest, k);
        let tail = pieces_text(rest);
        let kept = without_separators(rest, k + 1);
        let all = without_separators(pieces, k + 1);
        match pieces[0] {
            Piece::Payload(c) => {
                assert(text == seq![c] + tail);
                assert(!starts_with(text, mark)) by {
                    if starts_with(text, mark) {
                        assert(text.subrange(0, 2)[0] == c);
                    }
                }
                assert(text.skip(1) =~= tail);
                assert(all == seq![pieces[0]] + kept);
                assert(all.skip(1) =~= kept);
                assert(all[0] == pieces[0]);
            },
            Piece::Separator(j) => {
                let other = voe_markers()[j];
                assert(text == other + tail);
                if j == k {
                    assert(text.subrange(0, 2) =~= mark);
                    assert(starts_with(text, mark));
                    assert(text.skip(2) =~= tail);
                    assert(all == kept);
                } else {
                    assert(!starts_with(text, mark)) by {
                        if starts_with(text, mark) {
                            assert(text.subrange(0, 2) =~= other);
                        }
                    }
                    let second = text.skip(1);
                    assert(second =~= seq![other[1]] + tail);
                    assert(!starts_with(second, mark)) by {
                        if starts_with(second, mark) {
                            assert(second.subrange(0, 2)[1] == mark[1]);
                            assert(tail.len() > 0);
                            assert(tail[0] == mark[1]);
                            assert(rest.len() > 0);
                            assert(pieces[1] is Payload);
                            assert(rest[0] == pieces[1]);
                            assert(piece_text(rest[0])[0] == tail[0]);
                        }
                    }
                    assert(second.skip(1) =~= tail);
                    assert(remove_all(second, mark) == seq![other[1]] + remove_all(tail, mark));
                    assert(remove_all(text, mark) == seq![other[0]] + remove_all(second, mark));
                    assert(all == seq![pieces[0]] + kept);
                    assert(all.skip(1) =~= kept);
                    assert(pieces_text(all) =~= other + pieces_text(kept));
                    assert(remove_all(text, mark) =~= pieces_text(all));
                    assert(all[0] == pieces[0]);
                    if rest.len() > 0 {
                        assert(pieces[1] is Payload);
                        assert(rest[0] == pieces[1]);
                    } else {
                        assert(kept.len() == 0);
                    }
                }
            },
        }
        if all.len() > kept.len() {
            assert forall|i: int| 0 <= i < all.len() implies match #[trigger] all[i] {
                Piece::Payload(c) => is_b64_char(c),
                Piece::Separator(k) => 0 <= k < 7 && (i + 1 < all.len() ==> all[i + 1] is Payload),
            } by {
                if i > 0 {
                    assert(all[i] == kept[i - 1]);
                    if i + 1 < all.len() {
                        assert(all[i + 1] == kept[i]);
                    }
                } else if all.len() > 1 {
                    assert(all[1] == kept[0]);
                    if pieces[0] is Separator {
                        assert(rest.len() > 0);
                        assert(kept[0] == rest[0]);
                    }
                }
            }
            assert forall|i: int| 0 <= i < all.len() implies ((
            #[trigger] all[i]) matches Piece::Separator(j) ==> j >= k + 1) by {
                if i > 0 {
                    assert(all[i] == kept[i - 1]);
                }
            }
        }
    }
}

/// Removing the separators from `k` on, one after the other, leaves the payload.
proof fn lemma_remove_separators(pieces: Seq<Piece>, k: int)
    requires
        well_scattered(pieces),
        0 <= k <= 7,
        forall|i: int|
            0 <= i < pieces.len() ==> ((#[trigger] pieces[i]) matches Piece::Separator(j) ==> j
                >= k),
    ensures
        remove_each(pieces_text(pieces), voe_markers().skip(k)) == pieces_text(
            without_separators(pieces, 7),
        ),
    decreases 7 - k,
{
    lemma_markers();
    if k == 7 {
        lemma_nothing_to_separate(pieces);
        assert(voe_markers().skip(7).len() == 0);
    } else {
        lemma_remove_separator(pieces, k);
        let next = without_separators(pieces, k + 1);
        lemma_remove_separators(next, k + 1);
        lemma_separate_twice(pieces, k + 1);
        assert(voe_markers().skip(k)[0] == voe_markers()[k]);
        assert(voe_markers().skip(k).skip(1) =~= voe_markers().skip(k + 1));
    }
}

proof fn lemma_nothing_to_separate(pieces: Seq<Piece>)
    requires
        forall|i: int|
            0 <= i < pieces.len() ==> ((#[trigger] pieces[i]) matches Piece::Separator(j) ==> j
                >= 7),
    ensures
        without_separators(pieces, 7) == pieces,
    decreases pieces.len(),
{
    if pieces.len() > 0 {
        let rest = pieces.skip(1);
        assert forall|i: int| 0 <= i < rest.len() implies ((
        #[trigger] rest[i]) matches Piece::Separator(j) ==> j >= 7) by {
            assert(rest[i] == pieces[i + 1]);
        }
        lemma_nothing_to_separate(rest);
        assert(pieces[0] matches Piece::Separator(j) ==> j >= 7);
        assert(seq![pieces[0]] + rest =~= pieces);
    }
}

proof fn lemma_separate_twice(pieces: Seq<Piece>, k: int)
    requires
        k <= 7,
    ensures
        without_separators(without_separators(pieces, k), 7) == without_separators(pieces, 7),
    decreases pieces.len(),
{
    if pieces.len() > 0 {
        lemma_separate_twice(pieces.skip(1), k);
        let rest = without_separators(pieces.skip(1), k);
        match pieces[0] {
            Piece::Separator(j) if j < k => {},
            p => {
                let all = seq![p] + rest;
                assert(all.skip(1) =~= rest);
                assert(all[0] == p);
            },
        }
    }
}

/// Encoding undone. Let `outer` be Base64 for `inner` reversed and shifted up
/// by three, and `inner` Base64 for `text`. However the separators are
/// scattered over `outer`, as long as no two touch, the ROT13 of the outcome
/// decodes to `text`.
pub proof fn lemma_script_decodes(
    pieces: Seq<Piece>,
    outer: Seq<char>,
    inner: Seq<char>,
    text: Seq<char>,
)
    requires
        well_scattered(pieces),
        pieces_text(without_separators(pieces, 7)) == outer,
        b64_text(outer) == Some(crate::codec::raised(inner.reverse(), 3)),
        b64_text(inner) == Some(text),
        forall|i: int|
            0 <= i < inner.len() ==> crate::text::is_char_code((#[trigger] inner[i] as u32) + 3),
    ensures
        script_plain(rot13_text(pieces_text(pieces))) == Some(text),
{
    crate::codec::lemma_rot13_involution(pieces_text(pieces));
    lemma_remove_separators(pieces, 0);
    assert(voe_markers().skip(0) =~= voe_markers());
    assert forall|i: int| 0 <= i < inner.reverse().len() implies crate::text::is_char_code(
        (#[trigger] inner.reverse()[i] as u32) + 3,
    ) by {
        assert(inner.reverse()[i] == inner[inner.len() - 1 - i]);
    }
    crate::codec::lemma_lowered_undoes_raised(inner.reverse(), 3);
    crate::codec::lemma_reverse_involution(inner);
}

/// No method hands out a decoy.
pub proof fn lemma_page_link_genuine(html: Seq<char>)
    ensures
        page_link(html) is Some ==> !decoy(page_link(html)->0),
{
    match element_texts(html, "script[type='application/json']"@) {
        Some(found) => lemma_script_tags_genuine(found, 0),
        None => {},
    }
    match captured(r#"MKGMa="(.*?)""#@, html) {
        Some(blob) => match mkgma_plain(blob) {
            Some(text) => crate::media::lemma_link_in_text_genuine(text),
            None => {},
        },
        None => {},
    }
    match captured(r#"a168c\s*=\s*'([^']+)'"#@, html) {
        Some(blob) => match a168c_plain(blob) {
            Some(text) => crate::media::lemma_link_in_text_genuine(text),
            None => {},
        },
        None => {},
    }
    crate::media::lemma_open_link_genuine(html);
}

proof fn lemma_script_tags_genuine(found: Seq<Seq<char>>, i: int)
    requires
        0 <= i,
    ensures
        script_tags_link(found, i) is Some ==> !decoy(script_tags_link(found, i)->0),
    decreases found.len() - i,
{
    if i < found.len() {
        lemma_script_tags_genuine(found, i + 1);
    }
}

} // verus!
