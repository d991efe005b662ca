//! Laws of the Voe resolver: which link a document comes to, and how it is
//! authorized.

use crate::codec::{
    activation_encoded, activation_plain, b64_cleaned, b64_decode, b64_text,
    lemma_lowered_undoes_raised, lemma_reverse_involution, lemma_rot13_involution, raised,
    rot13_text,
};
use crate::deobfuscation::captured;
use crate::json::{filled_member, json_object_text, json_parse, json_strings, member, Tree};
use crate::links::{url_join, url_parse, UrlModel};
use crate::markup::element_texts;
use crate::media::{decoy, link_in_text, media_link, open_link, page_thumbnail, page_title};
use crate::text::{contains, is_char_code, lower, occurs_at, starts_with, without_char};
use crate::voe::{
    a168c_plain, activation_fields, activation_url, code_or_empty, file_code_of, method6, method7,
    method8, mkgma_plain, page_link, redirected, script_document_link, script_link, script_plain,
    script_text_link, variable_document_link, variable_text_link, voe_outcome, VoeOutcome,
};
use crate::resolver::{ResolveError, ResolveFault};
use vstd::prelude::*;
use vstd::utf8::{decode_utf8, valid_utf8};

verus! {

/// Whether a link carries a request token.
pub open spec fn carries_token(url: Seq<char>) -> bool {
    contains(url, "&rq="@) || contains(url, "?rq="@)
}

/// Whether a document offers a direct download that is no playlist.
pub open spec fn offers_download(tree: Tree) -> bool {
    filled_member(tree, "direct_access_url"@) matches Some(url) && !contains(lower(url), ".m3u8"@)
}

/// Whether a link is another one with a token where one is known: unchanged
/// where it has one already, else with the token behind it.
pub open spec fn is_authorized(
    out: Seq<char>,
    link: Seq<char>,
    token: Option<Seq<char>>,
) -> bool {
    &&& token is None ==> out == link
    &&& carries_token(link) ==> out == link
    &&& token is Some ==> carries_token(out)
    &&& token is Some && !carries_token(link) ==> out == link + "&rq="@ + token->0
}

proof fn lemma_token_behind(link: Seq<char>, token: Seq<char>)
    ensures
        carries_token(link + "&rq="@ + token),
{
    let out = link + "&rq="@ + token;
    assert(out.subrange(link.len() as int, (link.len() + "&rq="@.len()) as int) =~= "&rq="@);
    assert(occurs_at(out, "&rq="@, link.len() as int));
}

/// The direct download of a script's document comes first, with the request
/// token.
pub proof fn law_download_first(tree: Tree)
    requires
        offers_download(tree),
    ensures
        script_document_link(tree) matches Some(out) && is_authorized(
            out,
            filled_member(tree, "direct_access_url"@)->0,
            filled_member(tree, "request"@),
        ),
{
    if let Some(token) = filled_member(tree, "request"@) {
        lemma_token_behind(filled_member(tree, "direct_access_url"@)->0, token);
    }
}

/// Without such a download, the player's source is taken as it is.
pub proof fn law_source_second(tree: Tree)
    requires
        !offers_download(tree),
        filled_member(tree, "source"@) is Some,
    ensures
        script_document_link(tree) == filled_member(tree, "source"@),
{
}

/// With neither of them, the link that the `mp4` member holds is taken, with
/// the request token.
pub proof fn law_mp4_third(tree: Tree, value: Tree)
    requires
        !offers_download(tree),
        filled_member(tree, "source"@) is None,
        member(tree, "mp4"@) == Some(value),
        media_link(value) is Some,
    ensures
        script_document_link(tree) matches Some(out) && is_authorized(
            out,
            media_link(value)->0,
            filled_member(tree, "request"@),
        ),
{
    if let Some(token) = filled_member(tree, "request"@) {
        lemma_token_behind(media_link(value)->0, token);
    }
}

/// The playlist comes last, and a document without any of the four members has
/// no link.
pub proof fn law_hls_last_in_document(tree: Tree)
    requires
        !offers_download(tree),
        filled_member(tree, "source"@) is None,
        member(tree, "mp4"@) matches Some(value) ==> media_link(value) is None,
    ensures
        script_document_link(tree) == filled_member(tree, "hls"@),
{
}

/// Whether a found link is there and no decoy.
pub open spec fn usable(link: Option<Seq<char>>) -> bool {
    link matches Some(url) && !decoy(url)
}

/// What the `mp4` member of a document holds.
pub open spec fn held_mp4(tree: Tree) -> Option<Seq<char>> {
    match member(tree, "mp4"@) {
        Some(value) => media_link(value),
        None => None,
    }
}

/// In a variable's document the first usable link wins: source, MP4, direct
/// download, playlist; and it is taken as it is.
pub proof fn law_variable_document_order(tree: Tree)
    ensures
        ({
            let out = variable_document_link(tree);
            let source = filled_member(tree, "source"@);
            let direct = filled_member(tree, "direct_access_url"@);
            let hls = filled_member(tree, "hls"@);
            &&& usable(source) ==> out == source
            &&& !usable(source) && usable(held_mp4(tree)) ==> out == held_mp4(tree)
            &&& !usable(source) && !usable(held_mp4(tree)) && usable(direct) ==> out == direct
            &&& !usable(source) && !usable(held_mp4(tree)) && !usable(direct) && usable(hls)
                ==> out == hls
            &&& out is Some ==> usable(out)
            &&& out is None ==> !usable(source) && !usable(held_mp4(tree)) && !usable(direct)
                && !usable(hls)
        }),
{
}

/// A decoded text is read as a document first, and searched for links where
/// that gives none.
pub proof fn law_document_before_text(text: Seq<char>)
    ensures
        json_parse(text) matches Ok(tree) ==> {
            &&& script_document_link(tree) is Some ==> script_text_link(text)
                == script_document_link(tree)
            &&& script_document_link(tree) is None ==> script_text_link(text) == link_in_text(text)
            &&& variable_document_link(tree) is Some ==> variable_text_link(text)
                == variable_document_link(tree)
            &&& variable_document_link(tree) is None ==> variable_text_link(text) == link_in_text(
                text,
            )
        },
        json_parse(text) is Err ==> script_text_link(text) == link_in_text(text)
            && variable_text_link(text) == link_in_text(text),
{
}

/// What a script tag hides is the first string of its array.
pub proof fn law_script_holds_first_string(raw: Seq<char>, items: Seq<Seq<char>>, text: Seq<char>)
    requires
        json_strings(raw) == Some(items),
        items.len() > 0,
        script_plain(items[0]) == Some(text),
    ensures
        script_link(raw) == script_text_link(text),
{
}

/// The first script tag with a usable link decides: blank tags, tags that hide
/// nothing and decoys are passed over.
pub proof fn law_first_usable_script(found: Seq<Seq<char>>, k: int)
    requires
        0 <= k < found.len(),
        crate::text::trim(found[k]).len() > 0,
        usable(script_link(crate::text::trim(found[k]))),
        forall|j: int|
            0 <= j < k ==> crate::text::trim(#[trigger] found[j]).len() == 0 || !usable(
                script_link(crate::text::trim(found[j])),
            ),
    ensures
        crate::voe::script_tags_link(found, 0) == script_link(crate::text::trim(found[k])),
{
    lemma_scripts_passed_over(found, 0, k);
}

proof fn lemma_scripts_passed_over(found: Seq<Seq<char>>, i: int, k: int)
    requires
        0 <= i <= k < found.len(),
        forall|j: int|
            0 <= j < k ==> crate::text::trim(#[trigger] found[j]).len() == 0 || !usable(
                script_link(crate::text::trim(found[j])),
            ),
    ensures
        crate::voe::script_tags_link(found, i) == crate::voe::script_tags_link(found, k),
    decreases k - i,
{
    if i < k {
        lemma_scripts_passed_over(found, i + 1, k);
    }
}

/// The methods are tried from the newest obfuscation to openly shown links,
/// each where those before it find nothing.
pub proof fn law_methods_in_order(html: Seq<char>)
    ensures
        method8(html) is Some ==> page_link(html) == method8(html),
        method8(html) is None && method7(html) is Some ==> page_link(html) == method7(html),
        method8(html) is None && method7(html) is None && method6(html) is Some ==> page_link(html)
            == method6(html),
        method8(html) is None && method7(html) is None && method6(html) is None ==> page_link(html)
            == open_link(html),
{
}

/// Each method reads what its place in the page hides.
pub proof fn law_methods_read_page(html: Seq<char>)
    ensures
        captured(r#"MKGMa="(.*?)""#@, html) matches Some(blob) ==> (mkgma_plain(blob) matches Some(
            text,
        ) ==> method7(html) == variable_text_link(text)),
        captured(r#"a168c\s*=\s*'([^']+)'"#@, html) matches Some(blob) ==> (a168c_plain(
            blob,
        ) matches Some(text) ==> method6(html) == variable_text_link(text)),
        element_texts(html, "script[type='application/json']"@) matches Some(found) ==> method8(
            html,
        ) == crate::voe::script_tags_link(found, 0),
{
}

/// The `MKGMa` encoding undone. Let `outer` be Base64 for `inner` reversed and
/// shifted up by three, and `inner` Base64 for `text`. However underscores are
/// scattered over `outer`, the ROT13 of the outcome decodes to `text`.
pub proof fn law_mkgma_decodes(
    scattered: Seq<char>,
    outer: Seq<char>,
    inner: Seq<char>,
    text: Seq<char>,
)
    requires
        without_char(scattered, '_') == outer,
        b64_text(outer) == Some(raised(inner.reverse(), 3)),
        b64_text(inner) == Some(text),
        forall|i: int| 0 <= i < inner.len() ==> is_char_code((#[trigger] inner[i] as u32) + 3),
    ensures
        mkgma_plain(rot13_text(scattered)) == Some(text),
{
    lemma_rot13_involution(scattered);
    assert forall|i: int| 0 <= i < inner.reverse().len() implies is_char_code(
        (#[trigger] inner.reverse()[i] as u32) + 3,
    ) by {
        assert(inner.reverse()[i] == inner[inner.len() - 1 - i]);
    }
    lemma_lowered_undoes_raised(inner.reverse(), 3);
    lemma_reverse_involution(inner);
}

/// The `a168c` encoding undone: what is Base64 for a reversed text, once
/// backslashes are out and padding is in, decodes to the text.
pub proof fn law_a168c_decodes(blob: Seq<char>, clean: Seq<char>, bytes: Seq<u8>, text: Seq<char>)
    requires
        b64_cleaned(blob) == Some(clean),
        b64_decode(clean) == Some(bytes),
        valid_utf8(bytes),
        decode_utf8(bytes) == text.reverse(),
    ensures
        a168c_plain(blob) == Some(text),
{
    lemma_reverse_involution(text);
}

/// Whether one of the redirecting statements of a page captures a target.
pub open spec fn redirects_by(html: Seq<char>, pattern: Seq<char>, target: Seq<char>) -> bool {
    captured(pattern, html) == Some(target)
}

/// An absolute target of an assignment to `window.location.href` is where a
/// page redirects to, whatever else is in it; a relative one is resolved
/// against the page's address.
pub proof fn law_redirect_followed(html: Seq<char>, page: Seq<char>, target: Seq<char>)
    requires
        redirects_by(html, r#"window\.location\.href\s*=\s*['"]([^'"]+)['"]"#@, target),
    ensures
        starts_with(target, "http"@) ==> redirected(html, page, 0) == target,
        !starts_with(target, "http"@) && url_join(page, target) is Some ==> redirected(
            html,
            page,
            0,
        ) == url_join(page, target)->0,
{
}

/// Every redirecting statement is known: where only one of them is in a page,
/// it decides, and a page without any stays where it is.
pub proof fn law_redirects_known(html: Seq<char>, page: Seq<char>)
    ensures
        ({
            let a = captured(r#"window\.location\.href\s*=\s*['"]([^'"]+)['"]"#@, html);
            let b = captured(r#"window\.location\s*=\s*['"]([^'"]+)['"]"#@, html);
            let c = captured(r#"location\.href\s*=\s*['"]([^'"]+)['"]"#@, html);
            let d = captured(r#"window\.location\.replace\(['"]([^'"]+)['"]\)"#@, html);
            &&& a is None && b is None && c is None && d is None ==> redirected(html, page, 0)
                == page
            &&& a is None && b is Some && starts_with(b->0, "http"@) ==> redirected(html, page, 0)
                == b->0
            &&& a is None && b is None && c is Some && starts_with(c->0, "http"@) ==> redirected(
                html,
                page,
                0,
            ) == c->0
            &&& a is None && b is None && c is None && d is Some && starts_with(d->0, "http"@)
                ==> redirected(html, page, 0) == d->0
        }),
{
    reveal_with_fuel(redirected, 5);
}

/// The activation of a download goes to the page's own host, and names the
/// file.
pub proof fn law_activation_names_file(page: UrlModel, host: Seq<char>, code: Seq<char>)
    requires
        page.host == Some(host),
    ensures
        activation_url(page) == page.scheme + "://"@ + host + "/engine/update"@,
        activation_fields(code).contains(("c3d"@, code)),
        activation_fields(code).len() == 8,
{
    assert(activation_fields(code)[0] == ("c3d"@, code));
}

/// The file code of an address is the last part of its path, where that is not
/// empty.
pub proof fn law_file_code(url: Seq<char>, parts: UrlModel, segments: Seq<Seq<char>>)
    requires
        url_parse(url) == Ok::<UrlModel, Seq<char>>(parts),
        parts.segments == Some(segments),
        segments.len() > 0,
    ensures
        segments.last().len() > 0 ==> file_code_of(url) == Some(segments.last()),
        segments.last().len() == 0 ==> file_code_of(url) is None,
{
}

/// What a final page comes to: its link under the submitted address, with what
/// the page says and all cookies; and the activation that goes to the final
/// page's host and names the file of the submitted address.
pub proof fn law_voe_outcome(
    r: Result<VoeOutcome, ResolveError>,
    url: Seq<char>,
    final_url: Seq<char>,
    html: Seq<char>,
    cookies: Seq<Seq<char>>,
)
    requires
        voe_outcome(r, url, final_url, html, cookies),
    ensures
        r is Ok <==> page_link(html) is Some,
        r matches Ok(outcome) ==> {
            &&& outcome.result@.source_url == url
            &&& Some(outcome.result@.direct_url) == page_link(html)
            &&& outcome.result@.title == page_title(html)
            &&& outcome.result@.thumbnail == page_thumbnail(html)
            &&& outcome.result@.cookies == cookies
            &&& url_parse(final_url) matches Ok(page) ==> (outcome.activation matches Some(
                activation,
            ) && activation.url@ == activation_url(page))
            &&& url_parse(final_url) matches Ok(page) ==> (file_code_of(url) matches Some(code)
                ==> activation_plain(outcome.activation->0.body@.skip("data="@.len() as int))
                == json_object_text(activation_fields(code)))
            &&& url_parse(final_url) is Err ==> outcome.activation is None
        },
        r matches Err(e) ==> e@ == ResolveFault::NoMediaFound(
            "Voe resolver: could not extract media URL from "@ + final_url,
        ),
{
    if let Ok(outcome) = r {
        if let Ok(page) = url_parse(final_url) {
            if let Some(code) = file_code_of(url) {
                let payload = json_object_text(activation_fields(code))->0;
                let body = "data="@ + activation_encoded(payload);
                assert(body.skip("data="@.len() as int) =~= activation_encoded(payload));
            }
        }
    }
}

/// An array without strings hides nothing, and what is no such array neither.
pub proof fn law_empty_script(raw: Seq<char>)
    requires
        json_strings(raw) matches Some(items) ==> items.len() == 0 || script_plain(items[0])
            is None,
    ensures
        script_link(raw) is None,
{
}

/// An activation says what a browser would: the file, and what kind of machine
/// it runs on; the rest is left empty.
pub proof fn law_activation_members(code: Seq<char>)
    ensures
        activation_fields(code) == seq![
            ("c3d"@, code),
            ("g7h"@, "0"@),
            ("i9j"@, ""@),
            (
                "k1l"@,
                "ANGLE (NVIDIA, NVIDIA GeForce GTX 1060 6GB Direct3D11 vs_5_0 ps_5_0, D3D11)"@,
            ),
            ("a1b"@, ""@),
            ("e5f"@, ""@),
            ("m2n"@, ""@),
            ("o3p"@, ""@),
        ],
{
}

/// A page without a host is activated on the local one; a file without a code
/// has an empty one.
pub proof fn law_activation_stand_ins(page: UrlModel, url: Seq<char>)
    ensures
        page.host is None ==> activation_url(page) == page.scheme + "://"@ + "localhost"@
            + "/engine/update"@,
        file_code_of(url) is None ==> code_or_empty(url).len() == 0,
        file_code_of(url) matches Some(code) ==> code_or_empty(url) == code,
{
    reveal_strlit("");
}

} // verus!
