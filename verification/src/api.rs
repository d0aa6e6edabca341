//! What the client computes around its requests: endpoints and query
//! parameters, the ids in search results, the bearer header from a token
//! answer, and the stream URL inside a playback manifest.

use vstd::prelude::*;
use vstd::utf8::{decode_utf8, valid_utf8};
use crate::external::{base64_standard_no_pad, decode_base64_no_pad, parse_url_with_params,
    string_from_utf8, url_with_params};
use crate::json::{element_or_null, json_element, json_field, json_object_entries, json_parse,
    json_string, parse_json, parse_json_object, quoted, writes_unescaped, JsonObject};
use crate::text::{has_substring, lemma_replace_absent, lemma_replace_concat};
use crate::util::{encoded_space, lemma_sanitize_url_concat};
use crate::query::{inserted, lookup, QueryParams};
use crate::structs::{search_kind_name, Search, SearchResponse, SearchType, TidalError};
use crate::text::{replace_char, replace_char_with};
use crate::util::{is_clean_url, sanitize_url, sanitized_url, trim_last_char, without_last_char};

verus! {

/// `&include={item}` for every item, in order.
pub open spec fn include_params(items: Seq<String>) -> Seq<char>
    decreases items.len(),
{
    if items.len() == 0 {
        Seq::<char>::empty()
    } else {
        include_params(items.drop_last()) + "&include="@ + items.last()@
    }
}

/// The include parameters of a search, if it has any.
pub open spec fn search_includes(array: Option<Vec<String>>) -> Seq<char> {
    match array {
        Some(items) => include_params(items@),
        None => Seq::<char>::empty(),
    }
}

/// The page cursor parameter of a search, if it has one.
pub open spec fn page_param(page: Option<String>) -> Seq<char> {
    match page {
        Some(p) => "page%5Bcursor%5D="@ + p@,
        None => Seq::<char>::empty(),
    }
}

/// The search endpoint for a search, before sanitising.
pub open spec fn search_url_text(search: Search) -> Seq<char> {
    "https://openapi.tidal.com/v2/searchResults/"@ + search.query@ + "/relationships/"@
        + search_kind_name(search.search_type) + "?countryCode="@ + search.country_code@
        + search_includes(search.array) + page_param(search.page)
}

/// The URL of the search endpoint that answers a search: the search path with
/// the query, the search type and the country, then the includes and the page
/// cursor, all sanitised as a URL.
pub fn search_endpoint(search: &Search) -> (url: String)
    ensures
        url@ == sanitized_url(search_url_text(*search)),
        is_clean_url(url@),
{
    let mut endpoint = String::from_str("https://openapi.tidal.com/v2/searchResults/");
    endpoint.append(search.query.as_str());
    endpoint.append("/relationships/");
    let kind_name = search.search_type.to_string();
    endpoint.append(kind_name.as_str());
    endpoint.append("?countryCode=");
    endpoint.append(search.country_code.as_str());
    let ghost before = endpoint@;
    match &search.array {
        Some(items) => {
            let mut i: usize = 0;
            while i < items.len()
                invariant
                    i <= items@.len(),
                    endpoint@ == before + include_params(items@.take(i as int)),
                decreases items@.len() - i,
            {
                assert(items@.take(i + 1).drop_last() == items@.take(i as int));
                endpoint.append("&include=");
                endpoint.append(items[i].as_str());
                i = i + 1;
            }
            assert(items@.take(items@.len() as int) == items@);
        },
        None => {},
    }
    assert(endpoint@ =~= before + search_includes(search.array));
    let ghost middle = endpoint@;
    match &search.page {
        Some(p) => {
            endpoint.append("page%5Bcursor%5D=");
            endpoint.append(p.as_str());
        },
        None => {},
    }
    assert(endpoint@ =~= middle + page_param(search.page));
    assert(endpoint@ =~= search_url_text(*search));
    sanitize_url(endpoint)
}

/// The search for tracks that match a query, in the US catalogue, with no
/// includes and no page cursor.
pub fn track_search(query: String) -> (search: Search)
    ensures
        search.search_type == SearchType::Track,
        search.query@ == query@,
        search.country_code@ == "US"@,
        search.array is None,
        search.page is None,
{
    Search {
        search_type: SearchType::Track,
        query,
        country_code: String::from_str("US"),
        array: None,
        page: None,
    }
}

/// The ids of the hits of a page of search results, in order.
pub fn media_ids(response: &SearchResponse) -> (ids: Vec<String>)
    ensures
        ids@.len() == response.data@.len(),
        forall|i: int| 0 <= i < ids@.len() ==> #[trigger] ids@[i]@ == response.data@[i].id@,
{
    let mut ids: Vec<String> = Vec::new();
    let mut i: usize = 0;
    while i < response.data.len()
        invariant
            i <= response.data@.len(),
            ids@.len() == i,
            forall|j: int| 0 <= j < i ==> #[trigger] ids@[j]@ == response.data@[j].id@,
        decreases response.data@.len() - i,
    {
        ids.push(response.data[i].id.clone());
        i = i + 1;
    }
    ids
}

/// The URL of a track resource in a country's catalogue, as
/// `url_with_params` makes it.
pub open spec fn track_url_of(id: Seq<char>, country_code: Seq<char>) -> Option<Seq<char>> {
    url_with_params("https://openapi.tidal.com/v2/tracks/"@ + id, seq![("countryCode"@, country_code)])
}

/// The URL of a track resource, with the country as its only query
/// parameter; `None` where no URL can be made of the id.
pub fn track_url(id: &str, country_code: &str) -> (url: Option<String>)
    ensures
        match url {
            Some(u) => track_url_of(id@, country_code@) == Some(u@),
            None => track_url_of(id@, country_code@) is None,
        },
{
    let mut base = String::from_str("https://openapi.tidal.com/v2/tracks/");
    base.append(id);
    let mut params = QueryParams::new();
    params.insert(String::from_str("countryCode"), String::from_str(country_code));
    assert(params@ =~= seq![("countryCode"@, country_code@)]);
    parse_url_with_params(base.as_str(), &params)
}

/// Adds the account's country to the parameters of a request to the
/// download API; without a country the request cannot be made, and the
/// parameters are left as they were.
pub fn add_country_code(params: &mut QueryParams, country_code: &Option<String>) -> (r: Result<(), TidalError>)
    ensures
        match country_code {
            Some(c) => r is Ok && final(params)@ == inserted(old(params)@, "countryCode"@, c@)
                && lookup(final(params)@, "countryCode"@) == Some(c@),
            None => r matches Err(e) && e.0@ == "No countryCode found in dl_get"@
                && final(params)@ == old(params)@,
        },
        forall|other: Seq<char>| other != "countryCode"@ ==> #[trigger] lookup(final(params)@, other)
            == lookup(old(params)@, other),
{
    match country_code {
        Some(c) => {
            params.insert(String::from_str("countryCode"), c.clone());
            Ok(())
        },
        None => Err(TidalError(String::from_str("No countryCode found in dl_get"))),
    }
}

/// The URL of an endpoint of the download API with its query parameters,
/// as `url_with_params` makes it.
pub open spec fn download_api_url_of(endpoint: Seq<char>, params: Seq<(Seq<char>, Seq<char>)>) -> Option<Seq<char>> {
    url_with_params("https://api.tidalhifi.com/v1/"@ + endpoint, params)
}

/// The URL of an endpoint of the download API with the given query
/// parameters; `None` where no URL can be made of the endpoint.
pub fn download_api_url(endpoint: &str, params: &QueryParams) -> (url: Option<String>)
    ensures
        match url {
            Some(u) => download_api_url_of(endpoint@, params@) == Some(u@),
            None => download_api_url_of(endpoint@, params@) is None,
        },
{
    let mut base = String::from_str("https://api.tidalhifi.com/v1/");
    base.append(endpoint);
    parse_url_with_params(base.as_str(), &params)
}

/// The endpoint of the playback information of a track.
pub fn playback_endpoint(track_id: &str) -> (endpoint: String)
    ensures
        endpoint@ == "tracks/"@ + track_id@ + "/playbackinfopostpaywall"@,
{
    let mut endpoint = String::from_str("tracks/");
    endpoint.append(track_id);
    endpoint.append("/playbackinfopostpaywall");
    endpoint
}

/// The parameters that ask for lossless quality, streaming, and the full
/// asset, in that order.
pub fn playback_params() -> (params: QueryParams)
    ensures
        params@ == seq![
            ("audioquality"@, "LOSSLESS"@),
            ("playbackmode"@, "STREAM"@),
            ("assetpresentation"@, "FULL"@),
        ],
{
    let mut params = QueryParams::new();
    params.insert(String::from_str("audioquality"), String::from_str("LOSSLESS"));
    params.insert(String::from_str("playbackmode"), String::from_str("STREAM"));
    params.insert(String::from_str("assetpresentation"), String::from_str("FULL"));
    proof {
        reveal_strlit("audioquality");
        reveal_strlit("playbackmode");
        reveal_strlit("assetpresentation");
        assert("audioquality"@[0] != "playbackmode"@[0]);
        assert("audioquality"@.len() != "assetpresentation"@.len());
        assert("playbackmode"@[0] != "assetpresentation"@[0]);
    }
    params
}

/// The bearer authorization header for a token written as JSON text: `Bearer `
/// and the text without its double quotes.
pub open spec fn bearer_header_text(token_text: Seq<char>) -> Seq<char> {
    "Bearer "@ + replace_char(token_text, '"', Seq::<char>::empty())
}

/// The bearer authorization header for a token written as JSON text.
pub fn bearer_header(token_text: &str) -> (header: String)
    ensures
        header@ == bearer_header_text(token_text@),
{
    let token = replace_char_with(token_text, '"', "");
    proof {
        reveal_strlit("");
        assert(""@ =~= Seq::<char>::empty());
    }
    let mut header = String::from_str("Bearer ");
    header.append(token.as_str());
    header
}

/// Why no bearer header could be read from an answer of the token endpoint.
#[derive(Debug, PartialEq, Eq, Structural)]
pub enum TokenError {
    /// The answer is not JSON.
    NotJson,
    /// The answer has no `access_token` field.
    NoAccessToken,
}

/// A result whose success is a string, with the string by its characters.
pub open spec fn text_result<E>(r: Result<String, E>) -> Result<Seq<char>, E> {
    match r {
        Ok(s) => Ok(s@),
        Err(e) => Err(e),
    }
}

/// An optional string, by its characters.
pub open spec fn optional_text(r: Option<String>) -> Option<Seq<char>> {
    match r {
        Some(s) => Some(s@),
        None => None,
    }
}

/// Dropping the double quotes of a quoted string that needs no escapes
/// gives the string.
pub proof fn lemma_unquote(k: Seq<char>)
    requires
        writes_unescaped(k),
    ensures
        replace_char(quoted(k), '"', Seq::<char>::empty()) == k,
{
    let e = Seq::<char>::empty();
    let q = seq!['"'];
    assert(!k.contains('"')) by {
        if k.contains('"') {
            let j = choose|j: int| 0 <= j < k.len() && k[j] == '"';
            assert(k[j] != '"');
        }
    }
    lemma_replace_concat(q + k, q, '"', e);
    lemma_replace_concat(q, k, '"', e);
    lemma_replace_absent(k, '"', e);
    assert(q.drop_last() =~= e);
    assert(replace_char(e, '"', e) == e);
    assert(replace_char(q, '"', e) =~= e);
    assert(e + k + e =~= k);
}

/// Sanitising a quoted string that needs no escapes gives the sanitised
/// string: the quotes go.
pub proof fn lemma_sanitize_quoted(u: Seq<char>)
    ensures
        sanitized_url(quoted(u)) == sanitized_url(u),
{
    let e = Seq::<char>::empty();
    let q = seq!['"'];
    lemma_sanitize_url_concat(q + u, q);
    lemma_sanitize_url_concat(q, u);
    assert(q.drop_last() =~= e);
    assert(replace_char(e, ' ', encoded_space()) == e);
    assert(replace_char(q, ' ', encoded_space()) =~= q);
    assert(replace_char(e, '\'', e) == e);
    assert(replace_char(q, '\'', e) =~= q);
    assert(replace_char(e, '"', e) == e);
    assert(replace_char(q, '"', e) =~= e);
    assert(sanitized_url(q) =~= e);
    assert(e + sanitized_url(u) + e =~= sanitized_url(u));
}

/// The bearer header read from an answer of the token endpoint: `Bearer ` and
/// the JSON text of its `access_token` field without double quotes.
pub open spec fn bearer_from_answer(body: Seq<char>) -> Result<Seq<char>, TokenError> {
    match json_parse(body) {
        None => Err(TokenError::NotJson),
        Some(answer) => match json_field(answer, "access_token"@) {
            Some(token) => Ok(bearer_header_text(token)),
            None => Err(TokenError::NoAccessToken),
        },
    }
}

/// The bearer header for the `access_token` field of an answer of the token
/// endpoint: `NotJson` where the answer is not JSON, `NoAccessToken` where it
/// has no such field, else `Bearer ` and the field's JSON text without double
/// quotes.
pub fn bearer_from_token_response(body: &str) -> (r: Result<String, TokenError>)
    ensures
        text_result(r) == bearer_from_answer(body@),
        json_parse(body@) matches Some(answer) ==> (json_field(answer, "access_token"@) matches Some(
            token,
        ) ==> (json_string(token) matches Some(key) ==> (writes_unescaped(key) ==> (r matches Ok(h)
            && h@ == "Bearer "@ + key)))),
{
    let answer = match parse_json(body) {
        Ok(v) => v,
        Err(_) => return Err(TokenError::NotJson),
    };
    match answer.as_json_ref().field("access_token") {
        Some(token) => {
            let text = token.to_text();
            proof {
                if let Some(key) = json_string(token@) {
                    if writes_unescaped(key) {
                        lemma_unquote(key);
                    }
                }
            }
            Ok(bearer_header(text.as_str()))
        },
        None => Err(TokenError::NoAccessToken),
    }
}

/// Why no stream URL could be read from a playback answer.
#[derive(Debug, PartialEq, Eq, Structural)]
pub enum ManifestError {
    /// The answer is not a JSON object.
    ResponseNotJson,
    /// The answer has no `manifest` field.
    NoManifest,
    /// The `manifest` field is not a JSON string.
    ManifestNotText,
    /// The manifest, without its last character, is not base64 without
    /// padding.
    InvalidBase64,
    /// The decoded manifest is not UTF-8.
    NotUtf8,
    /// The decoded manifest is not a JSON object.
    DecodedNotJson,
    /// The decoded manifest has no `urls` field.
    NoUrls,
}

/// The text of a manifest: its last character dropped, the rest decoded from
/// base64 without padding, the bytes read as UTF-8.
pub open spec fn decoded_manifest(manifest: Seq<char>) -> Result<Seq<char>, ManifestError> {
    match base64_standard_no_pad(without_last_char(manifest)) {
        None => Err(ManifestError::InvalidBase64),
        Some(bytes) => if valid_utf8(bytes) {
            Ok(decode_utf8(bytes))
        } else {
            Err(ManifestError::NotUtf8)
        },
    }
}

/// The first URL of a decoded manifest: the JSON text of element 0 of its
/// `urls` field (`null` where there is none), sanitised as a URL.
pub open spec fn first_url_of(decoded: Seq<char>) -> Result<Seq<char>, ManifestError> {
    match json_object_entries(decoded) {
        None => Err(ManifestError::DecodedNotJson),
        Some(entries) => if entries.contains_key("urls"@) {
            Ok(sanitized_url(element_or_null(entries["urls"@], 0)))
        } else {
            Err(ManifestError::NoUrls)
        },
    }
}

/// The stream URL in a playback answer: the string in its `manifest` field,
/// decoded, and the first URL in it.
pub open spec fn stream_url_of(body: Seq<char>) -> Result<Seq<char>, ManifestError> {
    match json_object_entries(body) {
        None => Err(ManifestError::ResponseNotJson),
        Some(entries) => if !entries.contains_key("manifest"@) {
            Err(ManifestError::NoManifest)
        } else {
            match json_string(entries["manifest"@]) {
                None => Err(ManifestError::ManifestNotText),
                Some(manifest) => match decoded_manifest(manifest) {
                    Err(e) => Err(e),
                    Ok(decoded) => first_url_of(decoded),
                },
            }
        },
    }
}

/// The text of a manifest: its last character dropped, the rest decoded
/// from base64 without padding, the bytes read as UTF-8.
pub fn decode_manifest(manifest: &str) -> (r: Result<String, ManifestError>)
    ensures
        text_result(r) == decoded_manifest(manifest@),
{
    let trimmed = trim_last_char(manifest);
    let bytes = match decode_base64_no_pad(trimmed) {
        Ok(b) => b,
        Err(_) => return Err(ManifestError::InvalidBase64),
    };
    match string_from_utf8(bytes) {
        Some(text) => Ok(text),
        None => Err(ManifestError::NotUtf8),
    }
}

/// The first URL in a decoded manifest: the JSON text of the first element
/// of its `urls` field (`null` where there is none), sanitised as a URL.
/// `DecodedNotJson` where the text is not a JSON object, `NoUrls` where it
/// has no `urls` field.
pub fn first_manifest_url(decoded: &str) -> (r: Result<String, ManifestError>)
    ensures
        text_result(r) == first_url_of(decoded@),
        r matches Ok(u) ==> is_clean_url(u@),
        json_object_entries(decoded@) matches Some(entries) ==> (entries.contains_key("urls"@) ==> (
        json_element(entries["urls"@], 0) matches Some(first) ==> (json_string(first) matches Some(
            url,
        ) ==> (writes_unescaped(url) ==> (r matches Ok(u) && u@ == sanitized_url(url)))))),
{
    let entries = match parse_json_object(decoded) {
        Ok(m) => m,
        Err(_) => return Err(ManifestError::DecodedNotJson),
    };
    match entries.get("urls") {
        Some(urls) => {
            let element = urls.element(0);
            let first = element.to_text();
            proof {
                if let Some(url) = json_string(element@) {
                    lemma_sanitize_quoted(url);
                }
            }
            Ok(sanitize_url(first))
        },
        None => Err(ManifestError::NoUrls),
    }
}

/// The stream URL in a playback answer: the string in its `manifest` field,
/// decoded by `decode_manifest`, and the first URL in it as
/// `first_manifest_url` reads it. `ResponseNotJson`, `NoManifest` and
/// `ManifestNotText` where the answer is not a JSON object, has no
/// `manifest` field, or has one that is not a string.
pub fn extract_url_from_manifest(body: &str) -> (r: Result<String, ManifestError>)
    ensures
        text_result(r) == stream_url_of(body@),
        r matches Ok(u) ==> is_clean_url(u@),
        json_object_entries(body@) matches Some(entries) ==> (entries.contains_key("manifest"@) ==> (
        json_string(entries["manifest"@]) matches Some(manifest) ==> (decoded_manifest(manifest) matches Ok(
            decoded,
        ) ==> (json_object_entries(decoded) matches Some(inner) ==> (inner.contains_key("urls"@) ==> (
        json_element(inner["urls"@], 0) matches Some(first) ==> (json_string(first) matches Some(url) ==> (
        writes_unescaped(url) ==> (r matches Ok(u) && u@ == sanitized_url(url)))))))))),
{
    let entries = match parse_json_object(body) {
        Ok(m) => m,
        Err(_) => return Err(ManifestError::ResponseNotJson),
    };
    let field = match entries.get("manifest") {
        Some(f) => f,
        None => return Err(ManifestError::NoManifest),
    };
    let manifest = match field.as_str() {
        Some(s) => s,
        None => return Err(ManifestError::ManifestNotText),
    };
    match decode_manifest(manifest) {
        Ok(decoded) => first_manifest_url(decoded.as_str()),
        Err(e) => Err(e),
    }
}

/// A track resource, parsed from the body of its answer as a JSON object.
pub fn parse_track(body: &str) -> (r: Result<JsonObject, serde_json::Error>)
    ensures
        r is Ok <==> json_object_entries(body@) is Some,
        r matches Ok(track) ==> json_object_entries(body@) == Some(track@),
{
    parse_json_object(body)
}

/// The title of a track resource: the JSON text of its
/// `data.attributes.title` field, if there is one.
pub open spec fn title_of(track: Map<Seq<char>, Seq<char>>) -> Option<Seq<char>> {
    if !track.contains_key("data"@) {
        None
    } else {
        match json_field(track["data"@], "attributes"@) {
            None => None,
            Some(attributes) => json_field(attributes, "title"@),
        }
    }
}

/// The title of a track resource: the JSON text of its
/// `data.attributes.title` field, `None` where one of these fields is
/// missing.
pub fn track_title(track: &JsonObject) -> (title: Option<String>)
    ensures
        optional_text(title) == title_of(track@),
{
    let data = match track.get("data") {
        Some(d) => d,
        None => return None,
    };
    let attributes = match data.field("attributes") {
        Some(a) => a,
        None => return None,
    };
    match attributes.field("title") {
        Some(t) => Some(t.to_text()),
        None => None,
    }
}

/// Each include adds `&include=` and the item at the end, after those of
/// the items before it: the text grows by nine characters and the item.
pub proof fn lemma_include_params_push(items: Seq<String>, item: String)
    ensures
        include_params(items.push(item)) == include_params(items) + "&include="@ + item@,
        include_params(items.push(item)).len() == include_params(items).len() + "&include="@.len()
            + item@.len(),
{
    assert(items.push(item).drop_last() =~= items);
}

/// Every item of a search's includes occurs in its include parameters, as
/// `&include=` followed by the item.
pub proof fn lemma_include_params_hold_every_item(items: Seq<String>, i: int)
    requires
        0 <= i < items.len(),
    ensures
        has_substring(include_params(items), "&include="@ + items[i]@),
    decreases items.len(),
{
    let p = "&include="@ + items[i]@;
    let whole = include_params(items);
    let front = include_params(items.drop_last());
    assert(items.drop_last().push(items.last()) =~= items);
    lemma_include_params_push(items.drop_last(), items.last());
    if i == items.len() - 1 {
        assert(whole == front + p);
        assert(whole.subrange(front.len() as int, front.len() + p.len() as int) =~= p);
    } else {
        lemma_include_params_hold_every_item(items.drop_last(), i);
        assert(items.drop_last()[i] == items[i]);
        let k = choose|k: int| 0 <= k <= front.len() - p.len() && #[trigger] front.subrange(k, k + p.len()) == p;
        assert(whole == front + ("&include="@ + items.last()@));
        assert(whole.subrange(k, k + p.len()) =~= front.subrange(k, k + p.len()));
    }
}

/// The manifest's last character is dropped, whatever it is, and all the
/// characters before it go to the base64 decoder unchanged; the decoded
/// bytes are read as UTF-8.
pub proof fn lemma_manifest_decodes_all_but_last(encoded: Seq<char>, last: char)
    ensures
        match base64_standard_no_pad(encoded) {
            None => decoded_manifest(encoded.push(last)) == Err::<Seq<char>, ManifestError>(
                ManifestError::InvalidBase64,
            ),
            Some(bytes) => if valid_utf8(bytes) {
                decoded_manifest(encoded.push(last)) == Ok::<Seq<char>, ManifestError>(decode_utf8(bytes))
            } else {
                decoded_manifest(encoded.push(last)) == Err::<Seq<char>, ManifestError>(
                    ManifestError::NotUtf8,
                )
            },
        },
{
    assert(encoded.push(last).drop_last() =~= encoded);
}

/// A track's title is read from `data.attributes.title` whatever else the
/// resource holds: it is there exactly when that path is, and is that
/// field's text.
pub proof fn lemma_title_is_data_attributes_title(track: Map<Seq<char>, Seq<char>>)
    ensures
        track.contains_key("data"@) ==> (json_field(track["data"@], "attributes"@) matches Some(
            attributes,
        ) ==> title_of(track) == json_field(attributes, "title"@)),
        !track.contains_key("data"@) ==> title_of(track) is None,
        track.contains_key("data"@) && json_field(track["data"@], "attributes"@) is None ==> title_of(
            track,
        ) is None,
{
}

} // verus!
