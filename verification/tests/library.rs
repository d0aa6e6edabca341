use tidal_rs::api::{
    add_country_code, bearer_from_token_response, parse_track, track_title, bearer_header, decode_manifest,
    download_api_url, extract_url_from_manifest, first_manifest_url, media_ids,
    playback_endpoint, playback_params, search_endpoint, track_search, track_url,
    ManifestError, TokenError,
};
use tidal_rs::query::{names_to_ids, QueryParams};
use tidal_rs::structs::{
    DeviceCodeResponse, DlBasicAuthResponse, Links, Media, Search, SearchResponse, SearchType,
    TidalError, User,
};
use tidal_rs::user;
use tidal_rs::util::{
    filename_with_date, generate_filename, sanitize_filename, sanitize_url, trim_last_char,
    which_filetype,
};

fn s(text: &str) -> String {
    text.to_string()
}

#[test]
fn sanitize_url_encodes_spaces_and_drops_quotes() {
    assert_eq!(sanitize_url(s("a b'c\"d")), "a%20bcd");
    assert_eq!(sanitize_url(s("https://x.y/\"track one\"")), "https://x.y/track%20one");
    assert_eq!(sanitize_url(s("")), "");
}

#[test]
fn sanitize_url_twice_is_once() {
    let once = sanitize_url(s(" 'a' \"b\" "));
    assert_eq!(once, "%20a%20b%20");
    assert_eq!(sanitize_url(once.clone()), once);
}

#[test]
fn sanitize_url_keeps_clean_urls() {
    let url = "https://api.tidal.com/v1/tracks/1?countryCode=US";
    assert_eq!(sanitize_url(s(url)), url);
}

#[test]
fn sanitize_filename_drops_quotes_and_underscores_spaces() {
    assert_eq!(sanitize_filename(s("my \"song\" name")), "my_song_name");
    assert_eq!(sanitize_filename(s("a  b")), "a__b");
    assert_eq!(sanitize_filename(s("a'b")), "a'b");
    let once = sanitize_filename(s("\" x \""));
    assert_eq!(sanitize_filename(once.clone()), once);
}

#[test]
fn trim_last_char_drops_one_character() {
    assert_eq!(trim_last_char("abc="), "abc");
    assert_eq!(trim_last_char("x"), "");
    assert_eq!(trim_last_char(""), "");
    assert_eq!(trim_last_char("héé"), "hé");
}

#[test]
fn which_filetype_prefers_flac() {
    assert_eq!(which_filetype(s("https://x.y/a.flac?token=1")), "flac");
    assert_eq!(which_filetype(s("https://x.y/a.mp4")), "mp4");
    assert_eq!(which_filetype(s("https://x.y/mp4/a.flac")), "flac");
    assert_eq!(which_filetype(s("https://x.y/a.ogg")), ".mp4");
    assert_eq!(which_filetype(s("fla")), ".mp4");
    assert_eq!(which_filetype(s("")), ".mp4");
}

#[test]
fn filename_with_date_joins_and_sanitises() {
    assert_eq!(
        filename_with_date("radiohead \"creep\"", "2024-01-02 03:04:05 +00:00", ".flac"),
        "radiohead_creep_2024-01-02_03:04:05_+00:00..flac"
    );
    assert_eq!(filename_with_date("", "", ""), "_.");
}

#[test]
fn generate_filename_has_query_and_type() {
    let name = generate_filename(s("radiohead creep"), s(".flac"));
    assert!(name.starts_with("radiohead_creep_"));
    assert!(name.ends_with("..flac"));
    assert!(!name.contains(' '));
    assert!(!name.contains('"'));
}

#[test]
fn search_type_names() {
    assert_eq!(SearchType::Album.to_string(), "albums");
    assert_eq!(SearchType::Artist.to_string(), "artists");
    assert_eq!(SearchType::Playlist.to_string(), "playlists");
    assert_eq!(SearchType::TopHits.to_string(), "topHits");
    assert_eq!(SearchType::Track.to_string(), "tracks");
    assert_eq!(SearchType::Video.to_string(), "videos");
}

#[test]
fn search_endpoint_plain() {
    let search = track_search(s("radiohead creep"));
    assert_eq!(
        search_endpoint(&search),
        "https://openapi.tidal.com/v2/searchResults/radiohead%20creep/relationships/tracks?countryCode=US"
    );
}

#[test]
fn search_endpoint_with_includes_and_page() {
    let search = Search {
        search_type: SearchType::Album,
        query: s("o'k"),
        country_code: s("NO"),
        array: Some(vec![s("albums"), s("artists")]),
        page: Some(s("abc")),
    };
    assert_eq!(
        search_endpoint(&search),
        "https://openapi.tidal.com/v2/searchResults/ok/relationships/albums?countryCode=NO&include=albums&include=artistspage%5Bcursor%5D=abc"
    );
    let empty_includes = Search {
        search_type: SearchType::TopHits,
        query: s("q"),
        country_code: s("US"),
        array: Some(vec![]),
        page: None,
    };
    assert_eq!(
        search_endpoint(&empty_includes),
        "https://openapi.tidal.com/v2/searchResults/q/relationships/topHits?countryCode=US"
    );
}

#[test]
fn track_search_fields() {
    let search = track_search(s("creep"));
    assert!(matches!(search.search_type, SearchType::Track));
    assert_eq!(search.query, "creep");
    assert_eq!(search.country_code, "US");
    assert!(search.array.is_none());
    assert!(search.page.is_none());
}

#[test]
fn media_ids_in_order() {
    let response = SearchResponse {
        data: vec![
            Media { id: s("932493797"), _type: s("tracks") },
            Media { id: s("1"), _type: s("tracks") },
        ],
        links: Links::new(s("/self"), s("/next")),
    };
    assert_eq!(media_ids(&response), vec![s("932493797"), s("1")]);
    let empty = SearchResponse { data: vec![], links: Links::new(s(""), s("")) };
    assert!(media_ids(&empty).is_empty());
}

#[test]
fn links_accessors() {
    let links = Links::new(s("/self"), s("/next"));
    assert_eq!(links.self_link(), "/self");
    assert_eq!(links.next(), "/next");
}

#[test]
fn track_url_has_country() {
    assert_eq!(
        track_url("932493797", "US"),
        Some(s("https://openapi.tidal.com/v2/tracks/932493797?countryCode=US"))
    );
    assert_eq!(
        track_url("a b", "N O"),
        Some(s("https://openapi.tidal.com/v2/tracks/a%20b?countryCode=N+O"))
    );
}

#[test]
fn add_country_code_needs_a_country() {
    let mut params = playback_params();
    let err = add_country_code(&mut params, &None).unwrap_err();
    assert_eq!(err.to_string(), "No countryCode found in dl_get");
    assert_eq!(params.len(), 3);
    add_country_code(&mut params, &Some(s("US"))).unwrap();
    assert_eq!(params.len(), 4);
    add_country_code(&mut params, &Some(s("NO"))).unwrap();
    assert_eq!(params.len(), 4);
    assert_eq!(
        download_api_url(&playback_endpoint("7"), &params),
        Some(s("https://api.tidalhifi.com/v1/tracks/7/playbackinfopostpaywall?audioquality=LOSSLESS&playbackmode=STREAM&assetpresentation=FULL&countryCode=NO"))
    );
}

#[test]
fn query_params_insert_replaces_in_place() {
    let mut params = QueryParams::new();
    assert_eq!(params.len(), 0);
    assert_eq!(params.insert(s("a"), s("1")), None);
    assert_eq!(params.insert(s("b"), s("2")), None);
    assert_eq!(params.insert(s("a"), s("3")), Some(s("1")));
    assert_eq!(params.len(), 2);
    assert_eq!(
        download_api_url("x", &params),
        Some(s("https://api.tidalhifi.com/v1/x?a=3&b=2"))
    );
}

#[test]
fn playback_request() {
    assert_eq!(playback_endpoint("123"), "tracks/123/playbackinfopostpaywall");
    assert_eq!(playback_params().len(), 3);
    assert_eq!(
        download_api_url("tracks/123/playbackinfopostpaywall", &playback_params()),
        Some(s("https://api.tidalhifi.com/v1/tracks/123/playbackinfopostpaywall?audioquality=LOSSLESS&playbackmode=STREAM&assetpresentation=FULL"))
    );
}

#[test]
fn download_api_url_without_params() {
    let url = download_api_url("sessions", &QueryParams::new()).unwrap();
    assert!(url.starts_with("https://api.tidalhifi.com/v1/sessions"));
}

#[test]
fn bearer_header_drops_quotes() {
    assert_eq!(bearer_header("\"abc\""), "Bearer abc");
    assert_eq!(bearer_header("123"), "Bearer 123");
}

#[test]
fn bearer_from_token_response_cases() {
    assert_eq!(
        bearer_from_token_response("{\"access_token\":\"abc.def\",\"expires_in\":86400}"),
        Ok(s("Bearer abc.def"))
    );
    assert_eq!(bearer_from_token_response("{\"access_token\":42}"), Ok(s("Bearer 42")));
    assert_eq!(bearer_from_token_response("not json"), Err(TokenError::NotJson));
    assert_eq!(bearer_from_token_response("{}"), Err(TokenError::NoAccessToken));
    assert_eq!(bearer_from_token_response("[1]"), Err(TokenError::NoAccessToken));
}

#[test]
fn decode_manifest_cases() {
    assert_eq!(
        decode_manifest("eyJjb2RlYyI6MX0="),
        Ok(s("{\"codec\":1}"))
    );
    // Two padding characters: one is left after trimming, which the
    // no-padding engine refuses.
    assert_eq!(
        decode_manifest("eyJ1cmxzIjpbImh0dHBzOi8vYS5iL2MuZmxhYyJdfQ=="),
        Err(ManifestError::InvalidBase64)
    );
    assert_eq!(decode_manifest("!!!!="), Err(ManifestError::InvalidBase64));
    assert_eq!(decode_manifest("//79/Ps="), Err(ManifestError::NotUtf8));
    assert_eq!(decode_manifest(""), Ok(s("")));
}

#[test]
fn first_manifest_url_cases() {
    assert_eq!(
        first_manifest_url("{\"urls\":[\"https://x.y/z 1.mp4\"]}"),
        Ok(s("https://x.y/z%201.mp4"))
    );
    assert_eq!(first_manifest_url("{\"urls\":[]}"), Ok(s("null")));
    assert_eq!(first_manifest_url("{\"codec\":1}"), Err(ManifestError::NoUrls));
    assert_eq!(first_manifest_url("[1,2]"), Err(ManifestError::DecodedNotJson));
}

#[test]
fn extract_url_from_manifest_cases() {
    let body = "{\"manifest\":\"eyJ1cmxzIjpbImh0dHBzOi8veC55L3ogMS5tcDQiXSwibWltZVR5cGUiOiJhdWRpby9mbGFjIn0=\",\"trackId\":1}";
    assert_eq!(extract_url_from_manifest(body), Ok(s("https://x.y/z%201.mp4")));
    assert_eq!(extract_url_from_manifest("oops"), Err(ManifestError::ResponseNotJson));
    assert_eq!(extract_url_from_manifest("{}"), Err(ManifestError::NoManifest));
    assert_eq!(extract_url_from_manifest("{\"manifest\":1}"), Err(ManifestError::ManifestNotText));
    assert_eq!(
        extract_url_from_manifest("{\"manifest\":\"!!!!=\"}"),
        Err(ManifestError::InvalidBase64)
    );
    assert_eq!(
        extract_url_from_manifest("{\"manifest\":\"WzEsMl0=\"}"),
        Err(ManifestError::DecodedNotJson)
    );
}

#[test]
fn tidal_error_message() {
    assert_eq!(TidalError(s("boom")).to_string(), "boom");
}

#[test]
fn defaults() {
    let device = DeviceCodeResponse::default();
    assert_eq!(device.device_code, "");
    assert_eq!(device.verification_uri_complete, "");
    assert_eq!(device.expires_in, 0);
    assert_eq!(device.interval, 0);

    let u = User::default();
    assert_eq!(u.user_id, Some(0));
    assert_eq!(u.country_code, Some(s("")));
    assert_eq!(u.google_uid, Some(0));
    assert!(!u.accepted_EULA);
    assert!(!u.new_user);

    let auth = DlBasicAuthResponse::default();
    assert_eq!(auth.access_token, "");
    assert_eq!(auth.user_id, 0);
    assert_eq!(auth.user.country_code, Some(s("")));

    let account = user::User::default();
    assert_eq!(account.username(), "");
    assert_eq!(account.user_id(), 0);
    assert_eq!(account.join_date(), 0);
}

#[test]
fn sanitize_url_of_concatenation() {
    let a = s("x 'y");
    let b = s("\" z");
    let joined = format!("{}{}", a, b);
    assert_eq!(
        sanitize_url(joined),
        format!("{}{}", sanitize_url(a), sanitize_url(b))
    );
}

#[test]
fn query_params_get_after_insert() {
    let mut params = QueryParams::new();
    assert_eq!(params.get("a"), None);
    params.insert(s("a"), s("1"));
    params.insert(s("b"), s("2"));
    assert_eq!(params.get("a"), Some(&s("1")));
    params.insert(s("a"), s("9"));
    assert_eq!(params.get("a"), Some(&s("9")));
    assert_eq!(params.get("b"), Some(&s("2")));
    assert_eq!(params.get("c"), None);
}

#[test]
fn add_country_code_then_lookup() {
    let mut params = QueryParams::new();
    add_country_code(&mut params, &Some(s("SE"))).unwrap();
    assert_eq!(params.get("countryCode"), Some(&s("SE")));
}

#[test]
fn names_to_ids_last_occurrence_wins() {
    let names = vec![s("Creep"), s("Karma Police"), s("Creep")];
    let ids = vec![s("1"), s("2"), s("3"), s("4")];
    let map = names_to_ids(&names, &ids);
    assert_eq!(map.len(), 2);
    assert_eq!(map.get("Creep"), Some(&s("3")));
    assert_eq!(map.get("Karma Police"), Some(&s("2")));
    assert_eq!(map.get("Airbag"), None);
    assert_eq!(names_to_ids(&vec![], &vec![]).len(), 0);
}

#[test]
fn track_title_reads_nested_title() {
    let track = parse_track("{\"data\":{\"attributes\":{\"title\":\"Creep\"}}}").unwrap();
    assert_eq!(track_title(&track), Some(s("\"Creep\"")));
    let no_title = parse_track("{\"data\":{\"attributes\":{}}}").unwrap();
    assert_eq!(track_title(&no_title), None);
    let empty = parse_track("{}").unwrap();
    assert_eq!(track_title(&empty), None);
    assert!(parse_track("[1]").is_err());
    assert!(parse_track("nope").is_err());
}

#[test]
fn bearer_header_of_token_answer() {
    assert_eq!(
        bearer_from_token_response("{\"access_token\":\"tok\",\"token_type\":\"Bearer\",\"expires_in\":86400}"),
        Ok(s("Bearer tok"))
    );
}

#[test]
fn stream_url_of_short_manifest() {
    // {"urls":["x"]}, padded
    assert_eq!(extract_url_from_manifest("{\"manifest\":\"eyJ1cmxzIjpbIngiXX0=\"}"), Ok(s("x")));
    // {"urls":[]} and {"urls":1}
    assert_eq!(first_manifest_url("{\"urls\":1}"), Ok(s("null")));
}
