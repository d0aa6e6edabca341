//! The data that requests and responses of the TIDAL APIs carry.

use vstd::prelude::*;

verus! {

/// An error of this library, carrying its message.
#[derive(Debug)]
pub struct TidalError(pub String);

impl TidalError {
    /// The message, as `Display` writes it.
    pub fn to_string(&self) -> (s: String)
        ensures
            s@ == self.0@,
    {
        self.0.clone()
    }
}

/// What a search looks for.
#[derive(Debug)]
pub enum SearchType {
    Album,
    Artist,
    Playlist,
    TopHits,
    Track,
    Video,
}

/// The name of a search type in the search endpoint's path.
pub open spec fn search_kind_name(t: SearchType) -> Seq<char> {
    match t {
        SearchType::Album => "albums"@,
        SearchType::Artist => "artists"@,
        SearchType::Playlist => "playlists"@,
        SearchType::TopHits => "topHits"@,
        SearchType::Track => "tracks"@,
        SearchType::Video => "videos"@,
    }
}

impl SearchType {
    /// The name of the search type in the search endpoint's path, as
    /// `Display` writes it.
    pub fn to_string(&self) -> (s: String)
        ensures
            s@ == search_kind_name(*self),
    {
        match self {
            SearchType::Album => String::from_str("albums"),
            SearchType::Artist => String::from_str("artists"),
            SearchType::Playlist => String::from_str("playlists"),
            SearchType::TopHits => String::from_str("topHits"),
            SearchType::Track => String::from_str("tracks"),
            SearchType::Video => String::from_str("videos"),
        }
    }
}

/// A search request: what to look for, the query, the country, the related
/// resources to include, and an optional page cursor.
#[allow(non_snake_case)]
pub struct Search {
    pub search_type: SearchType,
    pub query: String,
    pub country_code: String,
    pub array: Option<Vec<String>>,
    pub page: Option<String>,
}

/// The answer of the device authorisation endpoint.
#[derive(Debug)]
pub struct DeviceCodeResponse {
    pub device_code: String,
    pub user_code: String,
    pub verification_uri: String,
    pub verification_uri_complete: String,
    pub expires_in: u32,
    pub interval: u32,
}

impl Default for DeviceCodeResponse {
    /// Empty strings and zeros.
    fn default() -> (r: Self)
        ensures
            r.device_code@ == Seq::<char>::empty(),
            r.user_code@ == Seq::<char>::empty(),
            r.verification_uri@ == Seq::<char>::empty(),
            r.verification_uri_complete@ == Seq::<char>::empty(),
            r.expires_in == 0,
            r.interval == 0,
    {
        DeviceCodeResponse {
            device_code: String::new(),
            user_code: String::new(),
            verification_uri: String::new(),
            verification_uri_complete: String::new(),
            expires_in: 0,
            interval: 0,
        }
    }
}

/// The account that an authorisation belongs to.
#[derive(Debug)]
#[allow(non_snake_case)]
pub struct User {
    pub user_id: Option<u64>,
    pub email: Option<String>,
    pub country_code: Option<String>,
    pub full_name: Option<String>,
    pub first_name: Option<String>,
    pub last_name: Option<String>,
    pub nickname: Option<String>,
    pub username: Option<String>,
    pub address: Option<String>,
    pub city: Option<String>,
    pub postalcode: Option<String>,
    pub us_state: Option<String>,
    pub phone_number: Option<String>,
    pub birthday: Option<u64>,
    pub channel_id: Option<u64>,
    pub parent_id: Option<u64>,
    pub accepted_EULA: bool,
    pub created: Option<u64>,
    pub updated: Option<u64>,
    pub facebook_uid: Option<u64>,
    pub apple_uid: Option<u64>,
    pub google_uid: Option<u64>,
    pub account_link_created: bool,
    pub email_verified: bool,
    pub new_user: bool,
}

/// The field holds an empty string.
pub open spec fn is_some_empty(s: Option<String>) -> bool {
    s matches Some(v) && v@ == Seq::<char>::empty()
}

/// Every optional number of the account is `Some(0)`, every optional text
/// `Some("")`, every flag `false`: the default account.
pub open spec fn is_default_user(u: User) -> bool {
    &&& u.user_id == Some(0u64)
    &&& is_some_empty(u.email)
    &&& is_some_empty(u.country_code)
    &&& is_some_empty(u.full_name)
    &&& is_some_empty(u.first_name)
    &&& is_some_empty(u.last_name)
    &&& is_some_empty(u.nickname)
    &&& is_some_empty(u.username)
    &&& is_some_empty(u.address)
    &&& is_some_empty(u.city)
    &&& is_some_empty(u.postalcode)
    &&& is_some_empty(u.us_state)
    &&& is_some_empty(u.phone_number)
    &&& u.birthday == Some(0u64)
    &&& u.channel_id == Some(0u64)
    &&& u.parent_id == Some(0u64)
    &&& !u.accepted_EULA
    &&& u.created == Some(0u64)
    &&& u.updated == Some(0u64)
    &&& u.facebook_uid == Some(0u64)
    &&& u.apple_uid == Some(0u64)
    &&& u.google_uid == Some(0u64)
    &&& !u.account_link_created
    &&& !u.email_verified
    &&& !u.new_user
}

impl Default for User {
    /// Every optional number is `Some(0)`, every optional text `Some("")`,
    /// every flag `false`.
    fn default() -> (r: Self)
        ensures
            is_default_user(r),
    {
        User {
            user_id: Some(0),
            email: Some(String::new()),
            country_code: Some(String::new()),
            full_name: Some(String::new()),
            first_name: Some(String::new()),
            last_name: Some(String::new()),
            nickname: Some(String::new()),
            username: Some(String::new()),
            address: Some(String::new()),
            city: Some(String::new()),
            postalcode: Some(String::new()),
            us_state: Some(String::new()),
            phone_number: Some(String::new()),
            birthday: Some(0),
            channel_id: Some(0),
            parent_id: Some(0),
            accepted_EULA: false,
            created: Some(0),
            updated: Some(0),
            facebook_uid: Some(0),
            apple_uid: Some(0),
            google_uid: Some(0),
            account_link_created: false,
            email_verified: false,
            new_user: false,
        }
    }
}

/// The answer of the token endpoint of the device flow: the access token and
/// the account it was issued for.
#[derive(Debug)]
#[allow(non_snake_case)]
pub struct DlBasicAuthResponse {
    pub scope: String,
    pub user: User,
    pub clientName: String,
    pub token_type: String,
    pub access_token: String,
    pub expires_in: u32,
    pub user_id: u64,
}

impl Default for DlBasicAuthResponse {
    /// Empty strings, zeros and the default user.
    fn default() -> (r: Self)
        ensures
            r.scope@ == Seq::<char>::empty(),
            r.clientName@ == Seq::<char>::empty(),
            r.token_type@ == Seq::<char>::empty(),
            r.access_token@ == Seq::<char>::empty(),
            r.expires_in == 0,
            r.user_id == 0,
            is_default_user(r.user),
    {
        DlBasicAuthResponse {
            scope: String::new(),
            user: User::default(),
            clientName: String::new(),
            token_type: String::new(),
            access_token: String::new(),
            expires_in: 0,
            user_id: 0,
        }
    }
}

/// One search hit: its id and its resource type.
#[derive(Debug)]
pub struct Media {
    pub id: String,
    pub _type: String,
}

/// The links of a page of search results.
#[derive(Debug)]
pub struct Links {
    _self: String,
    next: String,
}

impl View for Links {
    type V = (Seq<char>, Seq<char>);

    /// The link to this page and the link to the next one.
    closed spec fn view(&self) -> (Seq<char>, Seq<char>) {
        (self._self@, self.next@)
    }
}

impl Links {
    /// The links of a page, given the link to it and to the next page.
    pub fn new(self_link: String, next: String) -> (l: Links)
        ensures
            l@ == (self_link@, next@),
    {
        Links { _self: self_link, next }
    }

    /// The link to this page.
    pub fn self_link(&self) -> (s: &String)
        ensures
            s@ == self@.0,
    {
        &self._self
    }

    /// The link to the next page.
    pub fn next(&self) -> (s: &String)
        ensures
            s@ == self@.1,
    {
        &self.next
    }
}

/// A page of search results.
#[derive(Debug)]
pub struct SearchResponse {
    pub data: Vec<Media>,
    pub links: Links,
}

} // verus!
