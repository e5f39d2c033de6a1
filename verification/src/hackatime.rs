//! The answers of Hackatime, the time tracker, and what is asked of it.

use vstd::prelude::*;

verus! {

/// A user of the time tracker.
#[derive(Debug)]
pub struct UserResponse {
    pub id: u64,
    pub emails: Vec<String>,
    pub slack_id: String,
    pub github_username: String,
    pub trust_factor: TrustFactor,
}

/// How far a user is trusted.
#[derive(Debug)]
pub struct TrustFactor {
    pub trust_level: String,
    pub trust_value: i32,
}

/// The projects of a user.
#[derive(Debug)]
pub struct ProjectsResponse {
    pub projects: Vec<Project>,
}

/// A project and the time spent on it.
#[derive(Debug)]
pub struct Project {
    pub name: String,
    pub total_seconds: u64,
    pub most_recent_heartbeat: String,
    pub languages: Vec<String>,
    pub archived: bool,
}

/// A token that a code was exchanged for.
#[derive(Debug)]
pub struct TokenResponse {
    pub access_token: String,
    pub token_type: String,
    pub expires_in: u32,
    pub scope: String,
    pub created_at: u32,
}

/// The exchange of a code for a token.
#[derive(Debug)]
pub struct CodeExchange {
    pub client_id: String,
    pub client_secret: String,
    pub code: String,
    pub redirect_uri: String,
    pub grant_type: &'static str,
}

/// Where a user is asked for.
pub const USER_URL: &'static str = "https://hackatime.hackclub.com/api/v1/authenticated/me";

/// Where the projects of a user are asked for.
pub const PROJECTS_URL: &'static str =
    "https://hackatime.hackclub.com/api/v1/authenticated/projects";

/// Where a code is exchanged for a token.
pub const TOKEN_URL: &'static str = "https://hackatime.hackclub.com/oauth/token";

/// Where every failure sends the visitor.
pub const ERROR_PATH: &'static str = "/err";

/// The first day that counts, unless another one is set.
pub const DEFAULT_START_DATE: &'static str = "2025-12-22T00:00:00Z";

/// The first day that counts: the one that is set, or the usual one.
pub open spec fn first_day(setting: Option<String>) -> Seq<char> {
    match setting {
        Some(date) => date@,
        None => DEFAULT_START_DATE@,
    }
}

/// Takes the first day that counts from the settings, or the usual one.
pub fn start_date(setting: Option<String>) -> (date: String)
    ensures
        date@ == first_day(setting),
{
    match setting {
        Some(date) => date,
        None => DEFAULT_START_DATE.to_owned(),
    }
}

/// A request that is authorised by a token.
#[derive(Debug)]
pub struct GetRequest {
    /// What is asked for.
    pub url: String,
    /// The token.
    pub bearer: String,
    /// A parameter and its value.
    pub query: Option<(&'static str, String)>,
}

/// What a `GetRequest` says.
pub struct Get {
    pub url: Seq<char>,
    pub bearer: Seq<char>,
    pub query: Option<(Seq<char>, Seq<char>)>,
}

impl View for GetRequest {
    type V = Get;

    open spec fn view(&self) -> Get {
        Get {
            url: self.url@,
            bearer: self.bearer@,
            query: match self.query {
                Some((name, value)) => Some((name@, value@)),
                None => None,
            },
        }
    }
}

/// Asks for the user that a token belongs to.
pub open spec fn get_user(token: Seq<char>) -> Get {
    Get { url: USER_URL@, bearer: token, query: None }
}

/// Asks for the projects of the user that a token belongs to, from `start` on.
pub open spec fn get_projects(token: Seq<char>, start: Seq<char>) -> Get {
    Get { url: PROJECTS_URL@, bearer: token, query: Some(("start"@, start)) }
}

/// Makes the request for the user that a token belongs to.
pub fn user_request(token: &str) -> (request: GetRequest)
    ensures
        request@ == get_user(token@),
{
    GetRequest { url: USER_URL.to_owned(), bearer: token.to_owned(), query: None }
}

/// Makes the request for the projects of the user that a token belongs to, from `start` on.
pub fn projects_request(token: &str, start: &str) -> (request: GetRequest)
    ensures
        request@ == get_projects(token@, start@),
{
    GetRequest {
        url: PROJECTS_URL.to_owned(),
        bearer: token.to_owned(),
        query: Some(("start", start.to_owned())),
    }
}

/// A request is seen as it is: what it asks for, with which token, and with which parameter.
pub proof fn lemma_request_is_seen_whole(r: GetRequest)
    ensures
        r@.url == r.url@,
        r@.bearer == r.bearer@,
        r.query is None <==> r@.query is None,
        r.query matches Some((name, value)) ==> r@.query == Some((name@, value@)),
{
}

/// Whatever is set counts as it is set; only where nothing is set does the usual day count.
pub proof fn lemma_setting_decides(date: String)
    ensures
        first_day(Some(date)) == date@,
        first_day(None) == "2025-12-22T00:00:00Z"@,
{
}

} // verus!
