//! The way into the showcase: from a first visit over Hackatime to the page of one's projects.

use vstd::prelude::*;
use crate::hackatime::{
    get_projects, get_user, projects_request, user_request, CodeExchange, Get, GetRequest, Project,
    ProjectsResponse, TokenResponse, UserResponse, ERROR_PATH, PROJECTS_URL,
    TOKEN_URL, USER_URL,
};

verus! {

/// What the way in depends on.
pub struct SignInConfig {
    /// The name under which Hackatime knows the showcase.
    pub client_id: String,
    /// What proves that name.
    pub client_secret: String,
    /// Where Hackatime sends a visitor back to.
    pub redirect_uri: String,
    /// The first day that counts.
    pub start_date: String,
}

/// Where a visitor without a code is sent.
pub open spec fn authorize_url(client_id: Seq<char>, redirect_uri: Seq<char>) -> Seq<char> {
    "https://hackatime.hackclub.com/oauth/authorize?client_id="@ + client_id + "&redirect_uri="@
        + redirect_uri + "&response_type=code&scope=profile+read"@
}

/// How far a visitor has come.
pub enum SignInState {
    /// Nothing has happened yet.
    Ready,
    /// The code is being exchanged.
    AwaitingExchange,
    /// The token is not read yet.
    AwaitingToken,
    /// It is not known yet who the visitor is.
    AwaitingUser { token: String },
    /// The projects of the visitor are not known yet.
    AwaitingProjects { token: String, github_username: String },
    /// Nothing is left to do.
    Finished,
}

/// What a `SignInState` holds.
pub enum SignInStage {
    Ready,
    AwaitingExchange,
    AwaitingToken,
    AwaitingUser { token: Seq<char> },
    AwaitingProjects { token: Seq<char>, github_username: Seq<char> },
    Finished,
}

impl View for SignInState {
    type V = SignInStage;

    open spec fn view(&self) -> SignInStage {
        match *self {
            SignInState::Ready => SignInStage::Ready,
            SignInState::AwaitingExchange => SignInStage::AwaitingExchange,
            SignInState::AwaitingToken => SignInStage::AwaitingToken,
            SignInState::AwaitingUser { token } => SignInStage::AwaitingUser { token: token@ },
            SignInState::AwaitingProjects { token, github_username } => {
                SignInStage::AwaitingProjects { token: token@, github_username: github_username@ }
            },
            SignInState::Finished => SignInStage::Finished,
        }
    }
}

/// What happens on the way in.
pub enum SignInEvent {
    /// A visitor comes, with a code from Hackatime or without one.
    Visit { code: Option<String> },
    /// The exchange of the code was answered with this status.
    Answered { status: u16 },
    /// The token was read.
    Token(TokenResponse),
    /// The user is known.
    User(UserResponse),
    /// The projects of the user are known.
    Projects(ProjectsResponse),
    /// What was asked for could not be done.
    Failed,
}

/// The cookie that keeps a token.
pub struct TokenCookie {
    pub name: &'static str,
    pub value: String,
    pub path: &'static str,
    pub secure: bool,
    pub http_only: bool,
    pub same_site_lax: bool,
    pub max_age_minutes: i64,
}

/// What a `TokenCookie` says.
pub struct Cookie {
    pub name: Seq<char>,
    pub value: Seq<char>,
    pub path: Seq<char>,
    pub secure: bool,
    pub http_only: bool,
    pub same_site_lax: bool,
    pub max_age_minutes: int,
}

impl View for TokenCookie {
    type V = Cookie;

    open spec fn view(&self) -> Cookie {
        Cookie {
            name: self.name@,
            value: self.value@,
            path: self.path@,
            secure: self.secure,
            http_only: self.http_only,
            same_site_lax: self.same_site_lax,
            max_age_minutes: self.max_age_minutes as int,
        }
    }
}

/// The cookie that keeps `token`: for ten minutes, on every path, over secure connections, out of
/// the reach of scripts and of other sites.
pub open spec fn cookie_for(token: Seq<char>) -> Cookie {
    Cookie {
        name: "token"@,
        value: token,
        path: "/"@,
        secure: true,
        http_only: true,
        same_site_lax: true,
        max_age_minutes: 10,
    }
}

/// Makes the cookie that keeps `token`.
pub fn token_cookie(token: String) -> (cookie: TokenCookie)
    ensures
        cookie@ == cookie_for(token@),
{
    TokenCookie {
        name: "token",
        value: token,
        path: "/",
        secure: true,
        http_only: true,
        same_site_lax: true,
        max_age_minutes: 10,
    }
}

/// What is to be done next.
pub enum SignInAction {
    /// To exchange the code for a token, at this address.
    Exchange { url: &'static str, body: CodeExchange },
    /// To read the token out of the answer.
    ReadToken,
    /// To ask who the visitor is.
    FetchUser(GetRequest),
    /// To ask for the projects of the visitor.
    FetchProjects(GetRequest),
    /// To set the cookie and show the page of the visitor's projects, made from this template.
    ShowProjects {
        cookie: TokenCookie,
        template: &'static str,
        github_username: String,
        projects: Vec<Project>,
    },
    /// To send the visitor elsewhere.
    Redirect(String),
}

/// What a `SignInAction` asks for.
pub enum SignInTask {
    Exchange {
        url: Seq<char>,
        client_id: Seq<char>,
        client_secret: Seq<char>,
        code: Seq<char>,
        redirect_uri: Seq<char>,
        grant_type: Seq<char>,
    },
    ReadToken,
    FetchUser(Get),
    FetchProjects(Get),
    ShowProjects {
        cookie: Cookie,
        template: Seq<char>,
        github_username: Seq<char>,
        projects: Seq<Project>,
    },
    Redirect(Seq<char>),
}

impl View for SignInAction {
    type V = SignInTask;

    open spec fn view(&self) -> SignInTask {
        match *self {
            SignInAction::Exchange { url, body } => SignInTask::Exchange {
                url: url@,
                client_id: body.client_id@,
                client_secret: body.client_secret@,
                code: body.code@,
                redirect_uri: body.redirect_uri@,
                grant_type: body.grant_type@,
            },
            SignInAction::ReadToken => SignInTask::ReadToken,
            SignInAction::FetchUser(request) => SignInTask::FetchUser(request@),
            SignInAction::FetchProjects(request) => SignInTask::FetchProjects(request@),
            SignInAction::ShowProjects { cookie, template, github_username, projects } => {
                SignInTask::ShowProjects {
                    cookie: cookie@,
                    template: template@,
                    github_username: github_username@,
                    projects: projects@,
                }
            },
            SignInAction::Redirect(url) => SignInTask::Redirect(url@),
        }
    }
}

/// Whether an HTTP status says that a request has succeeded.
pub open spec fn success(status: u16) -> bool {
    200 <= status < 300
}

/// What an event leads to. A visitor without a code is sent to Hackatime to get one; a failure, an
/// exchange without success and anything that was not asked for lead to the error page.
pub open spec fn after_root(config: SignInConfig, stage: SignInStage, event: SignInEvent) -> (
    SignInStage,
    SignInTask,
) {
    match (stage, event) {
        (SignInStage::Ready, SignInEvent::Visit { code: None }) => (
            SignInStage::Finished,
            SignInTask::Redirect(authorize_url(config.client_id@, config.redirect_uri@)),
        ),
        (SignInStage::Ready, SignInEvent::Visit { code: Some(code) }) => (
            SignInStage::AwaitingExchange,
            SignInTask::Exchange {
                url: TOKEN_URL@,
                client_id: config.client_id@,
                client_secret: config.client_secret@,
                code: code@,
                redirect_uri: config.redirect_uri@,
                grant_type: "authorization_code"@,
            },
        ),
        (SignInStage::AwaitingExchange, SignInEvent::Answered { status }) if success(status) => (
            SignInStage::AwaitingToken,
            SignInTask::ReadToken,
        ),
        (SignInStage::AwaitingToken, SignInEvent::Token(response)) => (
            SignInStage::AwaitingUser { token: response.access_token@ },
            SignInTask::FetchUser(get_user(response.access_token@)),
        ),
        (SignInStage::AwaitingUser { token }, SignInEvent::User(user)) => (
            SignInStage::AwaitingProjects { token, github_username: user.github_username@ },
            SignInTask::FetchProjects(get_projects(token, config.start_date@)),
        ),
        (
            SignInStage::AwaitingProjects { token, github_username },
            SignInEvent::Projects(response),
        ) => (
            SignInStage::Finished,
            SignInTask::ShowProjects {
                cookie: cookie_for(token),
                template: "main.html"@,
                github_username,
                projects: response.projects@,
            },
        ),
        _ => (SignInStage::Finished, SignInTask::Redirect(ERROR_PATH@)),
    }
}

/// Takes a visitor one event further.
pub fn root(config: &SignInConfig, state: SignInState, event: SignInEvent) -> (r: (
    SignInState,
    SignInAction,
))
    ensures
        (r.0@, r.1@) == after_root(*config, state@, event),
{
    match (state, event) {
        (SignInState::Ready, SignInEvent::Visit { code: None }) => {
            let mut url = "https://hackatime.hackclub.com/oauth/authorize?client_id=".to_owned();
            url.append(config.client_id.as_str());
            url.append("&redirect_uri=");
            url.append(config.redirect_uri.as_str());
            url.append("&response_type=code&scope=profile+read");
            (SignInState::Finished, SignInAction::Redirect(url))
        },
        (SignInState::Ready, SignInEvent::Visit { code: Some(code) }) => {
            let body = CodeExchange {
                client_id: config.client_id.clone(),
                client_secret: config.client_secret.clone(),
                code,
                redirect_uri: config.redirect_uri.clone(),
                grant_type: "authorization_code",
            };
            (SignInState::AwaitingExchange, SignInAction::Exchange { url: TOKEN_URL, body })
        },
        (SignInState::AwaitingExchange, SignInEvent::Answered { status }) if 200 <= status && status
            < 300 => { (SignInState::AwaitingToken, SignInAction::ReadToken) },
        (SignInState::AwaitingToken, SignInEvent::Token(response)) => {
            let request = user_request(response.access_token.as_str());
            (
                SignInState::AwaitingUser { token: response.access_token },
                SignInAction::FetchUser(request),
            )
        },
        (SignInState::AwaitingUser { token }, SignInEvent::User(user)) => {
            let request = projects_request(token.as_str(), config.start_date.as_str());
            (
                SignInState::AwaitingProjects { token, github_username: user.github_username },
                SignInAction::FetchProjects(request),
            )
        },
        (
            SignInState::AwaitingProjects { token, github_username },
            SignInEvent::Projects(response),
        ) => {
            (
                SignInState::Finished,
                SignInAction::ShowProjects {
                    cookie: token_cookie(token),
                    template: "main.html",
                    github_username,
                    projects: response.projects,
                },
            )
        },
        _ => (SignInState::Finished, SignInAction::Redirect(ERROR_PATH.to_owned())),
    }
}

/// A failure always leads to the error page.
pub proof fn lemma_failure_leads_to_the_error_page(config: SignInConfig, stage: SignInStage)
    ensures
        after_root(config, stage, SignInEvent::Failed) == (
            SignInStage::Finished,
            SignInTask::Redirect(ERROR_PATH@),
        ),
{
}

/// How many events the way in can take at most.
pub open spec fn steps_left(stage: SignInStage) -> nat {
    match stage {
        SignInStage::Ready => 5,
        SignInStage::AwaitingExchange => 4,
        SignInStage::AwaitingToken => 3,
        SignInStage::AwaitingUser { .. } => 2,
        SignInStage::AwaitingProjects { .. } => 1,
        SignInStage::Finished => 0,
    }
}

/// Every event brings a visitor closer to the end, which is a page or a redirection.
pub proof fn lemma_the_way_ends(config: SignInConfig, stage: SignInStage, event: SignInEvent)
    requires
        !(stage is Finished),
    ensures
        ({
            let (next, task) = after_root(config, stage, event);
            &&& steps_left(next) < steps_left(stage)
            &&& next is Finished <==> task is ShowProjects || task is Redirect
        }),
{
}

/// The token that the code was exchanged for is the one that asks for the user and the projects
/// and that the cookie keeps, and a cookie is set only once both answers are there.
pub proof fn lemma_one_token(
    config: SignInConfig,
    response: TokenResponse,
    user: UserResponse,
    projects: ProjectsResponse,
)
    ensures
        ({
            let token = response.access_token@;
            let (s1, t1) = after_root(
                config,
                SignInStage::AwaitingToken,
                SignInEvent::Token(response),
            );
            let (s2, t2) = after_root(config, s1, SignInEvent::User(user));
            let (s3, t3) = after_root(config, s2, SignInEvent::Projects(projects));
            &&& t1 == SignInTask::FetchUser(get_user(token))
            &&& t2 == SignInTask::FetchProjects(get_projects(token, config.start_date@))
            &&& t3 == SignInTask::ShowProjects {
                cookie: cookie_for(token),
                template: "main.html"@,
                github_username: user.github_username@,
                projects: projects.projects@,
            }
            &&& s3 is Finished
        }),
{
}

/// A cookie is set only by a page that shows projects, and that comes only after the user and the
/// projects were fetched.
pub proof fn lemma_cookie_comes_last(config: SignInConfig, stage: SignInStage, event: SignInEvent)
    requires
        after_root(config, stage, event).1 is ShowProjects,
    ensures
        stage is AwaitingProjects,
        event is Projects,
{
}

/// How far a visitor has come is seen as it is.
pub proof fn lemma_state_is_seen_whole(state: SignInState)
    ensures
        match state {
            SignInState::Ready => state@ is Ready,
            SignInState::AwaitingExchange => state@ is AwaitingExchange,
            SignInState::AwaitingToken => state@ is AwaitingToken,
            SignInState::AwaitingUser { token } => {
                state@ matches SignInStage::AwaitingUser { token: t } && t == token@
            },
            SignInState::AwaitingProjects { token, github_username } => {
                &&& state@ matches SignInStage::AwaitingProjects { token: t, github_username: g }
                &&& t == token@
                &&& g == github_username@
            },
            SignInState::Finished => state@ is Finished,
        },
{
}

/// What is to be done is seen as it is.
pub proof fn lemma_action_is_seen_whole(action: SignInAction)
    ensures
        match action {
            SignInAction::Exchange { url, body } => {
                &&& action@ matches SignInTask::Exchange {
                    url: u,
                    client_id,
                    client_secret,
                    code,
                    redirect_uri,
                    grant_type,
                }
                &&& u == url@
                &&& client_id == body.client_id@
                &&& client_secret == body.client_secret@
                &&& code == body.code@
                &&& redirect_uri == body.redirect_uri@
                &&& grant_type == body.grant_type@
            },
            SignInAction::ReadToken => action@ is ReadToken,
            SignInAction::FetchUser(request) => {
                action@ matches SignInTask::FetchUser(r) && r == request@
            },
            SignInAction::FetchProjects(request) => {
                action@ matches SignInTask::FetchProjects(r) && r == request@
            },
            SignInAction::ShowProjects { cookie, template, github_username, projects } => {
                &&& action@ matches SignInTask::ShowProjects {
                    cookie: c,
                    template: t,
                    github_username: g,
                    projects: p,
                }
                &&& c.name == cookie.name@
                &&& c.value == cookie.value@
                &&& c.path == cookie.path@
                &&& c.secure == cookie.secure
                &&& c.http_only == cookie.http_only
                &&& c.same_site_lax == cookie.same_site_lax
                &&& c.max_age_minutes == cookie.max_age_minutes
                &&& t == template@
                &&& g == github_username@
                &&& p == projects@
            },
            SignInAction::Redirect(url) => action@ matches SignInTask::Redirect(u) && u == url@,
        },
{
}

/// A visitor without a code is sent to Hackatime, with the name of the showcase and the way back as
/// they are set.
pub proof fn lemma_first_visit(config: SignInConfig)
    ensures
        after_root(config, SignInStage::Ready, SignInEvent::Visit { code: None }) == (
            SignInStage::Finished,
            SignInTask::Redirect(
                "https://hackatime.hackclub.com/oauth/authorize?client_id="@ + config.client_id@
                    + "&redirect_uri="@ + config.redirect_uri@
                    + "&response_type=code&scope=profile+read"@,
            ),
        ),
{
}

/// The whole way of a visitor with a code whose every step succeeds: the code is exchanged as the
/// settings say, the user and the projects are asked for with the token that comes back, and the
/// page shows all projects of that user and sets a cookie that keeps the token for ten minutes.
pub proof fn lemma_visitor_gets_in(
    config: SignInConfig,
    code: String,
    status: u16,
    response: TokenResponse,
    user: UserResponse,
    projects: ProjectsResponse,
)
    requires
        200 <= status <= 299,
    ensures
        ({
            let token = response.access_token@;
            let (s1, t1) = after_root(
                config,
                SignInStage::Ready,
                SignInEvent::Visit { code: Some(code) },
            );
            let (s2, t2) = after_root(config, s1, SignInEvent::Answered { status });
            let (s3, t3) = after_root(config, s2, SignInEvent::Token(response));
            let (s4, t4) = after_root(config, s3, SignInEvent::User(user));
            let (s5, t5) = after_root(config, s4, SignInEvent::Projects(projects));
            &&& t1 == SignInTask::Exchange {
                url: TOKEN_URL@,
                client_id: config.client_id@,
                client_secret: config.client_secret@,
                code: code@,
                redirect_uri: config.redirect_uri@,
                grant_type: "authorization_code"@,
            }
            &&& t2 is ReadToken
            &&& t3 matches SignInTask::FetchUser(get) && get.url == USER_URL@ && get.bearer
                == token && get.query is None
            &&& t4 matches SignInTask::FetchProjects(get) && get.url == PROJECTS_URL@ && get.bearer
                == token && get.query == Some(("start"@, config.start_date@))
            &&& t5 matches SignInTask::ShowProjects {
                cookie,
                template,
                github_username,
                projects: shown,
            } && {
                &&& cookie.name == "token"@
                &&& cookie.value == token
                &&& cookie.path == "/"@
                &&& cookie.secure
                &&& cookie.http_only
                &&& cookie.same_site_lax
                &&& cookie.max_age_minutes == 10
                &&& template == "main.html"@
                &&& github_username == user.github_username@
                &&& shown == projects.projects@
            }
            &&& s5 is Finished
        }),
{
}

/// Whether an event is what a visitor waits for.
pub open spec fn awaited(stage: SignInStage, event: SignInEvent) -> bool {
    match event {
        SignInEvent::Visit { .. } => stage is Ready,
        SignInEvent::Answered { status } => stage is AwaitingExchange && 200 <= status <= 299,
        SignInEvent::Token(_) => stage is AwaitingToken,
        SignInEvent::User(_) => stage is AwaitingUser,
        SignInEvent::Projects(_) => stage is AwaitingProjects,
        SignInEvent::Failed => false,
    }
}

/// A visitor with a code is sent to the error page exactly if something else comes than what is
/// waited for, such as an exchange that is answered without success.
pub proof fn lemma_only_the_unexpected_leads_to_the_error_page(
    config: SignInConfig,
    stage: SignInStage,
    event: SignInEvent,
)
    requires
        !(event matches SignInEvent::Visit { code } && code is None),
    ensures
        ({
            let (next, task) = after_root(config, stage, event);
            &&& task is Redirect <==> !awaited(stage, event)
            &&& !awaited(stage, event) ==> task == SignInTask::Redirect(ERROR_PATH@)
                && next is Finished
        }),
{
}

} // verus!
