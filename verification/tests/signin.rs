use riceathon::form::{deserialize_selected_projects, SelectionField, SELECTION_EXPECTED};
use riceathon::hackatime::{
    start_date, Project, ProjectsResponse, TokenResponse, TrustFactor, UserResponse,
};
use riceathon::pages::{err, CAUGHT, THANKS};
use riceathon::signin::{root, SignInAction, SignInConfig, SignInEvent, SignInState};

fn config() -> SignInConfig {
    SignInConfig {
        client_id: "id".to_string(),
        client_secret: "secret".to_string(),
        redirect_uri: "https://rice.example/".to_string(),
        start_date: "2026-01-01".to_string(),
    }
}

fn token() -> TokenResponse {
    TokenResponse {
        access_token: "t0ken".to_string(),
        token_type: "Bearer".to_string(),
        expires_in: 600,
        scope: "profile read".to_string(),
        created_at: 0,
    }
}

fn user() -> UserResponse {
    UserResponse {
        id: 7,
        emails: vec!["ann@rice.example".to_string()],
        slack_id: "S7".to_string(),
        github_username: "ann".to_string(),
        trust_factor: TrustFactor { trust_level: "blue".to_string(), trust_value: -1 },
    }
}

fn projects() -> ProjectsResponse {
    ProjectsResponse {
        projects: vec![Project {
            name: "dots".to_string(),
            total_seconds: 1,
            most_recent_heartbeat: String::new(),
            languages: vec![],
            archived: true,
        }],
    }
}

fn visit(code: Option<&str>) -> SignInEvent {
    SignInEvent::Visit { code: code.map(|c| c.to_string()) }
}

fn ends_at(step: (SignInState, SignInAction), expected: &str) {
    match step {
        (SignInState::Finished, SignInAction::Redirect(url)) => assert_eq!(url, expected),
        _ => panic!("a redirection was expected"),
    }
}

#[test]
fn a_visitor_without_a_code_is_sent_to_get_one() {
    ends_at(
        root(&config(), SignInState::Ready, visit(None)),
        "https://hackatime.hackclub.com/oauth/authorize?client_id=id&redirect_uri=https://rice.example/&response_type=code&scope=profile+read",
    );
}

#[test]
fn a_visitor_with_a_code_gets_to_the_projects() {
    let config = config();
    let (state, action) = root(&config, SignInState::Ready, visit(Some("c0de")));
    match action {
        SignInAction::Exchange { url, body } => {
            assert_eq!(url, "https://hackatime.hackclub.com/oauth/token");
            assert_eq!(body.client_id, "id");
            assert_eq!(body.client_secret, "secret");
            assert_eq!(body.code, "c0de");
            assert_eq!(body.redirect_uri, "https://rice.example/");
            assert_eq!(body.grant_type, "authorization_code");
        }
        _ => panic!("the code is exchanged"),
    }
    let (state, action) = root(&config, state, SignInEvent::Answered { status: 200 });
    assert!(matches!(action, SignInAction::ReadToken));
    let (state, action) = root(&config, state, SignInEvent::Token(token()));
    match action {
        SignInAction::FetchUser(get) => {
            assert_eq!(get.url, "https://hackatime.hackclub.com/api/v1/authenticated/me");
            assert_eq!(get.bearer, "t0ken");
            assert_eq!(get.query, None);
        }
        _ => panic!("the user is asked for"),
    }
    let (state, action) = root(&config, state, SignInEvent::User(user()));
    match action {
        SignInAction::FetchProjects(get) => {
            assert_eq!(get.url, "https://hackatime.hackclub.com/api/v1/authenticated/projects");
            assert_eq!(get.bearer, "t0ken");
            assert_eq!(get.query, Some(("start", "2026-01-01".to_string())));
        }
        _ => panic!("the projects are asked for"),
    }
    let (state, action) = root(&config, state, SignInEvent::Projects(projects()));
    assert!(matches!(state, SignInState::Finished));
    match action {
        SignInAction::ShowProjects { cookie, template, github_username, projects } => {
            assert_eq!(cookie.name, "token");
            assert_eq!(cookie.value, "t0ken");
            assert_eq!(cookie.path, "/");
            assert!(cookie.secure && cookie.http_only && cookie.same_site_lax);
            assert_eq!(cookie.max_age_minutes, 10);
            assert_eq!(template, "main.html");
            assert_eq!(github_username, "ann");
            assert_eq!(projects.len(), 1);
            assert_eq!(projects[0].name, "dots");
        }
        _ => panic!("the projects are shown"),
    }
}

#[test]
fn only_a_successful_exchange_goes_on() {
    for status in [200u16, 204, 299] {
        let step = root(&config(), SignInState::AwaitingExchange, SignInEvent::Answered { status });
        assert!(matches!(step, (SignInState::AwaitingToken, SignInAction::ReadToken)));
    }
    for status in [100u16, 199, 300, 302, 401, 500] {
        ends_at(
            root(&config(), SignInState::AwaitingExchange, SignInEvent::Answered { status }),
            "/err",
        );
    }
}

#[test]
fn every_failure_on_the_way_in_leads_to_the_error_page() {
    for state in [
        SignInState::AwaitingExchange,
        SignInState::AwaitingToken,
        SignInState::AwaitingUser { token: "t".to_string() },
        SignInState::AwaitingProjects { token: "t".to_string(), github_username: "a".to_string() },
    ] {
        ends_at(root(&config(), state, SignInEvent::Failed), "/err");
    }
}

#[test]
fn the_start_date_can_be_set() {
    assert_eq!(start_date(None), "2025-12-22T00:00:00Z");
    assert_eq!(start_date(Some("2026-02-01".to_string())), "2026-02-01");
    assert_eq!(start_date(Some(String::new())), "");
}

#[test]
fn a_selection_is_a_list_however_it_is_given() {
    let none: Vec<String> = vec![];
    assert_eq!(deserialize_selected_projects(SelectionField::Missing), none);
    assert_eq!(
        deserialize_selected_projects(SelectionField::One("a".to_string())),
        vec!["a".to_string()]
    );
    assert_eq!(
        deserialize_selected_projects(SelectionField::Many(vec!["a".to_string(), "b".to_string()])),
        vec!["a".to_string(), "b".to_string()]
    );
    assert_eq!(SELECTION_EXPECTED, "a string or a sequence of strings");
}

#[test]
fn the_pages_say_what_they_are_for() {
    assert!(err().contains("Would you pat the cat?"));
    assert!(CAUGHT.contains("U THINK U CAN SUBMIT TWO TIMES IN A ROW ?!"));
    assert!(THANKS.contains("For Submitting !"));
}
