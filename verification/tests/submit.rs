use riceathon::hackatime::{Project, ProjectsResponse, TrustFactor, UserResponse};
use riceathon::ledger::read_submitted;
use riceathon::pages::{CAUGHT, THANKS};
use riceathon::submit::{is_countable_event, submit, SubmitAction, SubmitEvent, SubmitState};
use std::collections::HashSet;

const START: &str = "2025-12-22T00:00:00Z";

fn user(id: u64) -> UserResponse {
    UserResponse {
        id,
        emails: vec![],
        slack_id: format!("S{id}"),
        github_username: "ann".to_string(),
        trust_factor: TrustFactor { trust_level: "green".to_string(), trust_value: 2 },
    }
}

fn projects() -> ProjectsResponse {
    let project = |name: &str, total_seconds: u64| Project {
        name: name.to_string(),
        total_seconds,
        most_recent_heartbeat: String::new(),
        languages: vec![],
        archived: false,
    };
    ProjectsResponse { projects: vec![project("dots", 3660), project("blog", 60)] }
}

fn request(token: Option<&str>) -> SubmitEvent {
    SubmitEvent::Request {
        token: token.map(|t| t.to_string()),
        form: vec![("selected_projects".to_string(), "dots".to_string())],
    }
}

fn leads_to_the_error_page(step: (SubmitState, SubmitAction)) {
    match step {
        (SubmitState::Finished, SubmitAction::Redirect(path)) => assert_eq!(path, "/err"),
        _ => panic!("the error page was expected"),
    }
}

/// Takes a submission up to where the announcement was handed out.
fn up_to_the_post(submitted: &mut HashSet<u64>, id: u64) -> SubmitState {
    let (state, _) = submit(submitted, START, SubmitState::Ready, request(Some("t0ken")));
    let (state, _) = submit(submitted, START, state, SubmitEvent::User(user(id)));
    let (state, _) = submit(submitted, START, state, SubmitEvent::Projects(projects()));
    state
}

#[test]
fn a_submission_goes_its_way() {
    let mut submitted = HashSet::from([1]);
    let (state, action) = submit(&mut submitted, START, SubmitState::Ready, request(Some("t0ken")));
    match action {
        SubmitAction::FetchUser(get) => {
            assert_eq!(get.url, "https://hackatime.hackclub.com/api/v1/authenticated/me");
            assert_eq!(get.bearer, "t0ken");
            assert_eq!(get.query, None);
        }
        _ => panic!("the user is asked for"),
    }
    let (state, action) = submit(&mut submitted, START, state, SubmitEvent::User(user(7)));
    match action {
        SubmitAction::FetchProjects(get) => {
            assert_eq!(get.url, "https://hackatime.hackclub.com/api/v1/authenticated/projects");
            assert_eq!(get.bearer, "t0ken");
            assert_eq!(get.query, Some(("start", START.to_string())));
        }
        _ => panic!("the projects are asked for"),
    }
    let event = SubmitEvent::Projects(projects());
    assert!(is_countable_event(&state, &event));
    let (state, action) = submit(&mut submitted, START, state, event);
    match action {
        SubmitAction::Post(post) => {
            assert_eq!(post.channel, "#riceathon");
            assert_eq!(post.thread_ts, None);
            assert_eq!(
                post.text,
                "<@S7> submitted their rice! :boykisser-dance:\n→ *dots* (1h 1m) \n \nnice work!"
            );
        }
        _ => panic!("the submission is announced"),
    }
    assert_eq!(submitted, HashSet::from([1]));
    let (state, action) = submit(&mut submitted, START, state, SubmitEvent::Posted);
    match action {
        SubmitAction::AppendRecord(line) => assert_eq!(line, "7\n"),
        _ => panic!("the submission is recorded"),
    }
    assert_eq!(submitted, HashSet::from([1, 7]));
    match submit(&mut submitted, START, state, SubmitEvent::Recorded) {
        (SubmitState::Finished, SubmitAction::Show(page)) => assert_eq!(page, THANKS),
        _ => panic!("the user is thanked"),
    }
}

#[test]
fn a_second_submission_is_caught() {
    let mut submitted = HashSet::new();
    let state = up_to_the_post(&mut submitted, 7);
    submit(&mut submitted, START, state, SubmitEvent::Posted);
    let (state, _) = submit(&mut submitted, START, SubmitState::Ready, request(Some("t0ken")));
    match submit(&mut submitted, START, state, SubmitEvent::User(user(7))) {
        (SubmitState::Finished, SubmitAction::Show(page)) => assert_eq!(page, CAUGHT),
        _ => panic!("the user is caught"),
    }
    assert_eq!(submitted, HashSet::from([7]));
}

#[test]
fn two_submissions_at_once_are_recorded_once() {
    let mut submitted = HashSet::new();
    let first = up_to_the_post(&mut submitted, 7);
    let second = up_to_the_post(&mut submitted, 7);
    let (_, action) = submit(&mut submitted, START, first, SubmitEvent::Posted);
    assert!(matches!(action, SubmitAction::AppendRecord(_)));
    match submit(&mut submitted, START, second, SubmitEvent::Posted) {
        (SubmitState::Finished, SubmitAction::Show(page)) => assert_eq!(page, THANKS),
        _ => panic!("the user is thanked"),
    }
    assert_eq!(submitted, HashSet::from([7]));
}

#[test]
fn without_a_token_there_is_no_submission() {
    let mut submitted = HashSet::new();
    leads_to_the_error_page(submit(&mut submitted, START, SubmitState::Ready, request(None)));
}

#[test]
fn every_failure_of_a_submission_leads_to_the_error_page() {
    let mut submitted = HashSet::new();
    let (state, _) = submit(&mut submitted, START, SubmitState::Ready, request(Some("t")));
    leads_to_the_error_page(submit(&mut submitted, START, state, SubmitEvent::Failed));
    let (state, _) = submit(&mut submitted, START, SubmitState::Ready, request(Some("t")));
    let (state, _) = submit(&mut submitted, START, state, SubmitEvent::User(user(7)));
    leads_to_the_error_page(submit(&mut submitted, START, state, SubmitEvent::Failed));
    let state = up_to_the_post(&mut submitted, 7);
    leads_to_the_error_page(submit(&mut submitted, START, state, SubmitEvent::Failed));
    assert!(submitted.is_empty());
    let state = up_to_the_post(&mut submitted, 7);
    let (state, _) = submit(&mut submitted, START, state, SubmitEvent::Posted);
    leads_to_the_error_page(submit(&mut submitted, START, state, SubmitEvent::Failed));
    assert_eq!(submitted, HashSet::from([7]));
}

#[test]
fn the_file_keeps_up_with_the_submissions() {
    let mut content = "3\n".to_string();
    let mut submitted = read_submitted(&content);
    for id in [5, 3, 9] {
        let (state, _) = submit(&mut submitted, START, SubmitState::Ready, request(Some("t")));
        let (state, action) = submit(&mut submitted, START, state, SubmitEvent::User(user(id)));
        if matches!(action, SubmitAction::Show(_)) {
            continue;
        }
        let (state, _) = submit(&mut submitted, START, state, SubmitEvent::Projects(projects()));
        if let (_, SubmitAction::AppendRecord(line)) =
            submit(&mut submitted, START, state, SubmitEvent::Posted)
        {
            content.push_str(&line);
        }
        assert_eq!(read_submitted(&content), submitted);
    }
    assert_eq!(content, "3\n5\n9\n");
}
