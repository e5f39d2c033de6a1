//! The course of a submission, from the form to the file of those who have submitted.

use std::collections::HashSet;
use vstd::prelude::*;
use crate::hackatime::{
    get_projects, get_user, projects_request, user_request, Get, GetRequest, ProjectsResponse,
    UserResponse, ERROR_PATH, PROJECTS_URL, USER_URL,
};
use crate::ledger::{
    lemma_record_is_a_line, lemma_record_reads_back, record, submission_record, submitted_ids,
};
use crate::messages::SHOWCASE_CHANNEL;
use crate::pages::{CAUGHT, THANKS};
use crate::slack::{channel_message, send_slack_message, PostRequest, Posting};
use crate::submission::{
    announce_submission, countable, is_countable, names_of, select_projects, selected,
    selected_names, submission_text,
};
use crate::text::{decimal, texts};

verus! {

broadcast use vstd::std_specs::hash::group_hash_axioms;

/// How far a submission has come.
pub enum SubmitState {
    /// Nothing has happened yet.
    Ready,
    /// It is not known yet who submits.
    AwaitingUser { token: String, names: Vec<String> },
    /// The projects of the user are not known yet.
    AwaitingProjects { id: u64, slack_id: String, names: Vec<String> },
    /// The announcement is on its way.
    AwaitingPost { id: u64 },
    /// The record is being written.
    AwaitingRecord,
    /// Nothing is left to do.
    Finished,
}

/// What a `SubmitState` holds.
pub enum SubmitStage {
    Ready,
    AwaitingUser { token: Seq<char>, names: Seq<Seq<char>> },
    AwaitingProjects { id: u64, slack_id: Seq<char>, names: Seq<Seq<char>> },
    AwaitingPost { id: u64 },
    AwaitingRecord,
    Finished,
}

impl View for SubmitState {
    type V = SubmitStage;

    open spec fn view(&self) -> SubmitStage {
        match *self {
            SubmitState::Ready => SubmitStage::Ready,
            SubmitState::AwaitingUser { token, names } => SubmitStage::AwaitingUser {
                token: token@,
                names: texts(names@),
            },
            SubmitState::AwaitingProjects { id, slack_id, names } => {
                SubmitStage::AwaitingProjects { id, slack_id: slack_id@, names: texts(names@) }
            },
            SubmitState::AwaitingPost { id } => SubmitStage::AwaitingPost { id },
            SubmitState::AwaitingRecord => SubmitStage::AwaitingRecord,
            SubmitState::Finished => SubmitStage::Finished,
        }
    }
}

/// What happens in the course of a submission.
pub enum SubmitEvent {
    /// The form comes in, with the token of the visitor if there is one.
    Request { token: Option<String>, form: Vec<(String, String)> },
    /// The user is known.
    User(UserResponse),
    /// The projects of the user are known.
    Projects(ProjectsResponse),
    /// The announcement was posted.
    Posted,
    /// The record was written.
    Recorded,
    /// What was asked for could not be done.
    Failed,
}

/// What is to be done next.
pub enum SubmitAction {
    /// To ask who submits.
    FetchUser(GetRequest),
    /// To ask for the projects of the user.
    FetchProjects(GetRequest),
    /// To post the announcement.
    Post(PostRequest),
    /// To append a record to the file of those who have submitted.
    AppendRecord(String),
    /// To show a page.
    Show(&'static str),
    /// To send the visitor elsewhere.
    Redirect(&'static str),
}

/// What a `SubmitAction` asks for.
pub enum SubmitTask {
    FetchUser(Get),
    FetchProjects(Get),
    Post(Posting),
    AppendRecord(Seq<char>),
    Show(Seq<char>),
    Redirect(Seq<char>),
}

impl View for SubmitAction {
    type V = SubmitTask;

    open spec fn view(&self) -> SubmitTask {
        match *self {
            SubmitAction::FetchUser(request) => SubmitTask::FetchUser(request@),
            SubmitAction::FetchProjects(request) => SubmitTask::FetchProjects(request@),
            SubmitAction::Post(request) => SubmitTask::Post(request@),
            SubmitAction::AppendRecord(line) => SubmitTask::AppendRecord(line@),
            SubmitAction::Show(page) => SubmitTask::Show(page@),
            SubmitAction::Redirect(path) => SubmitTask::Redirect(path@),
        }
    }
}

/// What an event leads to: who has submitted, how far the submission has come and what is to be
/// done. A visitor without a token, a failure and anything that was not asked for lead to the error
/// page; who has submitted before is caught.
pub open spec fn after_submit(
    submitted: Set<u64>,
    start_date: Seq<char>,
    stage: SubmitStage,
    event: SubmitEvent,
) -> (Set<u64>, SubmitStage, SubmitTask) {
    match (stage, event) {
        (SubmitStage::Ready, SubmitEvent::Request { token: Some(token), form }) => (
            submitted,
            SubmitStage::AwaitingUser { token: token@, names: selected_names(form@) },
            SubmitTask::FetchUser(get_user(token@)),
        ),
        (SubmitStage::AwaitingUser { token, names }, SubmitEvent::User(user)) => {
            if submitted.contains(user.id) {
                (submitted, SubmitStage::Finished, SubmitTask::Show(CAUGHT@))
            } else {
                (
                    submitted,
                    SubmitStage::AwaitingProjects { id: user.id, slack_id: user.slack_id@, names },
                    SubmitTask::FetchProjects(get_projects(token, start_date)),
                )
            }
        },
        (
            SubmitStage::AwaitingProjects { id, slack_id, names },
            SubmitEvent::Projects(response),
        ) => (
            submitted,
            SubmitStage::AwaitingPost { id },
            SubmitTask::Post(
                channel_message(
                    SHOWCASE_CHANNEL@,
                    submission_text(slack_id, selected(response.projects@, names)),
                ),
            ),
        ),
        (SubmitStage::AwaitingPost { id }, SubmitEvent::Posted) => {
            if submitted.contains(id) {
                (submitted, SubmitStage::Finished, SubmitTask::Show(THANKS@))
            } else {
                (
                    submitted.insert(id),
                    SubmitStage::AwaitingRecord,
                    SubmitTask::AppendRecord(record(id)),
                )
            }
        },
        (SubmitStage::AwaitingRecord, SubmitEvent::Recorded) => (
            submitted,
            SubmitStage::Finished,
            SubmitTask::Show(THANKS@),
        ),
        _ => (submitted, SubmitStage::Finished, SubmitTask::Redirect(ERROR_PATH@)),
    }
}

/// Whether the time spent on the projects of a submission can be counted, where that is to be
/// done.
pub open spec fn countable_event(stage: SubmitStage, event: SubmitEvent) -> bool {
    match (stage, event) {
        (SubmitStage::AwaitingProjects { names, .. }, SubmitEvent::Projects(response)) => {
            countable(selected(response.projects@, names))
        },
        _ => true,
    }
}

/// Tells whether the time spent on the projects of a submission can be counted, where that is to be
/// done.
pub fn is_countable_event(state: &SubmitState, event: &SubmitEvent) -> (b: bool)
    ensures
        b == countable_event(state@, *event),
{
    match (state, event) {
        (SubmitState::AwaitingProjects { names, .. }, SubmitEvent::Projects(response)) => {
            is_countable(&response.projects, names)
        },
        _ => true,
    }
}

/// Takes a submission one event further.
pub fn submit(
    submitted: &mut HashSet<u64>,
    start_date: &str,
    state: SubmitState,
    event: SubmitEvent,
) -> (r: (SubmitState, SubmitAction))
    requires
        countable_event(state@, event),
    ensures
        (final(submitted)@, r.0@, r.1@) == after_submit(
            old(submitted)@,
            start_date@,
            state@,
            event,
        ),
{
    match (state, event) {
        (SubmitState::Ready, SubmitEvent::Request { token: Some(token), form }) => {
            let request = user_request(token.as_str());
            let names = names_of(&form);
            (SubmitState::AwaitingUser { token, names }, SubmitAction::FetchUser(request))
        },
        (SubmitState::AwaitingUser { token, names }, SubmitEvent::User(user)) => {
            if submitted.contains(&user.id) {
                (SubmitState::Finished, SubmitAction::Show(CAUGHT))
            } else {
                let request = projects_request(token.as_str(), start_date);
                (
                    SubmitState::AwaitingProjects {
                        id: user.id,
                        slack_id: user.slack_id,
                        names,
                    },
                    SubmitAction::FetchProjects(request),
                )
            }
        },
        (
            SubmitState::AwaitingProjects { id, slack_id, names },
            SubmitEvent::Projects(response),
        ) => {
            let projects = select_projects(response.projects, &names);
            let text = announce_submission(slack_id.as_str(), &projects);
            (
                SubmitState::AwaitingPost { id },
                SubmitAction::Post(send_slack_message(SHOWCASE_CHANNEL, text)),
            )
        },
        (SubmitState::AwaitingPost { id }, SubmitEvent::Posted) => {
            if submitted.insert(id) {
                (
                    SubmitState::AwaitingRecord,
                    SubmitAction::AppendRecord(submission_record(id)),
                )
            } else {
                assert(submitted@ =~= old(submitted)@);
                (SubmitState::Finished, SubmitAction::Show(THANKS))
            }
        },
        (SubmitState::AwaitingRecord, SubmitEvent::Recorded) => {
            (SubmitState::Finished, SubmitAction::Show(THANKS))
        },
        _ => (SubmitState::Finished, SubmitAction::Redirect(ERROR_PATH)),
    }
}

/// A failure always leads to the error page and changes nothing else.
pub proof fn lemma_failure_leads_to_the_error_page(
    submitted: Set<u64>,
    start_date: Seq<char>,
    stage: SubmitStage,
)
    ensures
        after_submit(submitted, start_date, stage, SubmitEvent::Failed) == (
            submitted,
            SubmitStage::Finished,
            SubmitTask::Redirect(ERROR_PATH@),
        ),
{
}

/// How many events a submission can take at most.
pub open spec fn steps_left(stage: SubmitStage) -> nat {
    match stage {
        SubmitStage::Ready => 5,
        SubmitStage::AwaitingUser { .. } => 4,
        SubmitStage::AwaitingProjects { .. } => 3,
        SubmitStage::AwaitingPost { .. } => 2,
        SubmitStage::AwaitingRecord => 1,
        SubmitStage::Finished => 0,
    }
}

/// Every event brings a submission closer to its end, and at its end the visitor sees a page.
pub proof fn lemma_submission_ends(
    submitted: Set<u64>,
    start_date: Seq<char>,
    stage: SubmitStage,
    event: SubmitEvent,
)
    requires
        !(stage is Finished),
    ensures
        ({
            let (_, next, task) = after_submit(submitted, start_date, stage, event);
            &&& steps_left(next) < steps_left(stage)
            &&& next is Finished <==> task is Show || task is Redirect
        }),
{
}

/// An event makes at most one user count as having submitted: the one whose announcement was
/// posted. Nobody stops counting as such.
pub proof fn lemma_submitted_grows(
    submitted: Set<u64>,
    start_date: Seq<char>,
    stage: SubmitStage,
    event: SubmitEvent,
)
    ensures
        after_submit(submitted, start_date, stage, event).0 == (match (stage, event) {
            (SubmitStage::AwaitingPost { id }, SubmitEvent::Posted) => submitted.insert(id),
            _ => submitted,
        }),
{
    if let (SubmitStage::AwaitingPost { id }, SubmitEvent::Posted) = (stage, event) {
        if submitted.contains(id) {
            assert(submitted.insert(id) =~= submitted);
        }
    }
}

/// Who has submitted after the events of any number of submissions, each given with how far its
/// submission had come.
pub open spec fn submitted_after(
    submitted: Set<u64>,
    start_date: Seq<char>,
    events: Seq<(SubmitStage, SubmitEvent)>,
) -> Set<u64>
    decreases events.len(),
{
    if events.len() == 0 {
        submitted
    } else {
        after_submit(
            submitted_after(submitted, start_date, events.drop_last()),
            start_date,
            events.last().0,
            events.last().1,
        ).0
    }
}

/// Who has submitted once cannot do so again: whatever happens in between, the next attempt is
/// caught, nothing is announced and nothing is recorded.
pub proof fn lemma_second_submission_is_caught(
    submitted: Set<u64>,
    start_date: Seq<char>,
    events: Seq<(SubmitStage, SubmitEvent)>,
    token: Seq<char>,
    names: Seq<Seq<char>>,
    user: UserResponse,
)
    requires
        submitted.contains(user.id),
    ensures
        ({
            let later = submitted_after(submitted, start_date, events);
            after_submit(
                later,
                start_date,
                SubmitStage::AwaitingUser { token, names },
                SubmitEvent::User(user),
            ) == (later, SubmitStage::Finished, SubmitTask::Show(CAUGHT@))
        }),
    decreases events.len(),
{
    if events.len() > 0 {
        let before = events.drop_last();
        lemma_second_submission_is_caught(submitted, start_date, before, token, names, user);
        let m = submitted_after(submitted, start_date, before);
        if !m.contains(user.id) {
            assert(after_submit(
                m,
                start_date,
                SubmitStage::AwaitingUser { token, names },
                SubmitEvent::User(user),
            ).1 is AwaitingProjects);
        }
        lemma_submitted_grows(m, start_date, events.last().0, events.last().1);
    }
}

/// The file of those who have submitted keeps up: once what an event asks to be appended is
/// appended, reading the file gives exactly those who have submitted.
pub proof fn lemma_file_keeps_up(
    content: Seq<char>,
    start_date: Seq<char>,
    stage: SubmitStage,
    event: SubmitEvent,
)
    requires
        content.len() > 0 ==> content.last() == '\n',
    ensures
        ({
            let (submitted, _, task) = after_submit(
                submitted_ids(content),
                start_date,
                stage,
                event,
            );
            match task {
                SubmitTask::AppendRecord(line) => {
                    &&& submitted_ids(content + line) == submitted
                    &&& (content + line).last() == '\n'
                },
                _ => submitted_ids(content) == submitted,
            }
        }),
{
    if let SubmitStage::AwaitingPost { id } = stage {
        lemma_record_reads_back(content, id);
    }
}

/// A submission asks for the user and for the projects with the one token that the visitor came
/// with.
pub proof fn lemma_one_token(
    submitted: Set<u64>,
    start_date: Seq<char>,
    token: String,
    form: Vec<(String, String)>,
    later: Set<u64>,
    user: UserResponse,
)
    ensures
        ({
            let (_, stage, task) = after_submit(
                submitted,
                start_date,
                SubmitStage::Ready,
                SubmitEvent::Request { token: Some(token), form },
            );
            let (_, _, next) = after_submit(later, start_date, stage, SubmitEvent::User(user));
            &&& task == SubmitTask::FetchUser(get_user(token@))
            &&& next == SubmitTask::FetchProjects(get_projects(token@, start_date))
                || later.contains(user.id)
        }),
{
}

/// The state of a submission is seen as it is.
pub proof fn lemma_state_is_seen_whole(state: SubmitState)
    ensures
        match state {
            SubmitState::Ready => state@ is Ready,
            SubmitState::AwaitingUser { token, names } => {
                &&& state@ matches SubmitStage::AwaitingUser { token: t, names: n }
                &&& t == token@
                &&& n == texts(names@)
            },
            SubmitState::AwaitingProjects { id, slack_id, names } => {
                &&& state@ matches SubmitStage::AwaitingProjects { id: i, slack_id: s, names: n }
                &&& i == id
                &&& s == slack_id@
                &&& n == texts(names@)
            },
            SubmitState::AwaitingPost { id } => {
                state@ matches SubmitStage::AwaitingPost { id: i } && i == id
            },
            SubmitState::AwaitingRecord => state@ is AwaitingRecord,
            SubmitState::Finished => state@ is Finished,
        },
{
}

/// What is to be done is seen as it is.
pub proof fn lemma_action_is_seen_whole(action: SubmitAction)
    ensures
        match action {
            SubmitAction::FetchUser(request) => {
                action@ matches SubmitTask::FetchUser(r) && r == request@
            },
            SubmitAction::FetchProjects(request) => {
                action@ matches SubmitTask::FetchProjects(r) && r == request@
            },
            SubmitAction::Post(request) => action@ matches SubmitTask::Post(r) && r == request@,
            SubmitAction::AppendRecord(line) => {
                action@ matches SubmitTask::AppendRecord(l) && l == line@
            },
            SubmitAction::Show(page) => action@ matches SubmitTask::Show(p) && p == page@,
            SubmitAction::Redirect(path) => action@ matches SubmitTask::Redirect(p) && p == path@,
        },
{
}

/// The whole way of a submission whose every step succeeds, while other submissions change who has
/// submitted between the steps. The user is asked for with the visitor's token. Who has submitted
/// by then is caught, and nobody else. The projects are asked for with the same token, and those
/// that the form selects are announced in the channel of the showcase. Then the user counts as
/// having submitted, is recorded unless that has happened meanwhile, and is thanked.
pub proof fn lemma_submission_goes_through(
    start_date: Seq<char>,
    token: String,
    form: Vec<(String, String)>,
    user: UserResponse,
    response: ProjectsResponse,
    at_request: Set<u64>,
    at_user: Set<u64>,
    at_projects: Set<u64>,
    at_post: Set<u64>,
    at_record: Set<u64>,
)
    ensures
        ({
            let (after_1, stage_1, task_1) = after_submit(
                at_request,
                start_date,
                SubmitStage::Ready,
                SubmitEvent::Request { token: Some(token), form },
            );
            let (after_2, stage_2, task_2) = after_submit(
                at_user,
                start_date,
                stage_1,
                SubmitEvent::User(user),
            );
            let (after_3, stage_3, task_3) = after_submit(
                at_projects,
                start_date,
                stage_2,
                SubmitEvent::Projects(response),
            );
            let (after_4, stage_4, task_4) = after_submit(
                at_post,
                start_date,
                stage_3,
                SubmitEvent::Posted,
            );
            let (after_5, stage_5, task_5) = after_submit(
                at_record,
                start_date,
                stage_4,
                SubmitEvent::Recorded,
            );
            &&& after_1 == at_request
            &&& task_1 matches SubmitTask::FetchUser(get) && get.url == USER_URL@ && get.bearer
                == token@ && get.query is None
            &&& after_2 == at_user
            &&& task_2 is Show <==> at_user.contains(user.id)
            &&& at_user.contains(user.id) ==> task_2 == SubmitTask::Show(CAUGHT@)
                && stage_2 is Finished
            &&& !at_user.contains(user.id) ==> {
                &&& task_2 matches SubmitTask::FetchProjects(get) && get.url == PROJECTS_URL@
                    && get.bearer == token@ && get.query == Some(("start"@, start_date))
                &&& after_3 == at_projects
                &&& task_3 matches SubmitTask::Post(post) && post.channel == SHOWCASE_CHANNEL@
                    && post.thread_ts is None && post.text == submission_text(
                    user.slack_id@,
                    selected(response.projects@, selected_names(form@)),
                )
                &&& forall|id: u64| #[trigger]
                    after_4.contains(id) <==> at_post.contains(id) || id == user.id
                &&& at_post.contains(user.id) ==> task_4 == SubmitTask::Show(THANKS@)
                    && stage_4 is Finished
                &&& !at_post.contains(user.id) ==> {
                    &&& task_4 == SubmitTask::AppendRecord(decimal(user.id as nat).push('\n'))
                    &&& after_5 == at_record
                    &&& task_5 == SubmitTask::Show(THANKS@)
                    &&& stage_5 is Finished
                }
            }
        }),
{
    lemma_record_is_a_line(user.id);
}

/// Whether an event is what a submission waits for.
pub open spec fn awaited(stage: SubmitStage, event: SubmitEvent) -> bool {
    match event {
        SubmitEvent::Request { token, .. } => stage is Ready && token is Some,
        SubmitEvent::User(_) => stage is AwaitingUser,
        SubmitEvent::Projects(_) => stage is AwaitingProjects,
        SubmitEvent::Posted => stage is AwaitingPost,
        SubmitEvent::Recorded => stage is AwaitingRecord,
        SubmitEvent::Failed => false,
    }
}

/// A visitor is sent to the error page exactly if something else comes than what the submission
/// waits for, such as a form without a token; that changes nothing else.
pub proof fn lemma_only_the_unexpected_leads_to_the_error_page(
    submitted: Set<u64>,
    start_date: Seq<char>,
    stage: SubmitStage,
    event: SubmitEvent,
)
    ensures
        ({
            let (after, next, task) = after_submit(submitted, start_date, stage, event);
            &&& task is Redirect <==> !awaited(stage, event)
            &&& !awaited(stage, event) ==> task == SubmitTask::Redirect(ERROR_PATH@) && after
                == submitted && next is Finished
        }),
{
}

/// The time has to be counted only where the projects of a submission come in, and then that of the
/// selected ones.
pub proof fn lemma_what_has_to_be_countable(stage: SubmitStage, event: SubmitEvent)
    ensures
        !(stage is AwaitingProjects && event is Projects) ==> countable_event(stage, event),
        stage matches SubmitStage::AwaitingProjects { id, slack_id, names } ==> (event matches
            SubmitEvent::Projects(response) ==> (countable_event(stage, event) <==> countable(
            selected(response.projects@, names),
        ))),
{
}

} // verus!
