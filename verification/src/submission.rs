//! What a submission consists of, and how it is announced.

use vstd::prelude::*;
use crate::hackatime::Project;
use crate::text::{among, contains_text, decimal, decimal_text, has_text, join, joined, same_text};
use crate::text::{lemma_has_text_inside, texts};

verus! {

/// The name of the form field that selects a project.
pub const SELECTION_FIELD: &'static str = "selected_projects";

/// The projects that a form selects, in the order of the form: the values of the fields with the
/// right name.
pub open spec fn selected_names(form: Seq<(String, String)>) -> Seq<Seq<char>> {
    form.filter_map(
        |field: (String, String)|
            if field.0@ == SELECTION_FIELD@ {
                Some(field.1@)
            } else {
                None
            },
    )
}

/// Reads which projects a form selects.
pub fn names_of(form: &Vec<(String, String)>) -> (names: Vec<String>)
    ensures
        texts(names@) == selected_names(form@),
{
    let mut names: Vec<String> = Vec::new();
    let mut i: usize = 0;
    while i < form.len()
        invariant
            i <= form.len(),
            texts(names@) == selected_names(form@.take(i as int)),
        decreases form.len() - i,
    {
        let ghost names_before = names@;
        if same_text(form[i].0.as_str(), SELECTION_FIELD) {
            names.push(form[i].1.clone());
        }
        proof {
            assert(form@.take(i + 1).drop_last() == form@.take(i as int));
            assert(texts(names@) =~= selected_names(form@.take(i + 1)));
        }
        i = i + 1;
    }
    assert(form@.take(form@.len() as int) == form@);
    names
}

/// Those of `projects` whose name is among `names`, in the order of `projects`.
pub open spec fn selected(projects: Seq<Project>, names: Seq<Seq<char>>) -> Seq<Project> {
    projects.filter(|p: Project| names.contains(p.name@))
}

/// Keeps the projects whose name is among `names`.
pub fn select_projects(projects: Vec<Project>, names: &Vec<String>) -> (r: Vec<Project>)
    ensures
        r@ == selected(projects@, texts(names@)),
{
    let ghost all = projects@;
    let mut r: Vec<Project> = Vec::new();
    for p in it: projects
        invariant
            it.seq() == all,
            r@ == selected(all.take(it.index()), texts(names@)),
    {
        proof {
            reveal(Seq::filter);
            assert(all.take(it.index() + 1).drop_last() == all.take(it.index()));
        }
        if among(names, p.name.as_str()) {
            r.push(p);
        }
    }
    assert(all.take(all.len() as int) == all);
    r
}

/// The whole minutes spent on each of `projects`, together.
pub open spec fn minutes_spent(projects: Seq<Project>) -> nat
    decreases projects.len(),
{
    if projects.len() == 0 {
        0
    } else {
        minutes_spent(projects.drop_last()) + projects.last().total_seconds as nat / 60
    }
}

/// Whether the hours spent on `projects` can be counted.
pub open spec fn countable(projects: Seq<Project>) -> bool {
    minutes_spent(projects) / 60 <= u64::MAX
}

proof fn lemma_minutes_grow(projects: Seq<Project>, k: int)
    requires
        0 <= k <= projects.len(),
    ensures
        minutes_spent(projects.take(k)) <= minutes_spent(projects),
    decreases projects.len(),
{
    if k == projects.len() {
        assert(projects.take(k) == projects);
    } else {
        lemma_minutes_grow(projects.drop_last(), k);
        assert(projects.drop_last().take(k) == projects.take(k));
    }
}

/// Counts the time spent on `projects`, in hours and the minutes beyond them.
pub fn time_spent(projects: &Vec<Project>) -> (r: (u64, u64))
    requires
        countable(projects@),
    ensures
        r.0 == minutes_spent(projects@) / 60,
        r.1 == minutes_spent(projects@) % 60,
{
    let mut full_hours: u64 = 0;
    let mut full_minutes: u64 = 0;
    let mut i: usize = 0;
    while i < projects.len()
        invariant
            i <= projects.len(),
            countable(projects@),
            full_minutes < 60,
            full_hours * 60 + full_minutes == minutes_spent(projects@.take(i as int)),
        decreases projects.len() - i,
    {
        let hours: u64 = projects[i].total_seconds / 3600;
        let minutes: u64 = (projects[i].total_seconds % 3600) / 60;
        proof {
            assert(projects@.take(i + 1).drop_last() == projects@.take(i as int));
            lemma_minutes_grow(projects@, i + 1);
        }
        full_hours = full_hours + hours;
        full_minutes = full_minutes + minutes;
        full_hours = full_hours + full_minutes / 60;
        full_minutes = full_minutes % 60;
        i = i + 1;
    }
    assert(projects@.take(projects@.len() as int) == projects@);
    (full_hours, full_minutes)
}

/// Tells whether the hours spent on those of `projects` whose name is among `names` can be
/// counted.
pub fn is_countable(projects: &Vec<Project>, names: &Vec<String>) -> (b: bool)
    ensures
        b == countable(selected(projects@, texts(names@))),
{
    let mut total: u128 = 0;
    let mut i: usize = 0;
    reveal(Seq::filter);
    while i < projects.len()
        invariant
            i <= projects.len(),
            total == minutes_spent(selected(projects@.take(i as int), texts(names@))),
            total <= i * 0x1_0000_0000_0000_0000,
        decreases projects.len() - i,
    {
        proof {
            reveal(Seq::filter);
            assert(projects@.take(i + 1).drop_last() == projects@.take(i as int));
            let before = selected(projects@.take(i as int), texts(names@));
            assert(before.push(projects@[i as int]).drop_last() == before);
        }
        if among(names, projects[i].name.as_str()) {
            total = total + (projects[i].total_seconds / 60) as u128;
        }
        i = i + 1;
    }
    assert(projects@.take(projects@.len() as int) == projects@);
    total / 60 <= u64::MAX as u128
}

/// What `str::to_lowercase` gives for a text: its characters in lower case, by Unicode's rules.
pub uninterp spec fn lowercase(s: Seq<char>) -> Seq<char>;

/// Calls `str::to_lowercase`, whose result depends on the text alone and is named here; what it is
/// for a given text is not said.
#[verifier::external_body]
fn to_lowercase(s: &str) -> (r: String)
    ensures
        r@ == lowercase(s@),
{
    s.to_lowercase()
}

/// The remark on a project whose name in lower case is `name_lower`.
pub open spec fn remark(name_lower: Seq<char>) -> Seq<char> {
    if has_text(name_lower, "nix"@) {
        "woah nix :parrot-nix: !"@
    } else if has_text(name_lower, "arch"@) {
        "nice config btw! :femboy-arch: "@
    } else if has_text(name_lower, "sans"@) {
        "WAIT! is that sand :sans: "@
    } else {
        ""@
    }
}

/// Chooses the remark on a project whose name in lower case is `name_lower`.
pub fn custom_message(name_lower: &str) -> (r: &'static str)
    ensures
        r@ == remark(name_lower@),
{
    if contains_text(name_lower, "nix") {
        "woah nix :parrot-nix: !"
    } else if contains_text(name_lower, "arch") {
        "nice config btw! :femboy-arch: "
    } else if contains_text(name_lower, "sans") {
        "WAIT! is that sand :sans: "
    } else {
        ""
    }
}

/// The line on a project in the announcement of a submission.
pub open spec fn detail(name: Seq<char>, name_lower: Seq<char>, total_seconds: u64) -> Seq<char> {
    "→ *"@ + name + "* ("@ + decimal(total_seconds as nat / 3600) + "h "@ + decimal(
        total_seconds as nat % 3600 / 60,
    ) + "m) "@ + remark(name_lower)
}

/// Writes the line on a project, given its name also in lower case.
pub fn project_detail(name: &str, name_lower: &str, total_seconds: u64) -> (r: String)
    ensures
        r@ == detail(name@, name_lower@, total_seconds),
{
    let mut r = "→ *".to_owned();
    r.append(name);
    r.append("* (");
    r.append(decimal_text(total_seconds / 3600).as_str());
    r.append("h ");
    r.append(decimal_text((total_seconds % 3600) / 60).as_str());
    r.append("m) ");
    r.append(custom_message(name_lower));
    r
}

/// The lines on `projects`.
pub open spec fn details(projects: Seq<Project>) -> Seq<Seq<char>> {
    Seq::new(
        projects.len(),
        |i: int|
            detail(
                projects[i].name@,
                lowercase(projects[i].name@),
                projects[i].total_seconds,
            ),
    )
}

/// The announcement of a submission, given the lines on its projects and the time spent on all of
/// them; the total is left out where there is just one project.
pub open spec fn message(
    slack_id: Seq<char>,
    details: Seq<Seq<char>>,
    hours: nat,
    minutes: nat,
) -> Seq<char> {
    "<@"@ + slack_id + "> submitted their rice! :boykisser-dance:\n"@ + joined(details, "\n"@)
        + "\n"@ + (if details.len() != 1 {
        "a total of "@ + decimal(hours) + "h"@ + decimal(minutes) + "m!"@
    } else {
        ""@
    }) + " "@ + (if hours > 67 {
        "\nWOW! great job!!! thats a lot of socks /silly"@
    } else {
        "\nnice work!"@
    })
}

/// Writes the announcement of a submission, given the lines on its projects and the time spent on
/// all of them.
pub fn submission_message(slack_id: &str, details: &Vec<String>, hours: u64, minutes: u64) -> (r:
    String)
    ensures
        r@ == message(slack_id@, texts(details@), hours as nat, minutes as nat),
{
    let total = if details.len() != 1 {
        let mut total = "a total of ".to_owned();
        total.append(decimal_text(hours).as_str());
        total.append("h");
        total.append(decimal_text(minutes).as_str());
        total.append("m!");
        total
    } else {
        "".to_owned()
    };
    let extra = if hours > 67 {
        "\nWOW! great job!!! thats a lot of socks /silly"
    } else {
        "\nnice work!"
    };
    let mut r = "<@".to_owned();
    r.append(slack_id);
    r.append("> submitted their rice! :boykisser-dance:\n");
    r.append(join(details, "\n").as_str());
    r.append("\n");
    r.append(total.as_str());
    r.append(" ");
    r.append(extra);
    r
}

/// The announcement of a submission of `projects`.
pub open spec fn submission_text(slack_id: Seq<char>, projects: Seq<Project>) -> Seq<char> {
    message(
        slack_id,
        details(projects),
        minutes_spent(projects) / 60,
        minutes_spent(projects) % 60,
    )
}

/// Writes the announcement of a submission of `projects`.
pub fn announce_submission(slack_id: &str, projects: &Vec<Project>) -> (r: String)
    requires
        countable(projects@),
    ensures
        r@ == submission_text(slack_id@, projects@),
{
    let mut lines: Vec<String> = Vec::new();
    let mut i: usize = 0;
    while i < projects.len()
        invariant
            i <= projects.len(),
            lines.len() == i,
            forall|j: int| 0 <= j < i ==> (#[trigger] lines@[j])@ == details(projects@)[j],
        decreases projects.len() - i,
    {
        let name = projects[i].name.as_str();
        let name_lower = to_lowercase(name);
        lines.push(project_detail(name, name_lower.as_str(), projects[i].total_seconds));
        i = i + 1;
    }
    assert(texts(lines@) =~= details(projects@));
    let (hours, minutes): (u64, u64) = time_spent(projects);
    submission_message(slack_id, &lines, hours, minutes)
}

/// The hours and minutes that the lines show, in minutes and together.
pub open spec fn minutes_shown(projects: Seq<Project>) -> nat
    decreases projects.len(),
{
    if projects.len() == 0 {
        0
    } else {
        let seconds = projects.last().total_seconds as nat;
        minutes_shown(projects.drop_last()) + seconds / 3600 * 60 + seconds % 3600 / 60
    }
}

/// The total of an announcement is the sum of what its lines show, with fewer than sixty minutes
/// beside the hours.
pub proof fn lemma_total_adds_up(projects: Seq<Project>)
    ensures
        minutes_spent(projects) / 60 * 60 + minutes_spent(projects) % 60 == minutes_shown(projects),
        minutes_spent(projects) % 60 < 60,
    decreases projects.len(),
{
    if projects.len() > 0 {
        lemma_total_adds_up(projects.drop_last());
    }
}

/// A project is announced exactly if it is one of the user's projects and was selected by name.
pub proof fn lemma_selected_exactly(projects: Seq<Project>, names: Seq<Seq<char>>, p: Project)
    ensures
        selected(projects, names).contains(p) <==> projects.contains(p) && names.contains(p.name@),
{
    let named = |q: Project| names.contains(q.name@);
    if projects.contains(p) && names.contains(p.name@) {
        assert(named(p));
        projects.lemma_filter_contains(named, projects.index_of(p));
    }
    if selected(projects, names).contains(p) {
        projects.lemma_filter_contains_rev(named, p);
        projects.lemma_filter_pred(named, selected(projects, names).index_of(p));
    }
}

/// Of a form, the values of the fields named `selected_projects` are taken, each time one comes and
/// in order, and nothing else.
pub proof fn lemma_names_in_order(form: Seq<(String, String)>, name: String, value: String)
    ensures
        selected_names(Seq::<(String, String)>::empty()) == Seq::<Seq<char>>::empty(),
        name@ == "selected_projects"@ ==> selected_names(form.push((name, value)))
            == selected_names(form).push(value@),
        name@ != "selected_projects"@ ==> selected_names(form.push((name, value)))
            == selected_names(form),
{
    assert(form.push((name, value)).drop_last() == form);
    if name@ == "selected_projects"@ {
        assert(selected_names(form) + seq![value@] =~= selected_names(form).push(value@));
    }
}

/// The selected projects come in the order of the user's projects, as often as they come there.
pub proof fn lemma_selected_in_order(projects: Seq<Project>, names: Seq<Seq<char>>, p: Project)
    ensures
        selected(Seq::<Project>::empty(), names) == Seq::<Project>::empty(),
        names.contains(p.name@) ==> selected(projects.push(p), names) == selected(
            projects,
            names,
        ).push(p),
        !names.contains(p.name@) ==> selected(projects.push(p), names) == selected(projects, names),
{
    reveal(Seq::filter);
    assert(projects.push(p).drop_last() == projects);
}

/// Each project adds its whole minutes to the time spent, which can be counted as long as its hours
/// fit into sixty-four bits.
pub proof fn lemma_minutes_add_up(projects: Seq<Project>, p: Project)
    ensures
        minutes_spent(Seq::<Project>::empty()) == 0,
        minutes_spent(projects.push(p)) == minutes_spent(projects) + p.total_seconds as nat / 60,
        countable(projects) <==> minutes_spent(projects) < 60 * 0x1_0000_0000_0000_0000,
{
    assert(projects.push(p).drop_last() == projects);
}

/// The line on a project shows its name, and the whole minutes spent on it as hours and fewer than
/// sixty minutes.
pub proof fn lemma_detail_shows_the_time(name: Seq<char>, name_lower: Seq<char>, total_seconds: u64)
    ensures
        exists|h: nat, m: nat|
            m < 60 && h * 60 + m == total_seconds as nat / 60 && detail(
                name,
                name_lower,
                total_seconds,
            ) == #[trigger] time_line(name, h, m) + remark(name_lower),
{
    let h = total_seconds as nat / 3600;
    let m = total_seconds as nat % 3600 / 60;
    assert(m < 60 && h * 60 + m == total_seconds as nat / 60);
    assert(detail(name, name_lower, total_seconds) == time_line(name, h, m) + remark(name_lower));
}

/// A name with hours and minutes behind it.
pub open spec fn time_line(name: Seq<char>, h: nat, m: nat) -> Seq<char> {
    "→ *"@ + name + "* ("@ + decimal(h) + "h "@ + decimal(m) + "m) "@
}

/// A name with `nix` in it is remarked on for that, wherever it stands; else one with `arch` in
/// it; else one with `sans` in it; and no other name is remarked on.
pub proof fn lemma_remarks(a: Seq<char>, b: Seq<char>, name: Seq<char>)
    ensures
        remark(a + "nix"@ + b) == "woah nix :parrot-nix: !"@,
        !has_text(a + "arch"@ + b, "nix"@) ==> remark(a + "arch"@ + b)
            == "nice config btw! :femboy-arch: "@,
        !has_text(a + "sans"@ + b, "nix"@) && !has_text(a + "sans"@ + b, "arch"@) ==> remark(
            a + "sans"@ + b,
        ) == "WAIT! is that sand :sans: "@,
        !has_text(name, "nix"@) && !has_text(name, "arch"@) && !has_text(name, "sans"@)
            ==> remark(name).len() == 0,
{
    reveal_strlit("");
    lemma_has_text_inside(a + "nix"@ + b, "nix"@);
    lemma_has_text_inside(a + "arch"@ + b, "arch"@);
    lemma_has_text_inside(a + "sans"@ + b, "sans"@);
}

/// The announcement names the user and has every line, each on a line of its own; it has the total
/// unless there is exactly one line, and it praises from sixty-eight hours on.
pub proof fn lemma_message_parts(
    slack_id: Seq<char>,
    details: Seq<Seq<char>>,
    hours: nat,
    minutes: nat,
)
    ensures
        exists|total: Seq<char>, praise: Seq<char>|
            {
                &&& message(slack_id, details, hours, minutes) == #[trigger] message_with(
                    slack_id,
                    details,
                    total,
                    praise,
                )
                &&& details.len() == 1 ==> total.len() == 0
                &&& details.len() != 1 ==> total == "a total of "@ + decimal(hours) + "h"@
                    + decimal(minutes) + "m!"@
                &&& hours >= 68 ==> praise
                    == "\nWOW! great job!!! thats a lot of socks /silly"@
                &&& hours < 68 ==> praise == "\nnice work!"@
            },
{
    reveal_strlit("");
    let total = if details.len() != 1 {
        "a total of "@ + decimal(hours) + "h"@ + decimal(minutes) + "m!"@
    } else {
        ""@
    };
    let praise = if hours > 67 {
        "\nWOW! great job!!! thats a lot of socks /silly"@
    } else {
        "\nnice work!"@
    };
    assert(message(slack_id, details, hours, minutes) == message_with(
        slack_id,
        details,
        total,
        praise,
    ));
}

/// An announcement with the total and the praise given.
pub open spec fn message_with(
    slack_id: Seq<char>,
    details: Seq<Seq<char>>,
    total: Seq<char>,
    praise: Seq<char>,
) -> Seq<char> {
    "<@"@ + slack_id + "> submitted their rice! :boykisser-dance:\n"@ + joined(details, "\n"@)
        + "\n"@ + total + " "@ + praise
}

/// The sum of numbers.
pub open spec fn sum_of(numbers: Seq<nat>) -> nat
    decreases numbers.len(),
{
    if numbers.len() == 0 {
        0
    } else {
        sum_of(numbers.drop_last()) + numbers.last()
    }
}

/// Whether the announcement of `projects` has a line for each of them that shows the hours `hs` and
/// the minutes `ms`, these being the time spent on it, and has the total of `h` hours and `m`
/// minutes, this being the sum of what the lines show.
pub open spec fn adds_up(
    slack_id: Seq<char>,
    projects: Seq<Project>,
    hs: Seq<nat>,
    ms: Seq<nat>,
    h: nat,
    m: nat,
) -> bool {
    &&& hs.len() == projects.len()
    &&& ms.len() == projects.len()
    &&& details(projects).len() == projects.len()
    &&& forall|i: int|
        0 <= i < projects.len() ==> {
            &&& ms[i] < 60
            &&& hs[i] * 60 + ms[i] == projects[i].total_seconds as nat / 60
            &&& (#[trigger] details(projects)[i]) == time_line(projects[i].name@, hs[i], ms[i])
                + remark(lowercase(projects[i].name@))
        }
    &&& m < 60
    &&& h * 60 + m == sum_of(hs) * 60 + sum_of(ms)
    &&& submission_text(slack_id, projects) == message(slack_id, details(projects), h, m)
}

proof fn lemma_shown_sums(projects: Seq<Project>)
    ensures
        ({
            let hs = Seq::new(projects.len(), |i: int| projects[i].total_seconds as nat / 3600);
            let ms = Seq::new(
                projects.len(),
                |i: int| projects[i].total_seconds as nat % 3600 / 60,
            );
            sum_of(hs) * 60 + sum_of(ms) == minutes_spent(projects)
        }),
    decreases projects.len(),
{
    let hs = Seq::new(projects.len(), |i: int| projects[i].total_seconds as nat / 3600);
    let ms = Seq::new(projects.len(), |i: int| projects[i].total_seconds as nat % 3600 / 60);
    if projects.len() > 0 {
        let rest = projects.drop_last();
        lemma_shown_sums(rest);
        assert(hs.drop_last() =~= Seq::new(
            rest.len(),
            |i: int| rest[i].total_seconds as nat / 3600,
        ));
        assert(ms.drop_last() =~= Seq::new(
            rest.len(),
            |i: int| rest[i].total_seconds as nat % 3600 / 60,
        ));
    }
}

/// The announcement of a submission has a line for every project, in order, with the time spent on
/// it, and its total is the sum of what its lines show.
pub proof fn lemma_announcement_adds_up(slack_id: Seq<char>, projects: Seq<Project>)
    ensures
        exists|hs: Seq<nat>, ms: Seq<nat>, h: nat, m: nat|
            adds_up(slack_id, projects, hs, ms, h, m),
{
    let hs = Seq::new(projects.len(), |i: int| projects[i].total_seconds as nat / 3600);
    let ms = Seq::new(projects.len(), |i: int| projects[i].total_seconds as nat % 3600 / 60);
    lemma_shown_sums(projects);
    assert(adds_up(
        slack_id,
        projects,
        hs,
        ms,
        minutes_spent(projects) / 60,
        minutes_spent(projects) % 60,
    ));
}

} // verus!
