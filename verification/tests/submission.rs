use riceathon::hackatime::Project;
use riceathon::submission::{
    announce_submission, custom_message, is_countable, names_of, project_detail, select_projects,
    submission_message, time_spent,
};

fn project(name: &str, total_seconds: u64) -> Project {
    Project {
        name: name.to_string(),
        total_seconds,
        most_recent_heartbeat: "2026-01-01T00:00:00Z".to_string(),
        languages: vec!["Nix".to_string()],
        archived: false,
    }
}

fn field(name: &str, value: &str) -> (String, String) {
    (name.to_string(), value.to_string())
}

fn strings(list: &[&str]) -> Vec<String> {
    list.iter().map(|s| s.to_string()).collect()
}

#[test]
fn names_come_from_the_selecting_fields() {
    let form = vec![
        field("selected_projects", "b"),
        field("other", "x"),
        field("selected_projects", "a"),
        field("Selected_projects", "y"),
        field("selected_projects", "b"),
    ];
    assert_eq!(names_of(&form), strings(&["b", "a", "b"]));
    assert_eq!(names_of(&vec![]), strings(&[]));
}

#[test]
fn projects_are_kept_by_name_in_their_own_order() {
    let projects = vec![project("a", 1), project("b", 2), project("c", 3), project("b", 4)];
    let kept = select_projects(projects, &strings(&["b", "a", "zzz"]));
    let seconds: Vec<u64> = kept.iter().map(|p| p.total_seconds).collect();
    assert_eq!(seconds, vec![1, 2, 4]);
    assert_eq!(kept[1].name, "b");
}

#[test]
fn minutes_carry_over_into_hours() {
    assert_eq!(time_spent(&vec![]), (0, 0));
    assert_eq!(time_spent(&vec![project("a", 59)]), (0, 0));
    assert_eq!(time_spent(&vec![project("a", 3599), project("b", 60)]), (1, 0));
    assert_eq!(time_spent(&vec![project("a", 59), project("b", 59)]), (0, 0));
    assert_eq!(
        time_spent(&vec![project("a", 7260), project("b", 3540), project("c", 120)]),
        (3, 2)
    );
}

#[test]
fn the_total_is_the_sum_of_what_is_shown() {
    let projects = vec![project("a", 12345), project("b", 67890), project("c", 59)];
    let (hours, minutes) = time_spent(&projects);
    let shown: u64 = projects
        .iter()
        .map(|p| p.total_seconds / 3600 * 60 + p.total_seconds % 3600 / 60)
        .sum();
    assert_eq!(hours * 60 + minutes, shown);
    assert!(minutes < 60);
}

#[test]
fn too_many_hours_cannot_be_counted() {
    let few = vec![project("a", u64::MAX)];
    assert!(is_countable(&few, &strings(&["a"])));
    assert_eq!(time_spent(&few).0, u64::MAX / 3600);
    let many: Vec<Project> = (0..3700).map(|_| project("a", u64::MAX)).collect();
    assert!(!is_countable(&many, &strings(&["a"])));
    assert!(is_countable(&many, &strings(&["b"])));
}

#[test]
fn remarks_go_by_the_name() {
    assert_eq!(custom_message("my-nixos-arch"), "woah nix :parrot-nix: !");
    assert_eq!(custom_message("arch-sans"), "nice config btw! :femboy-arch: ");
    assert_eq!(custom_message("comic sans"), "WAIT! is that sand :sans: ");
    assert_eq!(custom_message("dotfiles"), "");
    assert_eq!(custom_message("NIX"), "");
}

#[test]
fn a_detail_shows_hours_and_minutes() {
    assert_eq!(project_detail("Dots", "dots", 3725), "→ *Dots* (1h 2m) ");
    assert_eq!(
        project_detail("NixOS", "nixos", 59),
        "→ *NixOS* (0h 0m) woah nix :parrot-nix: !"
    );
}

#[test]
fn one_project_needs_no_total() {
    assert_eq!(
        submission_message("U1", &strings(&["→ *Dots* (67h 59m) "]), 67, 59),
        "<@U1> submitted their rice! :boykisser-dance:\n→ *Dots* (67h 59m) \n \nnice work!"
    );
}

#[test]
fn many_hours_are_praised() {
    assert_eq!(
        submission_message("U1", &strings(&["x", "y"]), 68, 0),
        "<@U1> submitted their rice! :boykisser-dance:\nx\ny\na total of 68h0m! \nWOW! great job!!! thats a lot of socks /silly"
    );
    assert_eq!(
        submission_message("U1", &strings(&[]), 67, 5),
        "<@U1> submitted their rice! :boykisser-dance:\n\na total of 67h5m! \nnice work!"
    );
}

#[test]
fn names_are_remarked_on_in_lower_case() {
    assert_eq!(
        announce_submission("U1", &vec![project("My NIXOS", 3600), project("ARCH", 1800)]),
        "<@U1> submitted their rice! :boykisser-dance:\n→ *My NIXOS* (1h 0m) woah nix :parrot-nix: !\n→ *ARCH* (0h 30m) nice config btw! :femboy-arch: \na total of 1h30m! \nnice work!"
    );
}
