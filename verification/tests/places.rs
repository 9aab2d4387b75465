use stash::utils::enums::OpenLocationType;
use stash::utils::{
    backup_bookmarks, backup_plan, open_file_location, stash_directory, stash_location, OpenTarget,
    Platform, STAMP,
};

#[test]
fn stash_lies_below_documents() {
    assert_eq!(stash_directory("/home/u/Documents"), "/home/u/Documents/stash");
}

#[test]
fn backup_plan_names_the_files() {
    let plan = backup_plan("/d/stash", "2024-03-01_12-30-05");
    assert_eq!(plan.source, "/d/stash/bookmarks.json");
    assert_eq!(plan.directory, "/d/stash/backups");
    assert_eq!(plan.target, "/d/stash/backups/bookmarks_2024-03-01_12-30-05.json");
}

#[test]
fn backup_is_stamped_with_the_time() {
    let plan = backup_bookmarks("/d/stash").unwrap();
    assert_eq!(plan.source, "/d/stash/bookmarks.json");
    assert_eq!(plan.directory, "/d/stash/backups");
    let stamp = plan
        .target
        .strip_prefix("/d/stash/backups/bookmarks_")
        .and_then(|rest| rest.strip_suffix(".json"))
        .unwrap();
    let shape: String = stamp.chars().map(|c| if c.is_ascii_digit() { '9' } else { c }).collect();
    assert_eq!(shape, "9999-99-99_99-99-99");
}

#[test]
fn documents_are_shown_as_they_are() {
    for (platform, program) in
        [(Platform::Windows, "explorer"), (Platform::Linux, "xdg-open"), (Platform::MacOs, "open")]
    {
        let command = open_file_location(OpenLocationType::Documents, platform, "/d/stash".to_string(), true);
        assert_eq!(command.program, program);
        assert!(!command.select);
        assert_eq!(command.target, OpenTarget::Path("/d/stash".to_string()));
    }
}

#[test]
fn a_file_is_shown_by_each_system_in_its_way() {
    let custom = || OpenLocationType::Custom("/d/stash/backups/b.json".to_string());
    let command = open_file_location(custom(), Platform::Windows, "/d/stash".to_string(), true);
    assert!(command.select);
    assert_eq!(command.target, OpenTarget::Path("/d/stash/backups/b.json".to_string()));
    let command = open_file_location(custom(), Platform::Windows, "/d/stash".to_string(), false);
    assert!(!command.select);
    let command = open_file_location(custom(), Platform::Linux, "/d/stash".to_string(), true);
    assert!(!command.select);
    assert_eq!(command.program, "xdg-open");
    assert_eq!(command.target, OpenTarget::ParentOf("/d/stash/backups/b.json".to_string()));
    let command = open_file_location(custom(), Platform::MacOs, "/d/stash".to_string(), true);
    assert!(!command.select);
    assert_eq!(command.target, OpenTarget::Path("/d/stash/backups/b.json".to_string()));
}

#[test]
fn stash_location_ends_in_stash() {
    if let Some(path) = stash_location() {
        assert!(path.ends_with("/stash"));
        assert!(path.len() > "/stash".len());
    }
}

#[test]
fn backup_is_always_planned() {
    assert_eq!(STAMP, "%Y-%m-%d_%H-%M-%S");
    for dir in ["", "/d/stash", "C:/Users/u/Documents/stash"] {
        let plan = backup_bookmarks(dir).expect("the time is written");
        assert_eq!(plan.source, format!("{}/bookmarks.json", dir));
        assert!(plan.target.starts_with(&format!("{}/backups/bookmarks_", dir)));
    }
}
