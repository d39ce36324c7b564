use wcapp::catalog::IndexError;
use wcapp::commands::clean::{self, CleanStep};
use wcapp::commands::cycle;
use wcapp::commands::fetch;
use wcapp::commands::list::{self, ListReport};
use wcapp::commands::set::{set_random_wallpaper, set_wallpaper, SetError, SetRequest};
use wcapp::commands::uninstall::{self, BinaryRemoval, Removals, UninstallChoice, WallpaperRemoval};
use wcapp::commands::update::{self, UpdateDecision};
use wcapp::config::Config;
use wcapp::cycle::{Awaited, CycleAction, CycleState};
use wcapp::selector::SelectorError;
use wcapp::sync::{SyncAction, SyncPhase};

fn listing(files: &[&str]) -> Vec<String> {
    files.iter().map(|f| f.to_string()).collect()
}

fn config(dir: &str, seconds: u64) -> Config {
    Config { wallpaper_dir: dir.to_string(), cycle_interval: seconds }
}

#[test]
fn set_takes_random_before_a_name() {
    assert_eq!(wcapp::commands::set::execute(None, true), Ok(SetRequest::Random));
    assert_eq!(wcapp::commands::set::execute(Some("a.jpg".to_string()), true), Ok(SetRequest::Random));
}

#[test]
fn set_takes_a_name() {
    assert_eq!(
        wcapp::commands::set::execute(Some("nature/a.jpg".to_string()), false),
        Ok(SetRequest::Named("nature/a.jpg".to_string()))
    );
}

#[test]
fn set_needs_a_name_or_random() {
    assert_eq!(wcapp::commands::set::execute(None, false), Err(SetError::NothingRequested));
}

#[test]
fn set_by_name_looks_below_the_root() {
    assert_eq!(set_wallpaper("/w", "nature/a.jpg", true), Ok("/w/nature/a.jpg".to_string()));
    assert_eq!(set_wallpaper("/w", "nature/a.txt", true), Ok("/w/nature/a.txt".to_string()));
    assert_eq!(set_wallpaper("/w", "nature/a.jpg", false), Err(SelectorError::NotFound));
}

#[test]
fn set_random_has_nothing_without_a_catalog() {
    assert_eq!(set_random_wallpaper("/w", None), None);
    assert_eq!(set_random_wallpaper("/w", Some(&Vec::new())), None);
    assert_eq!(set_random_wallpaper("/w", Some(&listing(&["a/x.txt", "y.jpg"]))), None);
}

#[test]
fn set_random_picks_an_image_of_the_catalog() {
    let files = listing(&["a/1.jpg", "a/notes.txt", "b/2.png", "loose.gif"]);
    for _ in 0..100 {
        let chosen = set_random_wallpaper("/w", Some(&files)).unwrap();
        assert!(chosen == "/w/a/1.jpg" || chosen == "/w/b/2.png", "{}", chosen);
    }
    let one = listing(&["a/only.webp"]);
    assert_eq!(set_random_wallpaper("/w", Some(&one)), Some("/w/a/only.webp".to_string()));
}

#[test]
fn list_reports_the_catalog_and_its_size() {
    let files = listing(&["nature/b.jpg", "city/c.png", "nature/a.jpg", "city/readme.md"]);
    match list::execute(Some(&files)) {
        ListReport::Catalog { snapshot, total } => {
            assert_eq!(total, 3);
            let names: Vec<String> =
                snapshot.categories().iter().map(|c| c.name.clone()).collect();
            assert_eq!(names, listing(&["city", "nature"]));
            assert_eq!(snapshot.entries(), listing(&["city/c.png", "nature/a.jpg", "nature/b.jpg"]));
        }
        ListReport::NoCatalog => panic!("a catalog was expected"),
    }
}

#[test]
fn list_reports_no_catalog() {
    assert_eq!(list::execute(None), ListReport::NoCatalog);
    assert_eq!(list::execute(Some(&Vec::new())), ListReport::NoCatalog);
    assert_eq!(list::execute(Some(&listing(&["docs/a.txt"]))), ListReport::NoCatalog);
}

#[test]
fn clean_counts_every_image_below_the_root() {
    let files = listing(&["a/1.jpg", "loose.PNG", "a/notes.txt", "b/c/2.gif"]);
    assert_eq!(clean::count_images(&files), 3);
    assert_eq!(clean::count_images(&Vec::new()), 0);
}

#[test]
fn clean_walks_through_its_steps() {
    let files = listing(&["a/1.jpg", "a/2.jpg", "a/notes.txt"]);
    assert_eq!(clean::execute(None, None), CleanStep::NoDirectory);
    assert_eq!(clean::execute(None, Some("y")), CleanStep::NoDirectory);
    assert_eq!(clean::execute(Some(&listing(&["a.txt"])), Some("y")), CleanStep::NothingToRemove);
    assert_eq!(clean::execute(Some(&files), None), CleanStep::Ask { count: 2 });
    assert_eq!(clean::execute(Some(&files), Some("yes\n")), CleanStep::Remove { count: 2 });
    assert_eq!(clean::execute(Some(&files), Some(" Y ")), CleanStep::Remove { count: 2 });
    assert_eq!(clean::execute(Some(&files), Some("n")), CleanStep::Cancelled);
    assert_eq!(clean::execute(Some(&files), Some("")), CleanStep::Cancelled);
}

#[test]
fn cycle_needs_a_root() {
    assert_eq!(cycle::execute(Some(5), true, None, "/w", None), Err(IndexError::RootMissing));
}

#[test]
fn cycle_plans_interval_default_and_snapshot() {
    let stored = config("/w", 120);
    let files = listing(&["a/1.jpg", "b/2.jpg"]);
    let plan = cycle::execute(None, false, Some(&stored), "/w", Some(&files)).unwrap();
    assert_eq!(plan.interval, 120);
    assert_eq!(plan.store, None);
    assert_eq!(plan.snapshot.total(), 2);
    let plan = cycle::execute(Some(10), true, Some(&stored), "/w", Some(&files)).unwrap();
    assert_eq!(plan.interval, 10);
    assert_eq!(plan.store, Some(config("/w", 10)));
    let plan = cycle::execute(Some(10), true, None, "/root", Some(&Vec::new())).unwrap();
    assert_eq!(plan.store, Some(config("/root", 10)));
    assert_eq!(plan.snapshot.total(), 0);
    let plan = cycle::execute(None, true, None, "/root", Some(&files)).unwrap();
    assert_eq!(plan.interval, 300);
    assert_eq!(plan.store, None);
}

fn saved_by(run: wcapp::sync::SyncRun) -> SyncAction {
    let (run, _) = run.step(wcapp::sync::SyncEvent::StagingReady);
    let (run, _) = run.step(wcapp::sync::SyncEvent::CloneEnded { success: true });
    let (run, _) = run.step(wcapp::sync::SyncEvent::Listed { files: Some(Vec::new()) });
    let (_, action) = run.step(wcapp::sync::SyncEvent::StagingRemoved);
    action
}

#[test]
fn fetch_goes_where_it_is_told() {
    let stored = config("/stored", 1);
    let pictures = Some("/home/u/Pictures".to_string());
    let (run, action) = fetch::execute(Some("/given".to_string()), Some(&stored), pictures).unwrap();
    assert_eq!(action, SyncAction::PrepareStaging);
    assert_eq!(run.phase(), SyncPhase::Staging);
    assert_eq!(run.destination(), "/given");
    let (run, _) = run.step(wcapp::sync::SyncEvent::StagingReady);
    let (run, _) = run.step(wcapp::sync::SyncEvent::CloneEnded { success: true });
    let (_, action) = run.step(wcapp::sync::SyncEvent::Listed { files: Some(listing(&["a/1.jpg"])) });
    assert_eq!(
        action,
        SyncAction::Copy(wcapp::sync::CopyStep {
            source: "a/1.jpg".to_string(),
            target: "/given/a/1.jpg".to_string()
        })
    );
}

#[test]
fn fetch_falls_back_on_the_configured_root() {
    let stored = config("/stored", 1);
    let (run, _) =
        fetch::execute(None, Some(&stored), Some("/home/u/Pictures".to_string())).unwrap();
    assert_eq!(run.destination(), "/stored");
}

#[test]
fn fetch_falls_back_on_the_picture_directory() {
    let (run, action) = fetch::execute(None, None, Some("/home/u/Pictures".to_string())).unwrap();
    assert_eq!(action, SyncAction::PrepareStaging);
    assert_eq!(run.destination(), "/home/u/Pictures/wcapp");
}

#[test]
fn fetch_without_any_root_does_not_start() {
    assert_eq!(fetch::execute(None, None, None), None);
}

#[test]
fn fetch_keeps_the_stored_interval() {
    let stored = config("/stored", 45);
    let (run, _) = fetch::execute(None, Some(&stored), None).unwrap();
    assert_eq!(saved_by(run), SyncAction::SaveConfig(config("/stored", 45)));
    let (run, _) = fetch::execute(Some("/given".to_string()), Some(&stored), None).unwrap();
    assert_eq!(saved_by(run), SyncAction::SaveConfig(config("/given", 45)));
}

#[test]
fn fetch_stores_the_default_interval_where_nothing_is_stored() {
    let (run, _) = fetch::execute(Some("/given".to_string()), None, None).unwrap();
    assert_eq!(saved_by(run), SyncAction::SaveConfig(config("/given", 300)));
}

#[test]
fn cycle_starts_no_session_on_an_empty_catalog() {
    let plan = cycle::execute(Some(10), false, None, "/w", Some(&Vec::new())).unwrap();
    assert_eq!(cycle::start(&plan), None);
    let no_images = listing(&["a/notes.txt", "loose.jpg"]);
    let plan = cycle::execute(None, false, None, "/w", Some(&no_images)).unwrap();
    assert_eq!(cycle::start(&plan), None);
}

#[test]
fn cycle_starts_a_session_at_the_interval_of_the_plan() {
    let files = listing(&["a/1.jpg"]);
    let plan = cycle::execute(Some(10), false, None, "/w", Some(&files)).unwrap();
    assert_eq!(
        cycle::start(&plan),
        Some((
            CycleState::Running { interval: 10, cycle: 1, awaited: Awaited::Wallpaper },
            CycleAction::Apply { cycle: 1 }
        ))
    );
}

#[test]
fn uninstall_reads_the_menu_choice() {
    assert_eq!(uninstall::execute("1"), UninstallChoice::Binary);
    assert_eq!(uninstall::execute("2\n"), UninstallChoice::BinaryAndConfig);
    assert_eq!(uninstall::execute(" 3 "), UninstallChoice::Everything);
    assert_eq!(uninstall::execute("4"), UninstallChoice::Cancel);
    for other in ["", "0", "5", "12", "one", "1 2", "\n"] {
        assert_eq!(uninstall::execute(other), UninstallChoice::Invalid, "{:?}", other);
    }
}

#[test]
fn uninstall_choices_remove_more_and_more() {
    assert_eq!(
        uninstall::removals(UninstallChoice::Binary),
        Removals { config: false, wallpapers: false, binary: true }
    );
    assert_eq!(
        uninstall::removals(UninstallChoice::BinaryAndConfig),
        Removals { config: true, wallpapers: false, binary: true }
    );
    assert_eq!(
        uninstall::removals(UninstallChoice::Everything),
        Removals { config: true, wallpapers: true, binary: true }
    );
    let nothing = Removals { config: false, wallpapers: false, binary: false };
    assert_eq!(uninstall::removals(UninstallChoice::Cancel), nothing);
    assert_eq!(uninstall::removals(UninstallChoice::Invalid), nothing);
}

#[test]
fn system_paths_are_told_by_component() {
    for path in ["/usr/bin/wcapp", "/usr", "/bin/wcapp", "/sbin/wcapp", "/opt/wcapp/bin/wcapp", "/opt"] {
        assert!(uninstall::is_system_path(path), "{}", path);
    }
    for path in ["/usrlocal/wcapp", "/home/u/.cargo/bin/wcapp", "/opt/homebrew/bin/wcapp",
        "/opt/homebrew", "/binary", "usr/bin/wcapp", "", "/optional/x"] {
        assert!(!uninstall::is_system_path(path), "{}", path);
    }
    assert!(uninstall::is_system_path("/opt/homebrewed/wcapp"));
}

#[test]
fn the_binary_goes_only_with_consent_and_permission() {
    assert_eq!(uninstall::remove_binary("n", Some(true), false), BinaryRemoval::Skipped);
    assert_eq!(uninstall::remove_binary("yes", Some(true), false), BinaryRemoval::Skipped);
    assert_eq!(uninstall::remove_binary("", None, false), BinaryRemoval::Skipped);
    assert_eq!(uninstall::remove_binary("y", Some(true), false), BinaryRemoval::Scheduled);
    assert_eq!(uninstall::remove_binary("Y\n", None, true), BinaryRemoval::Scheduled);
    assert_eq!(
        uninstall::remove_binary("y", Some(false), false),
        BinaryRemoval::InsufficientPermissions
    );
    assert_eq!(
        uninstall::remove_binary("y", Some(true), true),
        BinaryRemoval::InsufficientPermissions
    );
}

#[test]
fn the_wallpapers_go_only_with_consent() {
    assert_eq!(uninstall::remove_wallpapers(false, None), WallpaperRemoval::NothingFound);
    assert_eq!(uninstall::remove_wallpapers(false, Some("y")), WallpaperRemoval::NothingFound);
    assert_eq!(uninstall::remove_wallpapers(true, None), WallpaperRemoval::Ask);
    assert_eq!(uninstall::remove_wallpapers(true, Some("y\n")), WallpaperRemoval::Remove);
    assert_eq!(uninstall::remove_wallpapers(true, Some("yes")), WallpaperRemoval::Kept);
    assert_eq!(uninstall::remove_wallpapers(true, Some("")), WallpaperRemoval::Kept);
}

#[test]
fn update_compares_the_release_with_the_running_version() {
    assert_eq!(update::execute("v1.2.3", "1.2.3"), UpdateDecision::UpToDate);
    assert_eq!(update::execute("1.2.3", "1.2.3"), UpdateDecision::UpToDate);
    assert_eq!(update::execute("v1.3.0", "1.2.3"), UpdateDecision::Upgrade);
    assert_eq!(update::execute("v1.2.3", "1.3.0"), UpdateDecision::Ahead);
    assert_eq!(update::execute("v1.2", "1.2.0"), UpdateDecision::Ahead);
    assert_eq!(update::execute("vv2.0.0", "1.9.9"), UpdateDecision::Upgrade);
}

#[test]
fn a_release_tag_loses_its_leading_vs() {
    assert_eq!(update::release_version("v1.2.3"), "1.2.3");
    assert_eq!(update::release_version("vvv1"), "1");
    assert_eq!(update::release_version("1.v2"), "1.v2");
    assert_eq!(update::release_version("v"), "");
    assert_eq!(update::release_version(""), "");
    assert_eq!(update::release_version("V1"), "V1");
}
