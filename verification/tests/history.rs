use lazymvn::ui::state::history::{
    apply_favorite, apply_history_entry, favorite_from_pending, favorite_position, get_filtered_favorites,
    get_filtered_history, history_project_switch, history_tab_after_load, pending_favorite, selection_after_delete,
    Applied, Favorite, HistoryEntry, ProjectSwitch,
};
use lazymvn::ui::state::tabs::TabSet;
use lazymvn::ui::state::project_tab::initial_build_flags;
use lazymvn::ui::state::types::{MavenProfile, ProfileState};

fn strings(v: &[&str]) -> Vec<String> {
    v.iter().map(|s| s.to_string()).collect()
}

fn entry(module: &str, goal: &str, profiles: &[&str], flags: &[&str]) -> HistoryEntry {
    HistoryEntry {
        project_root: "/work/app".to_string(),
        module: module.to_string(),
        goal: goal.to_string(),
        profiles: strings(profiles),
        flags: strings(flags),
    }
}

fn favorite(name: &str, module: &str, goal: &str) -> Favorite {
    Favorite {
        name: name.to_string(),
        module: module.to_string(),
        goal: goal.to_string(),
        profiles: vec![],
        flags: vec![],
    }
}

#[test]
fn history_filter_matches_any_field_ignoring_case() {
    let entries = vec![
        entry("core", "clean install", &["Dev"], &[]),
        entry("web", "test", &[], &["Skip tests"]),
        entry("api", "package", &[], &[]),
    ];
    assert_eq!(get_filtered_history(&entries, "").len(), 3);
    let by_profile = get_filtered_history(&entries, "dev");
    assert_eq!(by_profile.len(), 1);
    assert_eq!(by_profile[0].module, "core");
    let by_flag = get_filtered_history(&entries, "SKIP");
    assert_eq!(by_flag.len(), 1);
    assert_eq!(by_flag[0].module, "web");
    let by_goal = get_filtered_history(&entries, "test");
    assert_eq!(by_goal.iter().map(|e| e.module.as_str()).collect::<Vec<_>>(), vec!["web"]);
    assert!(get_filtered_history(&entries, "work").is_empty(), "the project root is not searched");
}

#[test]
fn favorites_filter_searches_the_name_too() {
    let favs = vec![favorite("Nightly build", "core", "verify"), favorite("quick", "web", "compile")];
    assert_eq!(get_filtered_favorites(&favs, "").len(), 2);
    let r = get_filtered_favorites(&favs, "NIGHT");
    assert_eq!(r.len(), 1);
    assert_eq!(r[0].goal, "verify");
    assert_eq!(get_filtered_favorites(&favs, "web")[0].name, "quick");
}

fn profiles() -> Vec<MavenProfile> {
    let mut dev = MavenProfile::new("dev".to_string(), false);
    dev.state = ProfileState::ExplicitlyDisabled;
    let ci = MavenProfile::new("ci".to_string(), true);
    let mut prod = MavenProfile::new("prod".to_string(), false);
    prod.state = ProfileState::ExplicitlyEnabled;
    vec![dev, ci, prod]
}

#[test]
fn applying_an_entry_restores_its_profiles_and_flags() {
    let modules = strings(&["core", "web"]);
    let mut ps = profiles();
    let mut fs = initial_build_flags(Vec::new());
    fs[0].enabled = true;
    let e = entry("web", "  clean   install -DskipTests ", &["dev"], &["Skip tests", "Debug output"]);
    match apply_history_entry(&modules, &mut ps, &mut fs, &e) {
        Applied::Run { module_index, args } => {
            assert_eq!(module_index, 1);
            assert_eq!(args, vec!["clean", "install", "-DskipTests"]);
        }
        Applied::ModuleMissing { .. } => panic!("module is there"),
    }
    assert_eq!(ps[0].state, ProfileState::ExplicitlyEnabled);
    assert_eq!(ps[1].state, ProfileState::ExplicitlyDisabled);
    assert_eq!(ps[2].state, ProfileState::Default);
    assert!(ps[0].is_active() && !ps[1].is_active() && !ps[2].is_active());
    let on: Vec<&str> = fs.iter().filter(|f| f.enabled).map(|f| f.name.as_str()).collect();
    assert_eq!(on, vec!["Debug output", "Skip tests"]);
}

#[test]
fn applying_keeps_an_auto_profile_that_is_wanted() {
    let modules = strings(&["core"]);
    let mut ps = profiles();
    let mut fs = initial_build_flags(Vec::new());
    let e = entry("core", "test", &["ci"], &[]);
    assert!(matches!(apply_history_entry(&modules, &mut ps, &mut fs, &e), Applied::Run { .. }));
    assert_eq!(ps[1].state, ProfileState::Default);
    assert!(ps[1].is_active());
}

#[test]
fn applying_with_a_missing_module_changes_nothing() {
    let modules = strings(&["core"]);
    let mut ps = profiles();
    let mut fs = initial_build_flags(Vec::new());
    let e = entry("gone", "test", &["dev"], &["Skip tests"]);
    match apply_history_entry(&modules, &mut ps, &mut fs, &e) {
        Applied::ModuleMissing { output } => {
            assert_eq!(output, vec!["Error: Module 'gone' not found in this project"])
        }
        Applied::Run { .. } => panic!("module is missing"),
    }
    assert_eq!(ps[0].state, ProfileState::ExplicitlyDisabled);
    assert!(fs.iter().all(|f| !f.enabled));
    match apply_favorite(&modules, &mut ps, &mut fs, &favorite("f", "gone", "x")) {
        Applied::ModuleMissing { output } => {
            assert_eq!(output, vec!["Error: Module 'gone' not found in current project"])
        }
        Applied::Run { .. } => panic!("module is missing"),
    }
}

#[test]
fn applying_a_favorite_selects_first_matching_module() {
    let modules = strings(&["core", "web", "core"]);
    let mut ps = profiles();
    let mut fs = initial_build_flags(Vec::new());
    match apply_favorite(&modules, &mut ps, &mut fs, &favorite("f", "core", "verify")) {
        Applied::Run { module_index, args } => {
            assert_eq!(module_index, 0);
            assert_eq!(args, vec!["verify"]);
        }
        Applied::ModuleMissing { .. } => panic!("module is there"),
    }
    assert!(ps.iter().all(|p| !p.is_active()));
}

#[test]
fn saving_a_favorite_from_the_current_state() {
    let ps = profiles();
    let mut fs = initial_build_flags(Vec::new());
    fs[3].enabled = true;
    let pending = pending_favorite("/work/app", "core", &ps, &fs);
    assert_eq!(pending.project_root, "/work/app");
    assert_eq!(pending.module, "core");
    assert_eq!(pending.goal, "");
    assert_eq!(pending.profiles, vec!["ci", "prod"]);
    assert_eq!(pending.flags, vec!["Skip tests"]);
    let fav = favorite_from_pending("Nightly".to_string(), pending, "clean verify".to_string());
    assert_eq!(fav.name, "Nightly");
    assert_eq!(fav.module, "core");
    assert_eq!(fav.goal, "clean verify");
    assert_eq!(fav.profiles, vec!["ci", "prod"]);
}

#[test]
fn deleting_a_favorite_finds_it_and_moves_the_selection() {
    let favs = vec![favorite("a", "core", "x"), favorite("b", "web", "y"), favorite("b", "web", "y")];
    assert_eq!(favorite_position(&favs, &favorite("b", "web", "y")), Some(1));
    assert_eq!(favorite_position(&favs, &favorite("b", "web", "z")), None);
    assert_eq!(selection_after_delete(0, 0), None);
    assert_eq!(selection_after_delete(2, 2), Some(1));
    assert_eq!(selection_after_delete(5, 2), Some(1));
    assert_eq!(selection_after_delete(0, 2), Some(0));
}

#[test]
fn history_entry_of_another_project_picks_its_tab() {
    let mut tabs = TabSet::new("/a".to_string());
    tabs.add_tab("/b".to_string());
    tabs.add_tab("/a".to_string());
    tabs.switch_to_tab(1);
    assert_eq!(history_project_switch(&tabs, "/b"), ProjectSwitch::Current);
    assert_eq!(history_project_switch(&tabs, "/a"), ProjectSwitch::SwitchTo(0));
    assert_eq!(history_project_switch(&tabs, "/c"), ProjectSwitch::Load);
    tabs.switch_to_tab(2);
    assert_eq!(history_project_switch(&tabs, "/a"), ProjectSwitch::Current);
}

#[test]
fn history_tab_after_loading() {
    assert_eq!(history_tab_after_load(3, "\"/c\"", None), Ok(()));
    assert_eq!(
        history_tab_after_load(10, "\"/c\"", None),
        Err(vec![
            "Error: Cannot switch to project \"/c\"".to_string(),
            "Maximum 10 tabs reached. Close some tabs first.".to_string(),
        ])
    );
    assert_eq!(
        history_tab_after_load(2, "\"/c\"", Some("no pom.xml")),
        Err(vec!["Error: Failed to load project \"/c\": no pom.xml".to_string()])
    );
}
