use lazymvn::ui::state::filters::{
    get_filtered_package_candidates, get_filtered_projects, get_filtered_starter_candidates,
    rank_candidates,
};

fn strings(v: &[&str]) -> Vec<String> {
    v.iter().map(|s| s.to_string()).collect()
}

#[test]
fn rank_keeps_scored_best_first_and_stable() {
    let cands = strings(&["a", "b", "c", "d", "e"]);
    let scores = vec![Some(5), None, Some(9), Some(5), Some(-1)];
    assert_eq!(rank_candidates(&cands, &scores), strings(&["c", "a", "d", "e"]));
}

#[test]
fn rank_of_no_scores_is_empty() {
    let cands = strings(&["a", "b"]);
    assert_eq!(rank_candidates(&cands, &vec![None, None]), Vec::<String>::new());
}

#[test]
fn starter_filter_empty_keeps_everything() {
    let cands = strings(&["com.example.App", "org.demo.Main"]);
    assert_eq!(get_filtered_starter_candidates(&cands, ""), cands);
}

#[test]
fn starter_filter_drops_non_matches() {
    let cands = strings(&["org.Foo", "org.Bar", "net.Baz"]);
    assert_eq!(get_filtered_starter_candidates(&cands, "bar"), strings(&["org.Bar"]));
}

#[test]
fn starter_filter_ranks_closer_match_first() {
    let cands = strings(&["com.acme.SomeApplicationRunner", "com.acme.App"]);
    let r = get_filtered_starter_candidates(&cands, "app");
    assert_eq!(r.len(), 2);
    assert_eq!(r[0], "com.acme.App");
}

#[test]
fn package_filter_empty_and_non_empty() {
    let cands = strings(&["com.example", "org.other"]);
    assert_eq!(get_filtered_package_candidates(&cands, ""), cands);
    assert_eq!(get_filtered_package_candidates(&cands, "exam"), strings(&["com.example"]));
    assert_eq!(get_filtered_package_candidates(&cands, "zzz"), Vec::<String>::new());
}

#[test]
fn projects_filter_ignores_case_and_keeps_order() {
    let ps = strings(&["/home/User/ProjA", "/home/user/projB", "/opt/other"]);
    assert_eq!(get_filtered_projects(&ps, ""), ps);
    assert_eq!(get_filtered_projects(&ps, "PROJA"), strings(&["/home/User/ProjA"]));
    assert_eq!(
        get_filtered_projects(&ps, "home"),
        strings(&["/home/User/ProjA", "/home/user/projB"])
    );
    assert_eq!(get_filtered_projects(&ps, "nothing"), Vec::<String>::new());
}
