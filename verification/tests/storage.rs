use bili_ticker_buy::json::Json;
use bili_ticker_buy::storage::{
    add_history_item, add_project_history, check_settings, check_tasks, clear_history, get_settings,
    get_tasks, load_cookies, remove_project_history_item, save_cookies, HistoryItem, ProjectConfig,
    StorageError, PROJECT_HISTORY_LIMIT,
};

fn entry(project: &str, sku: &str, name: &str) -> ProjectConfig {
    ProjectConfig {
        project_id: project.to_string(),
        project_name: name.to_string(),
        screen_id: String::new(),
        screen_name: String::new(),
        sku_id: sku.to_string(),
        sku_name: String::new(),
        price: 0,
    }
}

fn keys(h: &[ProjectConfig]) -> Vec<(String, String, String)> {
    h.iter()
        .map(|p| (p.project_id.clone(), p.sku_id.clone(), p.project_name.clone()))
        .collect()
}

fn k(p: &str, s: &str, n: &str) -> (String, String, String) {
    (p.to_string(), s.to_string(), n.to_string())
}

fn order(id: &str) -> HistoryItem {
    HistoryItem {
        order_id: id.to_string(),
        project_name: "p".to_string(),
        price: 1,
        time: "t".to_string(),
        pay_url: String::new(),
    }
}

#[test]
fn clearing_history_writes_empty_list() {
    let w = clear_history();
    assert_eq!(w.file_name, "history.json");
    assert_eq!(w.content, "[]");
}

#[test]
fn cookies_are_saved_verbatim() {
    let w = save_cookies("[\"a=1\"]".to_string());
    assert_eq!(w.file_name, "cookies.json");
    assert_eq!(w.content, "[\"a=1\"]");
    assert_eq!(load_cookies(Some("x".to_string())), "x");
    assert_eq!(load_cookies(None), "");
}

#[test]
fn new_orders_go_first() {
    let h = add_history_item(vec![order("1"), order("2")], order("3"));
    let ids: Vec<&str> = h.iter().map(|o| o.order_id.as_str()).collect();
    assert_eq!(ids, vec!["3", "1", "2"]);
}

#[test]
fn specific_entry_replaces_sku_and_generic() {
    let h = vec![entry("p1", "", "generic"), entry("p1", "s1", "old"), entry("p2", "s2", "other")];
    let r = add_project_history(h, entry("p1", "s1", "new"));
    assert_eq!(keys(&r), vec![k("p1", "s1", "new"), k("p2", "s2", "other")]);
}

#[test]
fn generic_entry_is_skipped_when_specific_exists() {
    let h = vec![entry("p1", "s1", "specific"), entry("p1", "", "old generic")];
    let r = add_project_history(h, entry("p1", "", "new generic"));
    assert_eq!(keys(&r), vec![k("p1", "s1", "specific")]);

    let h = vec![entry("p2", "s2", "other"), entry("p1", "", "old generic")];
    let r = add_project_history(h, entry("p1", "", "new generic"));
    assert_eq!(keys(&r), vec![k("p1", "", "new generic"), k("p2", "s2", "other")]);
}

#[test]
fn project_history_is_capped() {
    let h: Vec<ProjectConfig> = (0..PROJECT_HISTORY_LIMIT)
        .map(|i| entry(&format!("p{}", i), &format!("s{}", i), "x"))
        .collect();
    let r = add_project_history(h, entry("new", "sn", "y"));
    assert_eq!(r.len(), PROJECT_HISTORY_LIMIT);
    assert_eq!(r[0].project_id, "new");
    assert_eq!(r[PROJECT_HISTORY_LIMIT - 1].project_id, format!("p{}", PROJECT_HISTORY_LIMIT - 2));
}

#[test]
fn removing_project_entries() {
    let h = vec![entry("p1", "s1", "a"), entry("p1", "s2", "b"), entry("p1", "s1", "c")];
    let r = remove_project_history_item(h, "p1".to_string(), "s1".to_string());
    assert_eq!(keys(&r), vec![k("p1", "s2", "b")]);
}

#[test]
fn stored_tasks_and_settings() {
    match get_tasks(None) {
        Json::Array(v) => assert!(v.is_empty()),
        _ => panic!("missing tasks are an empty list"),
    }
    match get_settings(None) {
        Json::Object(m) => assert!(m.is_empty()),
        _ => panic!("missing settings are an empty object"),
    }
    match get_tasks(Some(Json::Bool(true))) {
        Json::Bool(true) => {}
        _ => panic!("stored tasks are returned as stored"),
    }
    assert_eq!(check_tasks(&Json::Array(vec![])), Ok(()));
    assert_eq!(check_tasks(&Json::Null), Err(StorageError::TasksNotArray));
    assert_eq!(check_settings(&Json::Object(vec![])), Ok(()));
    assert_eq!(check_settings(&Json::Array(vec![])), Err(StorageError::SettingsNotObject));
}
