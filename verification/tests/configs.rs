use rclone_gui::config::{
    config_of_request, config_of_section, copy_config, find_config, ini_settings, own_key,
    password_to_obscure, password_to_reveal, setting_of, with_revealed_password, ConfigManager,
};
use rclone_gui::housekeeping::{
    is_log_file, is_orphaned_log, path_source, status_class, PathSource, StatusClass,
};
use rclone_gui::job::JobEvent;
use rclone_gui::models::{ConfigRequest, RcloneConfig, StartTaskRequest, SyncRequest};
use rclone_gui::registry::SyncJobs;

fn request(name: &str, password: Option<&str>) -> ConfigRequest {
    ConfigRequest {
        name: name.to_string(),
        config_type: "webdav".to_string(),
        url: Some("https://example.org/dav".to_string()),
        username: None,
        password: password.map(|p| p.to_string()),
        additional_fields: Some(vec![("vendor".to_string(), "nextcloud".to_string())]),
    }
}

fn config(name: &str, kind: &str) -> RcloneConfig {
    RcloneConfig {
        name: name.to_string(),
        config_type: kind.to_string(),
        url: None,
        username: None,
        password: None,
        additional_fields: vec![],
    }
}

fn pair(k: &str, v: &str) -> (String, String) {
    (k.to_string(), v.to_string())
}

#[test]
fn password_is_obscured_only_where_it_is_given() {
    assert_eq!(password_to_obscure(&request("a", Some("secret"))), Some("secret"));
    assert_eq!(password_to_obscure(&request("a", Some(""))), None);
    assert_eq!(password_to_obscure(&request("a", None)), None);
}

#[test]
fn config_of_a_request() {
    let c = config_of_request(&request("cloud", Some("secret")), Some("0bscur3d".to_string()));
    assert_eq!(c.name, "cloud");
    assert_eq!(c.config_type, "webdav");
    assert_eq!(c.url.as_deref(), Some("https://example.org/dav"));
    assert_eq!(c.username, None);
    assert_eq!(c.password.as_deref(), Some("0bscur3d"));
    assert_eq!(c.additional_fields, vec![pair("vendor", "nextcloud")]);
    let mut bare = request("cloud", None);
    bare.additional_fields = None;
    let c = config_of_request(&bare, None);
    assert_eq!(c.password, None);
    assert!(c.additional_fields.is_empty());
}

#[test]
fn settings_of_a_config() {
    let c = RcloneConfig {
        name: "cloud".to_string(),
        config_type: "webdav".to_string(),
        url: Some("https://example.org".to_string()),
        username: Some("me".to_string()),
        password: Some("0bscur3d".to_string()),
        additional_fields: vec![pair("vendor", "nextcloud"), pair("bearer", "")],
    };
    assert_eq!(
        ini_settings(&c),
        vec![
            pair("type", "webdav"),
            pair("url", "https://example.org"),
            pair("user", "me"),
            pair("pass", "0bscur3d"),
            pair("vendor", "nextcloud"),
            pair("bearer", ""),
        ]
    );
    assert_eq!(ini_settings(&config("local", "local")), vec![pair("type", "local")]);
    let mut empty_pass = config("x", "s3");
    empty_pass.password = Some(String::new());
    assert_eq!(ini_settings(&empty_pass), vec![pair("type", "s3")]);
}

#[test]
fn config_of_a_section() {
    let entries = vec![
        ("vendor".to_string(), Some("nextcloud".to_string())),
        ("type".to_string(), Some("webdav".to_string())),
        ("flag".to_string(), None),
        ("pass".to_string(), Some("0bscur3d".to_string())),
        ("url".to_string(), Some("https://example.org".to_string())),
        ("chunk".to_string(), Some("10M".to_string())),
    ];
    let c = config_of_section("cloud", &entries);
    assert_eq!(c.name, "cloud");
    assert_eq!(c.config_type, "webdav");
    assert_eq!(c.url.as_deref(), Some("https://example.org"));
    assert_eq!(c.username, None);
    assert_eq!(c.password.as_deref(), Some("0bscur3d"));
    assert_eq!(c.additional_fields, vec![pair("vendor", "nextcloud"), pair("chunk", "10M")]);
    let c = config_of_section("empty", &vec![]);
    assert_eq!(c.config_type, "");
    assert!(c.additional_fields.is_empty());
    let c = config_of_section("odd", &vec![("type".to_string(), None)]);
    assert_eq!(c.config_type, "");
}

#[test]
fn settings_and_section_agree() {
    let c = config_of_request(&request("cloud", Some("p")), Some("obscured".to_string()));
    let entries: Vec<(String, Option<String>)> =
        ini_settings(&c).into_iter().map(|(k, v)| (k, Some(v))).collect();
    let back = config_of_section("cloud", &entries);
    assert_eq!(back.name, c.name);
    assert_eq!(back.config_type, c.config_type);
    assert_eq!(back.url, c.url);
    assert_eq!(back.username, c.username);
    assert_eq!(back.password, c.password);
    assert_eq!(back.additional_fields, c.additional_fields);
}

#[test]
fn settings_by_name() {
    let entries = vec![
        ("a".to_string(), Some("1".to_string())),
        ("b".to_string(), None),
        ("a".to_string(), Some("2".to_string())),
    ];
    assert_eq!(setting_of(&entries, "a").as_deref(), Some("1"));
    assert_eq!(setting_of(&entries, "b"), None);
    assert_eq!(setting_of(&entries, "c"), None);
    assert!(own_key("type") && own_key("url") && own_key("user") && own_key("pass"));
    assert!(!own_key("Type") && !own_key("password") && !own_key(""));
}

#[test]
fn config_for_editing() {
    let mut a = config("a", "webdav");
    a.password = Some("0bscur3d".to_string());
    let all = vec![config("b", "s3"), a, config("a", "late")];
    let found = find_config(&all, "a").unwrap();
    assert_eq!(found.config_type, "webdav");
    assert_eq!(password_to_reveal(found), Some("0bscur3d"));
    assert!(find_config(&all, "c").is_none());
    assert_eq!(password_to_reveal(&all[0]), None);
    let shown = with_revealed_password(copy_config(found), Some("plain".to_string()));
    assert_eq!(shown.password.as_deref(), Some("plain"));
    assert_eq!(shown.name, "a");
    let kept = with_revealed_password(copy_config(found), None);
    assert_eq!(kept.password.as_deref(), Some("0bscur3d"));
}

#[test]
fn configs_in_memory() {
    let mut manager = ConfigManager::new(true);
    assert!(manager.is_memory_only());
    assert!(manager.load_configs().is_empty());
    manager.save_config(config("a", "s3"));
    manager.save_config(config("b", "webdav"));
    manager.save_config(config("a", "local"));
    let all = manager.load_configs();
    assert_eq!(all.len(), 2);
    assert_eq!(all[0].name, "a");
    assert_eq!(all[0].config_type, "local");
    assert_eq!(all[1].name, "b");
    assert!(manager.delete_config("a"));
    assert!(!manager.delete_config("a"));
    assert_eq!(manager.load_configs().len(), 1);
    assert!(!ConfigManager::new(false).is_memory_only());
}

#[test]
fn configs_taken_from_the_file() {
    let mut manager = ConfigManager::new(true);
    manager.save_config(config("a", "old"));
    manager.load_from_file_to_memory(vec![config("a", "new"), config("b", "s3"), config("c", "x")]);
    let all = manager.load_configs();
    assert_eq!(all.len(), 3);
    let a = all.iter().find(|c| c.name == "a").unwrap();
    assert_eq!(a.config_type, "new");
    assert!(all.iter().any(|c| c.name == "b"));
    assert!(all.iter().any(|c| c.name == "c"));
}

#[test]
fn configs_taken_in_order() {
    let mut manager = ConfigManager::new(true);
    manager.load_from_file_to_memory(vec![config("a", "first"), config("b", "s3"), config("a", "last")]);
    let all = manager.load_configs();
    assert_eq!(all.len(), 2);
    assert_eq!(all[0].name, "a");
    assert_eq!(all[0].config_type, "last");
    assert_eq!(all[1].name, "b");
}

#[test]
fn names_of_logs() {
    assert!(is_log_file("a.log"));
    assert!(is_log_file("3f2b.tar.log"));
    assert!(is_log_file("..log"));
    assert!(!is_log_file(".log"));
    assert!(!is_log_file("log"));
    assert!(!is_log_file(""));
    assert!(!is_log_file(".gitkeep"));
    assert!(!is_log_file("a.LOG"));
    assert!(!is_log_file("a.log.txt"));
    assert!(is_log_file("ü.log"));
}

#[test]
fn logs_without_a_job_are_left_over() {
    let mut jobs = SyncJobs::new();
    let request = SyncRequest {
        source_path: "/x".to_string(),
        remote_name: "r".to_string(),
        remote_path: "p".to_string(),
        chunk_size: None,
        use_chunking: None,
    };
    jobs.submit("abc".to_string(), &request, 1);
    assert!(!is_orphaned_log(&jobs, "abc.log"));
    assert!(is_orphaned_log(&jobs, "abd.log"));
    assert!(is_orphaned_log(&jobs, "abc.log.log"));
    assert!(!is_orphaned_log(&jobs, ".gitkeep"));
    assert!(!is_orphaned_log(&jobs, "abc"));
    jobs.update("abc", &JobEvent::Exited(Some(0)), 2);
    assert!(!is_orphaned_log(&jobs, "abc.log"));
    jobs.delete_sync_job("abc");
    assert!(is_orphaned_log(&jobs, "abc.log"));
    assert!(is_orphaned_log(&SyncJobs::new(), "anything.log"));
}

#[test]
fn classes_of_status_codes() {
    assert_eq!(status_class(200), StatusClass::Success);
    assert_eq!(status_class(299), StatusClass::Success);
    assert_eq!(status_class(300), StatusClass::Redirect);
    assert_eq!(status_class(399), StatusClass::Redirect);
    assert_eq!(status_class(404), StatusClass::ClientError);
    assert_eq!(status_class(499), StatusClass::ClientError);
    assert_eq!(status_class(500), StatusClass::ServerError);
    assert_eq!(status_class(599), StatusClass::ServerError);
    assert_eq!(status_class(199), StatusClass::Other);
    assert_eq!(status_class(600), StatusClass::Other);
    assert_eq!(status_class(0), StatusClass::Other);
}

#[test]
fn sources_of_the_default_path() {
    assert_eq!(path_source(true, true, "/srv"), PathSource::LocalFile);
    assert_eq!(path_source(true, false, "/srv"), PathSource::LocalFile);
    assert_eq!(path_source(false, true, "/srv"), PathSource::GeneralFile);
    assert_eq!(path_source(false, false, "/srv"), PathSource::Fallback);
    assert_eq!(path_source(true, true, "/mnt/home"), PathSource::Fallback);
    assert_eq!(path_source(false, true, "/mnt/home"), PathSource::Fallback);
}

#[test]
fn start_request_names_a_task() {
    let r = StartTaskRequest { task_name: "nightly".to_string() };
    assert_eq!(r.task_name, "nightly");
}
