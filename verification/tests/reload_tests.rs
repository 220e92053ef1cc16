use handlebars_response_cache::RegistrationError;
use handlebars_response_cache::ReloadableHandlebars;
use handlebars_response_cache::TemplateObservation;

fn ctx(pairs: &[(&str, &str)]) -> serde_json::Value {
    let mut map = serde_json::Map::new();
    for (k, v) in pairs {
        map.insert((*k).to_string(), serde_json::Value::String((*v).to_string()));
    }
    serde_json::Value::Object(map)
}

fn obs(name: &str, stat_ok: bool, mtime: Option<u128>, source: Option<&str>) -> TemplateObservation {
    TemplateObservation {
        name: name.to_string(),
        stat_ok,
        mtime,
        source: source.map(|s| s.to_string()),
    }
}

#[test]
fn register_and_render() {
    let mut reg = ReloadableHandlebars::new();
    reg.register_template_file("greet", "views/greet.hbs", Some(100), "Hello, {{name}}!")
        .expect("registration");
    assert_eq!(reg.template_count(), 1);
    let html = reg.render("greet", &ctx(&[("name", "World")])).expect("render");
    assert_eq!(html, "Hello, World!");
    let files = reg.tracked_files();
    assert_eq!(files[0].name, "greet");
    assert_eq!(files[0].path, "views/greet.hbs");
    assert_eq!(files[0].mtime, Some(100));
    assert_eq!(files[0].version, 0);
}

#[test]
fn register_rejects_bad_syntax_without_partial_state() {
    let mut reg = ReloadableHandlebars::new();
    let err = reg
        .register_template_file("broken", "views/broken.hbs", Some(1), "{{#if}")
        .expect_err("syntax error");
    assert!(matches!(err, RegistrationError::Syntax { .. }));
    assert_eq!(reg.template_count(), 0);
    assert!(reg.render("broken", &ctx(&[])).is_err());
}

#[test]
fn reregistering_replaces_in_place() {
    let mut reg = ReloadableHandlebars::new();
    reg.register_template_file("greet", "views/a.hbs", Some(1), "one").expect("registration");
    reg.register_template_file("other", "views/b.hbs", Some(1), "two").expect("registration");
    reg.register_template_file("greet", "views/c.hbs", Some(9), "three").expect("registration");
    assert_eq!(reg.template_count(), 2);
    let files = reg.tracked_files();
    assert_eq!(files[0].name, "greet");
    assert_eq!(files[0].path, "views/c.hbs");
    assert_eq!(files[0].mtime, Some(9));
    assert_eq!(files[0].version, 1);
    assert_eq!(reg.render("greet", &ctx(&[])).expect("render"), "three");
}

#[test]
fn unregister_returns_the_tracked_path() {
    let mut reg = ReloadableHandlebars::new();
    reg.register_template_file("greet", "views/greet.hbs", Some(1), "hi").expect("registration");
    assert_eq!(reg.unregister_template_file("greet"), Some("views/greet.hbs".to_string()));
    assert_eq!(reg.template_count(), 0);
    assert!(reg.render("greet", &ctx(&[])).is_err());
    assert_eq!(reg.unregister_template_file("greet"), None);
}

#[test]
fn reload_untouched_template_keeps_version_and_content() {
    let mut reg = ReloadableHandlebars::new();
    reg.register_template_file("greet", "views/greet.hbs", Some(100), "old {{name}}")
        .expect("registration");
    reg.reload_if_needed(&vec![obs("greet", true, Some(100), None)]).expect("reload");
    let files = reg.tracked_files();
    assert_eq!(files[0].version, 0);
    assert_eq!(files[0].mtime, Some(100));
    assert_eq!(reg.render("greet", &ctx(&[("name", "x")])).expect("render"), "old x");
}

#[test]
fn reload_changed_template_recompiles() {
    let mut reg = ReloadableHandlebars::new();
    reg.register_template_file("greet", "views/greet.hbs", Some(100), "old {{name}}")
        .expect("registration");
    reg.reload_if_needed(&vec![obs("greet", true, Some(200), Some("new {{name}}"))])
        .expect("reload");
    let files = reg.tracked_files();
    assert_eq!(files[0].version, 1);
    assert_eq!(files[0].mtime, Some(200));
    assert_eq!(reg.render("greet", &ctx(&[("name", "x")])).expect("render"), "new x");
}

#[test]
fn reload_with_unknown_recorded_mtime_is_forced() {
    let mut reg = ReloadableHandlebars::new();
    reg.register_template_file("greet", "views/greet.hbs", None, "old").expect("registration");
    reg.reload_if_needed(&vec![obs("greet", true, Some(5), Some("new"))]).expect("reload");
    assert_eq!(reg.render("greet", &ctx(&[])).expect("render"), "new");
    assert_eq!(reg.tracked_files()[0].mtime, Some(5));
}

#[test]
fn reload_missing_observation_is_a_metadata_error() {
    let mut reg = ReloadableHandlebars::new();
    reg.register_template_file("greet", "views/greet.hbs", Some(1), "hi").expect("registration");
    let err = reg.reload_if_needed(&Vec::new()).expect_err("metadata error");
    assert!(matches!(err, RegistrationError::Metadata { name } if name == "greet"));
}

#[test]
fn reload_failed_stat_is_a_metadata_error() {
    let mut reg = ReloadableHandlebars::new();
    reg.register_template_file("greet", "views/greet.hbs", Some(1), "hi").expect("registration");
    let err = reg
        .reload_if_needed(&vec![obs("greet", false, None, None)])
        .expect_err("metadata error");
    assert!(matches!(err, RegistrationError::Metadata { name } if name == "greet"));
}

#[test]
fn reload_without_source_is_an_io_error() {
    let mut reg = ReloadableHandlebars::new();
    reg.register_template_file("greet", "views/greet.hbs", Some(1), "hi").expect("registration");
    let err = reg
        .reload_if_needed(&vec![obs("greet", true, Some(2), None)])
        .expect_err("io error");
    assert!(matches!(err, RegistrationError::Io { name } if name == "greet"));
}

#[test]
fn reload_aborts_on_first_failure_and_keeps_earlier_updates() {
    let mut reg = ReloadableHandlebars::new();
    reg.register_template_file("first", "views/first.hbs", Some(1), "first old")
        .expect("registration");
    reg.register_template_file("second", "views/second.hbs", Some(1), "second old")
        .expect("registration");
    reg.register_template_file("third", "views/third.hbs", Some(1), "third old")
        .expect("registration");
    let err = reg
        .reload_if_needed(&vec![
            obs("first", true, Some(2), Some("first new")),
            obs("second", true, Some(2), Some("{{#broken")),
            obs("third", true, Some(2), Some("third new")),
        ])
        .expect_err("syntax error");
    assert!(matches!(err, RegistrationError::Syntax { name, .. } if name == "second"));
    // the first template was refreshed, the failing one and the later one kept
    // their previous compiled state and bookkeeping
    let files = reg.tracked_files();
    assert_eq!(files[0].version, 1);
    assert_eq!(files[0].mtime, Some(2));
    assert_eq!(files[1].version, 0);
    assert_eq!(files[1].mtime, Some(1));
    assert_eq!(files[2].version, 0);
    assert_eq!(reg.render("first", &ctx(&[])).expect("render"), "first new");
    assert_eq!(reg.render("second", &ctx(&[])).expect("render"), "second old");
    assert_eq!(reg.render("third", &ctx(&[])).expect("render"), "third old");
}

#[test]
fn register_template_string_tracks_no_file() {
    let mut reg = ReloadableHandlebars::new();
    reg.register_template_string("embedded", "static {{v}}").expect("registration");
    assert_eq!(reg.template_count(), 0);
    assert_eq!(reg.render("embedded", &ctx(&[("v", "ok")])).expect("render"), "static ok");
}
