use ellipsoid::platform::{
    open_outcome, remembered_location, restored_status, save_report, Export, Inbox, OpenOutcome,
    Opened, Saved, Status,
};

#[test]
fn a_take_gives_back_what_was_put_once() {
    let mut inbox = Inbox::default();
    assert_eq!(inbox.take(), None);
    let file = Opened::File { name: "a.json".into(), text: "{}".into() };
    inbox.put(Ok(file.clone()));
    assert_eq!(inbox.take(), Some(Ok(file)));
    assert_eq!(inbox.take(), None);
}

#[test]
fn a_later_delivery_replaces_an_untaken_one() {
    let mut inbox = Inbox::new();
    inbox.put(Ok(Opened::Cancelled));
    inbox.put(Err("no such file".into()));
    assert_eq!(inbox.take(), Some(Err("no such file".to_string())));
}

#[test]
fn remembered_settings_sit_in_the_config_directory() {
    assert_eq!(
        remembered_location(Some("/home/me/.config/ellipsoid"), '/'),
        Some("/home/me/.config/ellipsoid/settings.json".to_string())
    );
    assert_eq!(
        remembered_location(Some("/home/me/.config/ellipsoid/"), '/'),
        Some("/home/me/.config/ellipsoid/settings.json".to_string())
    );
    assert_eq!(
        remembered_location(Some(r"C:\Users\me\AppData"), '\\'),
        Some(r"C:\Users\me\AppData\settings.json".to_string())
    );
    assert_eq!(remembered_location(Some(""), '/'), Some("settings.json".to_string()));
    // A bare drive is joined as `Path::join` joins it on Windows, without a
    // separator; on other platforms `C:` is just a name.
    assert_eq!(remembered_location(Some("C:"), '\\'), Some("C:settings.json".to_string()));
    assert_eq!(remembered_location(Some("C:"), '/'), Some("C:/settings.json".to_string()));
    assert_eq!(remembered_location(Some("1:"), '\\'), Some("1:\\settings.json".to_string()));
    // The joins agree with the standard library on this platform.
    for dir in ["/home/me/.config/ellipsoid", "/home/me/.config/ellipsoid/", "", "C:", "a"] {
        let joined = std::path::Path::new(dir).join("settings.json").display().to_string();
        assert_eq!(remembered_location(Some(dir), std::path::MAIN_SEPARATOR), Some(joined), "{dir:?}");
    }
    assert_eq!(remembered_location(None, '/'), None);
}

#[test]
fn every_save_outcome_is_reported() {
    let info = |text: &str| Status { text: text.into(), is_error: false };
    assert_eq!(save_report("SVG", &Ok(Saved::To("/tmp/a.svg".into()))), info("Saved SVG to /tmp/a.svg"));
    assert_eq!(save_report("flat OBJ", &Ok(Saved::Downloaded)), info("Downloaded flat OBJ"));
    assert_eq!(save_report("settings", &Ok(Saved::Cancelled)), info("Save cancelled"));
    assert_eq!(
        save_report("OBJ", &Err("disk full".into())),
        Status::error("Could not save OBJ: disk full".into())
    );
}

#[test]
fn an_opened_file_is_loaded_and_a_failure_reported() {
    assert_eq!(open_outcome(None), OpenOutcome::Nothing);
    assert_eq!(open_outcome(Some(Ok(Opened::Cancelled))), OpenOutcome::Nothing);
    assert_eq!(
        open_outcome(Some(Ok(Opened::File { name: "h.json".into(), text: "{}".into() }))),
        OpenOutcome::Load { name: "h.json".into(), text: "{}".into() }
    );
    assert_eq!(
        open_outcome(Some(Err("that file is not UTF-8 text".into()))),
        OpenOutcome::Failed(Status::error("Could not open settings: that file is not UTF-8 text".into()))
    );
}

#[test]
fn restoring_names_where_from_when_it_can() {
    assert_eq!(
        restored_status(Some("/c/settings.json")).text,
        "Restored your last settings from /c/settings.json"
    );
    assert_eq!(restored_status(None), Status::info("Restored your last settings".into()));
}

#[test]
fn each_export_is_named_after_the_settings() {
    let stem = "ellipsoid_a3.75in_b2.88in_c3.00in";
    assert_eq!(Export::Svg.file_name(stem), "ellipsoid_a3.75in_b2.88in_c3.00in.svg");
    assert_eq!(Export::Obj.file_name(stem), "ellipsoid_a3.75in_b2.88in_c3.00in.obj");
    assert_eq!(Export::FlatObj.file_name(stem), "ellipsoid_a3.75in_b2.88in_c3.00in-flat.obj");
    assert_eq!(Export::Settings.file_name(stem), "ellipsoid_a3.75in_b2.88in_c3.00in.json");
    assert_eq!(
        save_report(Export::FlatObj.label(), &Ok(Saved::Downloaded)),
        Status::info("Downloaded flat OBJ".into())
    );
    assert_eq!(Export::Svg.label(), "SVG");
    assert_eq!(Export::Obj.label(), "OBJ");
    assert_eq!(Export::Settings.label(), "settings");
}
