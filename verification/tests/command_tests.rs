use unipac::args::{Command, Task};
use unipac::commands::{
    admit_plugin, color_failure, color_or_default, context_failure, install_prompt, install_request, name_failure,
    update_after_confirmation, update_next, Failure, UpdateStep, match_plugin_id, IdMatch, count_updates, info, install, install_candidates, install_label,
    list_packages, list_updates, no_updates, not_enabled_error, nothing_selected, partition_results,
    plugin_enabled, plugin_error, plugin_not_found_error, plugin_outcome, remove, search, show_listing,
    show_package, update, update_confirmed, with_context, Admission, Presentation, PluginResult, Shown,
    InstallAction, InstallEvent, InstallState, UpdateAction, UpdateEvent, UpdateState,
};
use unipac::config::{Config, ConfigSource};
use unipac::package::Package;
use unipac::plugin::PluginOp;

fn pkg(fields: &[&str], values: &[&str]) -> Package {
    Package::from_fields(
        &fields.iter().map(|s| s.to_string()).collect(),
        &values.iter().map(|s| s.to_string()).collect(),
    )
}

fn result<T>(id: &str, data: T) -> PluginResult<T> {
    PluginResult { id: id.to_string(), name: format!("{} name", id), color: "red".to_string(), data }
}

#[test]
fn plans_choose_request_and_context() {
    let p = list_packages();
    assert_eq!(p.op, PluginOp::ListPackages);
    assert_eq!(p.context, "Failed to list packages");
    assert_eq!(p.presentation, Presentation::Listing);
    let p = search("vim");
    assert_eq!(p.op, PluginOp::Search("vim".to_string()));
    assert_eq!(p.context, "Failed to search packages");
    let p = info("vim");
    assert_eq!(p.op, PluginOp::Info("vim".to_string()));
    assert_eq!(p.presentation, Presentation::Single);
    assert_eq!(remove("vim").context, "Failed to remove package");
    assert_eq!(list_updates().context, "Failed to list updates");
    assert_eq!(update_confirmed().context, "Failed to update packages");
}

#[test]
fn messages() {
    assert_eq!(with_context("Failed to get name", "gone"), "Failed to get name: gone");
    assert_eq!(plugin_error("apt", "oops"), "[apt] oops");
    assert_eq!(not_enabled_error("apt"), "Plugin apt not enabled");
    assert_eq!(plugin_not_found_error(), "Failed to find plugin");
    assert_eq!(no_updates(), "No updates available");
    assert_eq!(nothing_selected(), "No package selected");
}

#[test]
fn empty_choice_enables_every_plugin() {
    assert!(plugin_enabled(&Vec::new(), "apt"));
    let chosen = vec!["apt".to_string(), "flatpak".to_string()];
    assert!(plugin_enabled(&chosen, "flatpak"));
    assert!(!plugin_enabled(&chosen, "snap"));
}

#[test]
fn admission_follows_id_reply() {
    let chosen = vec!["apt".to_string()];
    assert!(matches!(admit_plugin(&chosen, Ok("apt".to_string())), Admission::Admitted(ref i) if i == "apt"));
    assert!(matches!(admit_plugin(&chosen, Ok("snap".to_string())), Admission::Skipped));
    assert!(matches!(admit_plugin(&chosen, Err("x".to_string())), Admission::Failed(ref f) if f.detail == "Failed to get id: x" && f.summary == "Failed to get id"));
}

#[test]
fn outcome_marks_errors_with_the_name() {
    let ok = plugin_outcome("a".to_string(), "A".to_string(), "blue".to_string(), Ok(5u8)).unwrap();
    assert_eq!((ok.id.as_str(), ok.name.as_str(), ok.color.as_str(), ok.data), ("a", "A", "blue", 5));
    let err = plugin_outcome::<u8>("a".to_string(), "A".to_string(), String::new(), Err("bad".to_string()));
    let f = err.unwrap_err();
    assert_eq!(f.summary, "[A] bad");
    assert_eq!(f.detail, "[A] bad");
    assert_eq!(color_or_default(Err("x".to_string())), "");
    assert_eq!(color_or_default(Ok("red".to_string())), "red");
}

#[test]
fn listings_show_message_or_table() {
    match show_listing(result("apt", Vec::new())) {
        Shown::Message(m) => assert_eq!(m, "No packages found for apt name"),
        _ => panic!("expected a message"),
    }
    match show_listing(result("apt", vec![pkg(&["Id"], &["vim"])])) {
        Shown::Table(h, t) => {
            assert_eq!(h, "apt name");
            assert_eq!(t.count_rows(), 2);
        }
        _ => panic!("expected a table"),
    }
    match show_package(result("apt", None)) {
        Shown::Message(m) => assert_eq!(m, "Package not found for apt name"),
        _ => panic!("expected a message"),
    }
    match show_package(result("apt", Some(pkg(&["Id", "Version"], &["vim", "1"])))) {
        Shown::Table(_, t) => assert_eq!(t.count_rows(), 2),
        _ => panic!("expected a table"),
    }
}

#[test]
fn partition_keeps_order() {
    let (ok, err) = partition_results(vec![Ok(1u8), Err("a".to_string()), Ok(2), Err("b".to_string())]);
    assert_eq!(ok, vec![1, 2]);
    assert_eq!(err, vec!["a".to_string(), "b".to_string()]);
}

#[test]
fn candidates_need_id_and_version() {
    let results = vec![
        result("apt", vec![pkg(&["Id", "Version"], &["vim", "9"]), pkg(&["Id"], &["nover"])]),
        result("snap", vec![pkg(&["Version", "Id"], &["2", "code"])]),
    ];
    let c = install_candidates(&results);
    assert_eq!(c.len(), 2);
    assert_eq!((c[0].plugin_id.as_str(), c[0].package_id.as_str(), c[0].package_version.as_str()), ("apt", "vim", "9"));
    assert_eq!((c[1].plugin_name.as_str(), c[1].package_id.as_str(), c[1].package_version.as_str()), ("snap name", "code", "2"));
    assert_eq!(install_label(&c[0]), "apt name: vim 9");
}

#[test]
fn update_count_sums_successful_listings() {
    let results = vec![
        Ok(result("apt", vec![pkg(&["Id"], &["a"]), pkg(&["Id"], &["b"])])),
        Err(context_failure("x", "y")),
        Ok(result("snap", vec![pkg(&["Id"], &["c"])])),
    ];
    assert_eq!(count_updates(&results), 3);
    assert_eq!(count_updates(&Vec::new()), 0);
}

#[test]
fn command_tasks() {
    assert!(matches!(Command::List { updates: true }.task(), Task::ListUpdates));
    assert!(matches!(Command::List { updates: false }.task(), Task::ListPackages));
    assert!(matches!(Command::Update { list: true }.task(), Task::ListUpdates));
    assert!(matches!(Command::Update { list: false }.task(), Task::Update));
    assert!(matches!(Command::Search { query: "q".to_string() }.task(), Task::Search(ref q) if q == "q"));
    assert!(matches!(Command::Install { pname: "p".to_string() }.task(), Task::Install(ref q) if q == "p"));
}

#[test]
fn config_source_choice() {
    assert!(matches!(Config::from_opt_file(Some("/c.toml".to_string()), "/d.toml".to_string(), false), ConfigSource::File(ref f) if f == "/c.toml"));
    assert!(matches!(Config::from_opt_file(None, "/d.toml".to_string(), true), ConfigSource::File(ref f) if f == "/d.toml"));
    assert!(matches!(Config::from_opt_file(None, "/d.toml".to_string(), false), ConfigSource::Defaults));
    assert!(Config::default().general.plugins.is_empty());
}

#[test]
fn looking_for_a_plugin_by_id() {
    assert!(matches!(match_plugin_id(&Ok("apt".to_string()), "apt"), IdMatch::Found));
    assert!(matches!(match_plugin_id(&Ok("snap".to_string()), "apt"), IdMatch::Other));
    assert!(matches!(match_plugin_id(&Err("gone".to_string()), "apt"), IdMatch::Failed(ref m) if m == "Failed to get id: gone"));
}

#[test]
fn failures_in_brief_and_in_full() {
    let f = context_failure("Failed to list packages", "boom");
    assert_eq!(f, Failure { summary: "Failed to list packages".to_string(), detail: "Failed to list packages: boom".to_string() });
    let n = name_failure("gone");
    assert_eq!((n.summary.as_str(), n.detail.as_str()), ("Failed to get name", "Failed to get name: gone"));
    let c = color_failure("gone");
    assert_eq!((c.summary.as_str(), c.detail.as_str()), ("Failed to get color", "Failed to get color: gone"));
}

#[test]
fn update_steps() {
    assert!(matches!(update_next(0), UpdateStep::NothingToUpdate(ref m) if m == "No updates available"));
    assert!(matches!(update_next(3), UpdateStep::Confirm(ref q) if q == "Do you want to update these packages?"));
    let plan = update_after_confirmation(true).unwrap();
    assert_eq!(plan.op, PluginOp::Update);
    assert_eq!(plan.context, "Failed to update packages");
    assert!(update_after_confirmation(false).is_none());
}

#[test]
fn install_request_for_an_offer() {
    let results = vec![result("apt", vec![pkg(&["Id", "Version"], &["vim", "9"])])];
    let c = install_candidates(&results);
    let r = install_request(&c[0]);
    assert_eq!(r.plugin_id, "apt");
    assert_eq!(r.op, PluginOp::Install("vim".to_string()));
    assert_eq!(r.context, "Failed to install package");
    assert_eq!(install_prompt(), "Select a package to install");
    assert_eq!(c[0].clone(), c[0]);
}

#[test]
fn install_steps_through_offer_choice_and_request() {
    let (state, action) = install(InstallState::Start("vim".to_string()), InstallEvent::Begin);
    assert!(matches!(state, InstallState::Listing));
    match action {
        InstallAction::List(p) => {
            assert_eq!(p.op, PluginOp::PreInstall("vim".to_string()));
            assert_eq!(p.context, "Failed to check packages");
            assert_eq!(p.presentation, Presentation::Silent);
        }
        _ => panic!("expected a listing request"),
    }
    let listings = vec![
        Ok(result("apt", vec![pkg(&["Id", "Version"], &["vim", "9"]), pkg(&["Id"], &["nover"])])),
        Err(context_failure("Failed to get id", "gone")),
        Ok(result("snap", vec![pkg(&["Version", "Id"], &["2", "vim-snap"])])),
        Err(context_failure("[x] Failed to check packages", "boom")),
    ];
    let (state, action) = install(state, InstallEvent::Listed(listings));
    match action {
        InstallAction::Offer { errors, prompt, labels, colors } => {
            assert_eq!(errors, vec!["Failed to get id".to_string(), "[x] Failed to check packages".to_string()]);
            assert_eq!(prompt, "Select a package to install");
            assert_eq!(labels, vec!["apt name: vim 9".to_string(), "snap name: vim-snap 2".to_string()]);
            assert_eq!(colors, vec!["red".to_string(), "red".to_string()]);
        }
        _ => panic!("expected offers"),
    }
    let (state, action) = install(state, InstallEvent::Chosen(Some(1)));
    match action {
        InstallAction::Request(r) => {
            assert_eq!(r.plugin_id, "snap");
            assert_eq!(r.op, PluginOp::Install("vim-snap".to_string()));
            assert_eq!(r.context, "Failed to install package");
        }
        _ => panic!("expected an install request"),
    }
    let (state, action) = install(state, InstallEvent::Installed(Err("Failed to install package: no".to_string())));
    assert!(matches!(state, InstallState::Done));
    assert!(matches!(action, InstallAction::Fail { ref error, ref color } if error == "Failed to install package: no" && color == "red"));
    let (state, action) = install(state, InstallEvent::Begin);
    assert!(matches!((state, action), (InstallState::Done, InstallAction::Stop)));
}

#[test]
fn install_dismissed_or_succeeded() {
    let offers = install_candidates(&vec![result("apt", vec![pkg(&["Id", "Version"], &["vim", "9"])])]);
    let (state, action) = install(InstallState::Choosing(offers.clone()), InstallEvent::Chosen(None));
    assert!(matches!(state, InstallState::Done));
    assert!(matches!(action, InstallAction::Print(ref m) if m == "No package selected"));
    let (state, action) = install(InstallState::Installing("red".to_string()), InstallEvent::Installed(Ok(())));
    assert!(matches!((state, action), (InstallState::Done, InstallAction::Stop)));
}

#[test]
fn update_steps_through_count_and_confirmation() {
    let (state, action) = update(UpdateState::Start, UpdateEvent::Begin);
    assert_eq!(state, UpdateState::Listing);
    match action {
        UpdateAction::List(p) => {
            assert_eq!(p.op, PluginOp::ListUpdates);
            assert_eq!(p.context, "Failed to list updates");
        }
        _ => panic!("expected a listing request"),
    }
    let none = vec![Ok(result("apt", Vec::new())), Err(context_failure("x", "y"))];
    let (done, action) = update(UpdateState::Listing, UpdateEvent::Listed(none));
    assert_eq!(done, UpdateState::Done);
    match action {
        UpdateAction::Report(ls, UpdateStep::NothingToUpdate(m)) => {
            assert_eq!(ls.len(), 2);
            assert_eq!(m, "No updates available");
        }
        _ => panic!("expected the no-updates message"),
    }
    let some = vec![Ok(result("apt", vec![pkg(&["Id"], &["a"])]))];
    let (state, action) = update(UpdateState::Listing, UpdateEvent::Listed(some));
    assert_eq!(state, UpdateState::Confirming);
    assert!(matches!(action, UpdateAction::Report(_, UpdateStep::Confirm(ref q)) if q == "Do you want to update these packages?"));
    let (state, action) = update(UpdateState::Confirming, UpdateEvent::Answered(true));
    assert_eq!(state, UpdateState::Done);
    match action {
        UpdateAction::Run(p) => {
            assert_eq!(p.op, PluginOp::Update);
            assert_eq!(p.context, "Failed to update packages");
            assert_eq!(p.presentation, Presentation::Silent);
        }
        _ => panic!("expected the update request"),
    }
    let (state, action) = update(UpdateState::Confirming, UpdateEvent::Answered(false));
    assert_eq!(state, UpdateState::Done);
    assert!(matches!(action, UpdateAction::Stop));
    let (state, action) = update(UpdateState::Done, UpdateEvent::Answered(true));
    assert_eq!(state, UpdateState::Done);
    assert!(matches!(action, UpdateAction::Stop));
}
