use unipac::package::Package;
use unipac::plugin::{
    ended_without_response, first_package, nothing_step, packages_step, response_step, Event, Flow,
    Plugin, PluginOp, Response,
};

fn pkg(id: &str) -> Package {
    Package::from_fields(&vec!["Id".to_string()], &vec![id.to_string()])
}

#[test]
fn progress_parses_a_number() {
    assert!(matches!(Response::new_progress_from_str("50"), Response::Progress(50)));
    assert!(matches!(Response::new_progress_from_str("+7"), Response::Progress(7)));
    assert!(matches!(Response::new_progress_from_str("255"), Response::Progress(255)));
}

#[test]
fn progress_error_names_the_cause() {
    match Response::new_progress_from_str("abc") {
        Response::Error(m) => assert_eq!(m, "Failed to parse progress: invalid digit found in string"),
        other => panic!("unexpected {:?}", other),
    }
    match Response::new_progress_from_str("300") {
        Response::Error(m) => assert_eq!(m, "Failed to parse progress: number too large to fit in target type"),
        other => panic!("unexpected {:?}", other),
    }
    match Response::new_progress_from_str("") {
        Response::Error(m) => assert_eq!(m, "Failed to parse progress: cannot parse integer from empty string"),
        other => panic!("unexpected {:?}", other),
    }
}

#[test]
fn from_result_wraps_package_or_error() {
    assert!(matches!(Response::from_result(Ok(pkg("a"))), Response::Package(_)));
    match Response::from_result(Err("bad".to_string())) {
        Response::Error(m) => assert_eq!(m, "Failed to parse package: bad"),
        other => panic!("unexpected {:?}", other),
    }
}

#[test]
fn response_step_finishes_on_answer() {
    let s = response_step(Response::Response("x".to_string()));
    assert!(s.event.is_none());
    assert!(matches!(s.flow, Flow::Finish(Ok(ref t)) if t == "x"));
    let s = response_step(Response::Progress(3));
    assert_eq!(s.event, Some(Event::Progress(3)));
    assert!(matches!(s.flow, Flow::Continue));
    let s = response_step(Response::End);
    assert_eq!(s.event, Some(Event::End));
    assert!(matches!(s.flow, Flow::Finish(Err(ref m)) if m == "Ended without response"));
    let s = response_step(Response::Error("boom".to_string()));
    assert_eq!(s.event, Some(Event::End));
    assert!(matches!(s.flow, Flow::Finish(Err(ref m)) if m == "boom"));
    assert!(matches!(response_step(Response::Package(pkg("a"))).flow, Flow::Continue));
    assert_eq!(ended_without_response(), "Ended without response");
}

#[test]
fn packages_step_gathers_until_done() {
    let mut ps = Vec::new();
    assert!(matches!(packages_step(&mut ps, Response::Package(pkg("a"))).flow, Flow::Continue));
    assert!(matches!(packages_step(&mut ps, Response::Progress(40)).flow, Flow::Continue));
    assert!(matches!(packages_step(&mut ps, Response::Response("t".to_string())).flow, Flow::Continue));
    assert!(matches!(packages_step(&mut ps, Response::Package(pkg("b"))).flow, Flow::Continue));
    let s = packages_step(&mut ps, Response::Progress(100));
    assert_eq!(s.event, Some(Event::Progress(100)));
    assert!(matches!(s.flow, Flow::Finish(Ok(()))));
    assert_eq!(ps.len(), 2);
    assert_eq!(ps[1].get("Id").unwrap(), "b");
    let s = packages_step(&mut ps, Response::End);
    assert_eq!(s.event, Some(Event::End));
    assert!(matches!(s.flow, Flow::Finish(Ok(()))));
    let s = packages_step(&mut ps, Response::Error("e".to_string()));
    assert!(matches!(s.flow, Flow::Finish(Err(ref m)) if m == "e"));
}

#[test]
fn nothing_step_end_does_not_finish() {
    let s = nothing_step(Response::End);
    assert_eq!(s.event, Some(Event::End));
    assert!(matches!(s.flow, Flow::Continue));
    assert!(matches!(nothing_step(Response::Progress(100)).flow, Flow::Finish(Ok(()))));
    assert!(matches!(nothing_step(Response::Progress(99)).flow, Flow::Continue));
    assert!(matches!(nothing_step(Response::Error("x".to_string())).flow, Flow::Finish(Err(_))));
    assert!(nothing_step(Response::Package(pkg("a"))).event.is_none());
}

#[test]
fn first_package_takes_the_first() {
    let r = first_package(Ok(vec![pkg("a"), pkg("b")])).unwrap().unwrap();
    assert_eq!(r.get("Id").unwrap(), "a");
    assert!(first_package(Ok(Vec::new())).unwrap().is_none());
    assert_eq!(first_package(Err("e".to_string())).unwrap_err(), "e");
}

#[test]
fn ops_name_their_subcommands() {
    assert_eq!(PluginOp::GetId.subcommand(), "unipac_get_id");
    assert_eq!(PluginOp::PreInstall("x".to_string()).subcommand(), "unipac_pre_install");
    assert_eq!(PluginOp::Search("q".to_string()).arguments(), vec!["q".to_string()]);
    assert!(PluginOp::ListPackages.arguments().is_empty());
    assert_eq!(PluginOp::Install("x".to_string()), PluginOp::Install("x".to_string()));
    assert_ne!(PluginOp::Install("x".to_string()), PluginOp::Remove("x".to_string()));
}

#[test]
fn builder_keeps_path_and_sender() {
    let (tx, _rx) = std::sync::mpsc::channel();
    let plugin = Plugin::builder().event_sender(tx).path("/bin/plug".to_string()).build();
    assert_eq!(plugin.path, "/bin/plug");
    assert!(plugin.event_sender.is_some());
    let plain = Plugin::builder().path("p".to_string()).build();
    assert!(plain.event_sender.is_none());
}

#[test]
fn command_line_joins_path_subcommand_and_arguments() {
    let plugin = Plugin::builder().path("/bin/plug".to_string()).build();
    assert_eq!(plugin.command_line(&PluginOp::Search("foo bar".to_string())), "/bin/plug unipac_search foo bar");
    assert_eq!(plugin.command_line(&PluginOp::GetName), "/bin/plug unipac_get_name ");
}

#[test]
fn gathering_a_listing_stops_at_the_first_finish() {
    let messages = vec![
        Response::Progress(10),
        Response::Package(pkg("a")),
        Response::Response("ignored".to_string()),
        Response::Package(pkg("b")),
        Response::End,
        Response::Package(pkg("late")),
        Response::Error("late".to_string()),
    ];
    let mut packages = Vec::new();
    let mut events = Vec::new();
    let mut read = 0;
    let mut finish = None;
    for m in messages {
        read += 1;
        let s = packages_step(&mut packages, m);
        events.extend(s.event);
        if let Flow::Finish(r) = s.flow {
            finish = Some(r);
            break;
        }
    }
    assert_eq!(read, 5);
    assert_eq!(events, vec![Event::Progress(10), Event::End]);
    assert_eq!(packages.iter().map(|p| p.get("Id").unwrap()).collect::<Vec<_>>(), vec!["a", "b"]);
    assert!(matches!(finish, Some(Ok(()))));
}

#[test]
fn plugin_gathers_a_listing_from_its_channel() {
    let (tx, rx) = std::sync::mpsc::channel();
    let plugin = Plugin::builder().event_sender(tx).path("/bin/plug".to_string()).build();
    for m in [
        Response::Progress(20),
        Response::Package(pkg("a")),
        Response::Package(pkg("b")),
        Response::Progress(100),
        Response::Package(pkg("late")),
    ] {
        plugin.response_sender.send(m).unwrap();
    }
    let packages = plugin.get_packages().0.unwrap();
    assert_eq!(packages.iter().map(|p| p.get("Id").unwrap()).collect::<Vec<_>>(), vec!["a", "b"]);
    assert_eq!(rx.try_iter().collect::<Vec<_>>(), vec![Event::Progress(20), Event::Progress(100)]);
    // The message after the finish is still waiting: it starts the next reply.
    plugin.response_sender.send(Response::End).unwrap();
    assert_eq!(plugin.get_package().0.unwrap().unwrap().get("Id").unwrap(), "late");
}

#[test]
fn plugin_text_and_nothing_replies() {
    let (tx, rx) = std::sync::mpsc::channel();
    let plugin = Plugin::builder().event_sender(tx).path("/bin/plug".to_string()).build();
    plugin.response_sender.send(Response::Progress(5)).unwrap();
    plugin.response_sender.send(Response::Response("apt".to_string())).unwrap();
    assert_eq!(plugin.get_response().0.unwrap(), "apt");
    plugin.response_sender.send(Response::End).unwrap();
    assert_eq!(plugin.get_response().0.unwrap_err(), "Ended without response");
    plugin.response_sender.send(Response::End).unwrap();
    plugin.response_sender.send(Response::Error("boom".to_string())).unwrap();
    assert_eq!(plugin.get_nothing().0.unwrap_err(), "boom");
    plugin.response_sender.send(Response::Progress(100)).unwrap();
    assert!(plugin.get_nothing().0.is_ok());
    assert_eq!(
        rx.try_iter().collect::<Vec<_>>(),
        vec![Event::Progress(5), Event::End, Event::End, Event::End, Event::Progress(100)]
    );
}
