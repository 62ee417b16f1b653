use unipac::protocol::{failure_message, finish_request, LineParser};
use unipac::plugin::{packages_step, Flow, Response};

#[test]
fn package_lines_use_the_first_as_header() {
    let mut p = LineParser::new();
    let o = p.feed("Package Id,Version");
    assert!(o.response.is_none() && !o.stop);
    let o = p.feed("Package vim,9.0");
    match o.response {
        Some(Response::Package(pkg)) => {
            assert_eq!(pkg.get("Id").unwrap(), "vim");
            assert_eq!(pkg.get("Version").unwrap(), "9.0");
        }
        other => panic!("unexpected {:?}", other),
    }
    assert_eq!(p.fields.as_ref().unwrap(), &vec!["Id".to_string(), "Version".to_string()]);
}

#[test]
fn channels_map_to_messages() {
    let mut p = LineParser::new();
    assert!(matches!(p.feed("Progress 42").response, Some(Response::Progress(42))));
    assert!(matches!(p.feed("Response hello world").response, Some(Response::Response(ref s)) if s == "hello world"));
    assert!(matches!(p.feed("Error broken pipe").response, Some(Response::Error(ref s)) if s == "broken pipe"));
    let o = p.feed("End now");
    assert!(matches!(o.response, Some(Response::End)) && o.stop);
}

#[test]
fn lines_without_channel_are_skipped() {
    let mut p = LineParser::new();
    let o = p.feed("End");
    assert!(o.response.is_none() && !o.stop);
    let o = p.feed("Unknown data");
    assert!(o.response.is_none() && !o.stop);
    assert!(p.fields.is_none());
}

#[test]
fn failure_message_mentions_stderr_only_when_any() {
    assert_eq!(failure_message("exit status: 1", Some("oops".to_string())), "Plugin failed with status exit status: 1 and error: oops");
    assert_eq!(failure_message("exit status: 1", Some(String::new())), "Plugin failed with status exit status: 1");
    assert_eq!(failure_message("exit status: 2", None), "Plugin failed with status exit status: 2");
}

#[test]
fn finish_request_prefers_reply_error() {
    assert_eq!(finish_request(1u8, Err("run".to_string())).unwrap_err(), "run");
    assert_eq!(finish_request(1u8, Ok(())).unwrap(), 1);
}

#[test]
fn plugin_output_becomes_a_listing() {
    let output = [
        "Progress 10",
        "Package Id,Version",
        "Package vim,9.0",
        "noise",
        "Package git,2.4",
        "Progress 100",
        "Package late,1",
    ];
    let mut parser = LineParser::new();
    let mut packages = Vec::new();
    let mut finished = false;
    for line in output {
        let outcome = parser.feed(line);
        if let Some(response) = outcome.response {
            if let Flow::Finish(result) = packages_step(&mut packages, response).flow {
                result.unwrap();
                finished = true;
                break;
            }
        }
    }
    assert!(finished);
    let ids: Vec<String> = packages.iter().map(|p| p.get("Id").unwrap().clone()).collect();
    assert_eq!(ids, vec!["vim".to_string(), "git".to_string()]);
}
