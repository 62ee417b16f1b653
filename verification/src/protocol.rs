//! The line protocol on a plugin's standard output, and the text of a plugin run.
use vstd::prelude::*;
use crate::package::{Package, entries_from, zip_fields};
use crate::plugin::{Response, is_progress_message};
use crate::text::{views, split_by, split_once, split_once_at, split_all};

verus! {

/// Reads a plugin's output line by line. A line is a channel name, a space, then the
/// data. The first `Package` line names the fields; each later one holds the values
/// of a package, separated by commas.
pub struct LineParser {
    pub fields: Option<Vec<String>>,
}

/// What one line of output gives: a message to pass on, if any, and whether the
/// output is over.
#[derive(Debug)]
pub struct LineOutcome {
    pub response: Option<Response>,
    pub stop: bool,
}

/// The views of the field names, when they are known.
pub open spec fn fields_view(f: Option<Vec<String>>) -> Option<Seq<Seq<char>>> {
    match f {
        Some(v) => Some(views(v@)),
        None => None,
    }
}

/// How a line on channel `ch` with data `data` is handled, given the field names
/// known before (`before`) and after (`after`).
pub open spec fn handles_line(
    before: Option<Seq<Seq<char>>>,
    ch: Seq<char>,
    data: Seq<char>,
    after: Option<Seq<Seq<char>>>,
    o: LineOutcome,
) -> bool {
    if ch == "Package"@ {
        match before {
            Some(f) => {
                &&& after == before
                &&& !o.stop
                &&& o.response matches Some(Response::Package(p))
                &&& p@ == entries_from(zip_fields(f, split_by(data, ',')))
            },
            None => after == Some(split_by(data, ',')) && o.response is None && !o.stop,
        }
    } else {
        &&& after == before
        &&& o.stop == (ch == "End"@)
        &&& if ch == "Progress"@ {
            o.response matches Some(r) && is_progress_message(r, data)
        } else if ch == "Response"@ {
            o.response matches Some(Response::Response(t)) && t@ == data
        } else if ch == "End"@ {
            o.response matches Some(Response::End)
        } else if ch == "Error"@ {
            o.response matches Some(Response::Error(t)) && t@ == data
        } else {
            o.response is None
        }
    }
}

impl LineParser {
    /// A reader that has seen no line yet.
    pub fn new() -> (p: LineParser)
        ensures
            p.fields is None,
    {
        LineParser { fields: None }
    }

    /// Reads one line of output. A line without a space is skipped.
    pub fn feed(&mut self, line: &str) -> (o: LineOutcome)
        ensures
            match split_once(line@, ' ') {
                None => fields_view(final(self).fields) == fields_view(old(self).fields) && o.response is None && !o.stop,
                Some((ch, data)) => handles_line(fields_view(old(self).fields), ch, data, fields_view(final(self).fields), o),
            },
    {
        let (channel, data) = match split_once_at(line, ' ') {
            Some(parts) => parts,
            None => {
                return LineOutcome { response: None, stop: false };
            },
        };
        assert(split_once(line@, ' ') == Some((channel@, data@)));
        proof {
            reveal_strlit("Package");
            reveal_strlit("Progress");
            reveal_strlit("Response");
            reveal_strlit("End");
            reveal_strlit("Error");
            assert("Progress"@[0] != "Response"@[0]);
            assert("Error"@.len() != "Response"@.len());
            assert("Error"@.len() != "Progress"@.len());
            assert("Error"@.len() != "End"@.len());
            assert("Error"@.len() != "Package"@.len());
            assert("Response"@.len() != "End"@.len());
            assert("Response"@.len() != "Package"@.len());
        }
        if channel == String::from_str("Package") {
            match &self.fields {
                Some(fields) => {
                    let values = split_all(data.as_str(), ',');
                    let package = Package::from_fields(fields, &values);
                    LineOutcome { response: Some(Response::from_result(Ok(package))), stop: false }
                },
                None => {
                    let names = split_all(data.as_str(), ',');
                    self.fields = Some(names);
                    LineOutcome { response: None, stop: false }
                },
            }
        } else if channel == String::from_str("Progress") {
            LineOutcome { response: Some(Response::new_progress_from_str(data.as_str())), stop: false }
        } else if channel == String::from_str("Response") {
            LineOutcome { response: Some(Response::Response(data)), stop: false }
        } else if channel == String::from_str("End") {
            LineOutcome { response: Some(Response::End), stop: true }
        } else if channel == String::from_str("Error") {
            LineOutcome { response: Some(Response::Error(data)), stop: false }
        } else {
            LineOutcome { response: None, stop: false }
        }
    }
}

/// The error of a plugin run that exited unsuccessfully with status `status`; `stderr` is
/// what could be read of its error output, if reading it worked.
pub fn failure_message(status: &str, stderr: Option<String>) -> (m: String)
    ensures
        match stderr {
            Some(e) => if e@.len() > 0 {
                m@ == "Plugin failed with status "@ + status@ + " and error: "@ + e@
            } else {
                m@ == "Plugin failed with status "@ + status@
            },
            None => m@ == "Plugin failed with status "@ + status@,
        },
{
    let mut m = String::from_str("Plugin failed with status ");
    m.append(status);
    match stderr {
        Some(e) => {
            if e.as_str().unicode_len() > 0 {
                m.append(" and error: ");
                m.append(e.as_str());
            }
        },
        None => {},
    }
    m
}

/// The result of a request whose reply succeeded with `value`: the value when the plugin's
/// run succeeded too, else the run's error. (A failed reply is the request's error at once,
/// without waiting for the run.)
pub fn finish_request<T>(value: T, run: Result<(), String>) -> (r: Result<T, String>)
    ensures
        match run {
            Err(e) => r matches Err(m) && m == e,
            Ok(_) => r matches Ok(w) && w == value,
        },
{
    match run {
        Err(e) => Err(e),
        Ok(_) => Ok(value),
    }
}

} // verus!
