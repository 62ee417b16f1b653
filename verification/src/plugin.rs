//! Plugins: the messages they send, how the replies to each request are gathered, and
//! how a plugin is described before it is started.
use vstd::prelude::*;
use std::sync::mpsc::{Receiver, Sender};
use crate::package::Package;
use crate::text::{views, join, join_with};

verus! {

#[verifier::external_type_specification]
#[verifier::external_body]
#[verifier::reject_recursive_types(T)]
pub struct ExSender<T>(Sender<T>);

#[verifier::external_type_specification]
#[verifier::external_body]
#[verifier::reject_recursive_types(T)]
pub struct ExReceiver<T>(Receiver<T>);

/// The decimal value of a sequence of ASCII digits.
pub open spec fn decimal_value(s: Seq<char>) -> int
    decreases s.len(),
{
    if s.len() == 0 {
        0
    } else {
        decimal_value(s.drop_last()) * 10 + (s.last() as int - '0' as int)
    }
}

/// At least one character, and every one an ASCII digit.
pub open spec fn all_digits(s: Seq<char>) -> bool {
    s.len() > 0 && forall|i: int| 0 <= i < s.len() ==> '0' <= #[trigger] s[i] <= '9'
}

/// The digits of an unsigned decimal number: the text without a leading `+`.
pub open spec fn unsigned_digits(s: Seq<char>) -> Seq<char> {
    if s.len() > 0 && s[0] == '+' { s.skip(1) } else { s }
}

/// `s` is the decimal text of a `u8`: an optional `+`, then digits worth at most 255.
pub open spec fn is_u8_text(s: Seq<char>) -> bool {
    all_digits(unsigned_digits(s)) && decimal_value(unsigned_digits(s)) <= 255
}

/// The text of the error that parsing `s` as a `u8` reports.
pub uninterp spec fn u8_parse_error_text(s: Seq<char>) -> Seq<char>;

/// Calls `str::parse::<u8>`: succeeds exactly on an optional `+` followed by decimal
/// digits worth at most 255, with their value; on failure gives the error's text.
/// The text itself is left unstated.
#[verifier::external_body]
fn parse_u8(s: &str) -> (r: Result<u8, String>)
    ensures
        r is Ok <==> is_u8_text(s@),
        r matches Ok(v) ==> v == decimal_value(unsigned_digits(s@)),
        r matches Err(m) ==> m@ == u8_parse_error_text(s@),
{
    s.parse::<u8>().map_err(|e| e.to_string())
}

/// Calls `std::sync::mpsc::channel`: a new channel's two ends. That the two ends belong
/// to one channel is not stated: a channel's identity is not a value that a contract holds.
#[verifier::external_body]
fn channel<T>() -> (Sender<T>, Receiver<T>) {
    std::sync::mpsc::channel()
}

/// Calls `Receiver::recv`: the next message, or `None` once no sender is left. Which
/// message comes depends on the threads that send, so nothing is stated of it.
#[verifier::external_body]
fn receive(rx: &Receiver<Response>) -> Option<Response> {
    rx.recv().ok()
}

/// Calls `Sender::send` with `event`; a send that finds the receiver gone is dropped.
#[verifier::external_body]
fn send_event(tx: &Sender<Event>, event: Event) {
    let _ = tx.send(event);
}

/// A message that a plugin writes while it serves a request.
#[derive(Debug, Clone, PartialEq, Eq)]
pub enum Response {
    /// How far the plugin has got, in percent.
    Progress(u8),
    /// The answer to a request for one piece of text.
    Response(String),
    /// One package of a listing.
    Package(Package),
    /// The plugin has finished.
    End,
    /// The plugin failed with this message.
    Error(String),
}

/// The message a plugin's progress line gives: the number, or an error when the text
/// is not a `u8`.
pub open spec fn is_progress_message(r: Response, text: Seq<char>) -> bool {
    if is_u8_text(text) {
        r == Response::Progress(decimal_value(unsigned_digits(text)) as u8)
    } else {
        r matches Response::Error(m) && m@ == "Failed to parse progress: "@ + u8_parse_error_text(text)
    }
}

impl Response {
    /// The message of a progress line whose text is `s`.
    pub fn new_progress_from_str(s: &str) -> (r: Response)
        ensures
            is_progress_message(r, s@),
    {
        match parse_u8(s) {
            Ok(progress) => Response::Progress(progress),
            Err(err) => {
                let mut m = String::from_str("Failed to parse progress: ");
                m.append(err.as_str());
                Response::Error(m)
            },
        }
    }

    /// The message for a package line: the package, or an error naming why it could not be read.
    pub fn from_result(result: Result<Package, String>) -> (r: Response)
        ensures
            match result {
                Ok(p) => r == Response::Package(p),
                Err(e) => r matches Response::Error(m) && m@ == "Failed to parse package: "@ + e@,
            },
    {
        match result {
            Ok(package) => Response::Package(package),
            Err(err) => {
                let mut m = String::from_str("Failed to parse package: ");
                m.append(err.as_str());
                Response::Error(m)
            },
        }
    }
}

/// What a plugin request reports to whoever watches its progress.
#[derive(Debug, Clone, Copy, PartialEq, Eq, Structural)]
pub enum Event {
    Progress(u8),
    End,
}

/// What kind of reply a request gathers.
#[derive(Debug, Clone, Copy, PartialEq, Eq, Structural)]
pub enum ReplyKind {
    /// One piece of text.
    Text,
    /// A listing of packages.
    Packages,
    /// At most one package: the first of a listing.
    Package,
    /// Nothing but completion.
    Nothing,
}

/// Whether gathering a reply goes on, or is over with this result.
#[derive(Debug)]
pub enum Flow<T> {
    Continue,
    Finish(Result<T, String>),
}

/// The outcome of handing one message to a reply being gathered: the event to report,
/// if any, and whether to go on.
#[derive(Debug)]
pub struct Step<T> {
    pub event: Option<Event>,
    pub flow: Flow<T>,
}

/// How gathering a reply finished.
pub enum Finish {
    /// With this text answer.
    Answer(Seq<char>),
    /// Successfully, with nothing more to say.
    Done,
    /// With this error.
    Failed(Seq<char>),
}

/// The event a message reports, whatever the reply: progress is passed on, the end and
/// errors report the end.
pub open spec fn reply_event(r: Response) -> Option<Event> {
    match r {
        Response::Progress(n) => Some(Event::Progress(n)),
        Response::End => Some(Event::End),
        Response::Error(_) => Some(Event::End),
        _ => None,
    }
}

/// Whether a message finishes a reply of kind `kind`, and how.
/// A text reply finishes at its answer, at the end (without an answer) or at an error.
/// A listing finishes at a progress of 100, at the end or at an error.
/// A reply of nothing finishes at a progress of 100 or at an error; the end does not finish it.
pub open spec fn reply_finish(kind: ReplyKind, r: Response) -> Option<Finish> {
    match kind {
        ReplyKind::Text => match r {
            Response::Response(t) => Some(Finish::Answer(t@)),
            Response::End => Some(Finish::Failed("Ended without response"@)),
            Response::Error(e) => Some(Finish::Failed(e@)),
            _ => None,
        },
        ReplyKind::Packages | ReplyKind::Package => match r {
            Response::Progress(n) => if n == 100 { Some(Finish::Done) } else { None },
            Response::End => Some(Finish::Done),
            Response::Error(e) => Some(Finish::Failed(e@)),
            _ => None,
        },
        ReplyKind::Nothing => match r {
            Response::Progress(n) => if n == 100 { Some(Finish::Done) } else { None },
            Response::Error(e) => Some(Finish::Failed(e@)),
            _ => None,
        },
    }
}

/// The packages a message adds to a reply of kind `kind`: only listings keep packages.
pub open spec fn reply_packages(kind: ReplyKind, r: Response) -> Seq<Package> {
    if kind is Packages || kind is Package {
        match r {
            Response::Package(p) => seq![p],
            _ => Seq::empty(),
        }
    } else {
        Seq::empty()
    }
}

/// How a text reply's step finishes, if it does.
pub open spec fn text_flow(f: Flow<String>) -> Option<Finish> {
    match f {
        Flow::Continue => None,
        Flow::Finish(Ok(t)) => Some(Finish::Answer(t@)),
        Flow::Finish(Err(e)) => Some(Finish::Failed(e@)),
    }
}

/// How a step of a reply without an answer finishes, if it does.
pub open spec fn unit_flow(f: Flow<()>) -> Option<Finish> {
    match f {
        Flow::Continue => None,
        Flow::Finish(Ok(_)) => Some(Finish::Done),
        Flow::Finish(Err(e)) => Some(Finish::Failed(e@)),
    }
}

/// The error of a request that ended without its answer.
pub fn ended_without_response() -> (m: String)
    ensures
        m@ == "Ended without response"@,
{
    String::from_str("Ended without response")
}

/// Handles one message while waiting for a one-piece text answer: the answer finishes,
/// progress is passed on, the end or an error finish with an error, packages are ignored.
pub fn response_step(response: Response) -> (s: Step<String>)
    ensures
        s.event == reply_event(response),
        text_flow(s.flow) == reply_finish(ReplyKind::Text, response),
{
    match response {
        Response::Response(text) => Step { event: None, flow: Flow::Finish(Ok(text)) },
        Response::Progress(progress) => Step { event: Some(Event::Progress(progress)), flow: Flow::Continue },
        Response::End => Step { event: Some(Event::End), flow: Flow::Finish(Err(ended_without_response())) },
        Response::Error(error) => Step { event: Some(Event::End), flow: Flow::Finish(Err(error)) },
        Response::Package(_) => Step { event: None, flow: Flow::Continue },
    }
}

/// Handles one message while gathering a listing: packages are added to `packages`,
/// progress is passed on and a progress of 100 finishes, the end finishes, an error
/// finishes with that error, a text answer is ignored.
pub fn packages_step(packages: &mut Vec<Package>, response: Response) -> (s: Step<()>)
    ensures
        final(packages)@ == old(packages)@ + reply_packages(ReplyKind::Packages, response),
        s.event == reply_event(response),
        unit_flow(s.flow) == reply_finish(ReplyKind::Packages, response),
{
    match response {
        Response::Package(package) => {
            let ghost before = packages@;
            packages.push(package);
            assert(packages@ =~= before + seq![package]);
            Step { event: None, flow: Flow::Continue }
        },
        Response::Progress(progress) => {
            assert(packages@ =~= packages@ + Seq::<Package>::empty());
            if progress == 100 {
                Step { event: Some(Event::Progress(progress)), flow: Flow::Finish(Ok(())) }
            } else {
                Step { event: Some(Event::Progress(progress)), flow: Flow::Continue }
            }
        },
        Response::End => {
            assert(packages@ =~= packages@ + Seq::<Package>::empty());
            Step { event: Some(Event::End), flow: Flow::Finish(Ok(())) }
        },
        Response::Error(error) => {
            assert(packages@ =~= packages@ + Seq::<Package>::empty());
            Step { event: Some(Event::End), flow: Flow::Finish(Err(error)) }
        },
        Response::Response(_) => {
            assert(packages@ =~= packages@ + Seq::<Package>::empty());
            Step { event: None, flow: Flow::Continue }
        },
    }
}

/// Handles one message while waiting for a request that answers nothing: progress is
/// passed on and a progress of 100 finishes, the end is passed on without finishing,
/// an error finishes with that error, anything else is ignored.
pub fn nothing_step(response: Response) -> (s: Step<()>)
    ensures
        s.event == reply_event(response),
        unit_flow(s.flow) == reply_finish(ReplyKind::Nothing, response),
{
    match response {
        Response::Progress(progress) => {
            if progress == 100 {
                Step { event: Some(Event::Progress(progress)), flow: Flow::Finish(Ok(())) }
            } else {
                Step { event: Some(Event::Progress(progress)), flow: Flow::Continue }
            }
        },
        Response::End => Step { event: Some(Event::End), flow: Flow::Continue },
        Response::Error(error) => Step { event: Some(Event::End), flow: Flow::Finish(Err(error)) },
        _ => Step { event: None, flow: Flow::Continue },
    }
}

/// What gathering a reply has given after some messages: the packages kept, the events
/// reported, how it finished (if it did), and how many messages it read.
#[verifier::ext_equal]
pub struct Gathered {
    pub packages: Seq<Package>,
    pub events: Seq<Event>,
    pub finish: Option<Finish>,
    pub read: nat,
}

/// The event of a message, as a sequence of none or one.
pub open spec fn event_seq(e: Option<Event>) -> Seq<Event> {
    match e {
        Some(v) => seq![v],
        None => Seq::empty(),
    }
}

/// Gathering a reply of kind `kind` from the messages `rs` as they arrive: each message is
/// handed to the step of that kind, until one finishes the reply; later messages are not read.
pub open spec fn gather(kind: ReplyKind, rs: Seq<Response>) -> Gathered
    decreases rs.len(),
{
    if rs.len() == 0 {
        Gathered { packages: Seq::empty(), events: Seq::empty(), finish: None, read: 0 }
    } else {
        let g = gather(kind, rs.drop_last());
        if g.finish is Some {
            g
        } else {
            let r = rs.last();
            Gathered {
                packages: g.packages + reply_packages(kind, r),
                events: g.events + event_seq(reply_event(r)),
                finish: reply_finish(kind, r),
                read: rs.len(),
            }
        }
    }
}

/// The events of all the messages `rs`.
pub open spec fn all_events(rs: Seq<Response>) -> Seq<Event>
    decreases rs.len(),
{
    if rs.len() == 0 {
        Seq::empty()
    } else {
        all_events(rs.drop_last()) + event_seq(reply_event(rs.last()))
    }
}

/// The packages that the messages `rs` add to a reply of kind `kind`.
pub open spec fn all_packages(kind: ReplyKind, rs: Seq<Response>) -> Seq<Package>
    decreases rs.len(),
{
    if rs.len() == 0 {
        Seq::empty()
    } else {
        all_packages(kind, rs.drop_last()) + reply_packages(kind, rs.last())
    }
}

/// `i` is the first message of `rs` that finishes a reply of kind `kind`.
pub open spec fn is_first_finish(kind: ReplyKind, rs: Seq<Response>, i: int) -> bool {
    &&& 0 <= i < rs.len()
    &&& reply_finish(kind, rs[i]) is Some
    &&& forall|j: int| 0 <= j < i ==> reply_finish(kind, #[trigger] rs[j]) is None
}

/// While no message finishes the reply, gathering reads every message, keeps every package
/// and reports every event, in order.
pub proof fn lemma_gather_unfinished(kind: ReplyKind, rs: Seq<Response>)
    requires
        forall|j: int| 0 <= j < rs.len() ==> reply_finish(kind, #[trigger] rs[j]) is None,
    ensures
        gather(kind, rs) == (Gathered {
            packages: all_packages(kind, rs),
            events: all_events(rs),
            finish: None,
            read: rs.len(),
        }),
    decreases rs.len(),
{
    if rs.len() > 0 {
        let prev = rs.drop_last();
        assert forall|j: int| 0 <= j < prev.len() implies reply_finish(kind, #[trigger] prev[j]) is None by {
            assert(prev[j] == rs[j]);
        }
        lemma_gather_unfinished(kind, prev);
        assert(reply_finish(kind, rs[rs.len() - 1]) is None);
    }
}

/// Once a reply has finished, no later message changes what was gathered.
pub proof fn lemma_gather_stops(kind: ReplyKind, rs: Seq<Response>, more: Seq<Response>)
    requires
        gather(kind, rs).finish is Some,
    ensures
        gather(kind, rs + more) == gather(kind, rs),
    decreases more.len(),
{
    if more.len() == 0 {
        assert(rs + more =~= rs);
    } else {
        lemma_gather_stops(kind, rs, more.drop_last());
        assert((rs + more).drop_last() =~= rs + more.drop_last());
    }
}

/// Gathering a reply reads the messages up to and including the first that finishes it,
/// keeps the packages and reports the events of exactly those messages, in order, and
/// finishes as that message says.
pub proof fn lemma_gather_finishes(kind: ReplyKind, rs: Seq<Response>, i: int)
    requires
        is_first_finish(kind, rs, i),
    ensures
        gather(kind, rs) == (Gathered {
            packages: all_packages(kind, rs.take(i + 1)),
            events: all_events(rs.take(i + 1)),
            finish: reply_finish(kind, rs[i]),
            read: (i + 1) as nat,
        }),
{
    let head = rs.take(i);
    assert forall|j: int| 0 <= j < head.len() implies reply_finish(kind, #[trigger] head[j]) is None by {
        assert(head[j] == rs[j]);
    }
    lemma_gather_unfinished(kind, head);
    let upto = rs.take(i + 1);
    assert(upto.drop_last() =~= head);
    assert(upto.last() == rs[i]);
    assert(gather(kind, upto).finish is Some);
    lemma_gather_stops(kind, upto, rs.skip(i + 1));
    assert(upto + rs.skip(i + 1) =~= rs);
}

/// The record of a reply's gathering: the messages read, in order, and the events
/// reported while reading them.
pub struct Received {
    pub messages: Seq<Response>,
    pub events: Seq<Event>,
}

/// The messages `rs` were read to gather a reply of kind `kind`, and no further: either the
/// last of them finished the reply, or none did and no more came.
pub open spec fn read_exactly(kind: ReplyKind, rs: Seq<Response>) -> bool {
    gather(kind, rs).read == rs.len()
}

/// `r` is the text reply gathered from the messages `rs`: the answer, the error that
/// finished it, or, when none came, that the plugin ended without one.
pub open spec fn text_reply(rs: Seq<Response>, r: Result<String, String>) -> bool {
    match gather(ReplyKind::Text, rs).finish {
        Some(Finish::Answer(t)) => r matches Ok(v) && v@ == t,
        Some(Finish::Failed(e)) => r matches Err(m) && m@ == e,
        _ => r matches Err(m) && m@ == "Ended without response"@,
    }
}

/// `r` is the listing gathered from the messages `rs`: the error that finished it, else the
/// packages kept.
pub open spec fn listing_reply(rs: Seq<Response>, r: Result<Vec<Package>, String>) -> bool {
    match gather(ReplyKind::Packages, rs).finish {
        Some(Finish::Failed(e)) => r matches Err(m) && m@ == e,
        _ => r matches Ok(v) && v@ == gather(ReplyKind::Packages, rs).packages,
    }
}

/// `r` is the reply without an answer gathered from the messages `rs`: the error that
/// finished it, else success.
pub open spec fn unit_reply(rs: Seq<Response>, r: Result<(), String>) -> bool {
    match gather(ReplyKind::Nothing, rs).finish {
        Some(Finish::Failed(e)) => r matches Err(m) && m@ == e,
        _ => r is Ok,
    }
}

/// Reading one more message while the reply is unfinished hands it to the step of the kind.
proof fn lemma_gather_next(kind: ReplyKind, rs: Seq<Response>, m: Response)
    requires
        gather(kind, rs).finish is None,
    ensures
        gather(kind, rs.push(m)) == (Gathered {
            packages: gather(kind, rs).packages + reply_packages(kind, m),
            events: gather(kind, rs).events + event_seq(reply_event(m)),
            finish: reply_finish(kind, m),
            read: rs.len() + 1,
        }),
{
    assert(rs.push(m).drop_last() =~= rs);
}

/// The first package of a listing, when the listing succeeded.
pub fn first_package(packages: Result<Vec<Package>, String>) -> (r: Result<Option<Package>, String>)
    ensures
        match packages {
            Ok(ps) => r matches Ok(o) && (if ps.len() > 0 { o == Some(ps@[0]) } else { o is None }),
            Err(e) => r matches Err(m) && m == e,
        },
{
    match packages {
        Ok(mut ps) => {
            if ps.len() > 0 {
                Ok(Some(ps.remove(0)))
            } else {
                Ok(None)
            }
        },
        Err(e) => Err(e),
    }
}

/// A request that can be made of a plugin.
#[derive(Debug, Clone, PartialEq, Eq)]
pub enum PluginOp {
    GetId,
    GetName,
    GetColor,
    ListPackages,
    ListUpdates,
    Search(String),
    Info(String),
    PreInstall(String),
    Install(String),
    Remove(String),
    Update,
}

impl PluginOp {
    /// The plugin subcommand that serves the request.
    pub open spec fn subcommand_text(self) -> Seq<char> {
        match self {
            PluginOp::GetId => "unipac_get_id"@,
            PluginOp::GetName => "unipac_get_name"@,
            PluginOp::GetColor => "unipac_get_color"@,
            PluginOp::ListPackages => "unipac_list_packages"@,
            PluginOp::ListUpdates => "unipac_list_updates"@,
            PluginOp::Search(_) => "unipac_search"@,
            PluginOp::Info(_) => "unipac_info"@,
            PluginOp::PreInstall(_) => "unipac_pre_install"@,
            PluginOp::Install(_) => "unipac_install"@,
            PluginOp::Remove(_) => "unipac_remove"@,
            PluginOp::Update => "unipac_update"@,
        }
    }

    /// The arguments that follow the subcommand.
    pub open spec fn argument_texts(self) -> Seq<Seq<char>> {
        match self {
            PluginOp::Search(q) => seq![q@],
            PluginOp::Info(p) => seq![p@],
            PluginOp::PreInstall(p) => seq![p@],
            PluginOp::Install(p) => seq![p@],
            PluginOp::Remove(p) => seq![p@],
            _ => Seq::empty(),
        }
    }

    /// The plugin subcommand that serves the request.
    pub fn subcommand(&self) -> (r: String)
        ensures
            r@ == self.subcommand_text(),
    {
        match self {
            PluginOp::GetId => String::from_str("unipac_get_id"),
            PluginOp::GetName => String::from_str("unipac_get_name"),
            PluginOp::GetColor => String::from_str("unipac_get_color"),
            PluginOp::ListPackages => String::from_str("unipac_list_packages"),
            PluginOp::ListUpdates => String::from_str("unipac_list_updates"),
            PluginOp::Search(_) => String::from_str("unipac_search"),
            PluginOp::Info(_) => String::from_str("unipac_info"),
            PluginOp::PreInstall(_) => String::from_str("unipac_pre_install"),
            PluginOp::Install(_) => String::from_str("unipac_install"),
            PluginOp::Remove(_) => String::from_str("unipac_remove"),
            PluginOp::Update => String::from_str("unipac_update"),
        }
    }

    /// The arguments that follow the subcommand.
    pub fn arguments(&self) -> (r: Vec<String>)
        ensures
            views(r@) == self.argument_texts(),
    {
        let mut r: Vec<String> = Vec::new();
        match self {
            PluginOp::Search(a) | PluginOp::Info(a) | PluginOp::PreInstall(a)
            | PluginOp::Install(a) | PluginOp::Remove(a) => {
                r.push(a.clone());
                assert(views(r@) =~= seq![a@]);
            },
            _ => {
                assert(views(r@) =~= Seq::<Seq<char>>::empty());
            },
        }
        r
    }
}

/// The path of a plugin given to a builder.
pub struct PluginBuilderPath(pub String);

/// The mark of a builder that has no path yet.
pub struct PluginBuilderPathEmpty;

/// Describes a plugin before it is started: where it is, and who hears of its progress.
#[derive(Debug)]
pub struct PluginBuilder<Path> {
    pub path: Path,
    pub event_sender: Option<Sender<Event>>,
}

impl Default for PluginBuilder<PluginBuilderPathEmpty> {
    fn default() -> (b: Self)
        ensures
            b.event_sender is None,
    {
        PluginBuilder { path: PluginBuilderPathEmpty, event_sender: None }
    }
}

impl PluginBuilder<PluginBuilderPathEmpty> {
    /// A builder without a path and without a progress listener.
    pub fn new() -> (b: Self)
        ensures
            b.event_sender is None,
    {
        PluginBuilder { path: PluginBuilderPathEmpty, event_sender: None }
    }
}

impl<Path> PluginBuilder<Path> {
    /// The same builder, with `path` as the plugin's path.
    pub fn path(self, path: String) -> (b: PluginBuilder<PluginBuilderPath>)
        ensures
            b.path.0 == path,
            b.event_sender == self.event_sender,
    {
        PluginBuilder { path: PluginBuilderPath(path), event_sender: self.event_sender }
    }

    /// The same builder, reporting progress to `event_sender`.
    pub fn event_sender(self, event_sender: Sender<Event>) -> (b: Self)
        ensures
            b.path == self.path,
            b.event_sender == Some(event_sender),
    {
        PluginBuilder { path: self.path, event_sender: Some(event_sender) }
    }
}

impl PluginBuilder<PluginBuilderPath> {
    /// The plugin the builder describes.
    pub fn build(self) -> (p: Plugin)
        ensures
            p.path == self.path.0,
            p.event_sender == self.event_sender,
    {
        Plugin::new(self.path.0, self.event_sender)
    }
}

/// A plugin program, with the channel on which its messages arrive.
pub struct Plugin {
    pub path: String,
    pub response_sender: Sender<Response>,
    pub response_receiver: Receiver<Response>,
    pub event_sender: Option<Sender<Event>>,
}

impl Plugin {
    /// A builder for a plugin.
    pub fn builder() -> (b: PluginBuilder<PluginBuilderPathEmpty>)
        ensures
            b.event_sender is None,
    {
        PluginBuilder::new()
    }

    /// The plugin at `path`, with a new message channel.
    fn new(path: String, event_sender: Option<Sender<Event>>) -> (p: Plugin)
        ensures
            p.path == path,
            p.event_sender == event_sender,
    {
        let (response_sender, response_receiver) = channel();
        Plugin { path, response_sender, response_receiver, event_sender }
    }

    /// Reports `event`, if any, to the progress listener, if there is one.
    fn report(&self, event: Option<Event>) {
        match (&self.event_sender, event) {
            (Some(tx), Some(e)) => send_event(tx, e),
            _ => {},
        }
    }

    /// Waits for a one-piece text answer: reads messages until one finishes the reply or no
    /// more can come, reporting each message's event. The record gives the messages read.
    /// At most `usize::MAX` messages are read; past that the reply counts as unfinished.
    pub fn get_response(&self) -> (r: (Result<String, String>, Ghost<Received>))
        ensures
            read_exactly(ReplyKind::Text, r.1@.messages),
            text_reply(r.1@.messages, r.0),
            r.1@.events == gather(ReplyKind::Text, r.1@.messages).events,
    {
        let ghost mut rs: Seq<Response> = Seq::empty();
        let ghost mut sent: Seq<Event> = Seq::empty();
        let mut count: usize = 0;
        while count < usize::MAX
            invariant
                gather(ReplyKind::Text, rs).finish is None,
                read_exactly(ReplyKind::Text, rs),
                sent == gather(ReplyKind::Text, rs).events,
            decreases usize::MAX - count,
        {
            let m = match receive(&self.response_receiver) {
                Some(m) => m,
                None => {
                    return (Err(ended_without_response()), Ghost(Received { messages: rs, events: sent }));
                },
            };
            proof {
                lemma_gather_next(ReplyKind::Text, rs, m);
                rs = rs.push(m);
            }
            let step = response_step(m);
            proof { sent = sent + event_seq(step.event); }
            self.report(step.event);
            match step.flow {
                Flow::Finish(result) => {
                    return (result, Ghost(Received { messages: rs, events: sent }));
                },
                Flow::Continue => {},
            }
            count = count + 1;
        }
        (Err(ended_without_response()), Ghost(Received { messages: rs, events: sent }))
    }

    /// Gathers a listing: reads messages until one finishes the reply or no more can come,
    /// keeping the packages and reporting each message's event. The record gives the
    /// messages read. At most `usize::MAX` messages are read; past that the reply counts
    /// as unfinished.
    pub fn get_packages(&self) -> (r: (Result<Vec<Package>, String>, Ghost<Received>))
        ensures
            read_exactly(ReplyKind::Packages, r.1@.messages),
            listing_reply(r.1@.messages, r.0),
            r.1@.events == gather(ReplyKind::Packages, r.1@.messages).events,
    {
        let mut packages: Vec<Package> = Vec::new();
        let ghost mut rs: Seq<Response> = Seq::empty();
        let ghost mut sent: Seq<Event> = Seq::empty();
        let mut count: usize = 0;
        assert(packages@ =~= gather(ReplyKind::Packages, rs).packages);
        while count < usize::MAX
            invariant
                gather(ReplyKind::Packages, rs).finish is None,
                read_exactly(ReplyKind::Packages, rs),
                packages@ == gather(ReplyKind::Packages, rs).packages,
                sent == gather(ReplyKind::Packages, rs).events,
            decreases usize::MAX - count,
        {
            let m = match receive(&self.response_receiver) {
                Some(m) => m,
                None => {
                    return (Ok(packages), Ghost(Received { messages: rs, events: sent }));
                },
            };
            proof {
                lemma_gather_next(ReplyKind::Packages, rs, m);
                rs = rs.push(m);
            }
            let step = packages_step(&mut packages, m);
            proof { sent = sent + event_seq(step.event); }
            self.report(step.event);
            match step.flow {
                Flow::Finish(Err(e)) => {
                    return (Err(e), Ghost(Received { messages: rs, events: sent }));
                },
                Flow::Finish(Ok(_)) => {
                    return (Ok(packages), Ghost(Received { messages: rs, events: sent }));
                },
                Flow::Continue => {},
            }
            count = count + 1;
        }
        (Ok(packages), Ghost(Received { messages: rs, events: sent }))
    }

    /// Gathers at most one package: the first of the listing gathered, or its error.
    pub fn get_package(&self) -> (r: (Result<Option<Package>, String>, Ghost<Received>))
        ensures
            read_exactly(ReplyKind::Packages, r.1@.messages),
            r.1@.events == gather(ReplyKind::Packages, r.1@.messages).events,
            match gather(ReplyKind::Packages, r.1@.messages).finish {
                Some(Finish::Failed(e)) => r.0 matches Err(m) && m@ == e,
                _ => r.0 matches Ok(o) && if gather(ReplyKind::Packages, r.1@.messages).packages.len() > 0 {
                    o == Some(gather(ReplyKind::Packages, r.1@.messages).packages[0])
                } else {
                    o is None
                },
            },
    {
        let (listing, record) = self.get_packages();
        (first_package(listing), record)
    }

    /// Waits for a request that answers nothing: reads messages until one finishes the
    /// reply or no more can come, reporting each message's event. The record gives the
    /// messages read. At most `usize::MAX` messages are read; past that the reply counts
    /// as unfinished.
    pub fn get_nothing(&self) -> (r: (Result<(), String>, Ghost<Received>))
        ensures
            read_exactly(ReplyKind::Nothing, r.1@.messages),
            unit_reply(r.1@.messages, r.0),
            r.1@.events == gather(ReplyKind::Nothing, r.1@.messages).events,
    {
        let ghost mut rs: Seq<Response> = Seq::empty();
        let ghost mut sent: Seq<Event> = Seq::empty();
        let mut count: usize = 0;
        while count < usize::MAX
            invariant
                gather(ReplyKind::Nothing, rs).finish is None,
                read_exactly(ReplyKind::Nothing, rs),
                sent == gather(ReplyKind::Nothing, rs).events,
            decreases usize::MAX - count,
        {
            let m = match receive(&self.response_receiver) {
                Some(m) => m,
                None => {
                    return (Ok(()), Ghost(Received { messages: rs, events: sent }));
                },
            };
            proof {
                lemma_gather_next(ReplyKind::Nothing, rs, m);
                rs = rs.push(m);
            }
            let step = nothing_step(m);
            proof { sent = sent + event_seq(step.event); }
            self.report(step.event);
            match step.flow {
                Flow::Finish(result) => {
                    return (result, Ghost(Received { messages: rs, events: sent }));
                },
                Flow::Continue => {},
            }
            count = count + 1;
        }
        (Ok(()), Ghost(Received { messages: rs, events: sent }))
    }

    /// The shell command line that runs `op` on this plugin: the path, the subcommand and
    /// the arguments, separated by single spaces.
    pub fn command_line(&self, op: &PluginOp) -> (r: String)
        ensures
            r@ == self.path@ + " "@ + op.subcommand_text() + " "@ + join(op.argument_texts(), " "@),
            r@ == self.path@ + " "@ + op.subcommand_text() + " "@ + request_text(*op),
    {
        proof { lemma_request_arguments(*op); }
        let mut r = self.path.clone();
        r.append(" ");
        let sub = op.subcommand();
        r.append(sub.as_str());
        r.append(" ");
        let args = op.arguments();
        let joined = join_with(&args, " ");
        r.append(joined.as_str());
        r
    }
}

/// Which request `op` is: its place among the requests.
pub open spec fn request_index(op: PluginOp) -> int {
    match op {
        PluginOp::GetId => 0,
        PluginOp::GetName => 1,
        PluginOp::GetColor => 2,
        PluginOp::ListPackages => 3,
        PluginOp::ListUpdates => 4,
        PluginOp::Search(_) => 5,
        PluginOp::Info(_) => 6,
        PluginOp::PreInstall(_) => 7,
        PluginOp::Install(_) => 8,
        PluginOp::Remove(_) => 9,
        PluginOp::Update => 10,
    }
}

/// The text a request carries: the query of a search, the package name of the others
/// that name one, else nothing.
pub open spec fn request_text(op: PluginOp) -> Seq<char> {
    match op {
        PluginOp::Search(t) => t@,
        PluginOp::Info(t) => t@,
        PluginOp::PreInstall(t) => t@,
        PluginOp::Install(t) => t@,
        PluginOp::Remove(t) => t@,
        _ => Seq::empty(),
    }
}

/// Every request runs the plugin subcommand named `unipac_` and then the request's own
/// name, and requests of different kinds run different subcommands.
pub proof fn lemma_subcommands(a: PluginOp, b: PluginOp)
    ensures
        a.subcommand_text().len() > 7,
        a.subcommand_text().subrange(0, 7) == "unipac_"@,
        a is GetId ==> a.subcommand_text() == "unipac_"@ + "get_id"@,
        a is GetName ==> a.subcommand_text() == "unipac_"@ + "get_name"@,
        a is GetColor ==> a.subcommand_text() == "unipac_"@ + "get_color"@,
        a is ListPackages ==> a.subcommand_text() == "unipac_"@ + "list_packages"@,
        a is ListUpdates ==> a.subcommand_text() == "unipac_"@ + "list_updates"@,
        a is Search ==> a.subcommand_text() == "unipac_"@ + "search"@,
        a is Info ==> a.subcommand_text() == "unipac_"@ + "info"@,
        a is PreInstall ==> a.subcommand_text() == "unipac_"@ + "pre_install"@,
        a is Install ==> a.subcommand_text() == "unipac_"@ + "install"@,
        a is Remove ==> a.subcommand_text() == "unipac_"@ + "remove"@,
        a is Update ==> a.subcommand_text() == "unipac_"@ + "update"@,
        request_index(a) != request_index(b) ==> a.subcommand_text() != b.subcommand_text(),
{
    reveal_strlit("unipac_");
    reveal_strlit("unipac_get_id");
    reveal_strlit("unipac_get_name");
    reveal_strlit("unipac_get_color");
    reveal_strlit("unipac_list_packages");
    reveal_strlit("unipac_list_updates");
    reveal_strlit("unipac_search");
    reveal_strlit("unipac_info");
    reveal_strlit("unipac_pre_install");
    reveal_strlit("unipac_install");
    reveal_strlit("unipac_remove");
    reveal_strlit("unipac_update");
    reveal_strlit("get_id");
    reveal_strlit("get_name");
    reveal_strlit("get_color");
    reveal_strlit("list_packages");
    reveal_strlit("list_updates");
    reveal_strlit("search");
    reveal_strlit("info");
    reveal_strlit("pre_install");
    reveal_strlit("install");
    reveal_strlit("remove");
    reveal_strlit("update");
    let sa = a.subcommand_text();
    let sb = b.subcommand_text();
    assert(sa.subrange(0, 7) =~= "unipac_"@);
    assert(sa =~= "unipac_"@ + sa.subrange(7, sa.len() as int));
    if request_index(a) != request_index(b) && sa.len() == sb.len() {
        assert(sa[7] != sb[7]);
    }
}

/// A request that names a search or a package passes exactly that text as its one
/// argument; the others pass none. Joined, the arguments are the text the request carries.
pub proof fn lemma_request_arguments(op: PluginOp)
    ensures
        op matches PluginOp::Search(t) ==> op.argument_texts() == seq![t@],
        op matches PluginOp::Info(t) ==> op.argument_texts() == seq![t@],
        op matches PluginOp::PreInstall(t) ==> op.argument_texts() == seq![t@],
        op matches PluginOp::Install(t) ==> op.argument_texts() == seq![t@],
        op matches PluginOp::Remove(t) ==> op.argument_texts() == seq![t@],
        (op is GetId || op is GetName || op is GetColor || op is ListPackages || op is ListUpdates
            || op is Update) ==> op.argument_texts().len() == 0,
        join(op.argument_texts(), " "@) == request_text(op),
{
    match op {
        PluginOp::Search(t) | PluginOp::Info(t) | PluginOp::PreInstall(t) | PluginOp::Install(t)
        | PluginOp::Remove(t) => {
            assert(op.argument_texts() == seq![t@]);
            assert(join(seq![t@], " "@) == t@);
        },
        _ => {},
    }
}

} // verus!
