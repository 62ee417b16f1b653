//! The decisions of the `unipac` commands: which request each one makes of the plugins,
//! which plugins take part, and what is shown of their replies.
use vstd::prelude::*;
use tabled::Table;
use crate::package::{Package, key_position, listing_records, package_views, field_rows};
use crate::plugin::PluginOp;
use crate::table::{built_rows, table_rows};
use crate::text::{views, same_text};

verus! {

/// How the replies of the plugins are shown.
#[derive(Debug, Clone, Copy, PartialEq, Eq, Structural)]
pub enum Presentation {
    /// One table of packages per plugin.
    Listing,
    /// One package per plugin, field by field.
    Single,
    /// Nothing but errors.
    Silent,
}

/// What a command asks of every enabled plugin.
#[derive(Debug)]
pub struct CommandPlan {
    /// The request.
    pub op: PluginOp,
    /// The context given to a plugin's error.
    pub context: String,
    /// How the replies are shown.
    pub presentation: Presentation,
}

/// `list`: every plugin lists its installed packages.
pub fn list_packages() -> (p: CommandPlan)
    ensures
        p.op == PluginOp::ListPackages,
        p.context@ == "Failed to list packages"@,
        p.presentation == Presentation::Listing,
{
    CommandPlan {
        op: PluginOp::ListPackages,
        context: String::from_str("Failed to list packages"),
        presentation: Presentation::Listing,
    }
}

/// `list --updates`: every plugin lists the packages it can update.
pub fn list_updates() -> (p: CommandPlan)
    ensures
        p.op == PluginOp::ListUpdates,
        p.context@ == "Failed to list updates"@,
        p.presentation == Presentation::Listing,
{
    CommandPlan {
        op: PluginOp::ListUpdates,
        context: String::from_str("Failed to list updates"),
        presentation: Presentation::Listing,
    }
}

/// `search`: every plugin lists the packages that match `query`.
pub fn search(query: &str) -> (p: CommandPlan)
    ensures
        p.op matches PluginOp::Search(q) && q@ == query@,
        p.context@ == "Failed to search packages"@,
        p.presentation == Presentation::Listing,
{
    CommandPlan {
        op: PluginOp::Search(String::from_str(query)),
        context: String::from_str("Failed to search packages"),
        presentation: Presentation::Listing,
    }
}

/// `info`: every plugin describes the package `pname`.
pub fn info(pname: &str) -> (p: CommandPlan)
    ensures
        p.op matches PluginOp::Info(n) && n@ == pname@,
        p.context@ == "Failed to fetch package info"@,
        p.presentation == Presentation::Single,
{
    CommandPlan {
        op: PluginOp::Info(String::from_str(pname)),
        context: String::from_str("Failed to fetch package info"),
        presentation: Presentation::Single,
    }
}

/// `remove`: every plugin removes the package `pname`.
pub fn remove(pname: &str) -> (p: CommandPlan)
    ensures
        p.op matches PluginOp::Remove(n) && n@ == pname@,
        p.context@ == "Failed to remove package"@,
        p.presentation == Presentation::Silent,
{
    CommandPlan {
        op: PluginOp::Remove(String::from_str(pname)),
        context: String::from_str("Failed to remove package"),
        presentation: Presentation::Silent,
    }
}

/// The first request of `install`: every plugin lists what it could install as `pname`.
fn pre_install_plan(pname: &str) -> (p: CommandPlan)
    ensures
        p.op matches PluginOp::PreInstall(n) && n@ == pname@,
        p.context@ == "Failed to check packages"@,
        p.presentation == Presentation::Silent,
{
    CommandPlan {
        op: PluginOp::PreInstall(String::from_str(pname)),
        context: String::from_str("Failed to check packages"),
        presentation: Presentation::Silent,
    }
}

/// The second stage of `update`, once confirmed: every plugin updates its packages.
pub fn update_confirmed() -> (p: CommandPlan)
    ensures
        p.op == PluginOp::Update,
        p.context@ == "Failed to update packages"@,
        p.presentation == Presentation::Silent,
{
    CommandPlan {
        op: PluginOp::Update,
        context: String::from_str("Failed to update packages"),
        presentation: Presentation::Silent,
    }
}

/// The text of an error with a context: the context, a colon and a space, then the error.
pub fn with_context(context: &str, err: &str) -> (m: String)
    ensures
        m@ == context@ + ": "@ + err@,
{
    let mut m = String::from_str(context);
    m.append(": ");
    m.append(err);
    m
}

/// A plugin's error, in brief (its outermost context) and in full (every context, then
/// the cause).
#[derive(Debug, Clone, PartialEq, Eq)]
pub struct Failure {
    pub summary: String,
    pub detail: String,
}

/// An error given a context: in brief the context, in full the context then the error.
pub fn context_failure(context: &str, err: &str) -> (f: Failure)
    ensures
        f.summary@ == context@,
        f.detail@ == context@ + ": "@ + err@,
{
    Failure { summary: String::from_str(context), detail: with_context(context, err) }
}

/// The error of a plugin that could not tell its name.
pub fn name_failure(err: &str) -> (f: Failure)
    ensures
        f.summary@ == "Failed to get name"@,
        f.detail@ == "Failed to get name"@ + ": "@ + err@,
{
    context_failure("Failed to get name", err)
}

/// The error of a plugin that could not tell its color.
pub fn color_failure(err: &str) -> (f: Failure)
    ensures
        f.summary@ == "Failed to get color"@,
        f.detail@ == "Failed to get color"@ + ": "@ + err@,
{
    context_failure("Failed to get color", err)
}

/// A plugin takes part when no plugin was chosen, or when it is one of those chosen.
pub fn plugin_enabled(chosen: &Vec<String>, id: &str) -> (b: bool)
    ensures
        b == (chosen@.len() == 0 || views(chosen@).contains(id@)),
{
    if chosen.len() == 0 {
        return true;
    }
    let mut i: usize = 0;
    while i < chosen.len()
        invariant
            i <= chosen.len(),
            forall|j: int| 0 <= j < i ==> chosen@[j]@ != id@,
        decreases chosen.len() - i,
    {
        if same_text(chosen[i].as_str(), id) {
            assert(views(chosen@)[i as int] == id@);
            return true;
        }
        i = i + 1;
    }
    assert(!views(chosen@).contains(id@)) by {
        if views(chosen@).contains(id@) {
            let k = choose|k: int| 0 <= k < views(chosen@).len() && views(chosen@)[k] == id@;
            assert(chosen@[k]@ == id@);
        }
    }
    false
}

/// What becomes of a plugin once its id is asked for.
#[derive(Debug)]
pub enum Admission {
    /// Asking failed; this is the error.
    Failed(Failure),
    /// The plugin is not among those chosen.
    Skipped,
    /// The plugin takes part, with this id.
    Admitted(String),
}

/// Decides on a plugin from the reply to the request for its id.
pub fn admit_plugin(chosen: &Vec<String>, id: Result<String, String>) -> (a: Admission)
    ensures
        match id {
            Err(e) => a matches Admission::Failed(f) && f.summary@ == "Failed to get id"@
                && f.detail@ == "Failed to get id"@ + ": "@ + e@,
            Ok(i) => if chosen@.len() == 0 || views(chosen@).contains(i@) {
                a matches Admission::Admitted(j) && j == i
            } else {
                a is Skipped
            },
        },
{
    match id {
        Err(e) => Admission::Failed(context_failure("Failed to get id", e.as_str())),
        Ok(i) => {
            if plugin_enabled(chosen, i.as_str()) {
                Admission::Admitted(i)
            } else {
                Admission::Skipped
            }
        },
    }
}

/// What a plugin's id reply says when one plugin is looked for by id.
#[derive(Debug)]
pub enum IdMatch {
    /// This is the plugin looked for.
    Found,
    /// This is another plugin.
    Other,
    /// Asking failed; this is the error.
    Failed(String),
}

/// Decides whether the plugin that replied `reply` to the request for its id is `wanted`.
pub fn match_plugin_id(reply: &Result<String, String>, wanted: &str) -> (m: IdMatch)
    ensures
        match reply {
            Ok(i) => if i@ == wanted@ { m is Found } else { m is Other },
            Err(e) => m matches IdMatch::Failed(t) && t@ == "Failed to get id"@ + ": "@ + e@,
        },
{
    match reply {
        Ok(i) => if same_text(i.as_str(), wanted) { IdMatch::Found } else { IdMatch::Other },
        Err(e) => IdMatch::Failed(with_context("Failed to get id", e.as_str())),
    }
}

/// A plugin's reply to a command, with who the plugin is.
#[derive(Debug)]
pub struct PluginResult<T> {
    pub id: String,
    pub name: String,
    pub color: String,
    pub data: T,
}

/// The text of a plugin's error as a command shows it: the plugin's name in brackets,
/// a space, then the error.
pub fn plugin_error(name: &str, err: &str) -> (m: String)
    ensures
        m@ == "["@ + name@ + "] "@ + err@,
{
    let mut m = String::from_str("[");
    m.append(name);
    m.append("] ");
    m.append(err);
    m
}

/// A plugin's reply to a command: its data, or its error marked with its name.
pub fn plugin_outcome<T>(id: String, name: String, color: String, data: Result<T, String>) -> (r: Result<PluginResult<T>, Failure>)
    ensures
        match data {
            Ok(d) => r matches Ok(p) && p.id == id && p.name == name && p.color == color && p.data == d,
            Err(e) => r matches Err(f) && f.summary@ == "["@ + name@ + "] "@ + e@ && f.detail@ == f.summary@,
        },
{
    match data {
        Ok(d) => Ok(PluginResult { id, name, color, data: d }),
        Err(e) => {
            let m = plugin_error(name.as_str(), e.as_str());
            Err(Failure { summary: m.clone(), detail: m })
        },
    }
}

/// The error of a request for one plugin that is not among those chosen.
pub fn not_enabled_error(id: &str) -> (m: String)
    ensures
        m@ == "Plugin "@ + id@ + " not enabled"@,
{
    let mut m = String::from_str("Plugin ");
    m.append(id);
    m.append(" not enabled");
    m
}

/// The error of a request for one plugin when no plugin has the id asked for.
pub fn plugin_not_found_error() -> (m: String)
    ensures
        m@ == "Failed to find plugin"@,
{
    String::from_str("Failed to find plugin")
}

/// The color of a plugin asked for one, or no color when asking failed.
pub fn color_or_default(color: Result<String, String>) -> (c: String)
    ensures
        match color {
            Ok(v) => c == v,
            Err(_) => c@ == Seq::<char>::empty(),
        },
{
    match color {
        Ok(v) => v,
        Err(_) => String::new(),
    }
}

/// What is shown of one plugin's reply.
pub enum Shown {
    /// A line of text.
    Message(String),
    /// A heading, then a table.
    Table(String, Table),
}

/// What `list`, `search` and the like show of one plugin's packages: a message when
/// there are none, else a table of them under the plugin's name.
pub fn show_listing(result: PluginResult<Vec<Package>>) -> (s: Shown)
    ensures
        if result.data.len() == 0 {
            s matches Shown::Message(m) && m@ == "No packages found for "@ + result.name@
        } else {
            s matches Shown::Table(h, t) && h == result.name
                && table_rows(t) == built_rows(listing_records(package_views(result.data@))).0
        },
{
    if result.data.len() == 0 {
        let mut m = String::from_str("No packages found for ");
        m.append(result.name.as_str());
        Shown::Message(m)
    } else {
        Shown::Table(result.name, Package::list_into_tab(result.data))
    }
}

/// What `info` shows of one plugin's package: a message when it has none, else the
/// package's fields under the plugin's name.
pub fn show_package(result: PluginResult<Option<Package>>) -> (s: Shown)
    ensures
        match result.data {
            None => s matches Shown::Message(m) && m@ == "Package not found for "@ + result.name@,
            Some(p) => s matches Shown::Table(h, t) && h == result.name && table_rows(t) == field_rows(p@),
        },
{
    match result.data {
        None => {
            let mut m = String::from_str("Package not found for ");
            m.append(result.name.as_str());
            Shown::Message(m)
        },
        Some(p) => Shown::Table(result.name, p.into_tab()),
    }
}

/// The successful replies in order, and the errors in order.
pub fn partition_results<T, E>(results: Vec<Result<T, E>>) -> (r: (Vec<T>, Vec<E>))
    ensures
        r.0@ == oks(results@),
        r.1@ == errs(results@),
{
    let mut ok: Vec<T> = Vec::new();
    let mut err: Vec<E> = Vec::new();
    let mut rest = results;
    let ghost all = rest@;
    let ghost mut taken: int = 0;
    assert(rest@ =~= all.skip(0));
    assert(all.take(0) =~= Seq::<Result<T, E>>::empty());
    while rest.len() > 0
        invariant
            0 <= taken <= all.len(),
            rest@ =~= all.skip(taken),
            ok@ == oks(all.take(taken)),
            err@ == errs(all.take(taken)),
        decreases rest.len(),
    {
        let item = rest.remove(0);
        proof {
            assert(item == all[taken]);
            assert(all.take(taken + 1).drop_last() =~= all.take(taken));
            assert(all.take(taken + 1).last() == all[taken]);
        }
        match item {
            Ok(v) => ok.push(v),
            Err(e) => err.push(e),
        }
        proof {
            assert(rest@ =~= all.skip(taken + 1));
            taken = taken + 1;
        }
    }
    assert(all.take(all.len() as int) =~= all);
    (ok, err)
}

/// Partitioning loses nothing: every reply is either among the successes or among the errors.
pub proof fn lemma_partition_accounts_for_all<T, E>(rs: Seq<Result<T, E>>)
    ensures
        oks(rs).len() + errs(rs).len() == rs.len(),
    decreases rs.len(),
{
    if rs.len() > 0 {
        lemma_partition_accounts_for_all(rs.drop_last());
    }
}

/// The successful values of `rs`, in order.
pub open spec fn oks<T, E>(rs: Seq<Result<T, E>>) -> Seq<T>
    decreases rs.len(),
{
    if rs.len() == 0 {
        Seq::empty()
    } else {
        match rs.last() {
            Ok(v) => oks(rs.drop_last()).push(v),
            Err(_) => oks(rs.drop_last()),
        }
    }
}

/// The errors of `rs`, in order.
pub open spec fn errs<T, E>(rs: Seq<Result<T, E>>) -> Seq<E>
    decreases rs.len(),
{
    if rs.len() == 0 {
        Seq::empty()
    } else {
        match rs.last() {
            Ok(_) => errs(rs.drop_last()),
            Err(e) => errs(rs.drop_last()).push(e),
        }
    }
}

/// A package that `install` offers: which plugin would install it, and its id and version.
#[derive(Debug, Clone, PartialEq, Eq)]
pub struct InstallPackage {
    pub plugin_id: String,
    pub plugin_name: String,
    pub plugin_color: String,
    pub package_id: String,
    pub package_version: String,
}

/// The plugin's id, name and color, then the package's id and version.
pub type InstallView = (Seq<char>, Seq<char>, Seq<char>, Seq<char>, Seq<char>);

impl View for InstallPackage {
    type V = InstallView;

    open spec fn view(&self) -> InstallView {
        (self.plugin_id@, self.plugin_name@, self.plugin_color@, self.package_id@, self.package_version@)
    }
}

/// The offer made of package `p` of a plugin: only a package with both an `Id` and a
/// `Version` field is offered.
pub open spec fn offer_of(id: Seq<char>, name: Seq<char>, color: Seq<char>, p: Seq<(Seq<char>, Seq<char>)>) -> Option<InstallView> {
    match (key_position(p, "Id"@), key_position(p, "Version"@)) {
        (Some(i), Some(j)) => Some((id, name, color, p[i].1, p[j].1)),
        _ => None,
    }
}

/// The offers made of the packages `ps` of one plugin, in order.
pub open spec fn plugin_offers(id: Seq<char>, name: Seq<char>, color: Seq<char>, ps: Seq<Seq<(Seq<char>, Seq<char>)>>) -> Seq<InstallView>
    decreases ps.len(),
{
    if ps.len() == 0 {
        Seq::empty()
    } else {
        plugin_offers(id, name, color, ps.drop_last()) + match offer_of(id, name, color, ps.last()) {
            Some(o) => seq![o],
            None => Seq::empty(),
        }
    }
}

/// The offers made of the packages of every plugin, plugin after plugin.
pub open spec fn all_offers(rs: Seq<PluginResult<Vec<Package>>>) -> Seq<InstallView>
    decreases rs.len(),
{
    if rs.len() == 0 {
        Seq::empty()
    } else {
        let r = rs.last();
        all_offers(rs.drop_last()) + plugin_offers(r.id@, r.name@, r.color@, package_views(r.data@))
    }
}

/// The packages `install` offers, from the plugins' listings of candidates.
pub fn install_candidates(results: &Vec<PluginResult<Vec<Package>>>) -> (c: Vec<InstallPackage>)
    ensures
        c@.map_values(|p: InstallPackage| p@) == all_offers(results@),
{
    let mut c: Vec<InstallPackage> = Vec::new();
    let mut k: usize = 0;
    while k < results.len()
        invariant
            k <= results.len(),
            c@.map_values(|p: InstallPackage| p@) == all_offers(results@.take(k as int)),
        decreases results.len() - k,
    {
        let r = &results[k];
        let ghost base = c@.map_values(|p: InstallPackage| p@);
        let ghost ps = package_views(r.data@);
        assert(results@.take(k + 1).drop_last() =~= results@.take(k as int));
        assert(results@.take(k + 1).last() == results@[k as int]);
        let mut i: usize = 0;
        assert(ps.take(0) =~= Seq::<Seq<(Seq<char>, Seq<char>)>>::empty());
        assert(base + plugin_offers(r.id@, r.name@, r.color@, ps.take(0)) =~= base);
        while i < r.data.len()
            invariant
                i <= r.data.len(),
                r == results@[k as int],
                ps == package_views(r.data@),
                c@.map_values(|p: InstallPackage| p@) == base + plugin_offers(r.id@, r.name@, r.color@, ps.take(i as int)),
            decreases r.data.len() - i,
        {
            let p = &r.data[i];
            assert(ps[i as int] == p@);
            assert(ps.take(i + 1).drop_last() =~= ps.take(i as int));
            assert(ps.take(i + 1).last() == p@);
            let ghost prev = c@.map_values(|q: InstallPackage| q@);
            let id = p.get("Id");
            let version = p.get("Version");
            match (id, version) {
                (Some(pid), Some(pver)) => {
                    let offer = InstallPackage {
                        plugin_id: r.id.clone(),
                        plugin_name: r.name.clone(),
                        plugin_color: r.color.clone(),
                        package_id: pid.clone(),
                        package_version: pver.clone(),
                    };
                    c.push(offer);
                    assert(c@.map_values(|q: InstallPackage| q@) =~= prev.push(offer@));
                    assert(offer_of(r.id@, r.name@, r.color@, p@) == Some(offer@));
                },
                _ => {
                    assert(offer_of(r.id@, r.name@, r.color@, p@) is None);
                },
            }
            assert(c@.map_values(|q: InstallPackage| q@) =~= base + plugin_offers(r.id@, r.name@, r.color@, ps.take(i + 1)));
            i = i + 1;
        }
        assert(ps.take(r.data.len() as int) =~= ps);
        k = k + 1;
    }
    assert(results@.take(results.len() as int) =~= results@);
    c
}

/// How `install` lists an offer: the plugin's name, a colon, then the package's id and version.
pub fn install_label(p: &InstallPackage) -> (l: String)
    ensures
        l@ == p.plugin_name@ + ": "@ + p.package_id@ + " "@ + p.package_version@,
{
    let mut l = p.plugin_name.clone();
    l.append(": ");
    l.append(p.package_id.as_str());
    l.append(" ");
    l.append(p.package_version.as_str());
    l
}

/// The message of `install` when no offer was chosen.
pub fn nothing_selected() -> (m: String)
    ensures
        m@ == "No package selected"@,
{
    String::from_str("No package selected")
}

/// The number of updates that the successful listings hold together.
pub open spec fn update_total(rs: Seq<Result<PluginResult<Vec<Package>>, Failure>>) -> int
    decreases rs.len(),
{
    if rs.len() == 0 {
        0
    } else {
        update_total(rs.drop_last()) + match rs.last() {
            Ok(r) => r.data.len() as int,
            Err(_) => 0,
        }
    }
}

/// The number of updates that the successful listings of `update` hold together.
pub fn count_updates(results: &Vec<Result<PluginResult<Vec<Package>>, Failure>>) -> (n: usize)
    requires
        update_total(results@) <= usize::MAX,
    ensures
        n == update_total(results@),
{
    let mut n: usize = 0;
    let mut i: usize = 0;
    while i < results.len()
        invariant
            i <= results.len(),
            n == update_total(results@.take(i as int)),
            update_total(results@) <= usize::MAX,
        decreases results.len() - i,
    {
        assert(results@.take(i + 1).drop_last() =~= results@.take(i as int));
        proof { lemma_update_total_prefix(results@, i + 1); }
        match &results[i] {
            Ok(r) => {
                n = n + r.data.len();
            },
            Err(_) => {},
        }
        i = i + 1;
    }
    assert(results@.take(results.len() as int) =~= results@);
    n
}

/// A prefix holds no more updates than the whole.
proof fn lemma_update_total_prefix(rs: Seq<Result<PluginResult<Vec<Package>>, Failure>>, k: int)
    requires
        0 <= k <= rs.len(),
    ensures
        0 <= update_total(rs.take(k)) <= update_total(rs),
    decreases rs.len(),
{
    if rs.len() > 0 {
        if k == rs.len() {
            assert(rs.take(k) =~= rs);
            lemma_update_total_prefix(rs.drop_last(), k - 1);
            assert(rs.drop_last().take(k - 1) =~= rs.drop_last());
        } else {
            lemma_update_total_prefix(rs.drop_last(), k);
            assert(rs.drop_last().take(k) =~= rs.take(k));
        }
    }
}

/// What `update` does once the available updates have been counted.
#[derive(Debug)]
pub enum UpdateStep {
    /// Nothing to update: show this message and stop.
    NothingToUpdate(String),
    /// Ask the user, with this question, whether to update.
    Confirm(String),
}

/// What `update` does once `count` updates were found.
pub fn update_next(count: usize) -> (s: UpdateStep)
    ensures
        if count == 0 {
            s matches UpdateStep::NothingToUpdate(m) && m@ == "No updates available"@
        } else {
            s matches UpdateStep::Confirm(q) && q@ == "Do you want to update these packages?"@
        },
{
    if count == 0 {
        UpdateStep::NothingToUpdate(no_updates())
    } else {
        UpdateStep::Confirm(String::from_str("Do you want to update these packages?"))
    }
}

/// The last stage of `update`: the update itself when the user confirmed, else nothing.
pub fn update_after_confirmation(confirmed: bool) -> (p: Option<CommandPlan>)
    ensures
        confirmed == (p is Some),
        p matches Some(plan) ==> plan.op == PluginOp::Update && plan.context@ == "Failed to update packages"@
            && plan.presentation == Presentation::Silent,
{
    if confirmed {
        Some(update_confirmed())
    } else {
        None
    }
}

/// The question `install` asks when it offers packages.
pub fn install_prompt() -> (q: String)
    ensures
        q@ == "Select a package to install"@,
{
    String::from_str("Select a package to install")
}

/// The request that installs a chosen offer: which plugin to ask, what to ask it, and the
/// context of its error.
#[derive(Debug)]
pub struct InstallRequest {
    pub plugin_id: String,
    pub op: PluginOp,
    pub context: String,
}

/// The request that installs the offer `p`: its plugin installs its package id.
pub fn install_request(p: &InstallPackage) -> (r: InstallRequest)
    ensures
        r.plugin_id == p.plugin_id,
        r.op matches PluginOp::Install(id) && id == p.package_id,
        r.context@ == "Failed to install package"@,
{
    InstallRequest {
        plugin_id: p.plugin_id.clone(),
        op: PluginOp::Install(p.package_id.clone()),
        context: String::from_str("Failed to install package"),
    }
}

/// The message of `update` when no plugin has anything to update.
pub fn no_updates() -> (m: String)
    ensures
        m@ == "No updates available"@,
{
    String::from_str("No updates available")
}

/// The listings of candidates that `install` and `update` receive: one per enabled
/// plugin, each its listing or its error.
pub type Listings = Vec<Result<PluginResult<Vec<Package>>, Failure>>;

/// How `install` lists an offer.
pub open spec fn label_of(o: InstallView) -> Seq<char> {
    o.1 + ": "@ + o.3 + " "@ + o.4
}

/// The views of the offers `v`.
pub open spec fn offers_view(v: Seq<InstallPackage>) -> Seq<InstallView> {
    v.map_values(|p: InstallPackage| p@)
}

/// The brief texts of the failures `fs`, in order.
pub open spec fn summaries(fs: Seq<Failure>) -> Seq<Seq<char>> {
    fs.map_values(|f: Failure| f.summary@)
}

/// The brief texts of `fs`, in order.
fn failure_summaries(fs: &Vec<Failure>) -> (s: Vec<String>)
    ensures
        views(s@) == summaries(fs@),
{
    let mut s: Vec<String> = Vec::new();
    let mut i: usize = 0;
    while i < fs.len()
        invariant
            i <= fs.len(),
            views(s@) =~= summaries(fs@.take(i as int)),
        decreases fs.len() - i,
    {
        let ghost prev = views(s@);
        s.push(fs[i].summary.clone());
        proof {
            assert(views(s@) =~= prev.push(fs@[i as int].summary@));
            assert(fs@.take(i + 1) =~= fs@.take(i as int).push(fs@[i as int]));
            assert(summaries(fs@.take(i + 1)) =~= summaries(fs@.take(i as int)).push(fs@[i as int].summary@));
        }
        i = i + 1;
    }
    assert(fs@.take(fs.len() as int) =~= fs@);
    s
}

/// The labels of the offers `offers`, and the color each is shown in.
fn offer_labels(offers: &Vec<InstallPackage>) -> (r: (Vec<String>, Vec<String>))
    ensures
        views(r.0@) == offers_view(offers@).map_values(|o: InstallView| label_of(o)),
        views(r.1@) == offers_view(offers@).map_values(|o: InstallView| o.2),
{
    let mut labels: Vec<String> = Vec::new();
    let mut colors: Vec<String> = Vec::new();
    let mut i: usize = 0;
    while i < offers.len()
        invariant
            i <= offers.len(),
            views(labels@) =~= offers_view(offers@.take(i as int)).map_values(|o: InstallView| label_of(o)),
            views(colors@) =~= offers_view(offers@.take(i as int)).map_values(|o: InstallView| o.2),
        decreases offers.len() - i,
    {
        let ghost prev_labels = views(labels@);
        let ghost prev_colors = views(colors@);
        let o = &offers[i];
        labels.push(install_label(o));
        colors.push(o.plugin_color.clone());
        proof {
            let before = offers_view(offers@.take(i as int));
            let after = offers_view(offers@.take(i + 1));
            assert(offers@.take(i + 1) =~= offers@.take(i as int).push(offers@[i as int]));
            assert(after =~= before.push(o@));
            assert(views(labels@) =~= prev_labels.push(label_of(o@)));
            assert(views(colors@) =~= prev_colors.push(o@.2));
            assert(after.map_values(|v: InstallView| label_of(v))
                =~= before.map_values(|v: InstallView| label_of(v)).push(label_of(o@)));
            assert(after.map_values(|v: InstallView| v.2) =~= before.map_values(|v: InstallView| v.2).push(o@.2));
        }
        i = i + 1;
    }
    assert(offers@.take(offers.len() as int) =~= offers@);
    (labels, colors)
}

/// Where `install` stands.
#[derive(Debug)]
pub enum InstallState {
    /// Not started; the name of the package asked for.
    Start(String),
    /// Waiting for the plugins' listings of candidates.
    Listing,
    /// Waiting for the user to choose one of these offers.
    Choosing(Vec<InstallPackage>),
    /// Waiting for the chosen offer to be installed; its error is shown in this color.
    Installing(String),
    /// Finished.
    Done,
}

/// What happened since `install`'s last step.
#[derive(Debug)]
pub enum InstallEvent {
    /// The command starts.
    Begin,
    /// The plugins' listings of candidates arrived.
    Listed(Listings),
    /// The user chose the offer at this index, or dismissed the question.
    Chosen(Option<usize>),
    /// The chosen offer's plugin answered the install request.
    Installed(Result<(), String>),
}

/// What `install` does next.
#[derive(Debug)]
pub enum InstallAction {
    /// Ask every enabled plugin this request, and hand back the replies.
    List(CommandPlan),
    /// Show these errors, one per line, then ask `prompt`, offering these labels, each
    /// in the color beside it.
    Offer { errors: Vec<String>, prompt: String, labels: Vec<String>, colors: Vec<String> },
    /// Show this message; the command is over.
    Print(String),
    /// Send this request to the plugin it names, and hand back its answer.
    Request(InstallRequest),
    /// Show this error in this color; the command is over.
    Fail { error: String, color: String },
    /// Nothing more to do.
    Stop,
}

/// One step of `install`: from where it stands and what happened, where it goes and what
/// it does. It first asks every plugin what it could install as the package; from their
/// listings it shows the errors (in brief, in order) and offers every package that has an
/// `Id` and a `Version`, plugin after plugin; a dismissed question ends it with a message;
/// a chosen offer is installed by its plugin, whose error ends the command.
pub fn install(state: InstallState, event: InstallEvent) -> (r: (InstallState, InstallAction))
    requires
        match (state, event) {
            (InstallState::Choosing(offers), InstallEvent::Chosen(Some(i))) => i < offers.len(),
            _ => true,
        },
    ensures
        match (state, event) {
            (InstallState::Start(pname), InstallEvent::Begin) => {
                &&& r.0 is Listing
                &&& r.1 matches InstallAction::List(p) && p.op matches PluginOp::PreInstall(n)
                    && n@ == pname@ && p.context@ == "Failed to check packages"@
                    && p.presentation == Presentation::Silent
            },
            (InstallState::Listing, InstallEvent::Listed(rs)) => {
                &&& r.0 matches InstallState::Choosing(offers)
                    && offers_view(offers@) == all_offers(oks(rs@))
                &&& r.1 matches InstallAction::Offer { errors, prompt, labels, colors }
                    && views(errors@) == summaries(errs(rs@))
                    && prompt@ == "Select a package to install"@
                    && views(labels@) == all_offers(oks(rs@)).map_values(|o: InstallView| label_of(o))
                    && views(colors@) == all_offers(oks(rs@)).map_values(|o: InstallView| o.2)
            },
            (InstallState::Choosing(_), InstallEvent::Chosen(None)) => {
                &&& r.0 is Done
                &&& r.1 matches InstallAction::Print(m) && m@ == "No package selected"@
            },
            (InstallState::Choosing(offers), InstallEvent::Chosen(Some(i))) => {
                &&& r.0 matches InstallState::Installing(c) && c@ == offers@[i as int].plugin_color@
                &&& r.1 matches InstallAction::Request(q) && q.plugin_id@ == offers@[i as int].plugin_id@
                    && q.context@ == "Failed to install package"@
                    && (q.op matches PluginOp::Install(id) && id@ == offers@[i as int].package_id@)
            },
            (InstallState::Installing(c), InstallEvent::Installed(Err(e))) => {
                &&& r.0 is Done
                &&& r.1 matches InstallAction::Fail { error, color } && error == e && color == c
            },
            (InstallState::Installing(_), InstallEvent::Installed(Ok(_))) => r.0 is Done && r.1 is Stop,
            _ => r.0 == state && r.1 is Stop,
        },
{
    match (state, event) {
        (InstallState::Start(pname), InstallEvent::Begin) => {
            (InstallState::Listing, InstallAction::List(pre_install_plan(pname.as_str())))
        },
        (InstallState::Listing, InstallEvent::Listed(results)) => {
            let ghost rs = results@;
            let (listings, failures) = partition_results(results);
            let offers = install_candidates(&listings);
            let errors = failure_summaries(&failures);
            let (labels, colors) = offer_labels(&offers);
            proof {
                assert(offers_view(offers@).map_values(|o: InstallView| label_of(o))
                    =~= all_offers(oks(rs)).map_values(|o: InstallView| label_of(o)));
                assert(offers_view(offers@).map_values(|o: InstallView| o.2)
                    =~= all_offers(oks(rs)).map_values(|o: InstallView| o.2));
            }
            (InstallState::Choosing(offers), InstallAction::Offer { errors, prompt: install_prompt(), labels, colors })
        },
        (InstallState::Choosing(_), InstallEvent::Chosen(None)) => {
            (InstallState::Done, InstallAction::Print(nothing_selected()))
        },
        (InstallState::Choosing(offers), InstallEvent::Chosen(Some(i))) => {
            let chosen = &offers[i];
            (InstallState::Installing(chosen.plugin_color.clone()), InstallAction::Request(install_request(chosen)))
        },
        (InstallState::Installing(color), InstallEvent::Installed(Err(error))) => {
            (InstallState::Done, InstallAction::Fail { error, color })
        },
        (InstallState::Installing(_), InstallEvent::Installed(Ok(_))) => (InstallState::Done, InstallAction::Stop),
        (state, _) => (state, InstallAction::Stop),
    }
}

/// Where `update` stands.
#[derive(Debug, Clone, Copy, PartialEq, Eq, Structural)]
pub enum UpdateState {
    /// Not started.
    Start,
    /// Waiting for the plugins' listings of updates.
    Listing,
    /// Waiting for the user's answer.
    Confirming,
    /// Finished.
    Done,
}

/// What happened since `update`'s last step.
#[derive(Debug)]
pub enum UpdateEvent {
    /// The command starts.
    Begin,
    /// The plugins' listings of updates arrived.
    Listed(Listings),
    /// The user answered whether to update.
    Answered(bool),
}

/// What `update` does next.
#[derive(Debug)]
pub enum UpdateAction {
    /// Ask every enabled plugin this request, and hand back the replies.
    List(CommandPlan),
    /// Show these listings as a listing request shows them, then do as the step says.
    Report(Listings, UpdateStep),
    /// Ask every enabled plugin this request, and show the replies as it says; the
    /// command is over.
    Run(CommandPlan),
    /// Nothing more to do.
    Stop,
}

/// One step of `update`: from where it stands and what happened, where it goes and what it
/// does. It first has every plugin list its updates; it shows the listings; when they hold
/// no update together it says so and ends, else it asks whether to update; a yes has every
/// plugin update, a no ends it.
pub fn update(state: UpdateState, event: UpdateEvent) -> (r: (UpdateState, UpdateAction))
    requires
        match (state, event) {
            (UpdateState::Listing, UpdateEvent::Listed(rs)) => update_total(rs@) <= usize::MAX,
            _ => true,
        },
    ensures
        match (state, event) {
            (UpdateState::Start, UpdateEvent::Begin) => {
                &&& r.0 == UpdateState::Listing
                &&& r.1 matches UpdateAction::List(p) && p.op == PluginOp::ListUpdates
                    && p.context@ == "Failed to list updates"@ && p.presentation == Presentation::Listing
            },
            (UpdateState::Listing, UpdateEvent::Listed(rs)) => {
                &&& r.1 matches UpdateAction::Report(ls, next) && ls == rs
                    && if update_total(rs@) == 0 {
                        r.0 == UpdateState::Done
                            && (next matches UpdateStep::NothingToUpdate(m) && m@ == "No updates available"@)
                    } else {
                        r.0 == UpdateState::Confirming
                            && (next matches UpdateStep::Confirm(q) && q@ == "Do you want to update these packages?"@)
                    }
            },
            (UpdateState::Confirming, UpdateEvent::Answered(yes)) => {
                &&& r.0 == UpdateState::Done
                &&& if yes {
                    r.1 matches UpdateAction::Run(p) && p.op == PluginOp::Update
                        && p.context@ == "Failed to update packages"@ && p.presentation == Presentation::Silent
                } else {
                    r.1 is Stop
                }
            },
            _ => r.0 == state && r.1 is Stop,
        },
{
    match (state, event) {
        (UpdateState::Start, UpdateEvent::Begin) => (UpdateState::Listing, UpdateAction::List(list_updates())),
        (UpdateState::Listing, UpdateEvent::Listed(results)) => {
            let count = count_updates(&results);
            let next = update_next(count);
            let state = if count == 0 { UpdateState::Done } else { UpdateState::Confirming };
            (state, UpdateAction::Report(results, next))
        },
        (UpdateState::Confirming, UpdateEvent::Answered(yes)) => {
            match update_after_confirmation(yes) {
                Some(plan) => (UpdateState::Done, UpdateAction::Run(plan)),
                None => (UpdateState::Done, UpdateAction::Stop),
            }
        },
        (state, _) => (state, UpdateAction::Stop),
    }
}

/// `e` has a field named `k`.
pub open spec fn has_field(e: Seq<(Seq<char>, Seq<char>)>, k: Seq<char>) -> bool {
    exists|i: int| 0 <= i < e.len() && e[i].0 == k
}

/// A field named `k` is found: its first position holds it.
proof fn lemma_key_position_found(e: Seq<(Seq<char>, Seq<char>)>, k: Seq<char>, i: int)
    requires
        0 <= i < e.len(),
        e[i].0 == k,
    ensures
        key_position(e, k) is Some,
    decreases i,
{
    if exists|j: int| 0 <= j < i && e[j].0 == k {
        let j = choose|j: int| 0 <= j < i && e[j].0 == k;
        lemma_key_position_found(e, k, j);
    } else {
        assert(0 <= i < e.len() && e[i].0 == k && forall|j: int| 0 <= j < i ==> e[j].0 != k);
    }
}

/// A package is offered once if it has both an `Id` and a `Version` field, and else not
/// at all; its offer names the plugin, and holds the package's id and version as they
/// stand in those fields.
pub proof fn lemma_one_package_offer(id: Seq<char>, name: Seq<char>, color: Seq<char>, p: Seq<(Seq<char>, Seq<char>)>)
    ensures
        plugin_offers(id, name, color, seq![p]).len() == if has_field(p, "Id"@) && has_field(p, "Version"@) { 1int } else { 0int },
        plugin_offers(id, name, color, seq![p]).len() == 1 ==> {
            let o = plugin_offers(id, name, color, seq![p])[0];
            &&& o.0 == id && o.1 == name && o.2 == color
            &&& exists|i: int| 0 <= i < p.len() && p[i] == ("Id"@, o.3)
            &&& exists|j: int| 0 <= j < p.len() && p[j] == ("Version"@, o.4)
        },
{
    let ps = seq![p];
    assert(ps.drop_last() =~= Seq::<Seq<(Seq<char>, Seq<char>)>>::empty());
    assert(ps.last() == p);
    if has_field(p, "Id"@) {
        let i = choose|i: int| 0 <= i < p.len() && p[i].0 == "Id"@;
        lemma_key_position_found(p, "Id"@, i);
    }
    if has_field(p, "Version"@) {
        let j = choose|j: int| 0 <= j < p.len() && p[j].0 == "Version"@;
        lemma_key_position_found(p, "Version"@, j);
    }
    let tail = match offer_of(id, name, color, p) {
        Some(o) => seq![o],
        None => Seq::<InstallView>::empty(),
    };
    assert(plugin_offers(id, name, color, Seq::<Seq<(Seq<char>, Seq<char>)>>::empty()) == Seq::<InstallView>::empty());
    assert(plugin_offers(id, name, color, ps) =~= tail);
    match (key_position(p, "Id"@), key_position(p, "Version"@)) {
        (Some(i), Some(j)) => {
            assert(p[i].0 == "Id"@);
            assert(p[j].0 == "Version"@);
            assert(p[i] == ("Id"@, p[i].1));
            assert(p[j] == ("Version"@, p[j].1));
            assert(has_field(p, "Id"@));
            assert(has_field(p, "Version"@));
        },
        _ => {},
    }
}

/// The offers made of packages listed one after another are the offers of the first ones,
/// then those of the others: every package is offered on its own merits, whatever was
/// offered before it.
pub proof fn lemma_plugin_offers_concat(
    id: Seq<char>,
    name: Seq<char>,
    color: Seq<char>,
    a: Seq<Seq<(Seq<char>, Seq<char>)>>,
    b: Seq<Seq<(Seq<char>, Seq<char>)>>,
)
    ensures
        plugin_offers(id, name, color, a + b) == plugin_offers(id, name, color, a) + plugin_offers(id, name, color, b),
    decreases b.len(),
{
    if b.len() == 0 {
        assert(a + b =~= a);
        assert(plugin_offers(id, name, color, a) + plugin_offers(id, name, color, b) =~= plugin_offers(id, name, color, a));
    } else {
        lemma_plugin_offers_concat(id, name, color, a, b.drop_last());
        assert((a + b).drop_last() =~= a + b.drop_last());
        assert((a + b).last() == b.last());
        let tail = match offer_of(id, name, color, b.last()) {
            Some(o) => seq![o],
            None => Seq::<InstallView>::empty(),
        };
        assert(plugin_offers(id, name, color, a) + plugin_offers(id, name, color, b.drop_last()) + tail
            =~= plugin_offers(id, name, color, a) + (plugin_offers(id, name, color, b.drop_last()) + tail));
    }
}

/// The offers of the listings of plugins one after another are the offers of the first
/// plugins, then those of the others; one plugin's offers are those of its packages.
pub proof fn lemma_all_offers_concat(a: Seq<PluginResult<Vec<Package>>>, b: Seq<PluginResult<Vec<Package>>>)
    ensures
        all_offers(a + b) == all_offers(a) + all_offers(b),
        b.len() == 1 ==> all_offers(b) == plugin_offers(b[0].id@, b[0].name@, b[0].color@, package_views(b[0].data@)),
    decreases b.len(),
{
    if b.len() == 0 {
        assert(a + b =~= a);
        assert(all_offers(a) + all_offers(b) =~= all_offers(a));
    } else {
        lemma_all_offers_concat(a, b.drop_last());
        assert((a + b).drop_last() =~= a + b.drop_last());
        assert((a + b).last() == b.last());
        let r = b.last();
        let tail = plugin_offers(r.id@, r.name@, r.color@, package_views(r.data@));
        assert(all_offers(a) + all_offers(b.drop_last()) + tail =~= all_offers(a) + (all_offers(b.drop_last()) + tail));
        if b.len() == 1 {
            assert(all_offers(b.drop_last()) =~= Seq::<InstallView>::empty());
            assert(all_offers(b) =~= tail);
        }
    }
}

/// The updates of listings received one after another are those of the first ones plus
/// those of the others, wherever they stand; a successful listing of `k` packages counts
/// `k`, an error counts nothing.
pub proof fn lemma_update_total_concat(
    a: Seq<Result<PluginResult<Vec<Package>>, Failure>>,
    b: Seq<Result<PluginResult<Vec<Package>>, Failure>>,
)
    ensures
        update_total(a + b) == update_total(a) + update_total(b),
        b.len() == 1 ==> update_total(b) == match b[0] {
            Ok(l) => l.data@.len() as int,
            Err(_) => 0int,
        },
    decreases b.len(),
{
    if b.len() == 0 {
        assert(a + b =~= a);
    } else {
        lemma_update_total_concat(a, b.drop_last());
        assert((a + b).drop_last() =~= a + b.drop_last());
        assert((a + b).last() == b.last());
        if b.len() == 1 {
            assert(b.drop_last() =~= Seq::<Result<PluginResult<Vec<Package>>, Failure>>::empty());
        }
    }
}

/// The successes and the errors of replies received one after another are those of the
/// first ones followed by those of the others; a single reply is a success or an error.
pub proof fn lemma_oks_errs_concat<T, E>(a: Seq<Result<T, E>>, b: Seq<Result<T, E>>)
    ensures
        oks(a + b) == oks(a) + oks(b),
        errs(a + b) == errs(a) + errs(b),
        b.len() == 1 ==> match b[0] {
            Ok(v) => oks(b) == seq![v] && errs(b).len() == 0,
            Err(e) => errs(b) == seq![e] && oks(b).len() == 0,
        },
    decreases b.len(),
{
    if b.len() == 0 {
        assert(a + b =~= a);
        assert(oks(a) + oks(b) =~= oks(a));
        assert(errs(a) + errs(b) =~= errs(a));
    } else {
        lemma_oks_errs_concat(a, b.drop_last());
        assert((a + b).drop_last() =~= a + b.drop_last());
        assert((a + b).last() == b.last());
        match b.last() {
            Ok(v) => {
                assert(oks(a) + oks(b.drop_last()).push(v) =~= (oks(a) + oks(b.drop_last())).push(v));
            },
            Err(e) => {
                assert(errs(a) + errs(b.drop_last()).push(e) =~= (errs(a) + errs(b.drop_last())).push(e));
            },
        }
        if b.len() == 1 {
            assert(b.drop_last() =~= Seq::<Result<T, E>>::empty());
            assert(oks(b.drop_last()) =~= Seq::<T>::empty());
            assert(errs(b.drop_last()) =~= Seq::<E>::empty());
        }
    }
}

} // verus!
