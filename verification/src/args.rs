//! The command line of `unipac`, as the library sees it.
use vstd::prelude::*;

verus! {

/// The options and the command given on the command line.
#[derive(Debug, Clone, PartialEq, Eq)]
pub struct Args {
    /// A configuration file to use in place of the default one.
    pub config_path: Option<String>,
    /// Whether output is colored.
    pub colors: bool,
    /// What to do.
    pub command: Command,
    /// The ids of the plugins to use; all plugins when empty.
    pub plugins: Vec<String>,
}

/// The commands of `unipac`.
#[derive(Debug, Clone, PartialEq, Eq)]
pub enum Command {
    List { updates: bool },
    Search { query: String },
    Info { pname: String },
    Install { pname: String },
    Remove { pname: String },
    Update { list: bool },
}

/// What a command line asks to be done.
#[derive(Debug, Clone, PartialEq, Eq)]
pub enum Task {
    ListPackages,
    ListUpdates,
    Search(String),
    Info(String),
    Install(String),
    Remove(String),
    Update,
}

impl Command {
    /// The task the command asks for: `list --updates` and `update --list` both list the
    /// available updates.
    pub fn task(&self) -> (t: Task)
        ensures
            match *self {
                Command::List { updates } => if updates { t is ListUpdates } else { t is ListPackages },
                Command::Search { query } => t matches Task::Search(q) && q == query,
                Command::Info { pname } => t matches Task::Info(p) && p == pname,
                Command::Install { pname } => t matches Task::Install(p) && p == pname,
                Command::Remove { pname } => t matches Task::Remove(p) && p == pname,
                Command::Update { list } => if list { t is ListUpdates } else { t is Update },
            },
    {
        match self {
            Command::List { updates } => if *updates { Task::ListUpdates } else { Task::ListPackages },
            Command::Search { query } => Task::Search(query.clone()),
            Command::Info { pname } => Task::Info(pname.clone()),
            Command::Install { pname } => Task::Install(pname.clone()),
            Command::Remove { pname } => Task::Remove(pname.clone()),
            Command::Update { list } => if *list { Task::ListUpdates } else { Task::Update },
        }
    }
}

} // verus!
