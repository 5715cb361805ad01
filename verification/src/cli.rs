//! The commands of the command-line program and what it answers to each.

use vstd::prelude::*;
use crate::ids::{ActorId, ProjectId};

verus! {

/// The top-level commands.
#[derive(Debug)]
pub enum Commands {
    Init { name: String },
    Start,
    Stop,
    Project(ProjectCommands),
    Actor(ActorCommands),
    Job(JobCommands),
    Info,
    Health,
}

/// The commands on projects.
#[derive(Debug)]
pub enum ProjectCommands {
    Create { name: String },
    List,
    Show { id: ProjectId },
}

/// The commands on actors. `kind` is the actor's type.
#[derive(Debug)]
pub enum ActorCommands {
    Create { name: String, kind: String },
    List,
    Show { id: ActorId },
}

/// The commands on jobs.
#[derive(Debug)]
pub enum JobCommands {
    Create { project_id: ProjectId, name: String },
    List,
    Show { id: String },
    Start { id: String },
}

/// The parsed command line.
#[derive(Debug)]
pub struct Cli {
    pub command: Commands,
}

/// The line the program prints before answering.
pub open spec fn banner_text() -> Seq<char> {
    "Malverde CLI v0.1.0"@
}

/// The line the program answers `c` with.
pub open spec fn response_text(c: Commands) -> Seq<char> {
    match c {
        Commands::Init { name } => "Initializing project: "@ + name@,
        Commands::Start => "Starting Malverde..."@,
        Commands::Stop => "Stopping Malverde..."@,
        Commands::Project(p) => match p {
            ProjectCommands::Create { name } => "Creating project: "@ + name@,
            ProjectCommands::List => "Listing projects..."@,
            ProjectCommands::Show { id } => "Showing project: "@ + crate::ids::uuid_text(id.value),
        },
        Commands::Actor(a) => match a {
            ActorCommands::Create { name, kind } => "Creating actor: "@ + name@ + " ("@ + kind@ + ")"@,
            ActorCommands::List => "Listing actors..."@,
            ActorCommands::Show { id } => "Showing actor: "@ + crate::ids::uuid_text(id.value),
        },
        Commands::Job(j) => match j {
            JobCommands::Create { project_id, name } => "Creating job: "@ + name@,
            JobCommands::List => "Listing jobs..."@,
            JobCommands::Show { id } => "Showing job: "@ + id@,
            JobCommands::Start { id } => "Starting job: "@ + id@,
        },
        Commands::Info => "Malverde Core Framework v0.1.0"@,
        Commands::Health => "System health: OK"@,
    }
}

/// `prefix` followed by `rest`.
fn joined(prefix: &str, rest: &str) -> (r: String)
    ensures
        r@ == prefix@ + rest@,
{
    let mut r = String::from_str(prefix);
    r.append(rest);
    r
}

/// The line the program prints before answering; see `banner_text`.
pub fn banner() -> (r: String)
    ensures
        r@ == banner_text(),
{
    String::from_str("Malverde CLI v0.1.0")
}

/// The line the program answers `command` with; see `response_text`.
pub fn response(command: &Commands) -> (r: String)
    ensures
        r@ == response_text(*command),
{
    match command {
        Commands::Init { name } => joined("Initializing project: ", name.as_str()),
        Commands::Start => String::from_str("Starting Malverde..."),
        Commands::Stop => String::from_str("Stopping Malverde..."),
        Commands::Project(p) => match p {
            ProjectCommands::Create { name } => joined("Creating project: ", name.as_str()),
            ProjectCommands::List => String::from_str("Listing projects..."),
            ProjectCommands::Show { id } => {
                let t = id.to_text();
                joined("Showing project: ", t.as_str())
            },
        },
        Commands::Actor(a) => match a {
            ActorCommands::Create { name, kind } => {
                let mut r = joined("Creating actor: ", name.as_str());
                r.append(" (");
                r.append(kind.as_str());
                r.append(")");
                r
            },
            ActorCommands::List => String::from_str("Listing actors..."),
            ActorCommands::Show { id } => {
                let t = id.to_text();
                joined("Showing actor: ", t.as_str())
            },
        },
        Commands::Job(j) => match j {
            JobCommands::Create { project_id, name } => joined("Creating job: ", name.as_str()),
            JobCommands::List => String::from_str("Listing jobs..."),
            JobCommands::Show { id } => joined("Showing job: ", id.as_str()),
            JobCommands::Start { id } => joined("Starting job: ", id.as_str()),
        },
        Commands::Info => String::from_str("Malverde Core Framework v0.1.0"),
        Commands::Health => String::from_str("System health: OK"),
    }
}

/// A text of `n` equal signs.
pub open spec fn rule(n: nat) -> Seq<char> {
    Seq::new(n, |i: int| '=')
}

/// The lines that frame a heading: an empty line, a rule of fifty equal
/// signs, the title, and the rule again.
pub fn header_lines(title: &str) -> (r: Vec<String>)
    ensures
        r@.len() == 4,
        r@[0]@ == Seq::<char>::empty(),
        r@[1]@ == rule(50),
        r@[2]@ == title@,
        r@[3]@ == rule(50),
{
    let mut line = String::new();
    let mut i: usize = 0;
    while i < 50
        invariant
            i <= 50,
            line@ == rule(i as nat),
        decreases 50 - i,
    {
        line.append("=");
        proof {
            reveal_strlit("=");
            assert(line@ =~= rule((i + 1) as nat));
        }
        i = i + 1;
    }
    let mut r: Vec<String> = Vec::new();
    r.push(String::new());
    r.push(line.clone());
    r.push(String::from_str(title));
    r.push(line);
    r
}

/// The line that reports a success: "[OK]" and the message.
pub fn success_line(message: &str) -> (r: String)
    ensures
        r@ == "[OK] "@ + message@,
{
    joined("[OK] ", message)
}

/// The line that reports an error: "[ERROR]" and the message.
pub fn error_line(message: &str) -> (r: String)
    ensures
        r@ == "[ERROR] "@ + message@,
{
    joined("[ERROR] ", message)
}

/// The line that reports information: "[INFO]" and the message.
pub fn info_line(message: &str) -> (r: String)
    ensures
        r@ == "[INFO] "@ + message@,
{
    joined("[INFO] ", message)
}

} // verus!
