//! Job building: resolving the script a package runs, and turning what
//! happened to a package into its result.
use vstd::prelude::*;
use vstd::string::StringExecFns;
use crate::status::JobResult;

verus! {

/// Name of the per-package configuration file.
pub const CONFIG_FILE: &'static str = "shiv.json";

/// One entry of a package's script list: a script name and the shell command
/// it stands for.
pub struct Script {
    pub name: String,
    pub run: String,
}

/// A package's configuration could not be read or parsed.
pub struct ConfigError {
    pub message: String,
}

/// One unit of work: a shell command to run in a package.
pub struct Job {
    pub package: String,
    pub command: String,
}

/// What a selected package amounts to.
pub enum JobPlan {
    /// The package has an entry for the requested script.
    Run(Job),
    /// The package has no entry for the requested script: nothing to run.
    NoEntry(String),
    /// The package's configuration could not be read.
    BadConfig { package: String, message: String },
}

/// The command of the last entry named `name`, if any.
pub open spec fn last_match(scripts: Seq<Script>, name: Seq<char>) -> Option<Seq<char>>
    decreases scripts.len(),
{
    if scripts.len() == 0 {
        None
    } else if scripts.last().name@ == name {
        Some(scripts.last().run@)
    } else {
        last_match(scripts.drop_last(), name)
    }
}

/// Looks up the script named `name`; where several entries carry that name the
/// last one wins.
pub fn find_script(scripts: &Vec<Script>, name: &String) -> (r: Option<String>)
    ensures
        match r {
            Some(cmd) => last_match(scripts@, name@) == Some(cmd@),
            None => last_match(scripts@, name@) is None,
        },
{
    let mut found: Option<String> = None;
    let mut i: usize = 0;
    while i < scripts.len()
        invariant
            0 <= i <= scripts@.len(),
            match found {
                Some(cmd) => last_match(scripts@.take(i as int), name@) == Some(cmd@),
                None => last_match(scripts@.take(i as int), name@) is None,
            },
        decreases scripts@.len() - i,
    {
        proof {
            let after = scripts@.take(i as int + 1);
            assert(after.drop_last() =~= scripts@.take(i as int));
            assert(after.last() == scripts@[i as int]);
        }
        if scripts[i].name == *name {
            found = Some(scripts[i].run.clone());
        }
        i = i + 1;
    }
    assert(scripts@.take(scripts@.len() as int) =~= scripts@);
    found
}

/// The spec-level view of a plan: `Some(cmd)` for a job to run, `None`
/// otherwise.
pub open spec fn plan_command(p: JobPlan) -> Option<Seq<char>> {
    match p {
        JobPlan::Run(job) => Some(job.command@),
        _ => None,
    }
}

/// The package a plan is about.
pub open spec fn plan_package(p: JobPlan) -> Seq<char> {
    match p {
        JobPlan::Run(job) => job.package@,
        JobPlan::NoEntry(package) => package@,
        JobPlan::BadConfig { package, .. } => package@,
    }
}

/// Resolves what `package` runs for the script `command`, given what reading
/// its configuration gave: an unreadable configuration is that package's
/// failure, a missing entry is nothing to run, and an entry is a job.
pub fn build_job(package: &String, config: &Result<Vec<Script>, ConfigError>, command: &String) -> (r: JobPlan)
    ensures
        plan_package(r) == package@,
        match config {
            Err(e) => r matches JobPlan::BadConfig { message, .. } && message@ == e.message@,
            Ok(scripts) => match last_match(scripts@, command@) {
                Some(cmd) => plan_command(r) == Some(cmd),
                None => r is NoEntry,
            },
        },
{
    match config {
        Err(e) => JobPlan::BadConfig { package: package.clone(), message: e.message.clone() },
        Ok(scripts) => match find_script(scripts, command) {
            Some(cmd) => JobPlan::Run(Job { package: package.clone(), command: cmd }),
            None => JobPlan::NoEntry(package.clone()),
        },
    }
}

/// Whether a plan counts as a success, given whether its command (if it has
/// one) succeeded.
pub open spec fn plan_success(p: JobPlan, command_succeeded: bool) -> bool {
    match p {
        JobPlan::Run(_) => command_succeeded,
        JobPlan::NoEntry(_) => true,
        JobPlan::BadConfig { .. } => false,
    }
}

/// The result of a package: a job succeeds as its command did, a package with
/// no entry for the script is a success, and an unreadable configuration is a
/// failure. `command_succeeded` is ignored where there is no command.
pub fn finish_job(plan: &JobPlan, command_succeeded: bool) -> (r: JobResult)
    ensures
        r.package@ == plan_package(*plan),
        r.success == plan_success(*plan, command_succeeded),
{
    match plan {
        JobPlan::Run(job) => JobResult { package: job.package.clone(), success: command_succeeded },
        JobPlan::NoEntry(package) => JobResult { package: package.clone(), success: true },
        JobPlan::BadConfig { package, .. } => JobResult { package: package.clone(), success: false },
    }
}

/// A package with no entry for the requested script (what `build_job` gives
/// when the lookup finds nothing) yields a success, whatever is said of a
/// command run for it.
pub proof fn lemma_missing_script_succeeds(plan: JobPlan, command_succeeded: bool)
    requires
        plan is NoEntry,
    ensures
        plan_success(plan, command_succeeded),
{
}

/// The directory of `package` under the workspace root: `root_dir/package`.
pub fn package_path(root_dir: &String, package: &String) -> (r: String)
    ensures
        r@ == root_dir@ + seq!['/'] + package@,
{
    proof {
        reveal_strlit("/");
    }
    let mut path = root_dir.clone();
    path.append("/");
    path.append(package.as_str());
    path
}

/// The configuration file inside a package directory: `dir/shiv.json`.
pub fn config_path(dir: &String) -> (r: String)
    ensures
        r@ == dir@ + seq!['/'] + CONFIG_FILE@,
{
    proof {
        reveal_strlit("/");
    }
    let mut path = dir.clone();
    path.append("/");
    path.append(CONFIG_FILE);
    path
}

/// One line of a child's output, attributed to its package:
/// `[package]  line`.
pub fn prefixed_line(package: &String, line: &str) -> (r: String)
    ensures
        r@ == seq!['['] + package@ + seq![']', ' ', ' '] + line@,
{
    proof {
        reveal_strlit("[");
        reveal_strlit("]  ");
    }
    let mut out = String::from_str("[");
    out.append(package.as_str());
    out.append("]  ");
    out.append(line);
    out
}

} // verus!
