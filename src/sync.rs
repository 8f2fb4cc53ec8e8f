//! Keeping folders in sync with git: where the repository root of a folder is,
//! and which git commands to run, in which directory, for each operation.

use vstd::prelude::*;
use crate::config::Config;
use crate::folder::{Folder, FolderError};
use crate::note::Note;
use crate::path::{
    components, is_absolute, joined, render_prefix, render_spec, split_components,
    starts_with_separator, string_views, strictly_under, walk_spec, walk_up,
};

verus! {

#[derive(Debug)]
pub enum SetupSyncError {
    SyncExists,
    Git { command: String, err: String },
    Io(String),
}

#[derive(Debug)]
pub enum SyncManualError {
    NoGitRepository,
    GitFailure(SetupSyncError),
    Io(String),
}

#[derive(Debug)]
pub enum SyncError {
    GitFailure(SetupSyncError),
    Folder(FolderError),
    GitNotFound,
}

/// One run of `git` with these arguments; a failure of a command that
/// ignores errors does not stop the plan.
#[derive(Debug)]
pub struct GitCommand {
    pub args: Vec<String>,
    pub ignore_errors: bool,
}

/// Git commands to run one after the other in the directory `dir`.
#[derive(Debug)]
pub struct GitPlan {
    pub dir: String,
    pub commands: Vec<GitCommand>,
}

pub open spec fn command_view(c: GitCommand) -> (Seq<Seq<char>>, bool) {
    (string_views(c.args@), c.ignore_errors)
}

pub open spec fn plan_view(p: GitPlan) -> (Seq<char>, Seq<(Seq<Seq<char>>, bool)>) {
    (p.dir@, p.commands@.map_values(|c: GitCommand| command_view(c)))
}

/// The first index, below both `walk_len` and the number of answers, at
/// which `has_git` says the directory holds `.git`.
pub open spec fn git_index(walk_len: nat, has_git: Seq<bool>) -> Option<int> {
    if exists|i: int| 0 <= i < walk_len && 0 <= i < has_git.len() && has_git[i] {
        Some(
            choose|i: int|
                0 <= i < walk_len && 0 <= i < has_git.len() && has_git[i] && forall|j: int|
                    0 <= j < i ==> !has_git[j],
        )
    } else {
        None
    }
}

/// Some directory of the walk holds `.git`.
pub open spec fn enclosed(walk_len: nat, has_git: Seq<bool>) -> bool {
    exists|i: int| 0 <= i < walk_len && 0 <= i < has_git.len() && has_git[i]
}

/// The plan that records an edit of the note `name` in the folder at
/// `path`, whose repository root is `k` levels up: add the note by its path
/// from the root, commit it (an empty commit is no failure), push.
pub open spec fn note_plan_spec(path: Seq<char>, name: Seq<char>, k: int) -> (
    Seq<char>,
    Seq<(Seq<Seq<char>>, bool)>,
) {
    let f = components(path);
    let end = f.len() - k;
    (
        render_spec(is_absolute(path), f.subrange(0, end)),
        seq![
            (seq!["add"@, joined(f.subrange(end, f.len() as int).push(name))], false),
            (seq!["commit"@, "-m"@, "[nb-rs] Edit: "@ + name], true),
            (seq!["push"@], false),
        ],
    )
}

/// The plan that makes the folder at `path` track `branch` of `repo`.
pub open spec fn setup_plan_spec(path: Seq<char>, repo: Seq<char>, branch: Seq<char>) -> (
    Seq<char>,
    Seq<(Seq<Seq<char>>, bool)>,
) {
    (
        path,
        seq![
            (seq!["init"@, "-b"@, branch], false),
            (seq!["remote"@, "add"@, "origin"@, repo], false),
            (seq!["fetch"@, "origin"@], false),
            (seq!["checkout"@, "-b"@, branch, "origin/"@ + branch], false),
        ],
    )
}

/// The plan that pulls, then commits and pushes everything in the folder at
/// `path`.
pub open spec fn manual_plan_spec(path: Seq<char>) -> (Seq<char>, Seq<(Seq<Seq<char>>, bool)>) {
    (
        path,
        seq![
            (seq!["pull"@], false),
            (seq!["add"@, "-A"@], false),
            (seq!["commit"@, "-m"@, "[nb-rs] Manual Sync"@], true),
            (seq!["push"@], false),
        ],
    )
}

fn text(s: &str) -> (r: String)
    ensures
        r@ == s@,
{
    String::from_str(s)
}

fn command1(a: &str, ignore_errors: bool) -> (r: GitCommand)
    ensures
        command_view(r) == (seq![a@], ignore_errors),
{
    let mut args: Vec<String> = Vec::new();
    args.push(text(a));
    assert(string_views(args@) =~= seq![a@]);
    GitCommand { args, ignore_errors }
}

fn command2(a: &str, b: &str, ignore_errors: bool) -> (r: GitCommand)
    ensures
        command_view(r) == (seq![a@, b@], ignore_errors),
{
    let mut args: Vec<String> = Vec::new();
    args.push(text(a));
    args.push(text(b));
    assert(string_views(args@) =~= seq![a@, b@]);
    GitCommand { args, ignore_errors }
}

fn command3(a: &str, b: &str, c: &str, ignore_errors: bool) -> (r: GitCommand)
    ensures
        command_view(r) == (seq![a@, b@, c@], ignore_errors),
{
    let mut args: Vec<String> = Vec::new();
    args.push(text(a));
    args.push(text(b));
    args.push(text(c));
    assert(string_views(args@) =~= seq![a@, b@, c@]);
    GitCommand { args, ignore_errors }
}

fn command4(a: &str, b: &str, c: &str, d: &str, ignore_errors: bool) -> (r: GitCommand)
    ensures
        command_view(r) == (seq![a@, b@, c@, d@], ignore_errors),
{
    let mut args: Vec<String> = Vec::new();
    args.push(text(a));
    args.push(text(b));
    args.push(text(c));
    args.push(text(d));
    assert(string_views(args@) =~= seq![a@, b@, c@, d@]);
    GitCommand { args, ignore_errors }
}

/// Finds the first directory of a walk of `walk_len` that holds `.git`.
fn first_with_git(walk_len: usize, has_git: &Vec<bool>) -> (r: Option<usize>)
    ensures
        r is Some <==> enclosed(walk_len as nat, has_git@),
        r matches Some(k) ==> git_index(walk_len as nat, has_git@) == Some(k as int)
            && k < walk_len,
{
    let mut i: usize = 0;
    while i < walk_len && i < has_git.len()
        invariant
            i <= walk_len,
            forall|j: int| 0 <= j < i ==> !has_git@[j],
        decreases walk_len - i,
    {
        if has_git[i] {
            proof {
                let k = choose|k: int|
                    0 <= k < walk_len && 0 <= k < has_git@.len() && has_git@[k] && forall|j: int|
                        0 <= j < k ==> !has_git@[j];
                assert(0 <= i < walk_len && 0 <= i < has_git@.len() && has_git@[i as int]
                    && forall|j: int| 0 <= j < i ==> !has_git@[j]);
                assert(k == i);
            }
            return Some(i);
        }
        i = i + 1;
    }
    None
}

impl Folder {
    /// The directories to look in for `.git`, from this folder up to the data
    /// directory, which is left out; none when the folder does not lie below
    /// it.
    pub fn sync_walk(&self, config: &Config) -> (r: Vec<String>)
        ensures
            string_views(r@) == walk_spec(self.path_spec(), config.data_dir@),
    {
        let here = self.get_path();
        walk_up(here.as_str(), config.data_dir.as_str())
    }

    /// Whether a repository root encloses this folder; `has_git` tells, for each
    /// directory of `sync_walk` in turn, whether it holds `.git`.
    pub fn sync_exists(&self, config: &Config, has_git: &Vec<bool>) -> (r: bool)
        ensures
            r == enclosed(walk_spec(self.path_spec(), config.data_dir@).len(), has_git@),
    {
        let walk = self.sync_walk(config);
        first_with_git(walk.len(), has_git).is_some()
    }
}

/// The path, relative to the directory of the first `end` components, of
/// the file `name` in the directory of all of them.
fn relative_path(f: &Vec<String>, end: usize, name: &str) -> (r: String)
    requires
        end <= f@.len(),
    ensures
        r@ == joined(string_views(f@).subrange(end as int, f@.len() as int).push(name@)),
{
    let ghost fv = string_views(f@);
    let mut parts: Vec<String> = Vec::new();
    let mut i: usize = end;
    while i < f.len()
        invariant
            fv == string_views(f@),
            end <= i <= f@.len(),
            string_views(parts@) == fv.subrange(end as int, i as int),
        decreases f@.len() - i,
    {
        let ghost before = parts@;
        let piece = f[i].clone();
        assert(piece@ == fv[i as int]);
        parts.push(piece);
        assert(string_views(parts@) =~= string_views(before).push(piece@));
        assert(string_views(parts@) =~= fv.subrange(end as int, i + 1));
        i = i + 1;
    }
    let ghost rel_parts = string_views(parts@);
    parts.push(text(name));
    assert(string_views(parts@) =~= rel_parts.push(name@));
    assert(string_views(parts@).subrange(0, parts@.len() as int) == string_views(parts@));
    render_prefix(false, &parts, parts.len())
}

fn note_plan(root: String, rel: &str, name: &str) -> (r: GitPlan)
    ensures
        r.dir@ == root@,
        plan_view(r).1 == seq![
            (seq!["add"@, rel@], false),
            (seq!["commit"@, "-m"@, "[nb-rs] Edit: "@ + name@], true),
            (seq!["push"@], false),
        ],
{
    let mut message = text("[nb-rs] Edit: ");
    message.append(name);
    let mut commands: Vec<GitCommand> = Vec::new();
    commands.push(command2("add", rel, false));
    commands.push(command3("commit", "-m", message.as_str(), true));
    commands.push(command1("push", false));
    let plan = GitPlan { dir: root, commands };
    assert(plan_view(plan).1 =~= seq![
        (seq!["add"@, rel@], false),
        (seq!["commit"@, "-m"@, "[nb-rs] Edit: "@ + name@], true),
        (seq!["push"@], false),
    ]);
    plan
}

impl Folder {
    /// The git commands that record an edit of `note`, which stands in this
    /// folder, in the repository that encloses the folder; `has_git` answers
    /// for the directories of `sync_walk` as in `sync_exists`. Nothing to run
    /// when no repository encloses the folder.
    pub fn sync_note(&self, note: &Note, config: &Config, has_git: &Vec<bool>) -> (r: Option<
        GitPlan,
    >)
        ensures
            !enclosed(walk_spec(self.path_spec(), config.data_dir@).len(), has_git@) ==> r is None,
            enclosed(walk_spec(self.path_spec(), config.data_dir@).len(), has_git@) ==> (r matches Some(
                plan,
            ) && plan_view(plan) == note_plan_spec(
                self.path_spec(),
                note.name@,
                git_index(walk_spec(self.path_spec(), config.data_dir@).len(), has_git@)->0,
            )),
    {
        let here = self.get_path();
        let walk = walk_up(here.as_str(), config.data_dir.as_str());
        let k = match first_with_git(walk.len(), has_git) {
            None => return None,
            Some(k) => k,
        };
        let f = split_components(here.as_str());
        let absolute = starts_with_separator(here.as_str());
        let ghost fv = string_views(f@);
        assert(walk_spec(here@, config.data_dir@).len() <= fv.len());
        let end = f.len() - k;
        let root = render_prefix(absolute, &f, end);
        let rel = relative_path(&f, end, note.name.as_str());
        let plan = note_plan(root, rel.as_str(), note.name.as_str());
        assert(plan_view(plan) == note_plan_spec(here@, note.name@, k as int));
        Some(plan)
    }

    /// The git commands that make this folder a clone of `branch` of `repo`;
    /// refused when a repository already encloses the folder, which `has_git`
    /// answers as in `sync_exists`.
    pub fn sync_setup(&self, config: &Config, repo: &str, branch: &str, has_git: &Vec<bool>) -> (r:
        Result<GitPlan, SetupSyncError>)
        ensures
            enclosed(walk_spec(self.path_spec(), config.data_dir@).len(), has_git@) ==> (r matches Err(
                SetupSyncError::SyncExists,
            )),
            !enclosed(walk_spec(self.path_spec(), config.data_dir@).len(), has_git@) ==> (r matches Ok(
                plan,
            ) && plan_view(plan) == setup_plan_spec(self.path_spec(), repo@, branch@)),
    {
        if self.sync_exists(config, has_git) {
            return Err(SetupSyncError::SyncExists);
        }
        let mut remote_branch = text("origin/");
        remote_branch.append(branch);
        let mut commands: Vec<GitCommand> = Vec::new();
        commands.push(command3("init", "-b", branch, false));
        commands.push(command4("remote", "add", "origin", repo, false));
        commands.push(command2("fetch", "origin", false));
        commands.push(command4("checkout", "-b", branch, remote_branch.as_str(), false));
        let plan = GitPlan { dir: self.get_path(), commands };
        assert(plan_view(plan).1 =~= setup_plan_spec(self.path_spec(), repo@, branch@).1);
        Ok(plan)
    }

    /// The git commands that pull, then commit and push all changes of this
    /// folder; refused when no repository encloses it, which `has_git`
    /// answers as in `sync_exists`.
    pub fn sync_manual(&self, config: &Config, has_git: &Vec<bool>) -> (r: Result<
        GitPlan,
        SyncManualError,
    >)
        ensures
            !enclosed(walk_spec(self.path_spec(), config.data_dir@).len(), has_git@) ==> (r matches Err(
                SyncManualError::NoGitRepository,
            )),
            enclosed(walk_spec(self.path_spec(), config.data_dir@).len(), has_git@) ==> (r matches Ok(
                plan,
            ) && plan_view(plan) == manual_plan_spec(self.path_spec())),
    {
        if !self.sync_exists(config, has_git) {
            return Err(SyncManualError::NoGitRepository);
        }
        let mut commands: Vec<GitCommand> = Vec::new();
        commands.push(command1("pull", false));
        commands.push(command2("add", "-A", false));
        commands.push(command3("commit", "-m", "[nb-rs] Manual Sync", true));
        commands.push(command1("push", false));
        let plan = GitPlan { dir: self.get_path(), commands };
        assert(plan_view(plan).1 =~= manual_plan_spec(self.path_spec()).1);
        Ok(plan)
    }
}

/// The arguments written on one line, separated by single spaces.
pub open spec fn spaced(cs: Seq<Seq<char>>) -> Seq<char>
    decreases cs.len(),
{
    if cs.len() == 0 {
        Seq::empty()
    } else if cs.len() == 1 {
        cs[0]
    } else {
        spaced(cs.drop_last()) + seq![' '] + cs.last()
    }
}

/// The message of a failed git command: what it printed on each stream.
pub open spec fn failure_text(stdout: Seq<char>, stderr: Seq<char>) -> Seq<char> {
    "Stdout: "@ + stdout + "\n\nStderr: "@ + stderr
}

impl GitCommand {
    /// The arguments on one line, separated by spaces.
    pub fn command_line(&self) -> (r: String)
        ensures
            r@ == spaced(string_views(self.args@)),
    {
        let ghost v = string_views(self.args@);
        let mut r = String::new();
        let mut j: usize = 0;
        while j < self.args.len()
            invariant
                v == string_views(self.args@),
                j <= self.args@.len(),
                r@ == spaced(v.subrange(0, j as int)),
            decreases self.args@.len() - j,
        {
            proof {
                assert(v.subrange(0, j + 1).drop_last() == v.subrange(0, j as int));
            }
            if j > 0 {
                let space = " ";
                proof {
                    reveal_strlit(" ");
                }
                r.append(space);
            }
            r.append(self.args[j].as_str());
            proof {
                if j == 0 {
                    assert(v.subrange(0, 1)[0] == v[0]);
                }
            }
            j = j + 1;
        }
        assert(v.subrange(0, v.len() as int) == v);
        r
    }

    /// What a run of this command came to, given whether git exited with
    /// status zero and what it printed: a failure stops the plan unless the
    /// command ignores errors.
    pub fn outcome(&self, success: bool, stdout: &str, stderr: &str) -> (r: Result<
        (),
        SetupSyncError,
    >)
        ensures
            success || self.ignore_errors ==> r is Ok,
            !success && !self.ignore_errors ==> (r matches Err(
                SetupSyncError::Git { command, err },
            ) && command@ == spaced(string_views(self.args@)) && err@ == failure_text(
                stdout@,
                stderr@,
            )),
    {
        if success || self.ignore_errors {
            return Ok(());
        }
        let mut err = text("Stdout: ");
        err.append(stdout);
        err.append("\n\nStderr: ");
        err.append(stderr);
        Err(SetupSyncError::Git { command: self.command_line(), err })
    }
}

/// Once the folder itself holds `.git`, so that the first answer for its
/// walk is yes, setting up its repository again is refused; the first
/// directory of the walk is the folder's own.
pub proof fn lemma_setup_refused_once_set_up(folder: Folder, config: Config, has_git: Seq<bool>)
    requires
        strictly_under(folder.path_spec(), config.data_dir@),
        has_git.len() > 0,
        has_git[0],
    ensures
        enclosed(walk_spec(folder.path_spec(), config.data_dir@).len(), has_git),
        walk_spec(folder.path_spec(), config.data_dir@)[0] == render_spec(
            is_absolute(folder.path_spec()),
            components(folder.path_spec()),
        ),
{
    let p = folder.path_spec();
    let f = components(p);
    assert(f.subrange(0, f.len() as int) == f);
    assert(0 <= 0int < walk_spec(p, config.data_dir@).len() && 0 <= 0int < has_git.len()
        && has_git[0]);
}

} // verus!
