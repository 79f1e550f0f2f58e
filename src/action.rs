use vstd::prelude::*;
use vstd::string::StringExecFns;

verus! {

/// The words of `s`, split at whitespace, as `str::split_whitespace` yields them.
pub uninterp spec fn words_of(s: Seq<char>) -> Seq<Seq<char>>;

/// Relies on `str::split_whitespace`: the words of `s`, in order.
#[verifier::external_body]
fn split_words(s: &str) -> (r: Vec<String>)
    ensures
        r@.map_values(|w: String| w@) == words_of(s@),
{
    s.split_whitespace().map(|w| w.to_string()).collect()
}

/// Why an external command did not succeed.
#[derive(Debug, PartialEq, Eq)]
pub enum ExecutionError {
    /// The process could not be started; `reason` says why.
    SpawnFailed { reason: String },
    /// The process ran and exited with a non-zero status.
    NonZeroExit,
}

/// A git command bound to the external executor: a non-empty
/// sequence of tokens, the subcommand first.
#[derive(Debug)]
pub struct RepositoryAction {
    pub command: Vec<String>,
}

pub open spec fn tokens_of(v: Seq<String>) -> Seq<Seq<char>> {
    v.map_values(|t: String| t@)
}

impl RepositoryAction {
    pub open spec fn tokens(&self) -> Seq<Seq<char>> {
        tokens_of(self.command@)
    }

    /// A command holds at least one token.
    pub open spec fn wf(&self) -> bool {
        self.command@.len() > 0
    }

    /// Runs the bound command in `path` through `executor` and turns what it
    /// reports into the repository's outcome.
    pub fn run(
        &self,
        path: &str,
        executor: &impl Fn(&str, &Vec<String>) -> Result<(), ExecutionError>,
    ) -> (r: Result<(), String>)
        requires
            executor.requires((path, &self.command)),
        ensures
            exists|e: Result<(), ExecutionError>|
                #[trigger] executor.ensures((path, &self.command), e) && outcome_matches(
                    path@,
                    e,
                    r,
                ),
    {
        let e = executor(path, &self.command);
        outcome_of(path, e)
    }
}

/// The error message for a failed command in the repository at `path`.
pub open spec fn failure_message(path: Seq<char>, e: ExecutionError) -> Seq<char> {
    match e {
        ExecutionError::SpawnFailed { reason } => "Failed to run git command in "@ + path + ": "@
            + reason@,
        ExecutionError::NonZeroExit => "Git command failed in "@ + path,
    }
}

/// `r` is the outcome that the execution result `e` gives in the repository at `path`.
pub open spec fn outcome_matches(
    path: Seq<char>,
    e: Result<(), ExecutionError>,
    r: Result<(), String>,
) -> bool {
    match e {
        Ok(()) => r is Ok,
        Err(err) => r is Err && r->Err_0@ == failure_message(path, err),
    }
}

/// `t` occurs in `s` as a contiguous run.
pub open spec fn contains(s: Seq<char>, t: Seq<char>) -> bool {
    exists|i: int| 0 <= i && i + t.len() <= s.len() && #[trigger] s.subrange(i, i + t.len()) == t
}

/// The outcome of running a command in the repository at `path`, given what
/// the executor reported.
pub fn outcome_of(path: &str, e: Result<(), ExecutionError>) -> (r: Result<(), String>)
    ensures
        outcome_matches(path@, e, r),
{
    match e {
        Ok(()) => Ok(()),
        Err(ExecutionError::SpawnFailed { reason }) => {
            let mut msg = String::from_str("Failed to run git command in ");
            msg.append(path);
            msg.append(": ");
            msg.append(reason.as_str());
            Err(msg)
        },
        Err(ExecutionError::NonZeroExit) => {
            let mut msg = String::from_str("Git command failed in ");
            msg.append(path);
            Err(msg)
        },
    }
}

/// Every failure message names the repository it comes from.
pub proof fn lemma_failure_names_path(path: Seq<char>, e: ExecutionError)
    ensures
        contains(failure_message(path, e), path),
{
    let m = failure_message(path, e);
    let k: int = match e {
        ExecutionError::SpawnFailed { .. } => "Failed to run git command in "@.len() as int,
        ExecutionError::NonZeroExit => "Git command failed in "@.len() as int,
    };
    assert(m.subrange(k, k + path.len()) =~= path);
}

/// A command succeeds in a repository exactly when the executor reports success,
/// and a failure's message names the repository.
pub proof fn lemma_outcome_follows_execution(
    path: Seq<char>,
    e: Result<(), ExecutionError>,
    r: Result<(), String>,
)
    requires
        outcome_matches(path, e, r),
    ensures
        r is Ok <==> e is Ok,
        r is Err ==> contains(r->Err_0@, path),
{
    if let Err(err) = e {
        lemma_failure_names_path(path, err);
    }
}

/// Binds the command written in `command` to a repository action. The command is
/// split into words at whitespace; an empty command is refused.
pub fn create_git_processor(command: String) -> (r: Result<RepositoryAction, String>)
    ensures
        r is Ok <==> words_of(command@).len() > 0,
        r is Ok ==> r->Ok_0.tokens() == words_of(command@) && r->Ok_0.wf(),
        r is Err ==> r->Err_0@ == "Empty git command"@,
{
    let words = split_words(command.as_str());
    proof {
        assert(words@.len() == words_of(command@).len());
    }
    if words.len() == 0 {
        Err(String::from_str("Empty git command"))
    } else {
        Ok(RepositoryAction { command: words })
    }
}

/// The tokens of `ws` joined by single spaces.
pub open spec fn joined(ws: Seq<Seq<char>>) -> Seq<char>
    decreases ws.len(),
{
    if ws.len() == 0 {
        Seq::empty()
    } else if ws.len() == 1 {
        ws[0]
    } else {
        joined(ws.drop_last()) + " "@ + ws.last()
    }
}

/// The command that positional arguments `args` ask for: `status` when there
/// are none, else the arguments joined by single spaces.
pub open spec fn command_text(args: Seq<Seq<char>>) -> Seq<char> {
    if args.len() == 0 {
        "status"@
    } else {
        joined(args)
    }
}

/// The command written by the positional arguments `command`.
pub fn get_command_from_cli(command: &Vec<String>) -> (r: String)
    ensures
        r@ == command_text(tokens_of(command@)),
{
    if command.len() == 0 {
        return String::from_str("status");
    }
    let ghost ws = tokens_of(command@);
    let mut s = String::new();
    let mut i: usize = 0;
    while i < command.len()
        invariant
            0 <= i <= command.len(),
            ws == tokens_of(command@),
            s@ == joined(ws.take(i as int)),
        decreases command.len() - i,
    {
        if i > 0 {
            s.append(" ");
        }
        s.append(command[i].as_str());
        proof {
            let t = ws.take(i + 1);
            assert(t.drop_last() =~= ws.take(i as int));
            assert(t.last() == command@[i as int]@);
            if i == 0 {
                assert(ws.take(0) =~= Seq::<Seq<char>>::empty());
            }
        }
        i += 1;
    }
    assert(ws.take(command.len() as int) =~= ws);
    s
}

} // verus!
