use vstd::prelude::*;
use crate::nav::CommandInfo;
use crate::path::{lemma_split_on_nonempty, split_at_char, split_on};
use crate::resolve::{
    nav_of, outcome_of, resolve_spec, Action, Lookup, Nav, Outcome, ResolveError, Resolved, Resolver,
};

verus! {

/// What a batch does after a job fails.
#[derive(Clone, Copy, PartialEq, Eq, Structural, Debug)]
pub enum FailurePolicy {
    /// Stop the whole run.
    Abort,
    /// Go on with the next job.
    Continue,
}

/// Why a job extracted nothing.
#[derive(Clone, Copy, PartialEq, Eq, Structural, Debug)]
pub enum JobError {
    /// Its path did not resolve.
    Resolve(ResolveError),
    /// Its path names a directory, where a file is needed.
    NotAFile,
}

/// The navigation state at the root of `m`.
pub open spec fn root_nav(m: Nav) -> Nav {
    Nav { stack: seq![m.stack[0]], names: Seq::<Seq<char>>::empty() }
}

/// Resolving the path of a job: always from the root, whatever state the
/// session was left in.
pub open spec fn job_spec(dir: spec_fn(u64, Seq<char>) -> Lookup, m: Nav, path: Seq<char>) -> (
    Nav,
    Outcome,
) {
    resolve_spec(dir, root_nav(m), path)
}

/// Starts the job for `path`: returns to the root, then starts resolving.
pub fn begin_job(info: &mut CommandInfo, path: &str) -> (r: (Resolver, Action))
    requires
        old(info).wf(),
    ensures
        r.0.wf(),
        final(info).wf(),
        final(info).root() == old(info).root(),
        final(info).root_name() == old(info).root_name(),
        final(info).output_dir() == old(info).output_dir(),
        r.0.asks(*final(info), r.1),
        forall|dir: spec_fn(u64, Seq<char>) -> Lookup| #[trigger]
            job_spec(dir, nav_of(*old(info)), path@) == r.0.rest(dir, nav_of(*final(info))),
{
    info.reset_to_root();
    let ghost at_root = *info;
    assert(nav_of(at_root) =~= root_nav(nav_of(*old(info))));
    let r = Resolver::start(path, info);
    assert forall|dir: spec_fn(u64, Seq<char>) -> Lookup| #[trigger]
        job_spec(dir, nav_of(*old(info)), path@) == r.0.rest(dir, nav_of(*info)) by {
        assert(resolve_spec(dir, nav_of(at_root), path@) == r.0.rest(dir, nav_of(*info)));
    }
    r
}

/// The file that a job extracts from, by the outcome of its resolution.
pub open spec fn source_spec(o: Outcome) -> Result<u64, JobError> {
    match o {
        Outcome::File(record, _) => Ok(record),
        Outcome::Record(record) => Ok(record),
        Outcome::Directory => Err(JobError::NotAFile),
        Outcome::Failed(e) => Err(JobError::Resolve(e)),
    }
}

/// The record number of the file that a job extracts from.
pub fn extraction_source(r: &Result<Resolved, ResolveError>) -> (s: Result<u64, JobError>)
    ensures
        s == source_spec(outcome_of(*r)),
{
    match r {
        Ok(Resolved::File { record, name: _ }) => Ok(*record),
        Ok(Resolved::Record(record)) => Ok(*record),
        Ok(Resolved::Directory) => Err(JobError::NotAFile),
        Err(e) => Err(JobError::Resolve(*e)),
    }
}

/// The target of a job: the last component of its path.
pub fn job_target(path: &str) -> (r: String)
    ensures
        r@ == split_on(path@, '\\').last(),
{
    let mut parts = split_at_char(path, '\\');
    proof {
        lemma_split_on_nonempty(path@, '\\');
    }
    let ghost all = parts@;
    let last = parts.pop().unwrap();
    assert(last@ == all.map_values(|p: String| p@).last());
    last
}

/// Whether the batch goes on after a job that succeeded or not.
pub fn continue_after(policy: FailurePolicy, succeeded: bool) -> (r: bool)
    ensures
        r == (succeeded || policy == FailurePolicy::Continue),
{
    succeeded || policy == FailurePolicy::Continue
}

/// `s` with every `c` taken out.
pub open spec fn without(s: Seq<char>, c: char) -> Seq<char>
    decreases s.len(),
{
    if s.len() == 0 {
        s
    } else if s.last() == c {
        without(s.drop_last(), c)
    } else {
        without(s.drop_last(), c).push(s.last())
    }
}

/// `s` with every carriage return taken out.
pub fn strip_carriage_returns(s: &str) -> (r: String)
    ensures
        r@ == without(s@, '\r'),
{
    let n = s.unicode_len();
    let mut r = String::new();
    let mut i: usize = 0;
    while i < n
        invariant
            n == s@.len(),
            i <= n,
            r@ == without(s@.take(i as int), '\r'),
        decreases n - i,
    {
        let c = s.get_char(i);
        assert(s@.take(i + 1).drop_last() =~= s@.take(i as int));
        assert(s@.take(i + 1).last() == c);
        if c != '\r' {
            let one = s.substring_char(i, i + 1);
            assert(one@ =~= seq![c]);
            r.append(one);
            assert(r@ =~= without(s@.take(i + 1), '\r'));
        }
        i = i + 1;
    }
    assert(s@.take(n as int) =~= s@);
    r
}

/// The paths of a batch input: one per line, carriage returns taken out.
pub fn input_paths(text: &str) -> (r: Vec<String>)
    ensures
        r@.map_values(|p: String| p@) == split_on(text@, '\n').map_values(
            |l: Seq<char>| without(l, '\r'),
        ),
{
    let lines = split_at_char(text, '\n');
    let ghost ls = lines@.map_values(|p: String| p@);
    let mut r: Vec<String> = Vec::new();
    let mut i: usize = 0;
    while i < lines.len()
        invariant
            i <= lines@.len(),
            ls == lines@.map_values(|p: String| p@),
            r@.map_values(|p: String| p@) == ls.take(i as int).map_values(
                |l: Seq<char>| without(l, '\r'),
            ),
        decreases lines.len() - i,
    {
        let line = strip_carriage_returns(lines[i].as_str());
        let ghost prev = r@.map_values(|p: String| p@);
        r.push(line);
        assert(r@.map_values(|p: String| p@) =~= prev.push(without(ls[i as int], '\r')));
        assert(ls.take(i + 1) =~= ls.take(i as int).push(ls[i as int]));
        i = i + 1;
        assert(r@.map_values(|p: String| p@) =~= ls.take(i as int).map_values(
            |l: Seq<char>| without(l, '\r'),
        ));
    }
    assert(ls.take(i as int) =~= ls);
    r
}

/// A job starts from the root whatever the jobs before it left behind: two
/// sessions on one root resolve a path alike, so a failed job cannot change
/// what the next one reaches.
pub proof fn lemma_jobs_independent(
    dir: spec_fn(u64, Seq<char>) -> Lookup,
    before: Nav,
    other: Nav,
    path: Seq<char>,
)
    requires
        before.stack.len() >= 1,
        other.stack.len() >= 1,
        before.stack[0] == other.stack[0],
    ensures
        job_spec(dir, before, path) == job_spec(dir, other, path),
        job_spec(dir, before, path) == resolve_spec(
            dir,
            Nav { stack: seq![before.stack[0]], names: Seq::<Seq<char>>::empty() },
            path,
        ),
{
    assert(root_nav(before) == root_nav(other));
}

} // verus!
