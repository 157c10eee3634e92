use vstd::prelude::*;
use crate::nav::CommandInfo;
use crate::path::{
    is_parent, is_parent_spec, lemma_split_on_append, lemma_split_on_pieces,
    lemma_split_on_single,
    split_at_char, split_on,
};
use crate::record::{parse_record_number, record_number_spec};

verus! {

/// The answer to looking a name up in a directory.
#[derive(Clone, Copy, PartialEq, Eq, Structural, Debug)]
pub enum Lookup {
    /// No child has that name.
    NotFound,
    /// The child is a directory with this record number.
    Directory(u64),
    /// The child is a file with this record number.
    File(u64),
    /// The directory's index could not be read.
    DeviceError,
}

/// Why a path could not be resolved.
#[derive(Clone, Copy, PartialEq, Eq, Structural, Debug)]
pub enum ResolveError {
    /// Reading the volume failed.
    DeviceIo,
    /// A component names nothing in its directory.
    ComponentNotFound,
    /// A component other than the last names a file.
    NotADirectory,
    /// The text after the record-number marker is not a number.
    RecordNumberParse,
}

/// What a successful resolution reached.
#[derive(Clone, Debug)]
pub enum Resolved {
    /// The current directory is the target.
    Directory,
    /// The last component names a file; it was not entered.
    File { record: u64, name: String },
    /// A record number given directly.
    Record(u64),
}

/// The outcome of a resolution, as a mathematical value.
pub enum Outcome {
    Directory,
    File(u64, Seq<char>),
    Record(u64),
    Failed(ResolveError),
}

/// The outcome that an executable result stands for.
pub open spec fn outcome_of(r: Result<Resolved, ResolveError>) -> Outcome {
    match r {
        Ok(Resolved::Directory) => Outcome::Directory,
        Ok(Resolved::File { record, name }) => Outcome::File(record, name@),
        Ok(Resolved::Record(n)) => Outcome::Record(n),
        Err(e) => Outcome::Failed(e),
    }
}

/// A copy of `r`.
fn duplicate(r: &Result<Resolved, ResolveError>) -> (c: Result<Resolved, ResolveError>)
    ensures
        outcome_of(c) == outcome_of(*r),
{
    match r {
        Ok(Resolved::Directory) => Ok(Resolved::Directory),
        Ok(Resolved::File { record, name }) => Ok(Resolved::File { record: *record, name: name.clone() }),
        Ok(Resolved::Record(n)) => Ok(Resolved::Record(*n)),
        Err(e) => Err(*e),
    }
}

/// The navigation state as a mathematical value: the directory stack and
/// the names through which each directory above the root was entered.
pub struct Nav {
    pub stack: Seq<u64>,
    pub names: Seq<Seq<char>>,
}

/// The navigation state of a session.
pub open spec fn nav_of(info: CommandInfo) -> Nav {
    Nav { stack: info.stack(), names: info.names() }
}

/// Ascending one level; the root is a floor.
pub open spec fn pop_nav(m: Nav) -> Nav {
    if m.stack.len() <= 1 {
        m
    } else {
        Nav { stack: m.stack.drop_last(), names: m.names.drop_last() }
    }
}

/// Descending into directory `record`, entered by `name`.
pub open spec fn push_nav(m: Nav, record: u64, name: Seq<char>) -> Nav {
    Nav { stack: m.stack.push(record), names: m.names.push(name) }
}

/// The root stays at index 0 and there is one name per directory above it.
pub open spec fn nav_wf(m: Nav) -> bool {
    m.stack.len() == m.names.len() + 1
}

/// Resolving the components `comps` from index `pos` on, where `dir(d, c)`
/// answers the lookup of name `c` in directory `d`: the navigation state
/// afterwards and the outcome.
pub open spec fn resolve_from(
    dir: spec_fn(u64, Seq<char>) -> Lookup,
    m: Nav,
    comps: Seq<Seq<char>>,
    pos: int,
) -> (Nav, Outcome)
    decreases comps.len() - pos,
{
    if pos < 0 || pos >= comps.len() {
        (m, Outcome::Directory)
    } else if is_parent_spec(comps[pos]) {
        resolve_from(dir, pop_nav(m), comps, pos + 1)
    } else {
        match dir(m.stack.last(), comps[pos]) {
            Lookup::NotFound => (m, Outcome::Failed(ResolveError::ComponentNotFound)),
            Lookup::DeviceError => (m, Outcome::Failed(ResolveError::DeviceIo)),
            Lookup::File(r) => if pos + 1 == comps.len() {
                (m, Outcome::File(r, comps[pos]))
            } else {
                (m, Outcome::Failed(ResolveError::NotADirectory))
            },
            Lookup::Directory(r) => resolve_from(dir, push_nav(m, r, comps[pos]), comps, pos + 1),
        }
    }
}

/// Resolving `path` from navigation state `m`: an empty path stays where it
/// is, a path that starts with `/` names a record number, and any other path
/// is resolved component by component.
pub open spec fn resolve_spec(dir: spec_fn(u64, Seq<char>) -> Lookup, m: Nav, path: Seq<char>) -> (
    Nav,
    Outcome,
) {
    if path.len() == 0 {
        (m, Outcome::Directory)
    } else if path[0] == '/' {
        match record_number_spec(path.drop_first()) {
            Some(n) => (m, Outcome::Record(n)),
            None => (m, Outcome::Failed(ResolveError::RecordNumberParse)),
        }
    } else {
        resolve_from(dir, m, split_on(path, '\\'), 0)
    }
}

/// What the resolver asks of its caller next.
#[derive(Debug)]
pub enum Action {
    /// Look `name` up in directory `directory` and hand the answer to `answer`.
    Lookup { directory: u64, name: String },
    /// The resolution is over.
    Done(Result<Resolved, ResolveError>),
}

/// A resolution in progress: the components of the path and the index of
/// the next one to consume.
pub struct Resolver {
    components: Vec<String>,
    position: usize,
    result: Option<Result<Resolved, ResolveError>>,
}

impl Resolver {
    /// The components of the path being resolved.
    pub closed spec fn comps(&self) -> Seq<Seq<char>> {
        self.components@.map_values(|s: String| s@)
    }

    /// The index of the next component to consume.
    pub closed spec fn pos(&self) -> int {
        self.position as int
    }

    /// The outcome, once the resolution is over.
    pub closed spec fn done(&self) -> Option<Outcome> {
        match self.result {
            Some(r) => Some(outcome_of(r)),
            None => None,
        }
    }

    pub closed spec fn wf(&self) -> bool {
        &&& self.position <= self.components@.len()
        &&& forall|i: int| 0 <= i < self.comps().len() ==> !(#[trigger] self.comps()[i]).contains('\\')
    }

    /// Whether the resolver waits for the answer to a lookup of its current
    /// component.
    pub open spec fn waiting(&self) -> bool {
        &&& self.done().is_none()
        &&& 0 <= self.pos() < self.comps().len()
        &&& !is_parent_spec(self.comps()[self.pos()])
    }

    /// The lookup that the resolver asks for when it waits.
    pub open spec fn asks(&self, info: CommandInfo, a: Action) -> bool {
        match a {
            Action::Lookup { directory, name } => self.waiting() && directory == info.top()
                && name@ == self.comps()[self.pos()],
            Action::Done(r) => self.done() == Some(outcome_of(r)),
        }
    }

    /// Whatever is left of the resolution, when `dir` answers the lookups:
    /// the navigation state and the outcome that it ends with.
    pub open spec fn rest(&self, dir: spec_fn(u64, Seq<char>) -> Lookup, m: Nav) -> (Nav, Outcome) {
        match self.done() {
            Some(o) => (m, o),
            None => resolve_from(dir, m, self.comps(), self.pos()),
        }
    }

    /// Starts resolving `path` from the current directory of `info`.
    pub fn start(path: &str, info: &mut CommandInfo) -> (r: (Resolver, Action))
        requires
            old(info).wf(),
        ensures
            r.0.wf(),
            final(info).wf(),
            final(info).root() == old(info).root(),
            final(info).root_name() == old(info).root_name(),
            final(info).output_dir() == old(info).output_dir(),
            r.0.asks(*final(info), r.1),
            forall|dir: spec_fn(u64, Seq<char>) -> Lookup| #[trigger]
                resolve_spec(dir, nav_of(*old(info)), path@) == r.0.rest(dir, nav_of(*final(info))),
    {
        let n = path.unicode_len();
        if n == 0 {
            let r = Resolver { components: Vec::new(), position: 0, result: Some(Ok(Resolved::Directory)) };
            return (r, Action::Done(Ok(Resolved::Directory)));
        }
        if path.get_char(0) == '/' {
            let result = match parse_record_number(path.substring_char(1, n)) {
                Some(record) => Ok(Resolved::Record(record)),
                None => Err(ResolveError::RecordNumberParse),
            };
            assert(path@.subrange(1, n as int) =~= path@.drop_first());
            let r = Resolver { components: Vec::new(), position: 0, result: Some(duplicate(&result)) };
            return (r, Action::Done(result));
        }
        let components = split_at_char(path, '\\');
        let mut r = Resolver { components, position: 0, result: None };
        let ghost r0 = r;
        let ghost m0 = nav_of(*info);
        assert(r0.comps() == split_on(path@, '\\'));
        proof {
            lemma_split_on_pieces(path@, '\\');
        }
        let action = r.next(info);
        assert forall|dir: spec_fn(u64, Seq<char>) -> Lookup| #[trigger]
            resolve_spec(dir, m0, path@) == r.rest(dir, nav_of(*info)) by {
            assert(r0.rest(dir, m0) == r.rest(dir, nav_of(*info)));
        }
        (r, action)
    }

    /// Consumes the `..` components ahead, then asks for the next lookup, or
    /// ends the resolution once no component is left.
    fn next(&mut self, info: &mut CommandInfo) -> (a: Action)
        requires
            old(self).wf(),
            old(self).done().is_none(),
            old(info).wf(),
        ensures
            final(self).wf(),
            final(info).wf(),
            final(self).comps() == old(self).comps(),
            final(info).root() == old(info).root(),
            final(info).root_name() == old(info).root_name(),
            final(info).output_dir() == old(info).output_dir(),
            final(self).asks(*final(info), a),
            forall|dir: spec_fn(u64, Seq<char>) -> Lookup| #[trigger]
                old(self).rest(dir, nav_of(*old(info))) == final(self).rest(dir, nav_of(*final(info))),
    {
        let ghost comps = self.comps();
        let ghost pos0 = self.pos();
        let ghost m0 = nav_of(*info);
        while self.position < self.components.len()
            invariant
                self.wf(),
                info.wf(),
                self.done().is_none(),
                self.comps() == comps,
                comps == old(self).comps(),
                pos0 == old(self).pos(),
                old(self).done().is_none(),
                m0 == nav_of(*old(info)),
                info.root() == old(info).root(),
                info.root_name() == old(info).root_name(),
                info.output_dir() == old(info).output_dir(),
                forall|dir: spec_fn(u64, Seq<char>) -> Lookup| #[trigger]
                    resolve_from(dir, m0, comps, pos0) == resolve_from(dir, nav_of(*info), comps, self.pos()),
            decreases self.components@.len() - self.position,
        {
            let i = self.position;
            if !is_parent(self.components[i].as_str()) {
                let name = self.components[i].clone();
                assert(self.done().is_none());
                assert forall|dir: spec_fn(u64, Seq<char>) -> Lookup| #[trigger]
                    old(self).rest(dir, nav_of(*old(info))) == self.rest(dir, nav_of(*info)) by {
                    assert(resolve_from(dir, m0, comps, pos0) == resolve_from(dir, nav_of(*info), comps, self.pos()));
                }
                return Action::Lookup { directory: info.current(), name };
            }
            let ghost before = nav_of(*info);
            info.pop();
            assert(nav_of(*info) == pop_nav(before)) by {
                if before.stack.len() > 1 {
                    assert(nav_of(*info) =~= pop_nav(before));
                }
            }
            self.position = i + 1;
        }
        self.result = Some(Ok(Resolved::Directory));
        Action::Done(Ok(Resolved::Directory))
    }

    /// Takes the answer to the lookup that the resolver asked for, and says
    /// what it asks next.
    pub fn answer(&mut self, info: &mut CommandInfo, found: Lookup) -> (a: Action)
        requires
            old(self).wf(),
            old(self).waiting(),
            old(info).wf(),
        ensures
            final(self).wf(),
            final(info).wf(),
            final(info).root() == old(info).root(),
            final(info).root_name() == old(info).root_name(),
            final(info).output_dir() == old(info).output_dir(),
            final(self).asks(*final(info), a),
            forall|dir: spec_fn(u64, Seq<char>) -> Lookup|
                dir(old(info).top(), old(self).comps()[old(self).pos()]) == found ==>
                #[trigger] old(self).rest(dir, nav_of(*old(info))) == final(self).rest(
                    dir,
                    nav_of(*final(info)),
                ),
    {
        let i = self.position;
        assert(self.comps().len() == self.components@.len());
        assert(i < self.components.len());
        let result = match found {
            Lookup::NotFound => Err(ResolveError::ComponentNotFound),
            Lookup::DeviceError => Err(ResolveError::DeviceIo),
            Lookup::File(record) => {
                if i + 1 == self.components.len() {
                    Ok(Resolved::File { record, name: self.components[i].clone() })
                } else {
                    Err(ResolveError::NotADirectory)
                }
            },
            Lookup::Directory(record) => {
                let ghost before = nav_of(*info);
                info.push(record, self.components[i].as_str());
                assert(nav_of(*info) =~= push_nav(before, record, self.comps()[i as int]));
                self.position = i + 1;
                assert forall|dir: spec_fn(u64, Seq<char>) -> Lookup|
                    dir(old(info).top(), old(self).comps()[old(self).pos()]) == found implies
                    #[trigger] old(self).rest(dir, nav_of(*old(info))) == resolve_from(
                        dir,
                        nav_of(*info),
                        self.comps(),
                        self.pos(),
                    ) by {
                    assert(old(info).top() == nav_of(*old(info)).stack.last());
                }
                if self.position == self.components.len() {
                    self.result = Some(Ok(Resolved::Directory));
                    return Action::Done(Ok(Resolved::Directory));
                }
                let ghost mid = *self;
                let ghost mid_info = *info;
                let a = self.next(info);
                assert forall|dir: spec_fn(u64, Seq<char>) -> Lookup|
                    dir(old(info).top(), old(self).comps()[old(self).pos()]) == found implies
                    #[trigger] old(self).rest(dir, nav_of(*old(info))) == self.rest(
                        dir,
                        nav_of(*info),
                    ) by {
                    assert(mid.rest(dir, nav_of(mid_info)) == self.rest(dir, nav_of(*info)));
                }
                return a;
            },
        };
        self.result = Some(duplicate(&result));
        Action::Done(result)
    }
}

/// Resolving components keeps the root at the bottom of the stack and one
/// name per directory above it.
pub proof fn lemma_resolve_from_keeps_root(
    dir: spec_fn(u64, Seq<char>) -> Lookup,
    m: Nav,
    comps: Seq<Seq<char>>,
    pos: int,
)
    requires
        nav_wf(m),
    ensures
        nav_wf(resolve_from(dir, m, comps, pos).0),
        resolve_from(dir, m, comps, pos).0.stack[0] == m.stack[0],
    decreases comps.len() - pos,
{
    if pos < 0 || pos >= comps.len() {
    } else if is_parent_spec(comps[pos]) {
        lemma_resolve_from_keeps_root(dir, pop_nav(m), comps, pos + 1);
    } else {
        match dir(m.stack.last(), comps[pos]) {
            Lookup::Directory(r) => {
                lemma_resolve_from_keeps_root(dir, push_nav(m, r, comps[pos]), comps, pos + 1);
            },
            _ => {},
        }
    }
}

/// Whatever a path resolves to, the first directory of the stack is still
/// the root, and the stack holds one directory per entered name above it,
/// so that the path string has one component per level below the root.
pub proof fn lemma_resolve_keeps_root(dir: spec_fn(u64, Seq<char>) -> Lookup, m: Nav, path: Seq<char>)
    requires
        nav_wf(m),
    ensures
        nav_wf(resolve_spec(dir, m, path).0),
        resolve_spec(dir, m, path).0.stack[0] == m.stack[0],
{
    if path.len() > 0 && path[0] != '/' {
        lemma_resolve_from_keeps_root(dir, m, split_on(path, '\\'), 0);
    }
}

/// Resolving the empty path changes nothing and succeeds at the current
/// directory.
pub proof fn lemma_resolve_empty(dir: spec_fn(u64, Seq<char>) -> Lookup, m: Nav)
    ensures
        resolve_spec(dir, m, Seq::<char>::empty()) == (m, Outcome::Directory),
{
}

/// Resolving `..` at the root leaves the navigation state as it was and
/// succeeds.
pub proof fn lemma_resolve_parent_at_root(dir: spec_fn(u64, Seq<char>) -> Lookup, m: Nav)
    requires
        nav_wf(m),
        m.stack.len() == 1,
    ensures
        resolve_spec(dir, m, seq!['.', '.']) == (m, Outcome::Directory),
{
    let p = seq!['.', '.'];
    assert(!p.contains('\\')) by {
        if p.contains('\\') {
            let k = choose|k: int| 0 <= k < p.len() && p[k] == '\\';
        }
    }
    lemma_split_on_single(p, '\\');
    let comps = split_on(p, '\\');
    assert(is_parent_spec(comps[0]));
    assert(pop_nav(m) == m);
    assert(resolve_from(dir, m, comps, 1) == (m, Outcome::Directory));
    assert(resolve_from(dir, m, comps, 0) == (m, Outcome::Directory));
    assert(p[0] == '.');
}

/// The path `a\b` built from two components that hold no separator.
pub open spec fn join2(a: Seq<char>, b: Seq<char>) -> Seq<char> {
    a.push('\\') + b
}

proof fn lemma_split_two(a: Seq<char>, b: Seq<char>)
    requires
        !a.contains('\\'),
        !b.contains('\\'),
    ensures
        split_on(join2(a, b), '\\') == seq![a, b],
        split_on(a, '\\') == seq![a],
{
    lemma_split_on_single(a, '\\');
    lemma_split_on_append(a, b, '\\');
    assert(seq![a].push(b) =~= seq![a, b]);
}

/// Where `a` is a directory of the current one and `b` is not found in it,
/// resolving `a\b` fails with `ComponentNotFound` and leaves the stack as
/// resolving `a` alone does: the prefix that resolved is kept.
pub proof fn lemma_resolve_missing_keeps_prefix(
    dir: spec_fn(u64, Seq<char>) -> Lookup,
    m: Nav,
    a: Seq<char>,
    b: Seq<char>,
    r: u64,
)
    requires
        a.len() > 0,
        a[0] != '/',
        !a.contains('\\'),
        !b.contains('\\'),
        !is_parent_spec(a),
        !is_parent_spec(b),
        dir(m.stack.last(), a) == Lookup::Directory(r),
        dir(r, b) == Lookup::NotFound,
    ensures
        resolve_spec(dir, m, join2(a, b)) == (
            resolve_spec(dir, m, a).0,
            Outcome::Failed(ResolveError::ComponentNotFound),
        ),
        resolve_spec(dir, m, a) == (push_nav(m, r, a), Outcome::Directory),
{
    lemma_split_two(a, b);
    assert(join2(a, b)[0] == a[0]);
    let m1 = push_nav(m, r, a);
    assert(m1.stack.last() == r);
    let one = seq![a];
    let two = seq![a, b];
    assert(resolve_from(dir, m1, one, 1) == (m1, Outcome::Directory));
    assert(resolve_from(dir, m, one, 0) == (m1, Outcome::Directory));
    assert(two[1] == b);
    assert(resolve_from(dir, m, two, 0) == resolve_from(dir, m1, two, 1));
}

/// Where `a` is a directory of the current one and `b` a file in it,
/// resolving `a\b` succeeds with the file `b` as target, and the stack is
/// the one that resolving `a` gives: the file itself is not entered.
pub proof fn lemma_resolve_trailing_file(
    dir: spec_fn(u64, Seq<char>) -> Lookup,
    m: Nav,
    a: Seq<char>,
    b: Seq<char>,
    r: u64,
    f: u64,
)
    requires
        a.len() > 0,
        a[0] != '/',
        !a.contains('\\'),
        !b.contains('\\'),
        !is_parent_spec(a),
        !is_parent_spec(b),
        dir(m.stack.last(), a) == Lookup::Directory(r),
        dir(r, b) == Lookup::File(f),
    ensures
        resolve_spec(dir, m, join2(a, b)) == (resolve_spec(dir, m, a).0, Outcome::File(f, b)),
        resolve_spec(dir, m, a).0 == push_nav(m, r, a),
{
    lemma_split_two(a, b);
    assert(join2(a, b)[0] == a[0]);
    let m1 = push_nav(m, r, a);
    assert(m1.stack.last() == r);
    let one = seq![a];
    let two = seq![a, b];
    assert(resolve_from(dir, m1, one, 1) == (m1, Outcome::Directory));
    assert(resolve_from(dir, m, one, 0) == (m1, Outcome::Directory));
    assert(two[1] == b);
    assert(resolve_from(dir, m, two, 0) == resolve_from(dir, m1, two, 1));
}

} // verus!
