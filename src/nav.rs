use vstd::prelude::*;
use crate::path::{count_char, lemma_count_char_absent, lemma_count_char_concat};

verus! {

/// The display form of a directory reached from the root by descending
/// through `names`: the root's own form, then each name followed by a separator.
pub open spec fn display_of(root_name: Seq<char>, names: Seq<Seq<char>>) -> Seq<char>
    decreases names.len(),
{
    if names.len() == 0 {
        root_name
    } else {
        display_of(root_name, names.drop_last()) + names.last().push('\\')
    }
}

/// The navigation state of a session: a stack of open directories, each
/// identified by its record number on the volume, with the root at index 0,
/// and the human-readable path of the current directory.
pub struct CommandInfo {
    current_directory: Vec<u64>,
    component_names: Vec<String>,
    current_directory_name: String,
    root_name: String,
    output: String,
}

impl CommandInfo {
    /// The record numbers of the open directories, root first.
    pub closed spec fn stack(&self) -> Seq<u64> {
        self.current_directory@
    }

    /// The names through which each directory above the root was entered.
    pub closed spec fn names(&self) -> Seq<Seq<char>> {
        self.component_names@.map_values(|s: String| s@)
    }

    /// The display form of the root directory.
    pub closed spec fn root_name(&self) -> Seq<char> {
        self.root_name@
    }

    /// The human-readable path of the current directory.
    pub closed spec fn path_name(&self) -> Seq<char> {
        self.current_directory_name@
    }

    /// The output directory of the session.
    pub closed spec fn output_dir(&self) -> Seq<char> {
        self.output@
    }

    /// The root's record number.
    pub open spec fn root(&self) -> u64 {
        self.stack()[0]
    }

    /// The directory that lookups go to: the top of the stack.
    pub open spec fn top(&self) -> u64 {
        self.stack().last()
    }

    /// The stack is never empty, holds one directory per entered name above
    /// the root, no name holds a separator, and the path string mirrors the
    /// names.
    pub open spec fn wf(&self) -> bool {
        &&& self.stack().len() == self.names().len() + 1
        &&& forall|i: int| 0 <= i < self.names().len() ==> !(#[trigger] self.names()[i]).contains('\\')
        &&& self.path_name() == display_of(self.root_name(), self.names())
    }

    /// A session at the root directory `root`, shown as `root_name`, that
    /// writes into `output`.
    pub fn new(root: u64, root_name: &str, output: &str) -> (r: CommandInfo)
        ensures
            r.wf(),
            r.stack() == seq![root],
            r.names() == Seq::<Seq<char>>::empty(),
            r.root_name() == root_name@,
            r.path_name() == root_name@,
            r.output_dir() == output@,
    {
        let mut current_directory: Vec<u64> = Vec::new();
        current_directory.push(root);
        let r = CommandInfo {
            current_directory,
            component_names: Vec::new(),
            current_directory_name: String::from_str(root_name),
            root_name: String::from_str(root_name),
            output: String::from_str(output),
        };
        assert(r.names() =~= Seq::<Seq<char>>::empty());
        assert(r.stack() =~= seq![root]);
        r
    }

    /// The record number of the current directory.
    pub fn current(&self) -> (r: u64)
        requires
            self.wf(),
        ensures
            r == self.top(),
    {
        self.current_directory[self.current_directory.len() - 1]
    }

    /// The record numbers of the open directories, root first.
    pub fn directories(&self) -> (r: &Vec<u64>)
        ensures
            r@ == self.stack(),
    {
        &self.current_directory
    }

    /// The human-readable path of the current directory.
    pub fn current_directory_name(&self) -> (r: &str)
        ensures
            r@ == self.path_name(),
    {
        self.current_directory_name.as_str()
    }

    /// The output directory of the session.
    pub fn output(&self) -> (r: &str)
        ensures
            r@ == self.output_dir(),
    {
        self.output.as_str()
    }

    /// Descends into the directory `record`, entered by `name`.
    pub fn push(&mut self, record: u64, name: &str)
        requires
            old(self).wf(),
            !name@.contains('\\'),
        ensures
            final(self).wf(),
            final(self).stack() == old(self).stack().push(record),
            final(self).names() == old(self).names().push(name@),
            final(self).root_name() == old(self).root_name(),
            final(self).output_dir() == old(self).output_dir(),
    {
        let ghost old_names = self.names();
        self.current_directory.push(record);
        self.component_names.push(String::from_str(name));
        self.current_directory_name.append(name);
        self.current_directory_name.append("\\");
        proof {
            reveal_strlit("\\");
            assert(self.names() =~= old_names.push(name@));
            assert(self.names().drop_last() =~= old_names);
            assert forall|i: int| 0 <= i < self.names().len() implies !(#[trigger] self.names()[i]).contains('\\') by {
                if i < old_names.len() {
                    assert(self.names()[i] == old_names[i]);
                }
            }
            assert(self.path_name() =~= display_of(self.root_name(), self.names()));
        }
    }

    /// Ascends one level; at the root nothing changes.
    pub fn pop(&mut self)
        requires
            old(self).wf(),
        ensures
            final(self).wf(),
            old(self).stack().len() == 1 ==> *final(self) == *old(self),
            old(self).stack().len() > 1 ==> final(self).stack() == old(self).stack().drop_last()
                && final(self).names() == old(self).names().drop_last(),
            final(self).root_name() == old(self).root_name(),
            final(self).output_dir() == old(self).output_dir(),
    {
        if self.current_directory.len() <= 1 {
            return;
        }
        let ghost old_names = self.names();
        self.current_directory.pop();
        self.component_names.pop();
        assert(self.names() =~= old_names.drop_last());
        assert forall|i: int| 0 <= i < self.names().len() implies !(#[trigger] self.names()[i]).contains('\\') by {
            assert(self.names()[i] == old_names[i]);
        }
        self.current_directory_name = render(self.root_name.as_str(), &self.component_names);
    }

    /// Returns to the root directory.
    pub fn reset_to_root(&mut self)
        requires
            old(self).wf(),
        ensures
            final(self).wf(),
            final(self).stack() == seq![old(self).root()],
            final(self).names() == Seq::<Seq<char>>::empty(),
            final(self).path_name() == old(self).root_name(),
            final(self).root_name() == old(self).root_name(),
            final(self).output_dir() == old(self).output_dir(),
    {
        let root = self.current_directory[0];
        self.current_directory = Vec::new();
        self.current_directory.push(root);
        self.component_names = Vec::new();
        self.current_directory_name = String::from_str(self.root_name.as_str());
        assert(self.stack() =~= seq![root]);
        assert(self.names() =~= Seq::<Seq<char>>::empty());
    }
}

/// The display form for `names` under a root shown as `root_name`.
fn render(root_name: &str, names: &Vec<String>) -> (r: String)
    ensures
        r@ == display_of(root_name@, names@.map_values(|s: String| s@)),
{
    let mut r = String::from_str(root_name);
    let mut i: usize = 0;
    while i < names.len()
        invariant
            i <= names@.len(),
            r@ == display_of(root_name@, names@.map_values(|s: String| s@).take(i as int)),
        decreases names.len() - i,
    {
        proof {
            reveal_strlit("\\");
        }
        r.append(names[i].as_str());
        r.append("\\");
        let ghost all = names@.map_values(|s: String| s@);
        assert(all.take(i + 1).drop_last() =~= all.take(i as int));
        assert(all.take(i + 1).last() == names@[i as int]@);
        i = i + 1;
    }
    assert(names@.map_values(|s: String| s@).take(i as int) =~= names@.map_values(|s: String| s@));
    r
}

/// The separators of a display form: those of the root's form, and one
/// more per name.
pub proof fn lemma_display_separators(root_name: Seq<char>, names: Seq<Seq<char>>)
    requires
        forall|i: int| 0 <= i < names.len() ==> !(#[trigger] names[i]).contains('\\'),
    ensures
        count_char(display_of(root_name, names), '\\') == count_char(root_name, '\\') + names.len(),
    decreases names.len(),
{
    if names.len() > 0 {
        let init = names.drop_last();
        assert forall|i: int| 0 <= i < init.len() implies !(#[trigger] init[i]).contains('\\') by {
            assert(init[i] == names[i]);
        }
        lemma_display_separators(root_name, init);
        let last = names.last();
        assert(!last.contains('\\')) by {
            assert(names[names.len() - 1] == last);
        }
        lemma_count_char_absent(last, '\\');
        assert(last.push('\\').drop_last() =~= last);
        lemma_count_char_concat(display_of(root_name, init), last.push('\\'), '\\');
    }
}

/// In every state of a session the root is at the bottom of the stack, and
/// the path string holds one component per directory above it: its
/// separators are those of the root's form and one per level.
pub proof fn lemma_path_name_components(info: CommandInfo)
    requires
        info.wf(),
    ensures
        info.stack().len() >= 1,
        count_char(info.path_name(), '\\') == count_char(info.root_name(), '\\') + info.stack().len() - 1,
{
    lemma_display_separators(info.root_name(), info.names());
}

/// Resets the session to its root directory.
pub fn cd_root(info: &mut CommandInfo)
    requires
        old(info).wf(),
    ensures
        final(info).wf(),
        final(info).stack() == seq![old(info).root()],
        final(info).path_name() == old(info).root_name(),
        final(info).names() == Seq::<Seq<char>>::empty(),
        final(info).root_name() == old(info).root_name(),
        final(info).output_dir() == old(info).output_dir(),
{
    info.reset_to_root();
}

} // verus!
