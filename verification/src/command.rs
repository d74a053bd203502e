//! Commands as plain values: what to run, with which arguments, and which
//! secrets to place in its environment.

use vstd::prelude::*;

verus! {

/// The entries of a secret environment: names with their values, in the
/// order in which the names were first given.
pub type Entries = Seq<(Seq<char>, Seq<char>)>;

/// The index of the entry for `name`, if there is one (the first, if there
/// are several).
pub open spec fn position(entries: Entries, name: Seq<char>) -> Option<int>
    decreases entries.len(),
{
    if entries.len() == 0 {
        None
    } else {
        match position(entries.drop_last(), name) {
            Some(i) => Some(i),
            None => if entries.last().0 == name {
                Some(entries.len() - 1)
            } else {
                None
            },
        }
    }
}

/// No name occurs twice.
pub open spec fn distinct_names(entries: Entries) -> bool {
    forall|i: int, j: int|
        0 <= i < j < entries.len() ==> (#[trigger] entries[i]).0 != (#[trigger] entries[j]).0
}

/// The value recorded for `name`.
pub open spec fn lookup(entries: Entries, name: Seq<char>) -> Option<Seq<char>> {
    match position(entries, name) {
        Some(i) => Some(entries[i].1),
        None => None,
    }
}

/// The entries after `name` was set to `value`: an entry for `name` keeps its
/// place and takes the new value, a new name goes to the end.
pub open spec fn inserted(entries: Entries, name: Seq<char>, value: Seq<char>) -> Entries {
    match position(entries, name) {
        Some(i) => entries.update(i, (name, value)),
        None => entries.push((name, value)),
    }
}

/// `base` after every entry of `over` was set in it, in order.
pub open spec fn merged(base: Entries, over: Entries) -> Entries
    decreases over.len(),
{
    if over.len() == 0 {
        base
    } else {
        inserted(merged(base, over.drop_last()), over.last().0, over.last().1)
    }
}

/// What `position` finds is an entry for the name, and the first one.
pub proof fn lemma_position(entries: Entries, name: Seq<char>)
    ensures
        match position(entries, name) {
            Some(i) => {
                &&& 0 <= i < entries.len()
                &&& entries[i].0 == name
                &&& forall|k: int| 0 <= k < i ==> (#[trigger] entries[k]).0 != name
            },
            None => forall|k: int| 0 <= k < entries.len() ==> (#[trigger] entries[k]).0 != name,
        },
    decreases entries.len(),
{
    if entries.len() > 0 {
        let front = entries.drop_last();
        lemma_position(front, name);
        assert forall|k: int| 0 <= k < front.len() implies front[k] == entries[k] by {}
        match position(front, name) {
            Some(i) => {
                assert forall|k: int| 0 <= k < i implies (#[trigger] entries[k]).0 != name by {
                    assert(front[k].0 != name);
                }
            },
            None => {
                assert forall|k: int| 0 <= k < front.len() implies (#[trigger] entries[k]).0
                    != name by {
                    assert(front[k].0 != name);
                }
            },
        }
    }
}

/// The first entry for a name is the one that `position` finds.
pub proof fn lemma_position_is(entries: Entries, name: Seq<char>, i: int)
    requires
        0 <= i < entries.len(),
        entries[i].0 == name,
        forall|k: int| 0 <= k < i ==> (#[trigger] entries[k]).0 != name,
    ensures
        position(entries, name) == Some(i),
{
    lemma_position(entries, name);
    match position(entries, name) {
        Some(j) => {
            if j < i {
                assert(entries[j].0 != name);
            }
        },
        None => {
            assert(entries[i].0 != name);
        },
    }
}

/// Setting a name records the value for it and leaves every other name with
/// what was recorded for it before.
pub proof fn lemma_inserted_lookup(
    entries: Entries,
    name: Seq<char>,
    value: Seq<char>,
    other: Seq<char>,
)
    ensures
        lookup(inserted(entries, name, value), other) == if other == name {
            Some(value)
        } else {
            lookup(entries, other)
        },
{
    let after = inserted(entries, name, value);
    lemma_position(entries, name);
    lemma_position(entries, other);
    if other == name {
        match position(entries, name) {
            Some(i) => lemma_position_is(after, name, i),
            None => lemma_position_is(after, name, entries.len() as int),
        }
    } else {
        match position(entries, other) {
            Some(j) => lemma_position_is(after, other, j),
            None => {
                lemma_position(after, other);
                if let Some(j) = position(after, other) {
                    if j < entries.len() {
                        assert(entries[j].0 != other);
                    }
                }
            },
        }
    }
}

/// Setting a name keeps the names distinct.
pub proof fn lemma_inserted_distinct(entries: Entries, name: Seq<char>, value: Seq<char>)
    requires
        distinct_names(entries),
    ensures
        distinct_names(inserted(entries, name, value)),
{
    lemma_position(entries, name);
}

/// After a merge, a name that `over` holds has the value that `over` gives
/// it, and every other name has what `base` gave it.
pub proof fn lemma_merged_lookup(base: Entries, over: Entries, name: Seq<char>)
    requires
        distinct_names(over),
    ensures
        lookup(merged(base, over), name) == match lookup(over, name) {
            Some(value) => Some(value),
            None => lookup(base, name),
        },
    decreases over.len(),
{
    if over.len() > 0 {
        let front = over.drop_last();
        let last = over.last();
        assert forall|i: int, j: int| 0 <= i < j < front.len() implies (#[trigger] front[i]).0 != (
        #[trigger] front[j]).0 by {
            assert(front[i] == over[i] && front[j] == over[j]);
        }
        lemma_merged_lookup(base, front, name);
        lemma_inserted_lookup(merged(base, front), last.0, last.1, name);
        lemma_position(front, name);
        if last.0 == name {
            assert forall|k: int| 0 <= k < over.len() - 1 implies (#[trigger] over[k]).0 != name by {
                assert(over[k].0 != over[over.len() - 1].0);
            }
            lemma_position_is(over, name, over.len() - 1);
        }
    }
}

/// Secrets for a process's environment: a mapping from variable names to
/// values, kept apart from the command's arguments.
#[derive(Debug, PartialEq, Eq)]
pub struct SecretEnvironment {
    entries: Vec<(String, String)>,
}

impl View for SecretEnvironment {
    type V = Entries;

    closed spec fn view(&self) -> Entries {
        self.entries.deep_view()
    }
}

impl SecretEnvironment {
    /// Each name has one entry.
    pub open spec fn wf(&self) -> bool {
        distinct_names(self@)
    }

    /// An environment without entries.
    pub fn new() -> (env: Self)
        ensures
            env@ == Entries::empty(),
            env.wf(),
    {
        let env = SecretEnvironment { entries: Vec::new() };
        assert(env@ =~= Entries::empty());
        env
    }

    /// The number of entries.
    pub fn len(&self) -> (n: usize)
        ensures
            n == self@.len(),
    {
        self.entries.len()
    }

    /// The name of the entry at `index`.
    pub fn name_at(&self, index: usize) -> (name: &str)
        requires
            index < self@.len(),
        ensures
            name@ == self@[index as int].0,
    {
        self.entries[index].0.as_str()
    }

    /// The value of the entry at `index`.
    pub fn value_at(&self, index: usize) -> (value: &str)
        requires
            index < self@.len(),
        ensures
            value@ == self@[index as int].1,
    {
        self.entries[index].1.as_str()
    }

    fn find(&self, name: &String) -> (found: Option<usize>)
        ensures
            match found {
                Some(i) => position(self@, name@) == Some(i as int) && i < self@.len(),
                None => position(self@, name@) is None,
            },
    {
        let n = self.entries.len();
        let mut i: usize = 0;
        while i < n
            invariant
                n == self@.len(),
                n == self.entries@.len(),
                i <= n,
                forall|k: int| 0 <= k < i ==> (#[trigger] self@[k]).0 != name@,
            decreases n - i,
        {
            if self.entries[i].0 == *name {
                proof {
                    lemma_position_is(self@, name@, i as int);
                }
                return Some(i);
            }
            i += 1;
        }
        proof {
            lemma_position(self@, name@);
        }
        None
    }

    /// The value recorded for `name`, if any.
    pub fn get(&self, name: &str) -> (value: Option<&str>)
        ensures
            match value {
                Some(v) => lookup(self@, name@) == Some(v@),
                None => lookup(self@, name@) is None,
            },
    {
        let key = String::from_str(name);
        match self.find(&key) {
            Some(i) => Some(self.entries[i].1.as_str()),
            None => None,
        }
    }

    /// Sets `name` to `value`, in place of an earlier value for that name.
    pub fn insert(&mut self, name: &str, value: &str)
        ensures
            final(self)@ == inserted(old(self)@, name@, value@),
            old(self).wf() ==> final(self).wf(),
    {
        let key = String::from_str(name);
        let entry = (String::from_str(name), String::from_str(value));
        proof {
            if old(self).wf() {
                lemma_inserted_distinct(old(self)@, name@, value@);
            }
        }
        match self.find(&key) {
            Some(i) => {
                self.entries.set(i, entry);
                assert(self@ =~= old(self)@.update(i as int, (name@, value@)));
            },
            None => {
                self.entries.push(entry);
                assert(self@ =~= old(self)@.push((name@, value@)));
            },
        }
    }

    /// Sets every entry of `over` in this environment, in order.
    pub fn merge(&mut self, over: &SecretEnvironment)
        ensures
            final(self)@ == merged(old(self)@, over@),
            old(self).wf() ==> final(self).wf(),
    {
        let n = over.len();
        let mut i: usize = 0;
        assert(over@.take(0) =~= Entries::empty());
        while i < n
            invariant
                n == over@.len(),
                i <= n,
                self@ == merged(old(self)@, over@.take(i as int)),
                old(self).wf() ==> self.wf(),
            decreases n - i,
        {
            proof {
                let next = over@.take(i + 1);
                assert(next.drop_last() =~= over@.take(i as int));
                assert(next.last() == over@[i as int]);
            }
            self.insert(over.name_at(i), over.value_at(i));
            i += 1;
        }
        assert(over@.take(n as int) =~= over@);
    }
}

/// A command to run: the program, its arguments in order, and the secrets to
/// set in its environment, over the environment of the caller.
#[derive(Debug, PartialEq, Eq)]
pub struct CommandSpec {
    pub program: String,
    pub args: Vec<String>,
    pub env: SecretEnvironment,
}

/// What a [`CommandSpec`] holds, as mathematical values.
pub struct CommandView {
    pub program: Seq<char>,
    pub args: Seq<Seq<char>>,
    pub env: Entries,
}

impl View for CommandSpec {
    type V = CommandView;

    open spec fn view(&self) -> CommandView {
        CommandView { program: self.program@, args: self.args.deep_view(), env: self.env@ }
    }
}

impl CommandSpec {
    /// A command that runs `program` without arguments, in the caller's
    /// environment.
    pub fn new(program: &str) -> (command: Self)
        ensures
            command@ == (CommandView {
                program: program@,
                args: Seq::empty(),
                env: Entries::empty(),
            }),
            command.env.wf(),
    {
        let command = CommandSpec {
            program: String::from_str(program),
            args: Vec::new(),
            env: SecretEnvironment::new(),
        };
        assert(command.args.deep_view() =~= Seq::<Seq<char>>::empty());
        command
    }

    /// Adds one argument at the end.
    pub fn arg(&mut self, arg: &str)
        ensures
            final(self)@ == (CommandView { args: old(self)@.args.push(arg@), ..old(self)@ }),
            final(self).env == old(self).env,
    {
        self.args.push(String::from_str(arg));
        assert(self.args.deep_view() =~= old(self).args.deep_view().push(arg@));
    }

    /// Sets the given secrets in the command's environment.
    pub fn envs(&mut self, secrets: &SecretEnvironment)
        ensures
            final(self)@ == (CommandView {
                env: merged(old(self)@.env, secrets@),
                ..old(self)@
            }),
            old(self).env.wf() ==> final(self).env.wf(),
    {
        self.env.merge(secrets);
    }
}

} // verus!
