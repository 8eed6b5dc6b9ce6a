//! What a process holds besides memory: its open descriptors and its
//! semaphores.

use super::sync::SemaphoreSet;
use std::collections::BTreeMap;
use vstd::prelude::*;

verus! {

/// The three console streams.
#[derive(Clone, Copy, Debug, PartialEq, Eq, Structural)]
pub enum StdIO {
    Stdin,
    Stdout,
    Stderr,
}

/// What a descriptor stands for.
#[derive(Clone, Copy, Debug, PartialEq, Eq, Structural)]
pub enum Resource {
    /// A console stream.
    Console(StdIO),
    /// An open file, named by the handle that the storage layer gave.
    File(u64),
    /// Nothing: reads and writes are discarded.
    Null,
}

/// The descriptors of a process, by number.
pub type Descriptors = Map<u8, Resource>;

/// The descriptors that every process starts with.
pub open spec fn standard_descriptors() -> Descriptors {
    Map::<u8, Resource>::empty().insert(0, Resource::Console(StdIO::Stdin)).insert(
        1,
        Resource::Console(StdIO::Stdout),
    ).insert(2, Resource::Console(StdIO::Stderr))
}

/// True when `fd` is the lowest number that is not in use in `d`.
pub open spec fn lowest_free(d: Descriptors, fd: u8) -> bool {
    &&& !d.contains_key(fd)
    &&& forall|k: u8| k < fd ==> d.contains_key(k)
}

/// True when every descriptor number is in use.
pub open spec fn descriptors_full(d: Descriptors) -> bool {
    forall|k: u8| d.contains_key(k)
}

/// The table of open descriptors.
pub struct ResourceSet {
    handles: BTreeMap<u8, Resource>,
}

impl View for ResourceSet {
    type V = Descriptors;

    closed spec fn view(&self) -> Descriptors {
        self.handles@
    }
}

impl ResourceSet {
    /// A table with the three console streams under 0, 1 and 2.
    pub fn new() -> (set: ResourceSet)
        ensures
            set@ == standard_descriptors(),
    {
        let mut handles: BTreeMap<u8, Resource> = BTreeMap::new();
        handles.insert(0, Resource::Console(StdIO::Stdin));
        handles.insert(1, Resource::Console(StdIO::Stdout));
        handles.insert(2, Resource::Console(StdIO::Stderr));
        ResourceSet { handles }
    }

    /// Puts `res` under the lowest free number and returns that number;
    /// `None`, changing nothing, when all 256 are in use.
    pub fn open(&mut self, res: Resource) -> (fd: Option<u8>)
        ensures
            fd is None <==> descriptors_full(old(self)@),
            fd is None ==> final(self)@ == old(self)@,
            fd matches Some(n) ==> lowest_free(old(self)@, n) && final(self)@ == old(self)@.insert(
                n,
                res,
            ),
    {
        let mut n: u8 = 0;
        loop
            invariant
                self@ == old(self)@,
                forall|k: u8| k < n ==> self@.contains_key(k),
            decreases 255 - n,
        {
            if !self.handles.contains_key(&n) {
                self.handles.insert(n, res);
                return Some(n);
            }
            if n == 255 {
                return None;
            }
            n = n + 1;
        }
    }

    /// Closes `fd`. Returns false, changing nothing, when it is not open.
    pub fn close(&mut self, fd: u8) -> (closed: bool)
        ensures
            closed == old(self)@.contains_key(fd),
            final(self)@ == old(self)@.remove(fd),
    {
        self.handles.remove(&fd).is_some()
    }

    /// What `fd` stands for; `None` when it is not open.
    pub fn get(&self, fd: u8) -> (res: Option<Resource>)
        ensures
            res == (if self@.contains_key(fd) {
                Some(self@[fd])
            } else {
                None
            }),
    {
        match self.handles.get(&fd) {
            Some(res) => Some(*res),
            None => None,
        }
    }
}

/// A variable of the environment.
pub struct EnvVar {
    pub key: String,
    pub value: String,
}

/// The variables of an environment, as pairs of name and value.
pub type Environment = Seq<(Seq<char>, Seq<char>)>;

/// The pairs that `vars` stand for.
pub open spec fn env_of(vars: Seq<EnvVar>) -> Environment {
    vars.map_values(|var: EnvVar| (var.key@, var.value@))
}

/// True when `i` is the place of the first variable of `env` called `key`.
pub open spec fn first_var(env: Environment, key: Seq<char>, i: int) -> bool {
    &&& 0 <= i < env.len()
    &&& env[i].0 == key
    &&& forall|j: int| 0 <= j < i ==> env[j].0 != key
}

/// True when `env` has a variable called `key`.
pub open spec fn has_var(env: Environment, key: Seq<char>) -> bool {
    exists|i: int| 0 <= i < env.len() && (#[trigger] env[i]).0 == key
}

/// The value of the first variable of `env` called `key`; `None` when no
/// variable has that name.
pub open spec fn lookup(env: Environment, key: Seq<char>) -> Option<Seq<char>> {
    if has_var(env, key) {
        Some(env[choose|i: int| first_var(env, key, i)].1)
    } else {
        None
    }
}

/// `env` with the variable `key` set to `value`: the first variable of
/// that name gets the value, and without one the variable is appended.
pub open spec fn with_var(env: Environment, key: Seq<char>, value: Seq<char>) -> Environment {
    if has_var(env, key) {
        env.update(choose|i: int| first_var(env, key, i), (key, value))
    } else {
        env.push((key, value))
    }
}

/// Only one place is that of the first variable with a given name.
pub proof fn lemma_first_var_unique(env: Environment, key: Seq<char>, i: int, j: int)
    requires
        first_var(env, key, i),
        first_var(env, key, j),
    ensures
        i == j,
{
}

/// The descriptors, semaphores and environment of a process.
pub struct ProcessData {
    pub resources: ResourceSet,
    pub semaphores: SemaphoreSet,
    pub env: Vec<EnvVar>,
}

impl ProcessData {
    /// The standard descriptors, no semaphores and an empty environment.
    pub fn new() -> (data: ProcessData)
        ensures
            data.resources@ == standard_descriptors(),
            data.semaphores@ == Map::<u32, super::sync::SemState>::empty(),
            env_of(data.env@) == Seq::<(Seq<char>, Seq<char>)>::empty(),
    {
        let data = ProcessData {
            resources: ResourceSet::new(),
            semaphores: SemaphoreSet::new(),
            env: Vec::new(),
        };
        assert(env_of(data.env@) =~= Seq::<(Seq<char>, Seq<char>)>::empty());
        data
    }

    /// The place of the first variable called `key`; `None` when no
    /// variable has that name.
    fn find(&self, key: &String) -> (place: Option<usize>)
        ensures
            place is Some <==> has_var(env_of(self.env@), key@),
            place matches Some(i) ==> first_var(env_of(self.env@), key@, i as int) && i
                < self.env@.len(),
    {
        let ghost env = env_of(self.env@);
        let mut i: usize = 0;
        while i < self.env.len()
            invariant
                i <= self.env@.len(),
                env == env_of(self.env@),
                forall|j: int| 0 <= j < i ==> env[j].0 != key@,
            decreases self.env.len() - i,
        {
            assert(env[i as int] == (self.env@[i as int].key@, self.env@[i as int].value@));
            if self.env[i].key == *key {
                return Some(i);
            }
            i = i + 1;
        }
        None
    }

    /// The value of the variable called `key`; `None` when there is none.
    pub fn env(&self, key: &String) -> (value: Option<String>)
        ensures
            match value {
                Some(v) => lookup(env_of(self.env@), key@) == Some(v@),
                None => lookup(env_of(self.env@), key@) is None,
            },
    {
        match self.find(key) {
            Some(i) => {
                proof {
                    let env = env_of(self.env@);
                    let chosen = choose|j: int| first_var(env, key@, j);
                    lemma_first_var_unique(env, key@, i as int, chosen);
                    assert(env[i as int] == (self.env@[i as int].key@, self.env@[i as int].value@));
                }
                Some(self.env[i].value.clone())
            },
            None => None,
        }
    }

    /// Sets the variable called `key` to `value`; see [`with_var`].
    pub fn set_env(&mut self, key: String, value: String)
        ensures
            env_of(final(self).env@) == with_var(env_of(old(self).env@), key@, value@),
            final(self).resources == old(self).resources,
            final(self).semaphores == old(self).semaphores,
    {
        let ghost before = env_of(self.env@);
        match self.find(&key) {
            Some(i) => {
                proof {
                    let chosen = choose|j: int| first_var(before, key@, j);
                    lemma_first_var_unique(before, key@, i as int, chosen);
                }
                self.env.set(i, EnvVar { key, value });
                assert(env_of(self.env@) =~= before.update(i as int, (key@, value@)));
            },
            None => {
                self.env.push(EnvVar { key, value });
                assert(env_of(self.env@) =~= before.push((key@, value@)));
            },
        }
    }
}

} // verus!
