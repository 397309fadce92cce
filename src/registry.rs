//! Command descriptors and the registry that maps url-names to them.

use vstd::prelude::*;

use crate::url::{url_name, url_name_of, is_dashless, lemma_url_name_injective};

verus! {

/// One of the two channels over which commands are invoked.
#[derive(Clone, Copy, Debug, PartialEq, Eq, Structural)]
pub enum Channel {
    Sync,
    Async,
}

/// The record of one invocable command.
#[derive(Debug)]
pub struct CommandDescriptor {
    name: String,
    url_name: String,
    is_async: bool,
}

pub struct DescriptorView {
    pub name: Seq<char>,
    pub url_name: Seq<char>,
    pub is_async: bool,
}

impl View for CommandDescriptor {
    type V = DescriptorView;

    closed spec fn view(&self) -> DescriptorView {
        DescriptorView { name: self.name@, url_name: self.url_name@, is_async: self.is_async }
    }
}

/// The channel whose table holds a command of the given mode.
pub open spec fn channel_of(is_async: bool) -> Channel {
    if is_async {
        Channel::Async
    } else {
        Channel::Sync
    }
}

/// A descriptor whose url-name is the one derived from its name.
pub open spec fn descriptor_wf(d: DescriptorView) -> bool {
    d.url_name == url_name_of(d.name)
}

/// Whether descriptor `d` answers requests for `url_name` on `channel`.
pub open spec fn serves(d: DescriptorView, channel: Channel, url_name: Seq<char>) -> bool {
    d.url_name == url_name && channel_of(d.is_async) == channel
}

impl CommandDescriptor {
    /// Describes the command `name`, run on the asynchronous channel when
    /// `is_async` holds and on the synchronous one otherwise.
    pub fn new(name: &str, is_async: bool) -> (r: CommandDescriptor)
        ensures
            r@.name == name@,
            r@.is_async == is_async,
            descriptor_wf(r@),
    {
        CommandDescriptor { name: String::from_str(name), url_name: url_name(name), is_async }
    }

    pub fn name(&self) -> (r: &str)
        ensures
            r@ == self@.name,
    {
        self.name.as_str()
    }

    pub fn url_name(&self) -> (r: &str)
        ensures
            r@ == self@.url_name,
    {
        self.url_name.as_str()
    }

    pub fn is_async(&self) -> (r: bool)
        ensures
            r == self@.is_async,
    {
        self.is_async
    }

    pub fn channel(&self) -> (r: Channel)
        ensures
            r == channel_of(self@.is_async),
    {
        if self.is_async {
            Channel::Async
        } else {
            Channel::Sync
        }
    }
}

/// Two commands of one registration whose url-names are the same.
#[derive(Clone, Copy, Debug, PartialEq, Eq, Structural)]
pub enum RegistryError {
    DuplicateUrlName { first: usize, second: usize },
}

/// Whether two descriptors of `ds` share a url-name.
pub open spec fn has_collision(ds: Seq<DescriptorView>) -> bool {
    exists|i: int, j: int| 0 <= i < j < ds.len() && ds[i].url_name == ds[j].url_name
}

/// Descriptors that can stand together in a registry.
pub open spec fn registry_wf(ds: Seq<DescriptorView>) -> bool {
    &&& forall|i: int| 0 <= i < ds.len() ==> descriptor_wf(#[trigger] ds[i])
    &&& !has_collision(ds)
}

/// The lookup tables of both channels: a descriptor per command, the
/// url-names pairwise distinct.
#[derive(Debug)]
pub struct Registry {
    commands: Vec<CommandDescriptor>,
}

impl View for Registry {
    type V = Seq<DescriptorView>;

    closed spec fn view(&self) -> Seq<DescriptorView> {
        self.commands@.map_values(|d: CommandDescriptor| d@)
    }
}

/// A path with its leading separators removed.
pub open spec fn strip_slashes(path: Seq<char>) -> Seq<char>
    decreases path.len(),
{
    if path.len() > 0 && path[0] == '/' {
        strip_slashes(path.drop_first())
    } else {
        path
    }
}

/// The url-name that a request path names.
pub fn url_name_of_path(path: &str) -> (r: &str)
    ensures
        r@ == strip_slashes(path@),
{
    let n = path.unicode_len();
    let mut k: usize = 0;
    assert(path@.subrange(0, n as int) =~= path@);
    while k < n
        invariant
            n == path@.len(),
            k <= n,
            strip_slashes(path@.subrange(k as int, n as int)) == strip_slashes(path@),
        ensures
            k <= n,
            strip_slashes(path@.subrange(k as int, n as int)) == path@.subrange(k as int, n as int),
        decreases n - k,
    {
        if path.get_char(k) != '/' {
            break;
        }
        assert(path@.subrange(k as int, n as int).drop_first() =~= path@.subrange(
            k + 1,
            n as int,
        ));
        k = k + 1;
    }
    path.substring_char(k, n)
}

impl Registry {
    /// Every descriptor is well formed and no two share a url-name.
    pub open spec fn wf(&self) -> bool {
        registry_wf(self@)
    }

    /// Builds the tables from the commands, in the order given. Fails when two
    /// commands derive the same url-name.
    pub fn build(commands: Vec<CommandDescriptor>) -> (r: Result<Registry, RegistryError>)
        requires
            forall|i: int| 0 <= i < commands@.len() ==> descriptor_wf(#[trigger] commands@[i]@),
        ensures
            r is Err <==> has_collision(commands@.map_values(|d: CommandDescriptor| d@)),
            match r {
                Ok(reg) => reg.wf() && reg@ == commands@.map_values(|d: CommandDescriptor| d@),
                Err(RegistryError::DuplicateUrlName { first, second }) => {
                    &&& first < second < commands@.len()
                    &&& commands@[first as int]@.url_name == commands@[second as int]@.url_name
                },
            },
    {
        let ghost ds = commands@.map_values(|d: CommandDescriptor| d@);
        let n = commands.len();
        let mut j: usize = 0;
        while j < n
            invariant
                n == commands@.len(),
                ds == commands@.map_values(|d: CommandDescriptor| d@),
                j <= n,
                forall|a: int, b: int|
                    0 <= a < b < j ==> ds[a].url_name != ds[b].url_name,
            decreases n - j,
        {
            let mut i: usize = 0;
            while i < j
                invariant
                    n == commands@.len(),
                    ds == commands@.map_values(|d: CommandDescriptor| d@),
                    i <= j < n,
                    forall|a: int| 0 <= a < i ==> ds[a].url_name != ds[j as int].url_name,
                decreases j - i,
            {
                if commands[i].url_name == commands[j].url_name {
                    assert(ds[i as int].url_name == ds[j as int].url_name);
                    return Err(RegistryError::DuplicateUrlName { first: i, second: j });
                }
                i = i + 1;
            }
            j = j + 1;
        }
        let reg = Registry { commands };
        assert(reg@ == ds);
        Ok(reg)
    }

    /// The number of registered commands.
    pub fn len(&self) -> (r: usize)
        ensures
            r == self@.len(),
    {
        self.commands.len()
    }

    /// The descriptor at `index`, in the order of registration.
    pub fn get(&self, index: usize) -> (r: &CommandDescriptor)
        requires
            index < self@.len(),
        ensures
            r@ == self@[index as int],
    {
        &self.commands[index]
    }

    /// Resolves a request path on a channel to the command that serves it.
    pub fn lookup(&self, channel: Channel, path: &str) -> (r: Option<usize>)
        ensures
            match r {
                Some(i) => i < self@.len() && serves(self@[i as int], channel, strip_slashes(path@)),
                None => forall|i: int|
                    0 <= i < self@.len() ==> !serves(self@[i], channel, strip_slashes(path@)),
            },
    {
        let name = String::from_str(url_name_of_path(path));
        let n = self.commands.len();
        let mut i: usize = 0;
        while i < n
            invariant
                n == self@.len(),
                name@ == strip_slashes(path@),
                i <= n,
                forall|a: int| 0 <= a < i ==> !serves(self@[a], channel, name@),
            decreases n - i,
        {
            let d = &self.commands[i];
            assert(self@[i as int] == d@);
            if d.url_name == name && d.channel() == channel {
                return Some(i);
            }
            i = i + 1;
        }
        None
    }
}

/// Registered commands keep their url-names apart, and since no identifier
/// holds a dash, so are their names: url-name derivation loses nothing on
/// a registered set.
pub proof fn lemma_registered_names_distinct(reg: &Registry, i: int, j: int)
    requires
        reg.wf(),
        0 <= i < reg@.len(),
        0 <= j < reg@.len(),
        i != j,
    ensures
        reg@[i].url_name != reg@[j].url_name,
        is_dashless(reg@[i].name) && is_dashless(reg@[j].name) ==> reg@[i].name != reg@[j].name,
{
    if reg@[i].url_name == reg@[j].url_name {
        assert(has_collision(reg@));
    }
    if is_dashless(reg@[i].name) && is_dashless(reg@[j].name) && reg@[i].name == reg@[j].name {
        assert(url_name_of(reg@[i].name) == url_name_of(reg@[j].name));
    }
}

} // verus!
