//! The modules of an embedded source tree, by name.

use vstd::prelude::*;
use vstd::hash_map::StringHashMap;
use vstd::string::StringExecFns;

verus! {

/// What a module map holds: for each module name the source text and the
/// display path of the file it came from.
pub type Entries = Map<Seq<char>, (Seq<char>, Seq<char>)>;

/// A mapping from module name to source text and display path. A name occurs
/// at most once; a lookup finds a name only by exact equality.
pub struct ModuleMap {
    entries: StringHashMap<(String, String)>,
}

impl View for ModuleMap {
    type V = Entries;

    closed spec fn view(&self) -> Entries {
        Map::new(
            |name: Seq<char>| self.entries@.contains_key(name),
            |name: Seq<char>| (self.entries@[name].0@, self.entries@[name].1@),
        )
    }
}

impl ModuleMap {
    /// The map without modules.
    pub fn new() -> (r: ModuleMap)
        ensures
            r@ == Entries::empty(),
    {
        ModuleMap { entries: StringHashMap::new() }
    }

    /// Puts the module `name` into the map, in place of an earlier module of
    /// that name if there is one, and says whether the name was new.
    pub fn insert(&mut self, name: String, source: String, path: String) -> (fresh: bool)
        ensures
            final(self)@ == old(self)@.insert(name@, (source@, path@)),
            fresh == !old(self)@.contains_key(name@),
    {
        let fresh = !self.entries.contains_key(name.as_str());
        self.entries.insert(name, (source, path));
        fresh
    }

    /// Whether the map holds a module `name`.
    pub fn contains(&self, name: &str) -> (r: bool)
        ensures
            r == self@.contains_key(name@),
    {
        self.entries.contains_key(name)
    }

    /// The source text and the display path of the module `name`.
    pub fn get(&self, name: &str) -> (r: Option<&(String, String)>)
        ensures
            r is Some <==> self@.contains_key(name@),
            r matches Some(entry) ==> self@[name@] == (entry.0@, entry.1@),
    {
        self.entries.get(name)
    }

    /// The number of modules.
    pub fn len(&self) -> (r: usize)
        ensures
            r == self@.len(),
    {
        broadcast use vstd::hash_map::group_hash_map_axioms;

        proof {
            self.lemma_same_names();
        }
        self.entries.len()
    }

    /// The map and the table behind it hold the same names.
    proof fn lemma_same_names(&self)
        ensures
            self@.dom() == self.entries@.dom(),
    {
    }
}

/// A source tree embedded in the program, as plain values.
pub struct Registry {
    /// The modules of the tree.
    pub modules: Entries,
    /// The label of the tree in diagnostics.
    pub prefix: Seq<char>,
}

/// What ends the name of every chunk that comes from an embedded tree, to
/// tell it from a file on disk.
pub open spec fn virtual_marker() -> Seq<char> {
    " (virtual)"@
}

/// The name under which the engine knows the chunk loaded from the file at
/// `path` of the tree labelled `prefix`: the label, a backslash, the path and
/// the marker.
pub open spec fn chunk_name(prefix: Seq<char>, path: Seq<char>) -> Seq<char> {
    prefix + seq!['\\'] + path + virtual_marker()
}

/// The name of a chunk holds the label of its tree and the path of its file.
pub proof fn lemma_chunk_name_holds_prefix_and_path(prefix: Seq<char>, path: Seq<char>)
    ensures
        chunk_name(prefix, path).subrange(0, prefix.len() as int) == prefix,
        chunk_name(prefix, path).subrange(
            (prefix.len() + 1) as int,
            (prefix.len() + 1 + path.len()) as int,
        ) == path,
{
}

/// What is handed to the engine to load one module.
pub struct LoadRequest<'a> {
    /// The source text of the module.
    pub source: &'a str,
    /// The name of the chunk in diagnostics.
    pub chunk_name: String,
}

/// A Lua source tree embedded in the program: its modules by name, and the
/// label under which they appear in diagnostics.
pub struct LuaModules {
    files: ModuleMap,
    prefix: String,
}

impl View for LuaModules {
    type V = Registry;

    closed spec fn view(&self) -> Registry {
        Registry { modules: self.files@, prefix: self.prefix@ }
    }
}

impl LuaModules {
    /// The tree with the modules `files` and the label `prefix`.
    pub fn __new(files: ModuleMap, prefix: &str) -> (r: LuaModules)
        ensures
            r@ == (Registry { modules: files@, prefix: prefix@ }),
    {
        LuaModules { files, prefix: prefix.to_owned() }
    }

    /// What to load for the module `name`: its source text, under the chunk
    /// name of its file. There is nothing to load for a name that the tree
    /// does not hold.
    pub fn request<'a>(&'a self, name: &str) -> (r: Option<LoadRequest<'a>>)
        ensures
            r is Some <==> self@.modules.contains_key(name@),
            r matches Some(request) ==> {
                &&& request.source@ == self@.modules[name@].0
                &&& request.chunk_name@ == chunk_name(self@.prefix, self@.modules[name@].1)
            },
    {
        match self.files.get(name) {
            None => None,
            Some(entry) => {
                let mut chunk_name = self.prefix.clone();
                chunk_name.push('\\');
                chunk_name.append(entry.1.as_str());
                chunk_name.append(" (virtual)");
                Some(LoadRequest { source: entry.0.as_str(), chunk_name })
            },
        }
    }
}

} // verus!
