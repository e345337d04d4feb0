//! From the files of a source tree to the modules it holds.
//!
//! Each source file of the tree gives one module, under the name that the
//! naming rules give its path, with the file's text as source and its path as
//! display path. Two source files that come to the same name make the tree
//! invalid: no module map is built from it.

use vstd::prelude::*;
use crate::modules::{Entries, ModuleMap};
use crate::naming::{module_name, qualifies, Convention, Rules};

verus! {

/// A file of the tree, as plain values.
pub struct File {
    /// The path of the file, relative to the root of the tree.
    pub path: Seq<char>,
    /// What the file holds.
    pub text: Seq<char>,
}

/// A file of the tree: its path relative to the root, and its text.
#[derive(Debug, PartialEq, Eq)]
pub struct SourceFile {
    pub path: String,
    pub text: String,
}

impl View for SourceFile {
    type V = File;

    open spec fn view(&self) -> File {
        File { path: self.path@, text: self.text@ }
    }
}

/// The files of a list, as plain values.
pub open spec fn files_of(list: Seq<SourceFile>) -> Seq<File> {
    Seq::new(list.len(), |i: int| list[i]@)
}

/// The file at `i` is a source file and its module name is `name`.
pub open spec fn names(files: Seq<File>, rules: Rules, i: int, name: Seq<char>) -> bool {
    &&& 0 <= i < files.len()
    &&& qualifies(files[i].path, rules)
    &&& module_name(files[i].path, rules) == name
}

/// The files at `i` and `j` are two source files with one module name.
pub open spec fn collide(files: Seq<File>, rules: Rules, i: int, j: int) -> bool {
    &&& i != j
    &&& 0 <= j < files.len()
    &&& qualifies(files[j].path, rules)
    &&& names(files, rules, i, module_name(files[j].path, rules))
}

/// No two source files of the tree have the same module name.
pub open spec fn collision_free(files: Seq<File>, rules: Rules) -> bool {
    forall|i: int, j: int| !collide(files, rules, i, j)
}

/// The modules of a tree: one for each source file, under its module name,
/// with the file's text and path.
pub open spec fn tree_entries(files: Seq<File>, rules: Rules) -> Entries {
    Map::new(
        |name: Seq<char>| exists|i: int| names(files, rules, i, name),
        |name: Seq<char>|
            {
                let i = choose|i: int| names(files, rules, i, name);
                (files[i].text, files[i].path)
            },
    )
}

/// In a tree without collisions each source file is found under its module
/// name, with its own text and its own path.
pub proof fn lemma_entry(files: Seq<File>, rules: Rules, i: int)
    requires
        collision_free(files, rules),
        0 <= i < files.len(),
        qualifies(files[i].path, rules),
    ensures
        tree_entries(files, rules).contains_key(module_name(files[i].path, rules)),
        tree_entries(files, rules)[module_name(files[i].path, rules)] == (
            files[i].text,
            files[i].path,
        ),
{
    let name = module_name(files[i].path, rules);
    assert(names(files, rules, i, name));
    let c = choose|c: int| names(files, rules, c, name);
    assert(!collide(files, rules, c, i));
}

/// What the file at `k` adds to the modules of the files before it.
proof fn lemma_step(files: Seq<File>, rules: Rules, k: int)
    requires
        0 <= k < files.len(),
        collision_free(files.take(k), rules),
    ensures
        !qualifies(files[k].path, rules) ==> {
            &&& collision_free(files.take(k + 1), rules)
            &&& tree_entries(files.take(k + 1), rules) == tree_entries(files.take(k), rules)
        },
        qualifies(files[k].path, rules) && !tree_entries(files.take(k), rules).contains_key(
            module_name(files[k].path, rules),
        ) ==> {
            &&& collision_free(files.take(k + 1), rules)
            &&& tree_entries(files.take(k + 1), rules) == tree_entries(
                files.take(k),
                rules,
            ).insert(module_name(files[k].path, rules), (files[k].text, files[k].path))
        },
        qualifies(files[k].path, rules) && tree_entries(files.take(k), rules).contains_key(
            module_name(files[k].path, rules),
        ) ==> exists|i: int|
            0 <= i < k && names(files, rules, i, module_name(files[k].path, rules)),
{
    let before = files.take(k);
    let after = files.take(k + 1);
    let name_k = module_name(files[k].path, rules);
    assert forall|i: int, name: Seq<char>| 0 <= i < k implies names(before, rules, i, name)
        == names(after, rules, i, name) && names(before, rules, i, name) == names(
        files,
        rules,
        i,
        name,
    ) by {
        assert(before[i] == files[i] && after[i] == files[i]);
    }
    if !(qualifies(files[k].path, rules) && tree_entries(before, rules).contains_key(name_k)) {
        assert forall|i: int, j: int| !collide(after, rules, i, j) by {
            if collide(after, rules, i, j) {
                if i < k && j < k {
                    assert(collide(before, rules, i, j));
                } else if i == k {
                    assert(names(before, rules, j, name_k));
                } else {
                    assert(names(before, rules, i, name_k));
                }
            }
        }
        let grown = if qualifies(files[k].path, rules) {
            tree_entries(before, rules).insert(name_k, (files[k].text, files[k].path))
        } else {
            tree_entries(before, rules)
        };
        assert forall|name: Seq<char>| #[trigger] grown.contains_key(name) implies tree_entries(
            after,
            rules,
        ).contains_key(name) && tree_entries(after, rules)[name] == grown[name] by {
            if qualifies(files[k].path, rules) && name == name_k {
                lemma_entry(after, rules, k);
            } else {
                let i = choose|i: int| names(before, rules, i, name);
                lemma_entry(before, rules, i);
                lemma_entry(after, rules, i);
            }
        }
        assert(tree_entries(after, rules) =~= grown);
    }
}

/// The files at `i` and `j` are the first two to collide: `j` is the first
/// file that has the module name of a file before it, and `i` is that file.
pub open spec fn first_collision(files: Seq<File>, rules: Rules, i: int, j: int) -> bool {
    &&& 0 <= i < j < files.len()
    &&& collision_free(files.take(j), rules)
    &&& collide(files, rules, i, j)
}

/// Why a tree gives no module map.
#[derive(Debug, PartialEq, Eq)]
pub enum TreeError {
    /// The source files at `first` and `second` both have the module name
    /// `name`.
    Collision { name: String, first: String, second: String },
}

/// The modules of the tree whose files are `files`, under the rules of
/// `convention`. Files that are no source files are passed over. The order of
/// the files has no part in the map that comes out.
pub fn resolve_tree(files: &Vec<SourceFile>, convention: &Convention) -> (r: Result<
    ModuleMap,
    TreeError,
>)
    ensures
        r is Ok <==> collision_free(files_of(files@), convention@),
        r matches Ok(map) ==> map@ == tree_entries(files_of(files@), convention@),
        r matches Ok(map) ==> forall|i: int|
            0 <= i < files.len() && qualifies(#[trigger] files[i].path@, convention@)
                ==> map@.contains_key(module_name(files[i].path@, convention@)) && map@[module_name(
                files[i].path@,
                convention@,
            )] == (files[i].text@, files[i].path@),
        r matches Err(TreeError::Collision { name, first, second }) ==> exists|i: int, j: int|
            {
                &&& first_collision(files_of(files@), convention@, i, j)
                &&& name@ == module_name(files[j].path@, convention@)
                &&& first@ == files[i].path@
                &&& second@ == files[j].path@
            },
{
    let ghost all = files_of(files@);
    let ghost rules = convention@;
    let mut map = ModuleMap::new();
    let mut k: usize = 0;
    while k < files.len()
        invariant
            k <= files.len(),
            all == files_of(files@),
            rules == convention@,
            collision_free(all.take(k as int), rules),
            map@ == tree_entries(all.take(k as int), rules),
        decreases files.len() - k,
    {
        let file = &files[k];
        proof {
            lemma_step(all, rules, k as int);
        }
        match convention.module_name(file.path.as_str()) {
            None => {},
            Some(name) => {
                match map.get(name.as_str()) {
                    Some(entry) => {
                        let first = entry.1.clone();
                        let second = file.path.clone();
                        proof {
                            let i = choose|i: int| 0 <= i < k && names(all, rules, i, name@);
                            lemma_entry(all.take(k as int), rules, i);
                            assert(first_collision(all, rules, i, k as int));
                        }
                        return Err(TreeError::Collision { name, first, second });
                    },
                    None => {
                        map.insert(name, file.text.clone(), file.path.clone());
                    },
                }
            },
        }
        k += 1;
    }
    proof {
        assert(all.take(k as int) =~= all);
        assert forall|i: int|
            0 <= i < files.len() && qualifies(
                #[trigger] files[i].path@,
                convention@,
            ) implies map@.contains_key(module_name(files[i].path@, convention@)) && map@[module_name(
            files[i].path@,
            convention@,
        )] == (files[i].text@, files[i].path@) by {
            lemma_entry(all, rules, i);
        }
    }
    Ok(map)
}

/// A collision in one tree is a collision in every tree that holds its files.
proof fn lemma_collision_carries(a: Seq<File>, b: Seq<File>, rules: Rules)
    requires
        a.no_duplicates(),
        forall|f: File| a.contains(f) ==> b.contains(f),
        !collision_free(a, rules),
    ensures
        !collision_free(b, rules),
{
    let (i, j) = choose|i: int, j: int| collide(a, rules, i, j);
    assert(a.contains(a[i]));
    assert(a.contains(a[j]));
    let i2 = choose|i2: int| 0 <= i2 < b.len() && b[i2] == a[i];
    let j2 = choose|j2: int| 0 <= j2 < b.len() && b[j2] == a[j];
    assert(collide(b, rules, i2, j2));
}

/// The modules of a tree do not depend on the order in which its files are
/// listed: two lists that hold the same files, each once, collide together or
/// not at all, and give the same modules.
pub proof fn lemma_order_independent(a: Seq<File>, b: Seq<File>, rules: Rules)
    requires
        a.no_duplicates(),
        b.no_duplicates(),
        forall|f: File| a.contains(f) <==> b.contains(f),
    ensures
        collision_free(a, rules) == collision_free(b, rules),
        collision_free(a, rules) ==> tree_entries(a, rules) == tree_entries(b, rules),
{
    if !collision_free(a, rules) {
        lemma_collision_carries(a, b, rules);
    }
    if !collision_free(b, rules) {
        lemma_collision_carries(b, a, rules);
    }
    if collision_free(a, rules) {
        let ea = tree_entries(a, rules);
        let eb = tree_entries(b, rules);
        assert forall|name: Seq<char>| #[trigger] ea.contains_key(name) implies eb.contains_key(name)
            && ea[name] == eb[name] by {
            let i = choose|i: int| names(a, rules, i, name);
            assert(a.contains(a[i]));
            let i2 = choose|i2: int| 0 <= i2 < b.len() && b[i2] == a[i];
            lemma_entry(a, rules, i);
            lemma_entry(b, rules, i2);
        }
        assert forall|name: Seq<char>| #[trigger] eb.contains_key(name) implies ea.contains_key(
            name,
        ) by {
            let i = choose|i: int| names(b, rules, i, name);
            assert(b.contains(b[i]));
            let i2 = choose|i2: int| 0 <= i2 < a.len() && a[i2] == b[i];
            assert(names(a, rules, i2, name));
        }
        assert(ea =~= eb);
    }
}

} // verus!
