//! From the path of a source file to the dotted name of the module it holds.
//!
//! A path is relative to the root of the tree. Its file name is what follows
//! the last separator. A file qualifies when its file name ends in a dot and
//! the source extension and has at least one character before that dot. A
//! qualifying file whose stem is the index name stands for the directory that
//! holds it; any other stands for itself.

use vstd::prelude::*;
use crate::text::chars_of;

verus! {

/// The naming rules of a source tree, as plain values.
pub struct Rules {
    /// The extension of a source file, without its dot.
    pub extension: Seq<char>,
    /// The stem of the file that stands for the directory holding it.
    pub index: Seq<char>,
    /// The character between the components of a path.
    pub separator: char,
}

impl Rules {
    /// Rules under which a file name is one path component and the extension
    /// is what follows its last dot.
    pub open spec fn wf(self) -> bool {
        &&& self.separator != '.'
        &&& !self.extension.contains(self.separator)
        &&& !self.extension.contains('.')
        &&& self.index.len() > 0
        &&& !self.index.contains(self.separator)
    }

    /// The dot and the extension that end the name of a source file.
    pub open spec fn suffix(self) -> Seq<char> {
        seq!['.'] + self.extension
    }
}

/// The number of characters of `path` up to and including its last separator;
/// zero when it has none.
pub open spec fn dir_len(path: Seq<char>, separator: char) -> nat
    decreases path.len(),
{
    if path.len() == 0 {
        0
    } else if path.last() == separator {
        path.len()
    } else {
        dir_len(path.drop_last(), separator)
    }
}

/// What follows the last separator of `path`.
pub open spec fn file_name(path: Seq<char>, separator: char) -> Seq<char> {
    path.skip(dir_len(path, separator) as int)
}

/// What stands before the last separator of `path`; empty for a file directly
/// under the root.
pub open spec fn parent(path: Seq<char>, separator: char) -> Seq<char> {
    if dir_len(path, separator) == 0 {
        Seq::empty()
    } else {
        path.take(dir_len(path, separator) - 1)
    }
}

/// `text` with each separator replaced by a dot.
pub open spec fn dotted(text: Seq<char>, separator: char) -> Seq<char> {
    Seq::new(
        text.len(),
        |i: int|
            if text[i] == separator {
                '.'
            } else {
                text[i]
            },
    )
}

/// Whether the file at `path` is a source file: its name ends in the suffix
/// and is longer than it.
pub open spec fn qualifies(path: Seq<char>, rules: Rules) -> bool {
    let name = file_name(path, rules.separator);
    &&& name.len() > rules.suffix().len()
    &&& name.skip(name.len() - rules.suffix().len()) == rules.suffix()
}

/// `path` without the suffix that a qualifying file ends in.
pub open spec fn without_suffix(path: Seq<char>, rules: Rules) -> Seq<char> {
    path.take(path.len() - rules.suffix().len())
}

/// Whether the qualifying file at `path` is the index file of its directory.
pub open spec fn is_index(path: Seq<char>, rules: Rules) -> bool {
    file_name(without_suffix(path, rules), rules.separator) == rules.index
}

/// The module name of the qualifying file at `path`. An index file is named
/// after its directory, so the index file directly under the root has the
/// empty name: the root itself is the module. Any other file is named after
/// its own path without the suffix.
pub open spec fn module_name(path: Seq<char>, rules: Rules) -> Seq<char> {
    if is_index(path, rules) {
        dotted(parent(path, rules.separator), rules.separator)
    } else {
        dotted(without_suffix(path, rules), rules.separator)
    }
}

/// `d` is where the file name of `path` starts: a separator stands just
/// before it, if anything does, and none after it.
pub open spec fn splits_at(path: Seq<char>, separator: char, d: int) -> bool {
    &&& 0 <= d <= path.len()
    &&& d > 0 ==> path[d - 1] == separator
    &&& forall|j: int| d <= j < path.len() ==> path[j] != separator
}

/// `dir_len` is the one place at which a path splits into directory and file
/// name.
pub proof fn lemma_dir_len(path: Seq<char>, separator: char, d: int)
    ensures
        splits_at(path, separator, dir_len(path, separator) as int),
        splits_at(path, separator, d) ==> d == dir_len(path, separator),
    decreases path.len(),
{
    if path.len() > 0 && path.last() != separator {
        let shorter = path.drop_last();
        lemma_dir_len(shorter, separator, d);
        let e = dir_len(shorter, separator) as int;
        assert forall|j: int| e <= j < path.len() implies path[j] != separator by {
            if j < shorter.len() {
                assert(shorter[j] == path[j]);
            }
        }
        if splits_at(path, separator, d) {
        }
    }
}

/// Text without a separator, put behind a path, lengthens its file name and
/// leaves its directory as it was.
pub proof fn lemma_dir_len_append(path: Seq<char>, tail: Seq<char>, separator: char)
    requires
        !tail.contains(separator),
    ensures
        dir_len(path + tail, separator) == dir_len(path, separator),
        file_name(path + tail, separator) == file_name(path, separator) + tail,
        parent(path + tail, separator) == parent(path, separator),
{
    let whole = path + tail;
    let d = dir_len(path, separator) as int;
    lemma_dir_len(path, separator, d);
    lemma_dir_len(whole, separator, d);
}

/// A path made of a directory, a separator and a name without separator
/// splits at that separator.
pub proof fn lemma_dir_len_join(dir: Seq<char>, name: Seq<char>, separator: char)
    requires
        !name.contains(separator),
    ensures
        dir_len(dir + seq![separator] + name, separator) == dir.len() + 1,
        file_name(dir + seq![separator] + name, separator) == name,
        parent(dir + seq![separator] + name, separator) == dir,
{
    let whole = dir + seq![separator] + name;
    let d = (dir.len() + 1) as int;
    lemma_dir_len(whole, separator, d);
}

/// Replacing separators by dots goes through a path component by component.
pub proof fn lemma_dotted_join(dir: Seq<char>, name: Seq<char>, separator: char)
    ensures
        dotted(dir + seq![separator] + name, separator) == dotted(dir, separator) + seq!['.']
            + dotted(name, separator),
{
}

/// Text without a separator is its own dotted form.
pub proof fn lemma_dotted_plain(text: Seq<char>, separator: char)
    requires
        !text.contains(separator),
    ensures
        dotted(text, separator) == text,
{
}

/// The extension of a source file is what follows the last dot of its file
/// name, and that dot is not the first character of the name.
pub proof fn lemma_extension_follows_last_dot(path: Seq<char>, rules: Rules)
    requires
        rules.wf(),
        qualifies(path, rules),
    ensures
        ({
            let name = file_name(path, rules.separator);
            let dot = name.len() - rules.extension.len() - 1;
            &&& 0 < dot < name.len()
            &&& name[dot] == '.'
            &&& name.skip(dot + 1) == rules.extension
            &&& forall|j: int| dot < j < name.len() ==> name[j] != '.'
        }),
{
    let name = file_name(path, rules.separator);
    let dot = name.len() - rules.extension.len() - 1;
    let tail = name.skip(dot);
    assert(name[dot] == tail[0]);
    assert(rules.suffix().skip(1) =~= rules.extension);
    assert forall|j: int| dot < j < name.len() implies name[j] != '.' by {
        assert(rules.extension.contains(rules.extension[j - dot - 1]));
    }
}

/// The index file of a directory qualifies, and its module name is the path
/// of that directory with dots for separators.
pub proof fn lemma_index_file_names_directory(dir: Seq<char>, rules: Rules)
    requires
        rules.wf(),
    ensures
        qualifies(dir + seq![rules.separator] + rules.index + rules.suffix(), rules),
        module_name(dir + seq![rules.separator] + rules.index + rules.suffix(), rules) == dotted(
            dir,
            rules.separator,
        ),
{
    let sep = rules.separator;
    let trunk = dir + seq![sep] + rules.index;
    let path = trunk + rules.suffix();
    lemma_dir_len_join(dir, rules.index, sep);
    lemma_dir_len_append(trunk, rules.suffix(), sep);
    let name = file_name(path, sep);
    assert(name.skip(name.len() - rules.suffix().len()) =~= rules.suffix());
    assert(without_suffix(path, rules) =~= trunk);
}

/// The index file directly under the root qualifies, and its module name is
/// empty.
pub proof fn lemma_root_index_file_names_root(rules: Rules)
    requires
        rules.wf(),
    ensures
        qualifies(rules.index + rules.suffix(), rules),
        module_name(rules.index + rules.suffix(), rules) == Seq::<char>::empty(),
{
    let sep = rules.separator;
    let path = rules.index + rules.suffix();
    lemma_dir_len(rules.index, sep, 0);
    lemma_dir_len_append(rules.index, rules.suffix(), sep);
    assert(rules.index.skip(0) =~= rules.index);
    let name = file_name(path, sep);
    assert(name.skip(name.len() - rules.suffix().len()) =~= rules.suffix());
    assert(without_suffix(path, rules) =~= rules.index);
}

/// A file that is no index file qualifies once the suffix follows a file name
/// of at least one character, and its module name is its path without the
/// suffix, with dots for separators.
pub proof fn lemma_plain_file_names_itself(trunk: Seq<char>, rules: Rules)
    requires
        rules.wf(),
        file_name(trunk, rules.separator).len() > 0,
        file_name(trunk, rules.separator) != rules.index,
    ensures
        qualifies(trunk + rules.suffix(), rules),
        module_name(trunk + rules.suffix(), rules) == dotted(trunk, rules.separator),
{
    let sep = rules.separator;
    let path = trunk + rules.suffix();
    lemma_dir_len_append(trunk, rules.suffix(), sep);
    let name = file_name(path, sep);
    assert(name.skip(name.len() - rules.suffix().len()) =~= rules.suffix());
    assert(without_suffix(path, rules) =~= trunk);
}

/// The naming rules of a source tree: the extension of its source files, the
/// stem of its index files and the separator of its paths.
pub struct Convention {
    extension: Vec<char>,
    index: Vec<char>,
    separator: char,
}

impl View for Convention {
    type V = Rules;

    closed spec fn view(&self) -> Rules {
        Rules { extension: self.extension@, index: self.index@, separator: self.separator }
    }
}

/// Whether `c` occurs in `text`.
fn contains_char(text: &Vec<char>, c: char) -> (r: bool)
    ensures
        r == text@.contains(c),
{
    let mut i: usize = 0;
    while i < text.len()
        invariant
            i <= text.len(),
            forall|j: int| 0 <= j < i ==> text@[j] != c,
        decreases text.len() - i,
    {
        if text[i] == c {
            return true;
        }
        i += 1;
    }
    false
}

/// Whether `text` holds `part` at `from`.
fn holds_at(text: &Vec<char>, from: usize, part: &Vec<char>) -> (r: bool)
    requires
        from + part.len() <= text.len(),
    ensures
        r == (text@.subrange(from as int, from + part.len()) == part@),
{
    let mut i: usize = 0;
    while i < part.len()
        invariant
            i <= part.len(),
            from + part.len() <= text.len(),
            forall|j: int| 0 <= j < i ==> text@[from + j] == part@[j],
        decreases part.len() - i,
    {
        if text[from + i] != part[i] {
            return false;
        }
        i += 1;
    }
    assert(text@.subrange(from as int, from + part.len()) =~= part@);
    true
}

/// `text[from..to]` as a string, with each separator replaced by a dot.
fn dotted_string(text: &Vec<char>, from: usize, to: usize, separator: char) -> (s: String)
    requires
        from <= to <= text.len(),
    ensures
        s@ == dotted(text@.subrange(from as int, to as int), separator),
{
    let mut s = String::new();
    let mut i: usize = from;
    while i < to
        invariant
            from <= i <= to <= text.len(),
            s@ == dotted(text@.subrange(from as int, i as int), separator),
        decreases to - i,
    {
        let c = text[i];
        if c == separator {
            s.push('.');
        } else {
            s.push(c);
        }
        i += 1;
    }
    s
}

impl Convention {
    #[verifier::type_invariant]
    spec fn well_formed(self) -> bool {
        self@.wf()
    }

    /// The rules with the given extension, index stem and separator, where
    /// they are well formed.
    pub fn new(extension: &str, index: &str, separator: char) -> (r: Option<Convention>)
        ensures
            r is Some <==> (Rules { extension: extension@, index: index@, separator }).wf(),
            r matches Some(c) ==> c@ == (Rules { extension: extension@, index: index@, separator }),
    {
        let extension = chars_of(extension);
        let index = chars_of(index);
        if separator == '.' || contains_char(&extension, separator) || contains_char(
            &extension,
            '.',
        ) || index.len() == 0 || contains_char(&index, separator) {
            None
        } else {
            Some(Convention { extension, index, separator })
        }
    }

    /// Lua's rules: source files end in `.lua`, and `init.lua` stands for its
    /// directory.
    pub fn lua(separator: char) -> (r: Option<Convention>)
        ensures
            r is Some <==> (Rules { extension: "lua"@, index: "init"@, separator }).wf(),
            r matches Some(c) ==> c@ == (Rules { extension: "lua"@, index: "init"@, separator }),
    {
        Convention::new("lua", "init", separator)
    }

    /// The module name of the file at `path`, where it is a source file.
    /// The rules that a value of this type holds are well formed.
    pub fn module_name(&self, path: &str) -> (r: Option<String>)
        ensures
            self@.wf(),
            r is Some <==> qualifies(path@, self@),
            r matches Some(name) ==> name@ == module_name(path@, self@),
    {
        proof {
            use_type_invariant(self);
        }
        let p = chars_of(path);
        let n = p.len();
        let k = self.extension.len();
        let mut d: usize = n;
        while d > 0 && p[d - 1] != self.separator
            invariant
                d <= n == p.len(),
                forall|j: int| d <= j < n ==> p@[j] != self.separator,
            decreases d,
        {
            d -= 1;
        }
        proof {
            lemma_dir_len(p@, self.separator, d as int);
        }
        let ghost name = file_name(p@, self.separator);
        let ghost suffix = self@.suffix();
        if n - d <= k || n - d - k < 2 {
            return None;
        }
        let cut: usize = n - k - 1;
        assert(name.skip(name.len() - suffix.len()) =~= p@.subrange(cut as int, n as int));
        if p[cut] != '.' {
            assert(p@.subrange(cut as int, n as int)[0] != suffix[0]);
            return None;
        }
        if !holds_at(&p, cut + 1, &self.extension) {
            assert(p@.subrange(cut + 1, n as int) =~= p@.subrange(cut as int, n as int).skip(1));
            assert(suffix.skip(1) =~= self.extension@);
            return None;
        }
        assert(p@.subrange(cut as int, n as int) =~= suffix);
        let ghost trunk = without_suffix(p@, self@);
        proof {
            lemma_dir_len(trunk, self.separator, d as int);
        }
        assert(file_name(trunk, self.separator) =~= p@.subrange(d as int, cut as int));
        if cut - d == self.index.len() && holds_at(&p, d, &self.index) {
            if d == 0 {
                Some(dotted_string(&p, 0, 0, self.separator))
            } else {
                Some(dotted_string(&p, 0, d - 1, self.separator))
            }
        } else {
            Some(dotted_string(&p, 0, cut, self.separator))
        }
    }
}

} // verus!
