//! Documentation of modules and symbols.
use vstd::prelude::*;
use crate::execute::path_text::{file_name, join_path};
use crate::lowered::view;
use crate::text::{concat_three, concat_two, owned, same_text, text_precedes};

verus! {

#[derive(Debug)]
pub struct Documentation {
    pub symbol: String,
    pub kind: String,
    pub documentation: String,
    pub module: String,
}

pub struct DocumentationView {
    pub symbol: Seq<char>,
    pub kind: Seq<char>,
    pub documentation: Seq<char>,
    pub module: Seq<char>,
}

impl Documentation {
    pub open spec fn view(&self) -> DocumentationView {
        DocumentationView {
            symbol: self.symbol@,
            kind: self.kind@,
            documentation: self.documentation@,
            module: self.module@,
        }
    }

    pub fn copied(&self) -> (result: Documentation)
        ensures
            result@ == self@,
    {
        Documentation {
            symbol: self.symbol.clone(),
            kind: self.kind.clone(),
            documentation: self.documentation.clone(),
            module: self.module.clone(),
        }
    }
}

pub open spec fn views(docs: Seq<Documentation>) -> Seq<DocumentationView> {
    Seq::new(docs.len(), |i: int| docs[i]@)
}

/// A file that names a project is not an entry itself.
pub const MANIFEST_FILE: &'static str = "project.vibra";

// Choosing a target.

/// Where a name first stands in a list.
pub open spec fn place_of(names: Seq<Seq<char>>, from: int, name: Seq<char>) -> Option<int>
    decreases names.len() - from,
{
    if from < 0 || from >= names.len() {
        None
    } else if names[from] == name {
        Some(from)
    } else {
        place_of(names, from + 1, name)
    }
}

/// The target of a project that is meant: the named one, or the only one.
pub open spec fn chosen(names: Seq<Seq<char>>, target: Option<Seq<char>>) -> Result<int, Seq<char>> {
    match target {
        Some(name) => match place_of(names, 0, name) {
            Some(place) => Ok(place),
            None => Err("project target `"@ + name + "` does not exist"@),
        },
        None => if names.len() == 1 {
            Ok(0)
        } else {
            Err("project has multiple targets; select one with `--target <name>`"@)
        },
    }
}

/// Chooses among the targets of a project, libraries before programs.
fn select_target(names: &Vec<String>, target: Option<&str>) -> (result: Result<usize, String>)
    ensures
        chosen(view::texts(names@), wanted(target)) == (match result {
                Ok(place) => Ok(place as int),
                Err(message) => Err(message@),
        }),
        match result {
            Ok(place) => place < names@.len(),
            Err(_) => true,
        },
{
    let ghost all = view::texts(names@);
    assert(all.len() == names@.len());
    match target {
        Some(name) => {
            let mut i: usize = 0;
            while i < names.len()
                invariant
                    i <= names.len(),
                    all == view::texts(names@),
                    target == Some(name),
                    place_of(all, 0, name@) == place_of(all, i as int, name@),
                decreases names.len() - i,
            {
                assert(all[i as int] == names@[i as int]@);
                if same_text(names[i].as_str(), name) {
                    return Ok(i);
                }
                i += 1;
            }
            Err(concat_three("project target `", name, "` does not exist"))
        }
        None => if names.len() == 1 {
            Ok(0)
        } else {
            Err(owned("project has multiple targets; select one with `--target <name>`"))
        },
    }
}

/// A target of a project: its directory below the project and its entry file.
#[derive(Debug)]
pub struct Target {
    pub name: String,
    pub root: String,
    pub entry: String,
}

pub open spec fn target_names(targets: Seq<Target>) -> Seq<Seq<char>> {
    Seq::new(targets.len(), |i: int| targets[i].name@)
}

/// Where the entry of a target lies.
pub open spec fn entry_of(project: Seq<char>, target: Target) -> Seq<char> {
    crate::execute::path_text::joined_path(
        crate::execute::path_text::joined_path(project, target.root@),
        target.entry@,
    )
}

/// The entry module that a path stands for: a source file itself, or the entry
/// of the chosen target of the project that it names. The targets are listed
/// with libraries before programs.
pub fn resolve_entry(path: &str, is_file: bool, project: &str, targets: &Vec<Target>, target: Option<&str>) -> (result: Result<
    String,
    String,
    >)
    ensures
        match result {
            Ok(entry) => if entry_itself(path@, is_file) {
                entry@ == path@
            } else {
                match chosen(target_names(targets@), wanted(target)) {
                    Ok(place) => entry@ == entry_of(project@, targets@[place]),
                    Err(_) => false,
                }
            },
            Err(message) => !entry_itself(path@, is_file) && chosen(target_names(targets@), wanted(target)) == Err::<
            int,
            Seq<char>,
            >(message@),
        },
{
    let own = match file_name(path) {
        Some(name) => is_entry(is_file, Some(name.as_str())),
        None => is_entry(is_file, None),
    };
    if own {
        return Ok(owned(path));
    }
    let mut names: Vec<String> = Vec::new();
    let mut i: usize = 0;
    while i < targets.len()
        invariant
            i <= targets.len(),
            names.len() == i,
            forall|j: int| 0 <= j < i ==> view::texts(names@)[j] == #[trigger] target_names(targets@)[j],
        decreases targets.len() - i,
    {
        let ghost before = names@;
        names.push(targets[i].name.clone());
        proof {
            view::lemma_texts_push(before, names@.last());
        }
        i += 1;
    }
    assert(view::texts(names@) =~= target_names(targets@));
    let place = match select_target(&names, target) {
        Ok(value) => value,
        Err(error) => return Err(error),
    };
    let directory = join_path(project, targets[place].root.as_str());
    Ok(join_path(directory.as_str(), targets[place].entry.as_str()))
}

pub open spec fn wanted(target: Option<&str>) -> Option<Seq<char>> {
    match target {
        Some(name) => Some(name@),
        None => None,
    }
}

/// Whether a path is an entry by itself: a file other than a manifest.
pub open spec fn entry_itself(path: Seq<char>, is_file: bool) -> bool {
    is_file && crate::execute::path_text::file_name_text(path) != Some(MANIFEST_FILE@)
}

/// Whether a path is an entry by itself: a file other than a manifest.
fn is_entry(is_file: bool, file_name: Option<&str>) -> (result: bool)
    ensures
        result == (is_file && (match file_name {
                    Some(name) => name@ != MANIFEST_FILE@,
                    None => true,
        })),
{
    if !is_file {
        return false;
    }
    match file_name {
        Some(name) => !same_text(name, MANIFEST_FILE),
        None => true,
    }
}

// Collecting.

/// Documentation under the key that it is sorted by.
pub type Keyed = Seq<(Seq<char>, DocumentationView)>;

/// Entries in the order of their keys with one put in: instead of one with the
/// same key, or in its place.
pub open spec fn with_entry(entries: Keyed, from: int, entry: (Seq<char>, DocumentationView)) -> Keyed
    decreases entries.len() - from,
{
    if from < 0 || from >= entries.len() {
        entries.push(entry)
    } else if entries[from].0 == entry.0 {
        entries.update(from, entry)
    } else if crate::text::precedes(entries[from].0, entry.0) {
        with_entry(entries, from + 1, entry)
    } else {
        entries.insert(from, entry)
    }
}

pub open spec fn keyed_by_symbol(docs: Seq<DocumentationView>, from: int, done: Keyed) -> Keyed
    decreases docs.len() - from,
{
    if from < 0 || from >= docs.len() {
        done
    } else {
        keyed_by_symbol(docs, from + 1, with_entry(done, 0, (docs[from].symbol, docs[from])))
    }
}

/// The package sorts before every symbol.
pub open spec fn package_key(name: Seq<char>) -> Seq<char> {
    "\0"@ + name
}

/// The documentation of symbols in their order, one each, behind that of the
/// package.
pub open spec fn collected(docs: Seq<DocumentationView>, package: Option<DocumentationView>) -> Seq<DocumentationView> {
    let entries = keyed_by_symbol(docs, 0, Seq::empty());
    let all = match package {
        Some(package) => with_entry(entries, 0, (package_key(package.symbol), package)),
        None => entries,
    };
    Seq::new(all.len(), |i: int| all[i].1)
}

pub open spec fn keyed_views(entries: Seq<(String, Documentation)>) -> Keyed {
    Seq::new(entries.len(), |i: int| (entries[i].0@, entries[i].1@))
}

fn put(entries: &mut Vec<(String, Documentation)>, entry: (String, Documentation))
    ensures
        keyed_views(final(entries)@) == with_entry(keyed_views(old(entries)@), 0, (entry.0@, entry.1@)),
{
    let ghost before = entries@;
    let ghost all = keyed_views(before);
    let ghost added = (entry.0@, entry.1@);
    let mut i: usize = 0;
    while i < entries.len()
        invariant
            i <= entries.len(),
            entries@ == before,
            before == old(entries)@,
            all == keyed_views(before),
            added == (entry.0@, entry.1@),
            with_entry(all, 0, added) == with_entry(all, i as int, added),
        decreases entries.len() - i,
    {
        if same_text(entries[i].0.as_str(), entry.0.as_str()) {
            entries.set(i, entry);
            assert(keyed_views(entries@) =~= all.update(i as int, added));
            return;
        }
        if !text_precedes(entries[i].0.as_str(), entry.0.as_str()) {
            entries.insert(i, entry);
            assert(keyed_views(entries@) =~= all.insert(i as int, added));
            return;
        }
        i += 1;
    }
    entries.push(entry);
    assert(keyed_views(entries@) =~= all.push(added));
}

pub open spec fn package_option(package: Option<Documentation>) -> Option<DocumentationView> {
    match package {
        Some(package) => Some(package@),
        None => None,
    }
}

/// The documentation of a program: that of its symbols, and of its package
/// where it has any.
pub fn collect(docs: &Vec<Documentation>, package: Option<Documentation>) -> (result: Vec<Documentation>)
    ensures
        views(result@) == collected(views(docs@), package_option(package)),
{
    let ghost all = views(docs@);
    let mut entries: Vec<(String, Documentation)> = Vec::new();
    assert(keyed_views(entries@) =~= Seq::<(Seq<char>, DocumentationView)>::empty());
    let mut i: usize = 0;
    while i < docs.len()
        invariant
            i <= docs.len(),
            all == views(docs@),
            keyed_by_symbol(all, 0, Seq::empty()) == keyed_by_symbol(all, i as int, keyed_views(entries@)),
        decreases docs.len() - i,
    {
        put(&mut entries, (docs[i].symbol.clone(), docs[i].copied()));
        i += 1;
    }
    match package {
        Some(package) => {
            let key = concat_two("\0", package.symbol.as_str());
            put(&mut entries, (key, package));
        }
        None => {}
    }
    let ghost keyed = keyed_views(entries@);
    let mut done: Vec<Documentation> = Vec::new();
    let mut j: usize = 0;
    while j < entries.len()
        invariant
            j <= entries.len(),
            done.len() == j,
            keyed == keyed_views(entries@),
            forall|k: int| 0 <= k < j ==> (#[trigger] done@[k])@ == keyed[k].1,
        decreases entries.len() - j,
    {
        done.push(entries[j].1.copied());
        j += 1;
    }
    assert(views(done@) =~= Seq::new(keyed.len(), |k: int| keyed[k].1));
    done
}

} // verus!
