//! In-memory index of completion specs, keyed by tool name.
//!
//! Specs are JSON files in the specs directory (`<data dir>/tabra/specs`),
//! one per tool: `git.json` holds the spec of `git`. Reading the directory
//! and parsing the files happens around this index; the index decides
//! which files count, under which name a spec is kept, and what a reload or
//! a removal does to it.
use vstd::prelude::*;
use crate::spec::types::Spec;
use crate::paths::{path_extension, path_extension_text, path_file_stem, path_file_stem_text, path_join, path_join_text};
use crate::text::{str_eq, string_or};

verus! {

/// The map that a list of (name, spec) entries stands for: a later entry
/// under a name replaces an earlier one.
pub open spec fn entries_map(s: Seq<(String, Spec)>) -> Map<Seq<char>, Spec>
    decreases s.len(),
{
    if s.len() == 0 {
        Map::empty()
    } else {
        entries_map(s.drop_last()).insert(s.last().0@, s.last().1)
    }
}

/// No name occurs twice.
pub open spec fn names_distinct(s: Seq<(String, Spec)>) -> bool {
    forall|i: int, j: int| 0 <= i < j < s.len() ==> (#[trigger] s[i]).0@ != (#[trigger] s[j]).0@
}

/// Whether a path names a spec file: its extension is `json`.
pub open spec fn is_spec_path_spec(path: Seq<char>) -> bool {
    path_extension_text(path) == Some("json"@)
}

/// The tool name of a spec file: the file stem, or the empty name when the
/// path has none.
pub open spec fn spec_name_spec(path: Seq<char>) -> Seq<char> {
    match path_file_stem_text(path) {
        Some(s) => s,
        None => Seq::empty(),
    }
}

/// The index after a file at `path` was (re)loaded, with `loaded` the
/// spec parsed from it (`None` when it could not be read or parsed).
pub open spec fn reload_spec(m: Map<Seq<char>, Spec>, path: Seq<char>, loaded: Option<Spec>) -> Map<Seq<char>, Spec> {
    if is_spec_path_spec(path) {
        match loaded {
            Some(spec) => m.insert(spec_name_spec(path), spec),
            None => m,
        }
    } else {
        m
    }
}

/// The index after the files of a directory were loaded in turn.
pub open spec fn reload_files_spec(m: Map<Seq<char>, Spec>, files: Seq<(Seq<char>, Option<Spec>)>) -> Map<Seq<char>, Spec>
    decreases files.len(),
{
    if files.len() == 0 {
        m
    } else {
        reload_spec(reload_files_spec(m, files.drop_last()), files.last().0, files.last().1)
    }
}

/// The index after a file at `path` was deleted.
pub open spec fn remove_spec(m: Map<Seq<char>, Spec>, path: Seq<char>) -> Map<Seq<char>, Spec> {
    match path_file_stem_text(path) {
        Some(stem) => m.remove(stem),
        None => m,
    }
}

/// The plain view of the files handed to a reload.
pub open spec fn file_views(files: Seq<(String, Option<Spec>)>) -> Seq<(Seq<char>, Option<Spec>)> {
    files.map_values(|f: (String, Option<Spec>)| (f.0@, f.1))
}

/// The specs directory under a data directory, with `~/.local/share`
/// standing in when there is none.
pub open spec fn specs_dir_spec(data_dir: Option<Seq<char>>) -> Seq<char> {
    let base = match data_dir {
        Some(d) => d,
        None => "~/.local/share"@,
    };
    path_join_text(path_join_text(base, "tabra"@), "specs"@)
}

proof fn lemma_entries_map_finite(s: Seq<(String, Spec)>)
    ensures
        entries_map(s).dom().finite(),
    decreases s.len(),
{
    if s.len() > 0 {
        lemma_entries_map_finite(s.drop_last());
    }
}

/// With distinct names, the map has one key per entry, and each entry's
/// spec is what the map holds under its name.
proof fn lemma_entries_map_distinct(s: Seq<(String, Spec)>)
    requires
        names_distinct(s),
    ensures
        entries_map(s).dom().len() == s.len(),
        forall|j: int| 0 <= j < s.len() ==> entries_map(s).contains_key(#[trigger] s[j].0@) && entries_map(s)[s[j].0@] == s[j].1,
        forall|k: Seq<char>| entries_map(s).contains_key(k) ==> exists|j: int| 0 <= j < s.len() && #[trigger] s[j].0@ == k,
    decreases s.len(),
{
    if s.len() > 0 {
        let t = s.drop_last();
        assert(names_distinct(t)) by {
            assert forall|i: int, j: int| 0 <= i < j < t.len() implies (#[trigger] t[i]).0@ != (#[trigger] t[j]).0@ by {
                assert(t[i] == s[i] && t[j] == s[j]);
            }
        }
        lemma_entries_map_distinct(t);
        lemma_entries_map_finite(t);
        let e = s.last();
        if entries_map(t).contains_key(e.0@) {
            let j = choose|j: int| 0 <= j < t.len() && #[trigger] t[j].0@ == e.0@;
            assert(s[j] == t[j]);
            assert(false);
        }
        assert forall|j: int| 0 <= j < s.len() implies entries_map(s).contains_key(#[trigger] s[j].0@) && entries_map(s)[s[j].0@] == s[j].1 by {
            if j < s.len() - 1 {
                assert(s[j] == t[j]);
                assert(s[j].0@ != e.0@);
            }
        }
        assert forall|k: Seq<char>| entries_map(s).contains_key(k) implies exists|j: int| 0 <= j < s.len() && #[trigger] s[j].0@ == k by {
            if k == e.0@ {
                assert(s[s.len() - 1].0@ == k);
            } else {
                let j = choose|j: int| 0 <= j < t.len() && #[trigger] t[j].0@ == k;
                assert(s[j] == t[j]);
            }
        }
    }
}

/// Removing the entry at `j` of a list with distinct names removes its
/// name from the map and keeps the names distinct.
proof fn lemma_remove_entry(s: Seq<(String, Spec)>, j: int)
    requires
        names_distinct(s),
        0 <= j < s.len(),
    ensures
        names_distinct(s.remove(j)),
        entries_map(s.remove(j)) == entries_map(s).remove(s[j].0@),
{
    let t = s.remove(j);
    let k = s[j].0@;
    assert forall|a: int, b: int| 0 <= a < b < t.len() implies (#[trigger] t[a]).0@ != (#[trigger] t[b]).0@ by {
        let sa = if a < j { a } else { a + 1 };
        let sb = if b < j { b } else { b + 1 };
        assert(t[a] == s[sa] && t[b] == s[sb]);
    }
    lemma_entries_map_distinct(s);
    lemma_entries_map_distinct(t);
    assert forall|x: Seq<char>| #[trigger] entries_map(t).contains_key(x) <==> entries_map(s).remove(k).contains_key(x) by {
        if entries_map(t).contains_key(x) {
            let a = choose|a: int| 0 <= a < t.len() && #[trigger] t[a].0@ == x;
            let sa = if a < j { a } else { a + 1 };
            assert(t[a] == s[sa]);
        }
        if entries_map(s).remove(k).contains_key(x) {
            let a = choose|a: int| 0 <= a < s.len() && #[trigger] s[a].0@ == x;
            assert(a != j);
            let ta = if a < j { a } else { a - 1 };
            assert(t[ta] == s[a]);
        }
    }
    assert forall|x: Seq<char>| #[trigger] entries_map(t).contains_key(x) implies entries_map(t)[x] == entries_map(s).remove(k)[x] by {
        let a = choose|a: int| 0 <= a < t.len() && #[trigger] t[a].0@ == x;
        let sa = if a < j { a } else { a + 1 };
        assert(t[a] == s[sa]);
    }
    assert(entries_map(t) =~= entries_map(s).remove(k));
}

/// In-memory index of all loaded specs, keyed by tool name.
pub struct SpecIndex {
    specs: Vec<(String, Spec)>,
    specs_dir: String,
}

impl SpecIndex {
    /// The loaded specs by tool name.
    pub closed spec fn specs_map(&self) -> Map<Seq<char>, Spec> {
        entries_map(self.specs@)
    }

    /// The specs directory.
    pub closed spec fn dir(&self) -> Seq<char> {
        self.specs_dir@
    }

    /// Each tool name is held once.
    pub closed spec fn wf(&self) -> bool {
        names_distinct(self.specs@)
    }

    /// An empty index over a specs directory.
    pub fn new(specs_dir: String) -> (r: Self)
        ensures
            r.wf(),
            r.specs_map() == Map::<Seq<char>, Spec>::empty(),
            r.dir() == specs_dir@,
    {
        SpecIndex { specs: Vec::new(), specs_dir }
    }

    /// An index over a specs directory loaded from its files: each entry
    /// is a file's path and the spec parsed from it (`None` when it could
    /// not be read or parsed).
    pub fn load(specs_dir: String, files: Vec<(String, Option<Spec>)>) -> (r: Self)
        ensures
            r.wf(),
            r.specs_map() == reload_files_spec(Map::empty(), file_views(files@)),
            r.dir() == specs_dir@,
    {
        let mut index = SpecIndex::new(specs_dir);
        index.reload_all(files);
        index
    }

    /// The specs directory path.
    pub fn specs_dir(&self) -> (r: &str)
        ensures
            r@ == self.dir(),
    {
        self.specs_dir.as_str()
    }

    /// Look up a spec by CLI tool name (e.g. "git", "docker").
    pub fn get(&self, tool_name: &str) -> (r: Option<&Spec>)
        requires
            self.wf(),
        ensures
            match r {
                Some(s) => self.specs_map().contains_key(tool_name@) && *s == self.specs_map()[tool_name@],
                None => !self.specs_map().contains_key(tool_name@),
            },
    {
        proof {
            lemma_entries_map_distinct(self.specs@);
        }
        let mut i: usize = 0;
        while i < self.specs.len()
            invariant
                i <= self.specs@.len(),
                names_distinct(self.specs@),
                forall|j: int| 0 <= j < i ==> (#[trigger] self.specs@[j]).0@ != tool_name@,
            decreases self.specs.len() - i,
        {
            if str_eq(self.specs[i].0.as_str(), tool_name) {
                proof {
                    lemma_entries_map_distinct(self.specs@);
                }
                return Some(&self.specs[i].1);
            }
            i += 1;
        }
        None
    }

    /// Number of loaded specs.
    pub fn len(&self) -> (r: usize)
        requires
            self.wf(),
        ensures
            r == self.specs_map().dom().len(),
    {
        proof {
            lemma_entries_map_distinct(self.specs@);
        }
        self.specs.len()
    }

    /// Whether the index is empty.
    pub fn is_empty(&self) -> (r: bool)
        requires
            self.wf(),
        ensures
            r == (self.specs_map().dom().len() == 0),
    {
        self.len() == 0
    }

    /// Keeps `spec` under `name`, replacing what was held under it.
    pub fn insert(&mut self, name: String, spec: Spec)
        requires
            old(self).wf(),
        ensures
            final(self).wf(),
            final(self).specs_map() == old(self).specs_map().insert(name@, spec),
            final(self).dir() == old(self).dir(),
    {
        self.remove_name(name.as_str());
        let ghost before = self.specs@;
        self.specs.push((name, spec));
        proof {
            assert(self.specs@.drop_last() =~= before);
            assert forall|i: int, j: int| 0 <= i < j < self.specs@.len() implies (#[trigger] self.specs@[i]).0@ != (#[trigger] self.specs@[j]).0@ by {
                if j == self.specs@.len() - 1 {
                    assert(self.specs@[i] == before[i]);
                } else {
                    assert(self.specs@[i] == before[i] && self.specs@[j] == before[j]);
                }
            }
            assert(self.specs_map() =~= old(self).specs_map().insert(name@, spec));
        }
    }

    /// Drops what is held under `name`.
    fn remove_name(&mut self, name: &str)
        requires
            old(self).wf(),
        ensures
            final(self).wf(),
            final(self).specs_map() == old(self).specs_map().remove(name@),
            final(self).dir() == old(self).dir(),
            forall|j: int| 0 <= j < final(self).specs@.len() ==> (#[trigger] final(self).specs@[j]).0@ != name@,
    {
        let mut i: usize = 0;
        while i < self.specs.len()
            invariant
                i <= self.specs@.len(),
                self.specs@ == old(self).specs@,
                names_distinct(self.specs@),
                self.specs_dir == old(self).specs_dir,
                forall|j: int| 0 <= j < i ==> (#[trigger] self.specs@[j]).0@ != name@,
            decreases self.specs.len() - i,
        {
            if str_eq(self.specs[i].0.as_str(), name) {
                let ghost s0 = self.specs@;
                let _ = self.specs.remove(i);
                proof {
                    lemma_remove_entry(s0, i as int);
                    assert forall|j: int| 0 <= j < self.specs@.len() implies (#[trigger] self.specs@[j]).0@ != name@ by {
                        let sj = if j < i { j } else { j + 1 };
                        assert(self.specs@[j] == s0[sj]);
                    }
                }
                return;
            }
            i += 1;
        }
        proof {
            lemma_entries_map_distinct(self.specs@);
            if self.specs_map().contains_key(name@) {
                let j = choose|j: int| 0 <= j < self.specs@.len() && #[trigger] self.specs@[j].0@ == name@;
                assert(false);
            }
            assert(self.specs_map().remove(name@) =~= self.specs_map());
        }
    }

    /// Applies a (re)load of the file at `path`, with `loaded` the spec
    /// parsed from it (`None` when it could not be read or parsed). Files
    /// other than `*.json` are ignored; a failed load leaves the index as
    /// it was.
    pub fn reload_file(&mut self, path: &str, loaded: Option<Spec>)
        requires
            old(self).wf(),
        ensures
            final(self).wf(),
            final(self).specs_map() == reload_spec(old(self).specs_map(), path@, loaded),
            final(self).dir() == old(self).dir(),
    {
        if !is_spec_path(path) {
            return;
        }
        match loaded {
            Some(spec) => {
                let name = spec_name(path);
                self.insert(name, spec);
            },
            None => {},
        }
    }

    /// Replaces the index with the specs of a directory's files, loaded in
    /// turn as [`SpecIndex::reload_file`] does.
    pub fn reload_all(&mut self, files: Vec<(String, Option<Spec>)>)
        requires
            old(self).wf(),
        ensures
            final(self).wf(),
            final(self).specs_map() == reload_files_spec(Map::empty(), file_views(files@)),
            final(self).dir() == old(self).dir(),
    {
        self.specs = Vec::new();
        assert(self.specs_map() =~= Map::<Seq<char>, Spec>::empty());
        let ghost fv = file_views(files@);
        let mut rest = files;
        let n = rest.len();
        let mut i: usize = 0;
        assert(fv.take(0) =~= Seq::<(Seq<char>, Option<Spec>)>::empty());
        while rest.len() > 0
            invariant
                self.wf(),
                self.dir() == old(self).dir(),
                i + rest@.len() == n,
                n == fv.len(),
                forall|j: int| 0 <= j < rest@.len() ==> (#[trigger] rest@[j]).0@ == fv[i + j].0 && rest@[j].1 == fv[i + j].1,
                self.specs_map() == reload_files_spec(Map::empty(), fv.take(i as int)),
            decreases rest.len(),
        {
            proof {
                assert(rest@[0].0@ == fv[i as int].0);
            }
            let ghost r0 = rest@;
            let (path, loaded) = rest.remove(0);
            proof {
                assert(fv.take(i + 1).drop_last() =~= fv.take(i as int));
                assert(fv.take(i + 1).last() == fv[i as int]);
                assert forall|j: int| 0 <= j < rest@.len() implies (#[trigger] rest@[j]).0@ == fv[i + 1 + j].0 && rest@[j].1 == fv[i + 1 + j].1 by {
                    assert(rest@[j] == r0[j + 1]);
                }
            }
            self.reload_file(path.as_str(), loaded);
            i += 1;
        }
        assert(fv.take(n as int) =~= fv);
    }

    /// Removes the spec of a deleted file: the one named by the file stem.
    pub fn remove_file(&mut self, path: &str)
        requires
            old(self).wf(),
        ensures
            final(self).wf(),
            final(self).specs_map() == remove_spec(old(self).specs_map(), path@),
            final(self).dir() == old(self).dir(),
    {
        match path_file_stem(path) {
            Some(stem) => self.remove_name(stem.as_str()),
            None => {},
        }
    }
}

/// Whether a path names a spec file (`*.json`).
pub fn is_spec_path(path: &str) -> (r: bool)
    ensures
        r == is_spec_path_spec(path@),
{
    match path_extension(path) {
        Some(ext) => {
            let r = str_eq(ext.as_str(), "json");
            r
        },
        None => false,
    }
}

/// The tool name of a spec file: its file stem (`git.json` holds `git`).
pub fn spec_name(path: &str) -> (r: String)
    ensures
        r@ == spec_name_spec(path@),
{
    match path_file_stem(path) {
        Some(s) => s,
        None => String::new(),
    }
}

/// The specs directory under a data directory (`<data>/tabra/specs`),
/// under `~/.local/share` when there is none.
pub fn specs_dir_under(data_dir: &Option<String>) -> (r: String)
    ensures
        r@ == specs_dir_spec(
            match data_dir {
                Some(d) => Some(d@),
                None => None,
            },
        ),
{
    let base = string_or(data_dir, "~/.local/share");
    let tabra = path_join(base.as_str(), "tabra");
    path_join(tabra.as_str(), "specs")
}

/// `dirs::data_dir()` as text: the user's data directory, from the
/// environment and the platform's conventions.
/// Trusted, with nothing promised of the result: it depends on the
/// environment of the process.
#[verifier::external_body]
fn user_data_dir() -> (r: Option<String>) {
    dirs::data_dir().map(|p| p.to_string_lossy().into_owned())
}

/// Default specs directory: `~/.local/share/tabra/specs` on Linux.
pub fn default_specs_dir() -> (r: String)
    ensures
        exists|d: Option<Seq<char>>| r@ == specs_dir_spec(d),
{
    let d = user_data_dir();
    let r = specs_dir_under(&d);
    proof {
        let dv = match d {
            Some(s) => Some(s@),
            None => None,
        };
        assert(r@ == specs_dir_spec(dv));
    }
    r
}

} // verus!

verus! {

/// After a spec file is (re)loaded, its tool name gives the spec parsed
/// from it; a file that could not be loaded, or is not a `*.json` file,
/// leaves the index as it was.
pub proof fn law_reload_then_get(m: Map<Seq<char>, Spec>, path: Seq<char>, loaded: Option<Spec>)
    ensures
        is_spec_path_spec(path) && loaded is Some ==> reload_spec(m, path, loaded).contains_key(spec_name_spec(path))
            && reload_spec(m, path, loaded)[spec_name_spec(path)] == loaded->0,
        !(is_spec_path_spec(path) && loaded is Some) ==> reload_spec(m, path, loaded) == m,
        forall|k: Seq<char>| k != spec_name_spec(path) ==> #[trigger] reload_spec(m, path, loaded).contains_key(k) == m.contains_key(k)
            && (m.contains_key(k) ==> reload_spec(m, path, loaded)[k] == m[k]),
{
}

/// Deleting a spec file after loading it removes its tool, and only it.
pub proof fn law_reload_then_remove(m: Map<Seq<char>, Spec>, path: Seq<char>, spec: Spec)
    requires
        is_spec_path_spec(path),
        path_file_stem_text(path) is Some,
    ensures
        remove_spec(reload_spec(m, path, Some(spec)), path) == m.remove(spec_name_spec(path)),
{
    assert(m.insert(spec_name_spec(path), spec).remove(spec_name_spec(path)) =~= m.remove(spec_name_spec(path)));
}

} // verus!
