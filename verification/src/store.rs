//! The project store: an ordered list of named projects bound to a
//! backing file. Loading builds the list from the file's lines; starting
//! a project trims the requested name, rejects duplicates and appends;
//! saving renders the list back to file text, one name per line.

use crate::codec::{parse_lines, parse_spec, render_lines, render_spec};
use crate::text::{lemma_trim_idempotent, trim, trim_spec};
use vstd::prelude::*;
use vstd::string::StringExecFns;

verus! {

/// One project; the trimmed name is its identity.
pub struct Project {
    pub name: String,
}

/// The in-memory store: the backing file's path and the projects in
/// insertion order (file order at load time, appended ones after).
pub struct Data {
    pub filename: String,
    pub projects: Vec<Project>,
}

/// What reading the backing file produced, as the caller observed it:
/// the file was absent, its full text, or it failed to read.
pub enum FileRead {
    Missing,
    Content(String),
    Unreadable,
}

/// How a load went: read and parsed, initialized empty because the file
/// was absent, or fallen back to empty because the file would not read.
#[derive(Clone, Copy, Debug, PartialEq, Eq, Structural)]
pub enum LoadStatus {
    Loaded,
    AbsentInitialized,
    Corrupt,
}

/// What a start request did: stored the project, left the store alone
/// because a stored name already trims to the requested one, or
/// rejected a name that trims to nothing — a project name must be
/// non-empty text.
#[derive(Clone, Copy, Debug, PartialEq, Eq, Structural)]
pub enum StartOutcome {
    Created,
    AlreadyExists,
    EmptyName,
}

/// Whether some stored name trims to `t`: uniqueness is an exact match
/// against the trimmed existing names, so an untrimmed line read from
/// the backing file still blocks its trimmed form.
pub open spec fn has_name(names: Seq<Seq<char>>, t: Seq<char>) -> bool {
    exists|i: int| 0 <= i < names.len() && trim_spec(names[i]) == t
}

/// The store a start request (already trimmed to `t`) leaves behind:
/// unchanged if `t` is empty or a stored name already trims to it,
/// otherwise with `t` appended.
pub open spec fn start_result(names: Seq<Seq<char>>, t: Seq<char>) -> Seq<Seq<char>> {
    if t.len() == 0 {
        names
    } else if has_name(names, t) {
        names
    } else {
        names.push(t)
    }
}

/// How many stored projects trim to this name.
pub open spec fn count_name(names: Seq<Seq<char>>, t: Seq<char>) -> nat
    decreases names.len(),
{
    if names.len() == 0 {
        0
    } else {
        count_name(names.drop_last(), t) + (if trim_spec(names.last()) == t {
            1nat
        } else {
            0nat
        })
    }
}

proof fn lemma_count_zero(names: Seq<Seq<char>>, t: Seq<char>)
    ensures
        (count_name(names, t) == 0) <==> !has_name(names, t),
    decreases names.len(),
{
    if names.len() > 0 {
        lemma_count_zero(names.drop_last(), t);
        if has_name(names, t) {
            let i = choose|i: int| 0 <= i < names.len() && trim_spec(names[i]) == t;
            if i < names.len() - 1 {
                assert(names.drop_last()[i] == names[i]);
                assert(has_name(names.drop_last(), t));
            }
        } else {
            assert(trim_spec(names.last()) != t);
            assert(forall|i: int|
                0 <= i < names.len() - 1 ==> names.drop_last()[i] == names[i]);
            assert(!has_name(names.drop_last(), t));
        }
    }
}

/// Starting the same project twice stores it once: after a fresh,
/// non-empty name is started, exactly one stored project trims to it,
/// and a second request that trims to the same name leaves the store
/// exactly as it was.
pub proof fn lemma_duplicate_start_rejected(names: Seq<Seq<char>>, raw: Seq<char>)
    ensures
        ({
            let t = trim_spec(raw);
            &&& (t.len() > 0 && !has_name(names, t)) ==> count_name(
                start_result(names, t),
                t,
            ) == 1
            &&& start_result(start_result(names, t), t) == start_result(names, t)
        }),
{
    let t = trim_spec(raw);
    lemma_trim_idempotent(raw);
    if t.len() > 0 && !has_name(names, t) {
        let r = names.push(t);
        assert(r.drop_last() =~= names);
        assert(trim_spec(r.last()) == t);
        lemma_count_zero(names, t);
        assert(count_name(r, t) == 1);
        assert(trim_spec(r[names.len() as int]) == t);
        assert(has_name(r, t));
    }
}

impl Data {
    /// The stored names, in order: the store's abstract state.
    pub open spec fn names(&self) -> Seq<Seq<char>> {
        self.projects@.map_values(|p: Project| p.name@)
    }

    /// No two stored projects carry the same name once surrounding
    /// whitespace is trimmed away.
    pub open spec fn wf(&self) -> bool {
        forall|i: int, j: int|
            0 <= i < j < self.names().len() ==> trim_spec(self.names()[i]) != trim_spec(
                self.names()[j],
            )
    }

    /// An empty store bound to the default backing file.
    pub fn new() -> (d: Data)
        ensures
            d.names() == Seq::<Seq<char>>::empty(),
            d.filename@ == "data"@,
            d.wf(),
    {
        let d = Data { filename: String::from_str("data"), projects: Vec::new() };
        proof {
            assert(d.names() =~= Seq::<Seq<char>>::empty());
        }
        d
    }

    /// Builds the store from what reading the backing file produced: its
    /// lines in file order when the text was read, and an empty store
    /// otherwise — an absent file means "no projects yet" and raises no
    /// error, an unreadable one degrades to empty but is reported as
    /// corrupt.
    pub fn load(filename: &str, read: FileRead) -> (r: (Data, LoadStatus))
        ensures
            r.0.filename@ == filename@,
            match read {
                FileRead::Missing => r.0.names() == Seq::<Seq<char>>::empty() && r.1
                    == LoadStatus::AbsentInitialized,
                FileRead::Content(c) => r.0.names() == parse_spec(c@) && r.1
                    == LoadStatus::Loaded,
                FileRead::Unreadable => r.0.names() == Seq::<Seq<char>>::empty() && r.1
                    == LoadStatus::Corrupt,
            },
    {
        match read {
            FileRead::Missing => {
                let d = Data { filename: filename.to_owned(), projects: Vec::new() };
                proof {
                    assert(d.names() =~= Seq::<Seq<char>>::empty());
                }
                (d, LoadStatus::AbsentInitialized)
            },
            FileRead::Content(c) => {
                let lines = parse_lines(c.as_str());
                let mut projects: Vec<Project> = Vec::new();
                let mut k: usize = 0;
                proof {
                    assert(projects@.map_values(|p: Project| p.name@) =~= lines.deep_view().take(
                        0,
                    ));
                }
                while k < lines.len()
                    invariant
                        0 <= k <= lines.len(),
                        projects@.map_values(|p: Project| p.name@) == lines.deep_view().take(
                            k as int,
                        ),
                    decreases lines.len() - k,
                {
                    let ghost before = projects@.map_values(|p: Project| p.name@);
                    let name = lines[k].clone();
                    projects.push(Project { name });
                    proof {
                        assert(name@ == lines@[k as int]@);
                        assert(lines.deep_view()[k as int] == lines@[k as int]@);
                        assert(projects@.map_values(|p: Project| p.name@) =~= before.push(
                            name@,
                        ));
                        assert(projects@.map_values(|p: Project| p.name@)
                            =~= lines.deep_view().take(k + 1));
                    }
                    k = k + 1;
                }
                let d = Data { filename: filename.to_owned(), projects };
                proof {
                    assert(lines.deep_view().take(lines.deep_view().len() as int)
                        =~= lines.deep_view());
                }
                (d, LoadStatus::Loaded)
            },
            FileRead::Unreadable => {
                let d = Data { filename: filename.to_owned(), projects: Vec::new() };
                proof {
                    assert(d.names() =~= Seq::<Seq<char>>::empty());
                }
                (d, LoadStatus::Corrupt)
            },
        }
    }

    /// Starts a project: the requested name is trimmed, rejected if it
    /// trims to nothing or if a stored name already trims to it, and
    /// appended at the end otherwise. Only a `Created` outcome changes
    /// the store, and the store stays well formed.
    pub fn start(&mut self, name: &str) -> (r: StartOutcome)
        ensures
            final(self).filename == old(self).filename,
            final(self).names() == start_result(old(self).names(), trim_spec(name@)),
            r == StartOutcome::EmptyName <==> trim_spec(name@).len() == 0,
            r == StartOutcome::Created <==> trim_spec(name@).len() > 0 && !has_name(
                old(self).names(),
                trim_spec(name@),
            ),
            r != StartOutcome::Created ==> *final(self) == *old(self),
            old(self).wf() ==> final(self).wf(),
    {
        let trimmed_ref = trim(name);
        if trimmed_ref.is_empty() {
            return StartOutcome::EmptyName;
        }
        let trimmed = trimmed_ref.to_owned();
        let mut k: usize = 0;
        while k < self.projects.len()
            invariant
                0 <= k <= self.projects.len(),
                trimmed@ == trim_spec(name@),
                trimmed@.len() > 0,
                *self == *old(self),
                forall|i: int| 0 <= i < k ==> trim_spec(old(self).names()[i]) != trimmed@,
            decreases self.projects.len() - k,
        {
            let stored_trimmed = trim(self.projects[k].name.as_str()).to_owned();
            if stored_trimmed == trimmed {
                assert(trim_spec(old(self).names()[k as int]) == trimmed@);
                assert(has_name(old(self).names(), trim_spec(name@)));
                return StartOutcome::AlreadyExists;
            }
            k = k + 1;
        }
        assert(forall|i: int|
            0 <= i < old(self).names().len() ==> trim_spec(old(self).names()[i]) != trimmed@);
        assert(!has_name(old(self).names(), trim_spec(name@)));
        self.projects.push(Project { name: trimmed });
        proof {
            assert(self.names() =~= old(self).names().push(trim_spec(name@)));
            lemma_trim_idempotent(name@);
            if old(self).wf() {
                assert forall|i: int, j: int|
                    0 <= i < j < self.names().len() implies trim_spec(self.names()[i])
                    != trim_spec(self.names()[j]) by {
                    if j < self.names().len() - 1 {
                        assert(trim_spec(old(self).names()[i]) != trim_spec(
                            old(self).names()[j],
                        ));
                    } else {
                        assert(self.names()[i] == old(self).names()[i]);
                        assert(trim_spec(self.names()[j]) == trim_spec(name@));
                    }
                }
            }
        }
        StartOutcome::Created
    }

    /// The stored names in their current order; the store is untouched.
    pub fn list(&self) -> (names: Vec<String>)
        ensures
            names.deep_view() == self.names(),
    {
        let mut names: Vec<String> = Vec::new();
        let mut k: usize = 0;
        proof {
            assert(names.deep_view() =~= self.names().take(0));
        }
        while k < self.projects.len()
            invariant
                0 <= k <= self.projects.len(),
                names.deep_view() == self.names().take(k as int),
            decreases self.projects.len() - k,
        {
            let ghost before = names.deep_view();
            let entry = self.projects[k].name.clone();
            names.push(entry);
            proof {
                assert(entry@ == self.names()[k as int]);
                assert(names.deep_view() =~= before.push(entry@));
                assert(names.deep_view() =~= self.names().take(k + 1));
            }
            k = k + 1;
        }
        proof {
            assert(self.names().take(self.names().len() as int) =~= self.names());
        }
        names
    }

    /// The full text a save writes over the backing file: every stored
    /// name, one per line, in order. On a successful write the file
    /// mirrors the in-memory state exactly.
    pub fn save_content(&self) -> (out: String)
        ensures
            out@ == render_spec(self.names()),
    {
        let names = self.list();
        render_lines(&names)
    }
}

impl Default for Data {
    /// The same empty store `new` builds.
    fn default() -> (d: Data)
        ensures
            d.names() == Seq::<Seq<char>>::empty(),
            d.filename@ == "data"@,
    {
        Data::new()
    }
}

} // verus!
