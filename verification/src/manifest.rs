//! The description of the throwaway project: its package, what it depends
//! on, its build targets, and the build tool's configuration.

use vstd::prelude::*;

verus! {

/// A value of the manifest's format; the harness carries such values through
/// without looking inside.
#[verifier::external_type_specification]
#[verifier::external_body]
pub struct ExValue(toml::Value);

/// Calls `toml::Value::clone`, which is derived: the copy equals the value.
#[verifier::external_body]
pub(crate) fn clone_value(value: &toml::Value) -> (copy: toml::Value)
    ensures
        copy == *value,
{
    value.clone()
}

/// The language edition of the throwaway project.
#[derive(Debug, Clone, Copy, PartialEq, Eq, Structural)]
pub enum Edition {
    E2018,
}

/// The identity of the throwaway project.
#[derive(Debug)]
pub struct Package {
    pub name: String,
    pub version: String,
    pub edition: Edition,
    pub publish: bool,
}

/// A [`Package`] with its texts as character sequences.
pub struct PackageView {
    pub name: Seq<char>,
    pub version: Seq<char>,
    pub edition: Edition,
    pub publish: bool,
}

impl View for Package {
    type V = PackageView;

    open spec fn view(&self) -> PackageView {
        PackageView {
            name: self.name@,
            version: self.version@,
            edition: self.edition,
            publish: self.publish,
        }
    }
}

/// The declaration of one dependency: a version, a local path, and whatever
/// other fields were given, in the order given.
#[derive(Debug)]
pub struct Dependency {
    pub version: Option<String>,
    pub path: Option<String>,
    pub rest: Vec<(String, toml::Value)>,
}

/// A [`Dependency`] with its texts as character sequences.
pub struct DependencyView {
    pub version: Option<Seq<char>>,
    pub path: Option<Seq<char>>,
    pub rest: Seq<(Seq<char>, toml::Value)>,
}

/// The other fields of a dependency, their names as character sequences.
pub open spec fn fields_view(rest: Seq<(String, toml::Value)>) -> Seq<(Seq<char>, toml::Value)> {
    rest.map_values(|field: (String, toml::Value)| (field.0@, field.1))
}

impl View for Dependency {
    type V = DependencyView;

    open spec fn view(&self) -> DependencyView {
        DependencyView {
            version: self.version.deep_view(),
            path: self.path.deep_view(),
            rest: fields_view(self.rest@),
        }
    }
}

impl DeepView for Dependency {
    type V = DependencyView;

    open spec fn deep_view(&self) -> DependencyView {
        self@
    }
}

/// A copy of `text`, where there is one.
pub fn clone_text(text: &Option<String>) -> (copy: Option<String>)
    ensures
        copy.deep_view() == text.deep_view(),
{
    match text {
        Some(text) => Some(text.clone()),
        None => None,
    }
}

/// A copy of the other fields of a dependency.
pub fn clone_fields(rest: &Vec<(String, toml::Value)>) -> (copy: Vec<(String, toml::Value)>)
    ensures
        fields_view(copy@) == fields_view(rest@),
{
    let mut copy: Vec<(String, toml::Value)> = Vec::new();
    let mut i: usize = 0;
    while i < rest.len()
        invariant
            i <= rest.len(),
            fields_view(copy@) == fields_view(rest@.take(i as int)),
        decreases rest.len() - i,
    {
        let ghost shorter = copy@;
        let name = rest[i].0.clone();
        let value = clone_value(&rest[i].1);
        copy.push((name, value));
        i += 1;
        proof {
            assert(fields_view(shorter).len() == i - 1);
            assert forall|j: int| 0 <= j < i implies fields_view(copy@)[j] == fields_view(
                rest@.take(i as int),
            )[j] by {
                if j < i - 1 {
                    assert(fields_view(shorter)[j] == fields_view(rest@.take(i - 1))[j]);
                }
            }
            assert(fields_view(copy@) =~= fields_view(rest@.take(i as int)));
        }
    }
    proof {
        assert(rest@.take(rest.len() as int) =~= rest@);
    }
    copy
}

impl Clone for Dependency {
    fn clone(&self) -> (copy: Dependency)
        ensures
            copy@ == self@,
    {
        Dependency {
            version: clone_text(&self.version),
            path: clone_text(&self.path),
            rest: clone_fields(&self.rest),
        }
    }
}

/// The map that a list of named dependencies stands for: where a name occurs
/// twice, the later entry counts.
pub open spec fn entries_map(entries: Seq<(Seq<char>, DependencyView)>) -> Map<
    Seq<char>,
    DependencyView,
>
    decreases entries.len(),
{
    if entries.len() == 0 {
        Map::empty()
    } else {
        entries_map(entries.drop_last()).insert(entries.last().0, entries.last().1)
    }
}

/// No name occurs twice in `entries`.
pub open spec fn distinct_names(entries: Seq<(Seq<char>, DependencyView)>) -> bool {
    forall|i: int, j: int|
        0 <= i < j < entries.len() ==> (#[trigger] entries[i]).0 != (#[trigger] entries[j]).0
}

/// A name that `entries` holds at `at` is a key of the map, with that entry's
/// declaration, provided no later entry has the name.
pub proof fn lemma_entry_is_mapped(entries: Seq<(Seq<char>, DependencyView)>, at: int)
    requires
        0 <= at < entries.len(),
        forall|j: int| at < j < entries.len() ==> (#[trigger] entries[j]).0 != entries[at].0,
    ensures
        entries_map(entries).contains_key(entries[at].0),
        entries_map(entries)[entries[at].0] == entries[at].1,
    decreases entries.len(),
{
    if at < entries.len() - 1 {
        let shorter = entries.drop_last();
        assert(entries.last() == entries[entries.len() - 1]);
        assert forall|j: int| at < j < shorter.len() implies (#[trigger] shorter[j]).0
            != shorter[at].0 by {
            assert(shorter[j] == entries[j]);
        }
        lemma_entry_is_mapped(shorter, at);
    }
}

/// A name that no entry has is no key of the map.
pub proof fn lemma_absent_is_unmapped(entries: Seq<(Seq<char>, DependencyView)>, name: Seq<char>)
    requires
        forall|j: int| 0 <= j < entries.len() ==> (#[trigger] entries[j]).0 != name,
    ensures
        !entries_map(entries).contains_key(name),
    decreases entries.len(),
{
    if entries.len() > 0 {
        let shorter = entries.drop_last();
        assert(entries.last() == entries[entries.len() - 1]);
        assert forall|j: int| 0 <= j < shorter.len() implies (#[trigger] shorter[j]).0 != name by {
            assert(shorter[j] == entries[j]);
        }
        lemma_absent_is_unmapped(shorter, name);
    }
}

/// Writing a new declaration over the one entry that has a name changes the
/// map as an insertion under that name does.
pub proof fn lemma_overwrite_is_insert(
    entries: Seq<(Seq<char>, DependencyView)>,
    at: int,
    dependency: DependencyView,
)
    requires
        0 <= at < entries.len(),
        distinct_names(entries),
    ensures
        entries_map(entries.update(at, (entries[at].0, dependency))) == entries_map(entries).insert(
            entries[at].0,
            dependency,
        ),
    decreases entries.len(),
{
    let name = entries[at].0;
    let changed = entries.update(at, (name, dependency));
    let shorter = entries.drop_last();
    if at == entries.len() - 1 {
        assert(changed.drop_last() =~= shorter);
        assert(entries_map(changed) =~= entries_map(entries).insert(name, dependency));
    } else {
        assert(changed.drop_last() =~= shorter.update(at, (name, dependency)));
        assert(changed.last() == entries.last());
        assert(shorter[at] == entries[at]);
        assert(distinct_names(shorter)) by {
            assert forall|i: int, j: int| 0 <= i < j < shorter.len() implies (#[trigger] shorter[i]).0
                != (#[trigger] shorter[j]).0 by {
                assert(shorter[i] == entries[i]);
                assert(shorter[j] == entries[j]);
            }
        }
        lemma_overwrite_is_insert(shorter, at, dependency);
        assert(entries[entries.len() - 1].0 != entries[at].0);
        assert(entries_map(changed) =~= entries_map(entries).insert(name, dependency));
    }
}

/// Where `entries` holds `name`: the first such place, or none.
fn position(entries: &Vec<(String, Dependency)>, name: &String) -> (found: Option<usize>)
    ensures
        found matches Some(at) ==> at < entries.len() && entries.deep_view()[at as int].0 == name@,
        found is None ==> forall|j: int|
            0 <= j < entries.len() ==> (#[trigger] entries.deep_view()[j]).0 != name@,
{
    let mut i: usize = 0;
    while i < entries.len()
        invariant
            i <= entries.len(),
            forall|j: int| 0 <= j < i ==> (#[trigger] entries.deep_view()[j]).0 != name@,
        decreases entries.len() - i,
    {
        if entries[i].0 == *name {
            return Some(i);
        }
        i += 1;
    }
    None
}

/// The dependencies of a project by name. Each name occurs once.
#[derive(Debug)]
pub struct Dependencies {
    entries: Vec<(String, Dependency)>,
}

impl View for Dependencies {
    type V = Map<Seq<char>, DependencyView>;

    closed spec fn view(&self) -> Map<Seq<char>, DependencyView> {
        entries_map(self.entries.deep_view())
    }
}

impl Dependencies {
    #[verifier::type_invariant]
    closed spec fn well_formed(self) -> bool {
        distinct_names(self.entries.deep_view())
    }

    /// No dependencies.
    pub fn new() -> (dependencies: Dependencies)
        ensures
            dependencies@ == Map::<Seq<char>, DependencyView>::empty(),
    {
        let dependencies = Dependencies { entries: Vec::new() };
        proof {
            assert(dependencies.entries.deep_view() =~= Seq::empty());
        }
        dependencies
    }

    /// Declares `dependency` under `name`, in place of what was declared
    /// under that name before.
    pub fn insert(&mut self, name: String, dependency: Dependency)
        ensures
            final(self)@ == old(self)@.insert(name@, dependency@),
    {
        proof {
            use_type_invariant(&*self);
        }
        let ghost before = self.entries.deep_view();
        let mut entries: Vec<(String, Dependency)> = Vec::new();
        proof {
            assert(entries.deep_view() =~= Seq::empty());
        }
        core::mem::swap(&mut self.entries, &mut entries);
        match position(&entries, &name) {
            Some(at) => {
                proof {
                    lemma_overwrite_is_insert(before, at as int, dependency@);
                }
                entries[at] = (name, dependency);
                proof {
                    assert(entries.deep_view() =~= before.update(at as int, (name@, dependency@)));
                }
            },
            None => {
                entries.push((name, dependency));
                proof {
                    assert(entries.deep_view() =~= before.push((name@, dependency@)));
                    assert(entries.deep_view().drop_last() =~= before);
                }
            },
        }
        core::mem::swap(&mut self.entries, &mut entries);
    }

    /// The declaration under `name`, where there is one.
    pub fn get(&self, name: &String) -> (found: Option<&Dependency>)
        ensures
            found is Some == self@.contains_key(name@),
            found matches Some(dependency) ==> dependency@ == self@[name@],
    {
        proof {
            use_type_invariant(self);
        }
        match position(&self.entries, name) {
            Some(at) => {
                proof {
                    lemma_entry_is_mapped(self.entries.deep_view(), at as int);
                }
                Some(&self.entries[at].1)
            },
            None => {
                proof {
                    lemma_absent_is_unmapped(self.entries.deep_view(), name@);
                }
                None
            },
        }
    }

    /// The declarations with their names, each name once.
    pub fn entries(&self) -> (entries: &Vec<(String, Dependency)>)
        ensures
            entries_map(entries.deep_view()) == self@,
            distinct_names(entries.deep_view()),
    {
        proof {
            use_type_invariant(self);
        }
        &self.entries
    }
}

/// One build target: its name and the path of its source.
#[derive(Debug)]
pub struct Bin {
    pub name: String,
    pub path: String,
}

/// A [`Bin`] with its texts as character sequences.
pub struct BinView {
    pub name: Seq<char>,
    pub path: Seq<char>,
}

impl View for Bin {
    type V = BinView;

    open spec fn view(&self) -> BinView {
        BinView { name: self.name@, path: self.path@ }
    }
}

impl DeepView for Bin {
    type V = BinView;

    open spec fn deep_view(&self) -> BinView {
        self@
    }
}

/// Marks the throwaway project as a workspace of its own.
#[derive(Debug)]
pub struct Workspace {}

/// The whole description of the throwaway project.
#[derive(Debug)]
pub struct Manifest {
    pub package: Package,
    pub dependencies: Dependencies,
    pub bins: Vec<Bin>,
    pub workspace: Option<Workspace>,
}

/// A [`Manifest`] with its texts as character sequences and its dependencies
/// as a map.
pub struct ManifestView {
    pub package: PackageView,
    pub dependencies: Map<Seq<char>, DependencyView>,
    pub bins: Seq<BinView>,
    pub workspace: bool,
}

impl View for Manifest {
    type V = ManifestView;

    open spec fn view(&self) -> ManifestView {
        ManifestView {
            package: self.package@,
            dependencies: self.dependencies@,
            bins: self.bins.deep_view(),
            workspace: self.workspace is Some,
        }
    }
}

/// The build settings of the configuration.
#[derive(Debug)]
pub struct Build {
    pub rustflags: Vec<String>,
}

/// The build tool's configuration for the throwaway project.
#[derive(Debug)]
pub struct Config {
    pub build: Build,
}

impl View for Config {
    /// The compiler flags, in order.
    type V = Seq<Seq<char>>;

    open spec fn view(&self) -> Seq<Seq<char>> {
        self.build.rustflags.deep_view()
    }
}

} // verus!
