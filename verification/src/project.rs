//! The throwaway project in which the tests are built: where it lies, what
//! its manifest and configuration hold, and which files make it up.

use crate::cases::{test_name, ExpandedTest, ExpandedTestView, Test};
use crate::error::{Error, ErrorView};
use crate::manifest::{
    clone_fields, clone_text, entries_map, Bin, BinView, Build, Config, Dependencies, Dependency,
    DependencyView, Edition, Manifest, ManifestView, Package, PackageView, Workspace,
};
use crate::paths::{join, joined};
use vstd::prelude::*;

verus! {

/// The throwaway project of one run.
#[derive(Debug)]
pub struct Project {
    /// The project's root directory.
    pub dir: String,
    /// The directory in which build artifacts are kept from run to run.
    pub target_dir: String,
    /// The project's package name.
    pub name: String,
}

/// A [`Project`] with its texts as character sequences.
pub struct ProjectView {
    pub dir: Seq<char>,
    pub target_dir: Seq<char>,
    pub name: Seq<char>,
}

impl View for Project {
    type V = ProjectView;

    open spec fn view(&self) -> ProjectView {
        ProjectView { dir: self.dir@, target_dir: self.target_dir@, name: self.name@ }
    }
}

/// What the surroundings tell about the package under test.
#[derive(Debug)]
pub struct Environment {
    /// The name of the package under test, if known.
    pub package_name: Option<String>,
    /// The directory of the package under test, if known.
    pub manifest_dir: Option<String>,
    /// The directory in which build artifacts are kept.
    pub target_dir: String,
}

/// An [`Environment`] with its texts as character sequences.
pub struct EnvironmentView {
    pub package_name: Option<Seq<char>>,
    pub manifest_dir: Option<Seq<char>>,
    pub target_dir: Seq<char>,
}

impl View for Environment {
    type V = EnvironmentView;

    open spec fn view(&self) -> EnvironmentView {
        EnvironmentView {
            package_name: self.package_name.deep_view(),
            manifest_dir: self.manifest_dir.deep_view(),
            target_dir: self.target_dir@,
        }
    }
}

/// The declared tests and the extra dependencies that their sources need.
#[derive(Debug)]
pub struct Runner {
    pub tests: Vec<Test>,
    pub deps: Dependencies,
}

/// All that has to be on disk before the first test is built.
#[derive(Debug)]
pub struct Plan {
    pub project: Project,
    pub manifest: Manifest,
    pub config: Config,
    /// The directory that holds the configuration file.
    pub config_dir: String,
    /// The file that holds the configuration.
    pub config_path: String,
    /// The file that holds the manifest.
    pub manifest_path: String,
    /// The source file of the target that does nothing.
    pub main_path: String,
    /// What that source file holds.
    pub main_source: String,
}

/// A [`Plan`] with its texts as character sequences.
pub struct PlanView {
    pub project: ProjectView,
    pub manifest: ManifestView,
    pub config: Seq<Seq<char>>,
    pub config_dir: Seq<char>,
    pub config_path: Seq<char>,
    pub manifest_path: Seq<char>,
    pub main_path: Seq<char>,
    pub main_source: Seq<char>,
}

impl View for Plan {
    type V = PlanView;

    open spec fn view(&self) -> PlanView {
        PlanView {
            project: self.project@,
            manifest: self.manifest@,
            config: self.config@,
            config_dir: self.config_dir@,
            config_path: self.config_path@,
            manifest_path: self.manifest_path@,
            main_path: self.main_path@,
            main_source: self.main_source@,
        }
    }
}

/// The lints that are switched off for every test.
pub open spec fn ignored_lints() -> Seq<Seq<char>> {
    seq!["dead_code"@]
}

/// The compiler flags that switch `lints` off: `-A` before each lint's name.
pub open spec fn allow_flags(lints: Seq<Seq<char>>) -> Seq<Seq<char>>
    decreases lints.len(),
{
    if lints.len() == 0 {
        Seq::empty()
    } else {
        allow_flags(lints.drop_last()).push("-A"@).push(lints.last())
    }
}

/// The declaration of the package under test as a dependency: by its path.
pub open spec fn own_dependency(dir: Seq<char>) -> DependencyView {
    DependencyView { version: None, path: Some(dir), rest: Seq::empty() }
}

/// `dependency` with its path, where it has one, taken from `dir`.
pub open spec fn rooted(dependency: DependencyView, dir: Seq<char>) -> DependencyView {
    DependencyView {
        version: dependency.version,
        path: match dependency.path {
            Some(path) => Some(joined(dir, path)),
            None => None,
        },
        rest: dependency.rest,
    }
}

/// The dependencies of the throwaway project: each extra dependency, its
/// path taken from `dir`, and the package under test, unless an extra
/// dependency has its name.
pub open spec fn manifest_dependencies(
    crate_name: Seq<char>,
    dir: Seq<char>,
    deps: Map<Seq<char>, DependencyView>,
) -> Map<Seq<char>, DependencyView> {
    Map::new(
        |name: Seq<char>| name == crate_name || deps.contains_key(name),
        |name: Seq<char>|
            if deps.contains_key(name) {
                rooted(deps[name], dir)
            } else {
                own_dependency(dir)
            },
    )
}

/// One build target for each test whose pattern was resolved, in order.
pub open spec fn test_bins(tests: Seq<ExpandedTestView>, dir: Seq<char>) -> Seq<BinView>
    decreases tests.len(),
{
    if tests.len() == 0 {
        Seq::empty()
    } else {
        let before = test_bins(tests.drop_last(), dir);
        let last = tests.last();
        if last.error is None {
            before.push(
                BinView { name: test_name(last.test.path), path: joined(dir, last.test.path) },
            )
        } else {
            before
        }
    }
}

/// How many of `tests` were resolved.
pub open spec fn resolved_count(tests: Seq<ExpandedTestView>) -> nat
    decreases tests.len(),
{
    if tests.len() == 0 {
        0
    } else {
        resolved_count(tests.drop_last()) + if tests.last().error is None {
            1nat
        } else {
            0nat
        }
    }
}

/// There is one build target for each test that was resolved, and none for
/// a test that was not.
pub proof fn lemma_one_bin_for_each_resolved_test(tests: Seq<ExpandedTestView>, dir: Seq<char>)
    ensures
        test_bins(tests, dir).len() == resolved_count(tests),
    decreases tests.len(),
{
    if tests.len() > 0 {
        lemma_one_bin_for_each_resolved_test(tests.drop_last(), dir);
    }
}

/// The manifest of the throwaway project named `project_name`, for the
/// package `crate_name` that lies in `dir`.
pub open spec fn manifest_of(
    deps: Map<Seq<char>, DependencyView>,
    crate_name: Seq<char>,
    project_name: Seq<char>,
    dir: Seq<char>,
    tests: Seq<ExpandedTestView>,
) -> ManifestView {
    ManifestView {
        package: PackageView {
            name: project_name,
            version: "0.0.0"@,
            edition: Edition::E2018,
            publish: false,
        },
        dependencies: manifest_dependencies(crate_name, dir, deps),
        bins: seq![BinView { name: project_name, path: "main.rs"@ }] + test_bins(tests, dir),
        workspace: true,
    }
}

/// The manifest's targets are the one that does nothing, named like the
/// project, and after it one for each test that was resolved.
pub proof fn lemma_manifest_targets(
    deps: Map<Seq<char>, DependencyView>,
    crate_name: Seq<char>,
    project_name: Seq<char>,
    dir: Seq<char>,
    tests: Seq<ExpandedTestView>,
)
    ensures
        manifest_of(deps, crate_name, project_name, dir, tests).bins.len() == 1 + resolved_count(
            tests,
        ),
        manifest_of(deps, crate_name, project_name, dir, tests).bins[0] == (BinView {
            name: project_name,
            path: "main.rs"@,
        }),
        manifest_of(deps, crate_name, project_name, dir, tests).dependencies.contains_key(
            crate_name,
        ),
        forall|name: Seq<char>| #[trigger]
            deps.contains_key(name) ==> manifest_of(
                deps,
                crate_name,
                project_name,
                dir,
                tests,
            ).dependencies.contains_key(name),
{
    lemma_one_bin_for_each_resolved_test(tests, dir);
}

/// The throwaway project for the package `crate_name`, below `target_dir`.
pub open spec fn project_of(target_dir: Seq<char>, crate_name: Seq<char>) -> ProjectView {
    ProjectView {
        dir: joined(joined(target_dir, "tests"@), crate_name),
        target_dir,
        name: crate_name + "-tests"@,
    }
}

/// All that has to be on disk for `project`.
pub open spec fn plan_of(
    project: ProjectView,
    manifest: ManifestView,
    config: Seq<Seq<char>>,
) -> PlanView {
    PlanView {
        project,
        manifest,
        config,
        config_dir: joined(project.dir, ".cargo"@),
        config_path: joined(joined(project.dir, ".cargo"@), "config"@),
        manifest_path: joined(project.dir, "Cargo.toml"@),
        main_path: joined(project.dir, "main.rs"@),
        main_source: "fn main() {}\n"@,
    }
}

/// The outcome of laying the throwaway project out: the name of the package
/// under test is needed first, then its directory.
pub open spec fn preparation(
    deps: Map<Seq<char>, DependencyView>,
    environment: EnvironmentView,
    tests: Seq<ExpandedTestView>,
) -> Result<PlanView, ErrorView> {
    match (environment.package_name, environment.manifest_dir) {
        (None, _) => Err(ErrorView::PkgName),
        (Some(_), None) => Err(ErrorView::ProjectDir),
        (Some(crate_name), Some(dir)) => Ok(
            plan_of(
                project_of(environment.target_dir, crate_name),
                manifest_of(
                    deps,
                    crate_name,
                    project_of(environment.target_dir, crate_name).name,
                    dir,
                    tests,
                ),
                allow_flags(ignored_lints()),
            ),
        ),
    }
}

/// `dependency` with its path, where it has one, taken from `dir`.
pub fn root_dependency(dependency: &Dependency, dir: &str) -> (moved: Dependency)
    ensures
        moved@ == rooted(dependency@, dir@),
{
    let path = match &dependency.path {
        Some(path) => Some(join(dir, path.as_str())),
        None => None,
    };
    Dependency {
        version: clone_text(&dependency.version),
        path,
        rest: clone_fields(&dependency.rest),
    }
}

impl Runner {
    /// The manifest of the throwaway project: the package under test and the
    /// extra dependencies by path, the target that does nothing, and one
    /// target for each test whose pattern was resolved. Without the directory
    /// of the package under test there is no manifest.
    pub fn make_manifest(
        &self,
        crate_name: String,
        project: &Project,
        tests: &[ExpandedTest],
        manifest_dir: &Option<String>,
    ) -> (made: Result<Manifest, Error>)
        ensures
            match manifest_dir {
                None => made matches Err(error) && error@ == ErrorView::ProjectDir,
                Some(dir) => made matches Ok(manifest) && manifest@ == manifest_of(
                    self.deps@,
                    crate_name@,
                    project.name@,
                    dir@,
                    tests.deep_view(),
                ),
            },
    {
        let dir: &String = match manifest_dir {
            Some(dir) => dir,
            None => { return Err(Error::ProjectDir); },
        };
        let package = Package {
            name: project.name.clone(),
            version: "0.0.0".to_owned(),
            edition: Edition::E2018,
            publish: false,
        };

        let mut dependencies = Dependencies::new();
        let own = Dependency { version: None, path: Some(dir.clone()), rest: Vec::new() };
        proof {
            assert(own@.rest =~= Seq::empty());
        }
        dependencies.insert(crate_name, own);
        let entries = self.deps.entries();
        let ghost declared = entries.deep_view();
        proof {
            assert(declared.take(0) =~= Seq::empty());
            assert(dependencies@ =~= manifest_dependencies(
                crate_name@,
                dir@,
                entries_map(declared.take(0)),
            ));
        }
        let mut i: usize = 0;
        while i < entries.len()
            invariant
                i <= entries.len(),
                declared == entries.deep_view(),
                dependencies@ == manifest_dependencies(
                    crate_name@,
                    dir@,
                    entries_map(declared.take(i as int)),
                ),
            decreases entries.len() - i,
        {
            let moved = root_dependency(&entries[i].1, dir.as_str());
            dependencies.insert(entries[i].0.clone(), moved);
            proof {
                let longer = declared.take(i + 1);
                assert(longer.drop_last() =~= declared.take(i as int));
                assert(longer.last() == declared[i as int]);
                assert(dependencies@ =~= manifest_dependencies(
                    crate_name@,
                    dir@,
                    entries_map(longer),
                ));
            }
            i += 1;
        }
        proof {
            assert(declared.take(entries.len() as int) =~= declared);
        }

        let mut bins: Vec<Bin> = Vec::new();
        bins.push(Bin { name: project.name.clone(), path: "main.rs".to_owned() });
        let ghost first = seq![BinView { name: project.name@, path: "main.rs"@ }];
        proof {
            assert(tests.deep_view().take(0) =~= Seq::empty());
            assert(bins.deep_view() =~= first + test_bins(tests.deep_view().take(0), dir@));
        }
        let mut k: usize = 0;
        while k < tests.len()
            invariant
                k <= tests.len(),
                bins.deep_view() == first + test_bins(tests.deep_view().take(k as int), dir@),
            decreases tests.len() - k,
        {
            let ghost longer = tests.deep_view().take(k + 1);
            proof {
                assert(longer.drop_last() =~= tests.deep_view().take(k as int));
                assert(longer.last() == tests[k as int]@);
            }
            if tests[k].error.is_none() {
                let bin = Bin {
                    name: tests[k].test.name(),
                    path: join(dir.as_str(), tests[k].test.path.as_str()),
                };
                let ghost before = bins.deep_view();
                let ghost added = bin@;
                bins.push(bin);
                proof {
                    assert(bins.deep_view() =~= before.push(added));
                    assert(test_bins(longer, dir@) == test_bins(longer.drop_last(), dir@).push(
                        added,
                    ));
                    assert(bins.deep_view() =~= first + test_bins(longer, dir@));
                }
            }
            k += 1;
        }
        proof {
            assert(tests.deep_view().take(tests.len() as int) =~= tests.deep_view());
        }

        Ok(Manifest { package, dependencies, bins, workspace: Some(Workspace {  }) })
    }

    /// The build tool's configuration: it switches the ignored lints off.
    pub fn make_config(&self) -> (config: Config)
        ensures
            config@ == allow_flags(ignored_lints()),
    {
        let mut lints: Vec<&str> = Vec::new();
        lints.push("dead_code");
        proof {
            assert(lints.deep_view() =~= ignored_lints());
        }
        let mut rustflags: Vec<String> = Vec::new();
        let mut i: usize = 0;
        proof {
            assert(lints.deep_view().take(0) =~= Seq::empty());
            assert(rustflags.deep_view() =~= allow_flags(lints.deep_view().take(0)));
        }
        while i < lints.len()
            invariant
                i <= lints.len(),
                rustflags.deep_view() == allow_flags(lints.deep_view().take(i as int)),
            decreases lints.len() - i,
        {
            let ghost longer = lints.deep_view().take(i + 1);
            proof {
                assert(longer.drop_last() =~= lints.deep_view().take(i as int));
                assert(longer.last() == lints[i as int]@);
            }
            rustflags.push("-A".to_owned());
            rustflags.push(lints[i].to_owned());
            proof {
                assert(rustflags.deep_view() =~= allow_flags(longer));
            }
            i += 1;
        }
        proof {
            assert(lints.deep_view().take(lints.len() as int) =~= lints.deep_view());
        }
        Config { build: Build { rustflags } }
    }

    /// Lays the throwaway project out: where it lies, its manifest and its
    /// configuration, and the files that hold them. This needs the name and
    /// the directory of the package under test.
    pub fn prepare(&self, environment: &Environment, tests: &[ExpandedTest]) -> (prepared: Result<
        Plan,
        Error,
    >)
        ensures
            match prepared {
                Ok(plan) => preparation(self.deps@, environment@, tests.deep_view()) == Ok::<
                    PlanView,
                    ErrorView,
                >(plan@),
                Err(error) => preparation(self.deps@, environment@, tests.deep_view()) == Err::<
                    PlanView,
                    ErrorView,
                >(error@),
            },
    {
        let crate_name: &String = match &environment.package_name {
            Some(name) => name,
            None => { return Err(Error::PkgName); },
        };
        let tests_dir = join(environment.target_dir.as_str(), "tests");
        let mut name = crate_name.clone();
        name.append("-tests");
        let project = Project {
            dir: join(tests_dir.as_str(), crate_name.as_str()),
            target_dir: environment.target_dir.clone(),
            name,
        };
        let manifest = match self.make_manifest(
            crate_name.clone(),
            &project,
            tests,
            &environment.manifest_dir,
        ) {
            Ok(manifest) => manifest,
            Err(error) => { return Err(error); },
        };
        let config = self.make_config();
        let config_dir = join(project.dir.as_str(), ".cargo");
        let config_path = join(config_dir.as_str(), "config");
        let manifest_path = join(project.dir.as_str(), "Cargo.toml");
        let main_path = join(project.dir.as_str(), "main.rs");
        Ok(
            Plan {
                project,
                manifest,
                config,
                config_dir,
                config_path,
                manifest_path,
                main_path,
                main_source: "fn main() {}\n".to_owned(),
            },
        )
    }
}

} // verus!
