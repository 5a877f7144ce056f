//! The recipe of one package.

use crate::package::dependency::{spec_parse_dependency, specifiers};
use crate::package::dependency::{Dependencies, Dependency, DependencyError};
use crate::package::dependency::PackageVersionConstraint;
use crate::package::name::{PackageName, PackageVersion};
use crate::util::order::{str_order, Order};
use crate::util::text::texts;
use vstd::prelude::*;

verus! {

/// A named fragment of shell that contributes to the build script.
#[derive(Debug)]
pub struct Phase {
    pub name: String,
    pub script: String,
}

impl Clone for Phase {
    fn clone(&self) -> (r: Self)
        ensures
            r.name@ == self.name@,
            r.script@ == self.script@,
    {
        Phase { name: self.name.clone(), script: self.script.clone() }
    }
}

/// A variable of the build's environment.
#[derive(Debug)]
pub struct EnvVar {
    pub name: String,
    pub value: String,
}

impl Clone for EnvVar {
    fn clone(&self) -> (r: Self)
        ensures
            r.name@ == self.name@,
            r.value@ == self.value@,
    {
        EnvVar { name: self.name.clone(), value: self.value.clone() }
    }
}

/// The recipe of a package. Two recipes are the same package where name
/// and version are the same.
#[derive(Debug)]
pub struct Package {
    name: PackageName,
    version: PackageVersion,
    source_url: String,
    source_hash: String,
    dependencies: Dependencies,
    phases: Vec<Phase>,
    flags: Vec<String>,
    allowed_images: Vec<String>,
    denied_images: Vec<String>,
    envs: Vec<EnvVar>,
}

/// The mathematical value of a recipe.
pub struct PackageView {
    pub name: Seq<char>,
    pub version: Seq<char>,
    pub source_url: Seq<char>,
    pub source_hash: Seq<char>,
    pub build: Seq<Seq<char>>,
    pub runtime: Seq<Seq<char>>,
    pub phases: Seq<(Seq<char>, Seq<char>)>,
    pub flags: Seq<Seq<char>>,
    pub allowed_images: Seq<Seq<char>>,
    pub denied_images: Seq<Seq<char>>,
    pub envs: Seq<(Seq<char>, Seq<char>)>,
}

/// The names and scripts of some phases.
pub open spec fn phase_views(phases: Seq<Phase>) -> Seq<(Seq<char>, Seq<char>)> {
    phases.map_values(|p: Phase| (p.name@, p.script@))
}

/// The names and values of some variables.
pub open spec fn env_views(envs: Seq<EnvVar>) -> Seq<(Seq<char>, Seq<char>)> {
    envs.map_values(|e: EnvVar| (e.name@, e.value@))
}

impl View for Package {
    type V = PackageView;

    closed spec fn view(&self) -> PackageView {
        PackageView {
            name: self.name@,
            version: self.version@,
            source_url: self.source_url@,
            source_hash: self.source_hash@,
            build: self.dependencies.spec_build(),
            runtime: self.dependencies.spec_runtime(),
            phases: phase_views(self.phases@),
            flags: texts(self.flags@),
            allowed_images: texts(self.allowed_images@),
            denied_images: texts(self.denied_images@),
            envs: env_views(self.envs@),
        }
    }
}

/// The dependencies that some specifiers read as, in order, or what is
/// wrong with the first that reads as none.
pub open spec fn parse_all(specifiers: Seq<Seq<char>>) -> Result<
    Seq<(Seq<char>, Seq<char>)>,
    DependencyError,
>
    decreases specifiers.len(),
{
    if specifiers.len() == 0 {
        Ok(Seq::empty())
    } else {
        match parse_all(specifiers.drop_last()) {
            Err(e) => Err(e),
            Ok(parsed) => match spec_parse_dependency(specifiers.last()) {
                Err(e) => Err(e),
                Ok(dependency) => Ok(parsed.push(dependency)),
            },
        }
    }
}

/// The order of two packages: by name, then by version, as text is
/// ordered.
pub open spec fn package_order(a: PackageView, b: PackageView) -> Order {
    match str_order(a.name, b.name) {
        Order::Equal => str_order(a.version, b.version),
        other => other,
    }
}

/// Names and version constraints, as values.
pub open spec fn constraint_views(parsed: Seq<(PackageName, PackageVersionConstraint)>) -> Seq<
    (Seq<char>, Seq<char>),
> {
    parsed.map_values(|d: (PackageName, PackageVersionConstraint)| (d.0@, d.1@))
}

/// Whether a package may be built in an image.
pub open spec fn spec_image_allowed(package: PackageView, image: Seq<char>) -> bool {
    !package.denied_images.contains(image) && (package.allowed_images.len() == 0
        || package.allowed_images.contains(image))
}

fn contains_text(items: &Vec<String>, text: &str) -> (r: bool)
    ensures
        r == texts(items@).contains(text@),
{
    let mut i: usize = 0;
    while i < items.len()
        invariant
            i <= items.len(),
            forall|j: int| 0 <= j < i ==> texts(items@)[j] != text@,
        decreases items.len() - i,
    {
        if crate::util::text::str_equal(items[i].as_str(), text) {
            assert(texts(items@)[i as int] == text@);
            return true;
        }
        i = i + 1;
    }
    false
}

fn copy_strings(items: &Vec<String>) -> (r: Vec<String>)
    ensures
        texts(r@) == texts(items@),
{
    let mut r: Vec<String> = Vec::new();
    let mut i: usize = 0;
    while i < items.len()
        invariant
            i <= items.len(),
            r@.len() == i,
            forall|j: int| 0 <= j < i ==> (#[trigger] r@[j])@ == items@[j]@,
        decreases items.len() - i,
    {
        r.push(items[i].clone());
        i = i + 1;
    }
    proof {
        assert(texts(r@) =~= texts(items@));
    }
    r
}

fn copy_phases(items: &Vec<Phase>) -> (r: Vec<Phase>)
    ensures
        phase_views(r@) == phase_views(items@),
{
    let mut r: Vec<Phase> = Vec::new();
    let mut i: usize = 0;
    while i < items.len()
        invariant
            i <= items.len(),
            r@.len() == i,
            forall|j: int|
                0 <= j < i ==> (#[trigger] r@[j]).name@ == items@[j].name@ && r@[j].script@
                    == items@[j].script@,
        decreases items.len() - i,
    {
        r.push(items[i].clone());
        i = i + 1;
    }
    proof {
        assert(phase_views(r@) =~= phase_views(items@));
    }
    r
}

fn copy_envs(items: &Vec<EnvVar>) -> (r: Vec<EnvVar>)
    ensures
        env_views(r@) == env_views(items@),
{
    let mut r: Vec<EnvVar> = Vec::new();
    let mut i: usize = 0;
    while i < items.len()
        invariant
            i <= items.len(),
            r@.len() == i,
            forall|j: int|
                0 <= j < i ==> (#[trigger] r@[j]).name@ == items@[j].name@ && r@[j].value@
                    == items@[j].value@,
        decreases items.len() - i,
    {
        r.push(items[i].clone());
        i = i + 1;
    }
    proof {
        assert(env_views(r@) =~= env_views(items@));
    }
    r
}

impl Clone for Package {
    fn clone(&self) -> (r: Self)
        ensures
            r@ == self@,
    {
        Package {
            name: self.name.clone(),
            version: self.version.clone(),
            source_url: self.source_url.clone(),
            source_hash: self.source_hash.clone(),
            dependencies: self.dependencies.clone(),
            phases: copy_phases(&self.phases),
            flags: copy_strings(&self.flags),
            allowed_images: copy_strings(&self.allowed_images),
            denied_images: copy_strings(&self.denied_images),
            envs: copy_envs(&self.envs),
        }
    }
}

impl Package {
    /// A recipe with a source and nothing else: no dependencies, phases,
    /// flags, images or variables.
    pub fn new(name: PackageName, version: PackageVersion, source_url: String, source_hash: String) -> (r:
        Package)
        ensures
            r@ == (PackageView {
                name: name@,
                version: version@,
                source_url: source_url@,
                source_hash: source_hash@,
                build: Seq::empty(),
                runtime: Seq::empty(),
                phases: Seq::empty(),
                flags: Seq::empty(),
                allowed_images: Seq::empty(),
                denied_images: Seq::empty(),
                envs: Seq::empty(),
            }),
    {
        let r = Package {
            name,
            version,
            source_url,
            source_hash,
            dependencies: Dependencies::empty(),
            phases: Vec::new(),
            flags: Vec::new(),
            allowed_images: Vec::new(),
            denied_images: Vec::new(),
            envs: Vec::new(),
        };
        proof {
            assert(r@.phases =~= Seq::empty());
            assert(r@.flags =~= Seq::empty());
            assert(r@.allowed_images =~= Seq::empty());
            assert(r@.denied_images =~= Seq::empty());
            assert(r@.envs =~= Seq::empty());
        }
        r
    }

    /// The name.
    pub fn name(&self) -> (r: &PackageName)
        ensures
            r@ == self@.name,
    {
        &self.name
    }

    /// The version.
    pub fn version(&self) -> (r: &PackageVersion)
        ensures
            r@ == self@.version,
    {
        &self.version
    }

    /// Where the source is fetched from.
    pub fn source_url(&self) -> (r: &String)
        ensures
            r@ == self@.source_url,
    {
        &self.source_url
    }

    /// The hash that the source must have.
    pub fn source_hash(&self) -> (r: &String)
        ensures
            r@ == self@.source_hash,
    {
        &self.source_hash
    }

    /// The dependencies.
    pub fn dependencies(&self) -> (r: &Dependencies)
        ensures
            r.spec_build() == self@.build,
            r.spec_runtime() == self@.runtime,
    {
        &self.dependencies
    }

    /// The phases, in the order of the recipe.
    pub fn phases(&self) -> (r: &Vec<Phase>)
        ensures
            phase_views(r@) == self@.phases,
    {
        &self.phases
    }

    /// The flags.
    pub fn flags(&self) -> (r: &Vec<String>)
        ensures
            texts(r@) == self@.flags,
    {
        &self.flags
    }

    /// The images that the package may be built in; none means any.
    pub fn allowed_images(&self) -> (r: &Vec<String>)
        ensures
            texts(r@) == self@.allowed_images,
    {
        &self.allowed_images
    }

    /// The images that the package must not be built in.
    pub fn denied_images(&self) -> (r: &Vec<String>)
        ensures
            texts(r@) == self@.denied_images,
    {
        &self.denied_images
    }

    /// The variables of the build's environment.
    pub fn envs(&self) -> (r: &Vec<EnvVar>)
        ensures
            env_views(r@) == self@.envs,
    {
        &self.envs
    }

    /// Replaces the dependencies.
    pub fn set_dependencies(&mut self, dependencies: Dependencies)
        ensures
            final(self)@ == (PackageView {
                build: dependencies.spec_build(),
                runtime: dependencies.spec_runtime(),
                ..old(self)@
            }),
    {
        self.dependencies = dependencies;
    }

    /// Replaces the phases.
    pub fn set_phases(&mut self, phases: Vec<Phase>)
        ensures
            final(self)@ == (PackageView { phases: phase_views(phases@), ..old(self)@ }),
    {
        self.phases = phases;
    }

    /// Replaces the flags.
    pub fn set_flags(&mut self, flags: Vec<String>)
        ensures
            final(self)@ == (PackageView { flags: texts(flags@), ..old(self)@ }),
    {
        self.flags = flags;
    }

    /// Replaces the allowed images.
    pub fn set_allowed_images(&mut self, images: Vec<String>)
        ensures
            final(self)@ == (PackageView { allowed_images: texts(images@), ..old(self)@ }),
    {
        self.allowed_images = images;
    }

    /// Replaces the denied images.
    pub fn set_denied_images(&mut self, images: Vec<String>)
        ensures
            final(self)@ == (PackageView { denied_images: texts(images@), ..old(self)@ }),
    {
        self.denied_images = images;
    }

    /// Replaces the variables of the environment.
    pub fn set_envs(&mut self, envs: Vec<EnvVar>)
        ensures
            final(self)@ == (PackageView { envs: env_views(envs@), ..old(self)@ }),
    {
        self.envs = envs;
    }

    /// Whether the package may be built in an image: the image is not
    /// denied, and it is one of the allowed images where any are named.
    pub fn image_allowed(&self, image: &str) -> (r: bool)
        ensures
            r == spec_image_allowed(self@, image@),
    {
        if contains_text(&self.denied_images, image) {
            return false;
        }
        self.allowed_images.len() == 0 || contains_text(&self.allowed_images, image)
    }

    /// Whether `other` is the same package: of the same name and version.
    pub fn same_package(&self, other: &Package) -> (r: bool)
        ensures
            r == (self@.name == other@.name && self@.version == other@.version),
    {
        self.name == other.name && self.version == other.version
    }

    /// Whether `other` has the same name.
    pub fn same_name(&self, other: &Package) -> (r: bool)
        ensures
            r == (self@.name == other@.name),
    {
        self.name == other.name
    }

    /// How the package is ordered against `other`.
    pub fn order(&self, other: &Package) -> (r: Order)
        ensures
            r == package_order(self@, other@),
    {
        match crate::util::order::compare_str(self.name.as_str(), other.name.as_str()) {
            Order::Equal => crate::util::order::compare_str(
                self.version.as_str(),
                other.version.as_str(),
            ),
            other => other,
        }
    }

    /// Reads all dependencies of the package: those of the build, then
    /// those of the runtime. A specifier that reads as no dependency is an
    /// error, the first such being reported.
    pub fn get_all_dependencies(&self) -> (r: Result<
        Vec<(PackageName, PackageVersionConstraint)>,
        DependencyError,
    >)
        ensures
            match r {
                Ok(parsed) => parse_all(self@.build + self@.runtime) == Ok::<
                    Seq<(Seq<char>, Seq<char>)>,
                    DependencyError,
                >(constraint_views(parsed@)),
                Err(e) => parse_all(self@.build + self@.runtime) == Err::<
                    Seq<(Seq<char>, Seq<char>)>,
                    DependencyError,
                >(e),
            },
    {
        let mut parsed: Vec<(PackageName, PackageVersionConstraint)> = Vec::new();
        let build = self.dependencies.build();
        let runtime = self.dependencies.runtime();
        let ghost all = self@.build + self@.runtime;
        let n_build = build.len();
        let mut i: usize = 0;
        proof {
            assert(all.take(0) =~= Seq::<Seq<char>>::empty());
            assert(constraint_views(parsed@) =~= Seq::empty());
        }
        while i < n_build
            invariant
                i <= n_build,
                n_build == build@.len(),
                all == self@.build + self@.runtime,
                specifiers(build@) == self@.build,
                parse_all(all.take(i as int)) == Ok::<Seq<(Seq<char>, Seq<char>)>, DependencyError>(
                    constraint_views(parsed@),
                ),
            decreases n_build - i,
        {
            proof {
                assert(all.take(i as int + 1).drop_last() =~= all.take(i as int));
                assert(all.take(i as int + 1).last() == build@[i as int]@);
            }
            let ghost before = constraint_views(parsed@);
            match build[i].parse_as_name_and_version() {
                Ok(dependency) => {
                    parsed.push(dependency);
                    proof {
                        assert(constraint_views(parsed@) =~= before.push(
                            (dependency.0@, dependency.1@),
                        ));
                    }
                },
                Err(e) => {
                    proof {
                        lemma_parse_all_error(all, i as int + 1);
                    }
                    return Err(e);
                },
            }
            i = i + 1;
        }
        let mut k: usize = 0;
        while k < runtime.len()
            invariant
                k <= runtime.len(),
                n_build == build@.len(),
                all == self@.build + self@.runtime,
                specifiers(build@) == self@.build,
                specifiers(runtime@) == self@.runtime,
                parse_all(all.take(n_build + k)) == Ok::<
                    Seq<(Seq<char>, Seq<char>)>,
                    DependencyError,
                >(constraint_views(parsed@)),
            decreases runtime.len() - k,
        {
            proof {
                assert(all.take(n_build + k + 1).drop_last() =~= all.take(n_build + k));
                assert(all.take(n_build + k + 1).last() == runtime@[k as int]@);
            }
            let ghost before = constraint_views(parsed@);
            match runtime[k].parse_as_name_and_version() {
                Ok(dependency) => {
                    parsed.push(dependency);
                    proof {
                        assert(constraint_views(parsed@) =~= before.push(
                            (dependency.0@, dependency.1@),
                        ));
                    }
                },
                Err(e) => {
                    proof {
                        lemma_parse_all_error(all, n_build + k + 1);
                    }
                    return Err(e);
                },
            }
            k = k + 1;
        }
        proof {
            assert(all.take(n_build + k) =~= all);
        }
        Ok(parsed)
    }
}

/// Reads some specifiers as dependencies, in order.
pub fn parse_dependencies(dependencies: &Vec<Dependency>) -> (r: Result<
    Vec<(PackageName, PackageVersionConstraint)>,
    DependencyError,
>)
    ensures
        match r {
            Ok(parsed) => parse_all(specifiers(dependencies@)) == Ok::<
                Seq<(Seq<char>, Seq<char>)>,
                DependencyError,
            >(constraint_views(parsed@)),
            Err(e) => parse_all(specifiers(dependencies@)) == Err::<
                Seq<(Seq<char>, Seq<char>)>,
                DependencyError,
            >(e),
        },
{
    let mut parsed: Vec<(PackageName, PackageVersionConstraint)> = Vec::new();
    let ghost all = specifiers(dependencies@);
    let mut i: usize = 0;
    proof {
        assert(all.take(0) =~= Seq::<Seq<char>>::empty());
        assert(constraint_views(parsed@) =~= Seq::empty());
    }
    while i < dependencies.len()
        invariant
            i <= dependencies.len(),
            all == specifiers(dependencies@),
            parse_all(all.take(i as int)) == Ok::<Seq<(Seq<char>, Seq<char>)>, DependencyError>(
                constraint_views(parsed@),
            ),
        decreases dependencies.len() - i,
    {
        proof {
            assert(all.take(i as int + 1).drop_last() =~= all.take(i as int));
            assert(all.take(i as int + 1).last() == dependencies@[i as int]@);
        }
        let ghost before = constraint_views(parsed@);
        match dependencies[i].parse_as_name_and_version() {
            Ok(dependency) => {
                parsed.push(dependency);
                proof {
                    assert(constraint_views(parsed@) =~= before.push((dependency.0@, dependency.1@)));
                }
            },
            Err(e) => {
                proof {
                    lemma_parse_all_error(all, i as int + 1);
                }
                return Err(e);
            },
        }
        i = i + 1;
    }
    proof {
        assert(all.take(i as int) =~= all);
    }
    Ok(parsed)
}

/// Whether two packages are the same package: of the same name and version.
pub open spec fn same_key(a: PackageView, b: PackageView) -> bool {
    a.name == b.name && a.version == b.version
}

/// Two packages are ordered as equal exactly where they are the same
/// package.
pub proof fn lemma_package_order_equal(a: PackageView, b: PackageView)
    ensures
        package_order(a, b) == Order::Equal <==> same_key(a, b),
{
    crate::util::order::lemma_str_equal(a.name, b.name);
    crate::util::order::lemma_str_equal(a.version, b.version);
}

/// Swapping two packages swaps `Less` and `Greater`.
pub proof fn lemma_package_order_flip(a: PackageView, b: PackageView)
    ensures
        package_order(a, b) == Order::Less <==> package_order(b, a) == Order::Greater,
        package_order(a, b) == Order::Greater <==> package_order(b, a) == Order::Less,
{
    crate::util::order::lemma_lex_flip(
        vstd::utf8::encode_utf8(a.name),
        vstd::utf8::encode_utf8(b.name),
    );
    crate::util::order::lemma_lex_flip(
        vstd::utf8::encode_utf8(a.version),
        vstd::utf8::encode_utf8(b.version),
    );
}

/// The order of packages is transitive.
pub proof fn lemma_package_order_transitive(a: PackageView, b: PackageView, c: PackageView)
    requires
        package_order(a, b) == Order::Less,
        package_order(b, c) == Order::Less,
    ensures
        package_order(a, c) == Order::Less,
{
    let (an, bn, cn) = (
        vstd::utf8::encode_utf8(a.name),
        vstd::utf8::encode_utf8(b.name),
        vstd::utf8::encode_utf8(c.name),
    );
    let (av, bv, cv) = (
        vstd::utf8::encode_utf8(a.version),
        vstd::utf8::encode_utf8(b.version),
        vstd::utf8::encode_utf8(c.version),
    );
    crate::util::order::lemma_lex_equal(an, bn);
    crate::util::order::lemma_lex_equal(bn, cn);
    crate::util::order::lemma_lex_equal(an, cn);
    if crate::util::order::lex_order(an, bn) == Order::Less && crate::util::order::lex_order(bn, cn)
        == Order::Less {
        crate::util::order::lemma_lex_transitive(an, bn, cn);
    } else if crate::util::order::lex_order(an, bn) == Order::Equal
        && crate::util::order::lex_order(bn, cn) == Order::Equal {
        crate::util::order::lemma_lex_transitive(av, bv, cv);
    }
}

/// An error among the first specifiers is the error of them all.
pub proof fn lemma_parse_all_error(specifiers: Seq<Seq<char>>, n: int)
    requires
        0 <= n <= specifiers.len(),
        parse_all(specifiers.take(n)) is Err,
    ensures
        parse_all(specifiers) == parse_all(specifiers.take(n)),
    decreases specifiers.len(),
{
    if n == specifiers.len() {
        assert(specifiers.take(n) =~= specifiers);
    } else {
        assert(specifiers.drop_last().take(n) =~= specifiers.take(n));
        lemma_parse_all_error(specifiers.drop_last(), n);
    }
}

} // verus!
