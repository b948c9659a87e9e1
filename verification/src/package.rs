//! Packages: a directory that holds named components, as it lies on disk or
//! as an archive was extracted to it.

use vstd::prelude::*;
use vstd::string::StringExecFns;
use crate::errors::{Error, ErrorView};
use crate::install::{begun, Installation};
use crate::text::{lines, split_lines};

verus! {

/// A package as contracts see it: where it lies, and the names it declares.
pub struct PackageView {
    pub path: Seq<char>,
    pub components: Set<Seq<char>>,
}

/// The text of an optional string.
pub open spec fn text_of(s: Option<&str>) -> Option<Seq<char>> {
    match s {
        Some(t) => Some(t@),
        None => None,
    }
}

/// The name of the index in a package's directory.
pub const INDEX_FILE: &'static str = "components";

/// The names that an index declares: its lines, but for the empty ones.
pub open spec fn index_names(index: Seq<char>) -> Set<Seq<char>> {
    Set::new(|name: Seq<char>| name.len() > 0 && lines(index).contains(name))
}

/// Whether a package that declares `declared` holds the component `name`,
/// under that name or under `alias`.
pub open spec fn has_component(
    declared: Set<Seq<char>>,
    name: Seq<char>,
    alias: Option<Seq<char>>,
) -> bool {
    declared.contains(name) || (alias is Some && declared.contains(alias->0))
}

/// The directory of the component `name` in a package that declares
/// `declared`: `name` where it is declared, else `alias` where there is one
/// and it is declared, else `name` all the same.
pub open spec fn resolved(
    declared: Set<Seq<char>>,
    name: Seq<char>,
    alias: Option<Seq<char>>,
) -> Seq<char> {
    if declared.contains(name) {
        name
    } else if alias is Some && declared.contains(alias->0) {
        alias->0
    } else {
        name
    }
}

/// What comes of opening the package in the directory `path`, whose index
/// holds `index`, or could not be read: without an index the artifact is
/// malformed, with one the package declares the names in it.
pub open spec fn indexed(path: Seq<char>, index: Option<Seq<char>>) -> Result<
    PackageView,
    ErrorView,
> {
    match index {
        Some(text) => Ok(PackageView { path, components: index_names(text) }),
        None => Err(ErrorView::MalformedArtifact),
    }
}

/// What comes of opening a package from an archive that was to be extracted
/// to `scratch`: unless the archive was extracted there is no package, and
/// once it is, the package is the one in the directory `scratch`.
pub open spec fn unpacked(scratch: Seq<char>, extracted: bool, index: Option<Seq<char>>) -> Result<
    PackageView,
    ErrorView,
> {
    if extracted {
        indexed(scratch, index)
    } else {
        Err(ErrorView::ExtractingPackage)
    }
}

/// The outcome of a constructor as contracts see it.
pub open spec fn outcome<P: View>(made: Result<P, Error>) -> Result<P::V, ErrorView> {
    match made {
        Ok(package) => Ok(package@),
        Err(error) => Err(error@),
    }
}

/// Whether `names` holds `name`.
fn holds(names: &Vec<String>, name: &str) -> (found: bool)
    ensures
        found == names.deep_view().contains(name@),
{
    let wanted = String::from_str(name);
    let mut i: usize = 0;
    while i < names.len()
        invariant
            i <= names.len(),
            wanted@ == name@,
            forall|j: int| 0 <= j < i ==> names.deep_view()[j] != name@,
        decreases names.len() - i,
    {
        if names[i] == wanted {
            assert(names.deep_view()[i as int] == name@);
            return true;
        }
        i = i + 1;
    }
    false
}

/// A package that lies in a directory: a file `components` that names its
/// components, one to a line, and a directory for each of them.
pub struct DirectoryPackage {
    path: String,
    components: Vec<String>,
}

impl View for DirectoryPackage {
    type V = PackageView;

    closed spec fn view(&self) -> PackageView {
        PackageView { path: self.path@, components: self.components.deep_view().to_set() }
    }
}

impl DirectoryPackage {
    /// No name is kept twice, and none is empty.
    #[verifier::type_invariant]
    spec fn names_distinct(&self) -> bool {
        &&& self.components.deep_view().no_duplicates()
        &&& forall|i: int|
            0 <= i < self.components.deep_view().len() ==> self.components.deep_view()[i].len() > 0
    }

    /// The package in the directory `path`. `index` is the text of the file
    /// `components` in it, or `None` where that file could not be read.
    pub fn new(path: String, index: Option<&str>) -> (made: Result<DirectoryPackage, Error>)
        ensures
            outcome(made) == indexed(path@, text_of(index)),
    {
        let text = match index {
            Some(text) => text,
            None => {
                return Err(Error::MalformedArtifact);
            },
        };
        let names = split_lines(text);
        let mut components: Vec<String> = Vec::new();
        let mut i: usize = 0;
        while i < names.len()
            invariant
                i <= names.len(),
                names.deep_view() == lines(text@),
                components.deep_view().no_duplicates(),
                forall|k: int|
                    0 <= k < components.deep_view().len() ==> components.deep_view()[k].len() > 0,
                forall|name: Seq<char>| #[trigger]
                    components.deep_view().contains(name) <==> name.len() > 0 && exists|j: int|
                        0 <= j < i && names.deep_view()[j] == name,
            decreases names.len() - i,
        {
            let name = &names[i];
            let ghost before = components.deep_view();
            assert(names.deep_view()[i as int] == name@);
            if !name.as_str().is_empty() && !holds(&components, name.as_str()) {
                components.push(name.clone());
                assert(components.deep_view() =~= before.push(name@));
                assert forall|n: Seq<char>| #[trigger]
                    components.deep_view().contains(n) <==> n.len() > 0 && exists|j: int|
                        0 <= j < i + 1 && names.deep_view()[j] == n by {
                    if components.deep_view().contains(n) {
                        let k = choose|k: int|
                            0 <= k < components.deep_view().len() && components.deep_view()[k]
                                == n;
                        if k < before.len() {
                            assert(before[k] == n);
                            assert(before.contains(n));
                        } else {
                            assert(names.deep_view()[i as int] == n);
                        }
                    }
                    if n.len() > 0 && exists|j: int|
                        0 <= j < i + 1 && names.deep_view()[j] == n {
                        let j = choose|j: int| 0 <= j < i + 1 && names.deep_view()[j] == n;
                        if j < i {
                            assert(before.contains(n));
                            let k = choose|k: int| 0 <= k < before.len() && before[k] == n;
                            assert(components.deep_view()[k] == n);
                        } else {
                            assert(components.deep_view()[before.len() as int] == n);
                        }
                    }
                }
            } else {
                assert forall|n: Seq<char>| #[trigger]
                    components.deep_view().contains(n) <==> n.len() > 0 && exists|j: int|
                        0 <= j < i + 1 && names.deep_view()[j] == n by {
                    if n.len() > 0 && exists|j: int|
                        0 <= j < i + 1 && names.deep_view()[j] == n {
                        let j = choose|j: int| 0 <= j < i + 1 && names.deep_view()[j] == n;
                        if j == i {
                            assert(before.contains(n));
                        }
                    }
                }
            }
            i = i + 1;
        }
        let made = DirectoryPackage { path, components };
        proof {
            assert forall|n: Seq<char>| made@.components.contains(n) == index_names(
                text@,
            ).contains(n) by {
                if lines(text@).contains(n) {
                    let j = choose|j: int| 0 <= j < lines(text@).len() && lines(text@)[j] == n;
                    assert(names.deep_view()[j] == n);
                }
            }
            assert(made@.components =~= index_names(text@));
        }
        Ok(made)
    }

}

/// What every package offers, however it came: a look at what it declares,
/// and the install of one of its components.
pub trait Package: View<V = PackageView> {
    /// Whether the package declares `component`, or `short_name` where one
    /// is given.
    fn contains(&self, component: &str, short_name: Option<&str>) -> (found: bool)
        ensures
            found == has_component(self@.components, component@, text_of(short_name)),
    ;

    /// Begins the install of `component`. Its files are taken from the
    /// directory of that name where the package declares it, else from that
    /// of `short_name` where one is given and declared, else from that of
    /// `component` all the same. The install goes by the name `component`
    /// in either case.
    fn install(&self, component: &str, short_name: Option<&str>) -> (run: Installation)
        ensures
            run@ == begun(
                self@.path,
                component@,
                resolved(self@.components, component@, text_of(short_name)),
            ),
    ;
}

impl Package for DirectoryPackage {
    fn contains(&self, component: &str, short_name: Option<&str>) -> (found: bool) {
        if holds(&self.components, component) {
            return true;
        }
        match short_name {
            Some(alias) => holds(&self.components, alias),
            None => false,
        }
    }

    fn install(&self, component: &str, short_name: Option<&str>) -> (run: Installation) {
        let aliased = match short_name {
            Some(alias) => !holds(&self.components, component) && holds(&self.components, alias),
            None => false,
        };
        let directory = match short_name {
            Some(alias) if aliased => alias,
            _ => component,
        };
        Installation::new(
            self.path.clone(),
            String::from_str(component),
            String::from_str(directory),
        )
    }
}

/// A package that came as a tar archive and was extracted to a scratch
/// directory, where it lies as a directory package.
pub struct TarPackage(DirectoryPackage);

impl View for TarPackage {
    type V = PackageView;

    closed spec fn view(&self) -> PackageView {
        self.0@
    }
}

impl TarPackage {
    /// The package of an archive that was to be extracted to the directory
    /// `scratch`. `extracted` says whether that was done, whole and without
    /// error; `index` is the text of the file `components` in `scratch`, or
    /// `None` where that file could not be read. An archive that was not
    /// extracted makes no package, whatever lies in `scratch`.
    pub fn new(scratch: String, extracted: bool, index: Option<&str>) -> (made: Result<
        TarPackage,
        Error,
    >)
        ensures
            outcome(made) == unpacked(scratch@, extracted, text_of(index)),
    {
        if !extracted {
            return Err(Error::ExtractingPackage);
        }
        match DirectoryPackage::new(scratch, index) {
            Ok(directory) => Ok(TarPackage(directory)),
            Err(error) => Err(error),
        }
    }
}

impl Package for TarPackage {
    fn contains(&self, component: &str, short_name: Option<&str>) -> (found: bool) {
        self.0.contains(component, short_name)
    }

    fn install(&self, component: &str, short_name: Option<&str>) -> (run: Installation) {
        self.0.install(component, short_name)
    }
}

/// A package that came as a gzip-compressed tar archive.
pub struct TarGzPackage(TarPackage);

impl View for TarGzPackage {
    type V = PackageView;

    closed spec fn view(&self) -> PackageView {
        self.0@
    }
}

impl TarGzPackage {
    /// The package of a compressed archive whose contents were to be
    /// extracted to the directory `scratch`; `extracted` and `index` are as
    /// for a tar package. A stream that could not be decompressed counts as
    /// not extracted.
    pub fn new(scratch: String, extracted: bool, index: Option<&str>) -> (made: Result<
        TarGzPackage,
        Error,
    >)
        ensures
            outcome(made) == unpacked(scratch@, extracted, text_of(index)),
    {
        match TarPackage::new(scratch, extracted, index) {
            Ok(archive) => Ok(TarGzPackage(archive)),
            Err(error) => Err(error),
        }
    }

    /// The package of a compressed archive kept in a file. `opened` says
    /// whether the file could be opened; where it could not, nothing was
    /// extracted and the other arguments are not looked at.
    pub fn new_file(opened: bool, scratch: String, extracted: bool, index: Option<&str>) -> (made:
        Result<TarGzPackage, Error>)
        ensures
            outcome(made) == unpacked(scratch@, opened && extracted, text_of(index)),
    {
        if !opened {
            return Err(Error::ExtractingPackage);
        }
        TarGzPackage::new(scratch, extracted, index)
    }
}

impl Package for TarGzPackage {
    fn contains(&self, component: &str, short_name: Option<&str>) -> (found: bool) {
        self.0.contains(component, short_name)
    }

    fn install(&self, component: &str, short_name: Option<&str>) -> (run: Installation) {
        self.0.install(component, short_name)
    }
}

/// The install of a component that the package holds, under its name or its
/// alias, takes its files from a directory that the package declares; the
/// install of one that it does not hold is left with the name asked for.
pub proof fn lemma_resolved_is_declared(
    declared: Set<Seq<char>>,
    name: Seq<char>,
    alias: Option<Seq<char>>,
)
    ensures
        has_component(declared, name, alias) ==> declared.contains(
            resolved(declared, name, alias),
        ),
        !has_component(declared, name, alias) ==> resolved(declared, name, alias) == name,
        declared.contains(name) ==> resolved(declared, name, alias) == name,
{
}

/// A package built from an index holds a component if and only if the name
/// asked for is a line of the index and not empty, or the alias is.
pub proof fn lemma_contains_follows_index(
    index: Seq<char>,
    name: Seq<char>,
    alias: Seq<char>,
)
    ensures
        has_component(index_names(index), name, None) <==> name.len() > 0 && lines(
            index,
        ).contains(name),
        has_component(index_names(index), name, Some(alias)) <==> (name.len() > 0 && lines(
            index,
        ).contains(name)) || (alias.len() > 0 && lines(index).contains(alias)),
{
}

} // verus!
