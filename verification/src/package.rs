//! Package records and per-repository aggregates.

use vstd::prelude::*;

verus! {

/// One package record, as the descriptor parser produces it from a package
/// directory's `desc` file. Absent optional fields stay `None`; persistence
/// substitutes for them only in the rendered row, never here.
#[derive(Debug, Clone)]
pub struct Package {
    pub name: String,
    pub file_name: String,
    pub base: Option<String>,
    pub version: String,
    pub description: Option<String>,
    pub groups: Option<Vec<String>>,
    pub compressed_size: Option<u64>,
    pub installed_size: Option<u64>,
    pub md5_sum: Option<String>,
    pub sha256_sum: Option<String>,
    pub pgp_signature: Option<String>,
    pub home_url: Option<String>,
    pub license: Option<Vec<String>>,
    pub architecture: String,
    pub build_date: i64,
    pub packager: String,
    pub replaces: Option<Vec<String>>,
    pub conflicts: Option<Vec<String>>,
    pub provides: Option<Vec<String>>,
}

/// Mathematical image of a `Package`: texts as `Seq<char>`, lists as
/// sequences of texts, sizes as they stand.
#[verifier::ext_equal]
pub ghost struct PackageView {
    pub name: Seq<char>,
    pub file_name: Seq<char>,
    pub base: Option<Seq<char>>,
    pub version: Seq<char>,
    pub description: Option<Seq<char>>,
    pub groups: Option<Seq<Seq<char>>>,
    pub compressed_size: Option<u64>,
    pub installed_size: Option<u64>,
    pub md5_sum: Option<Seq<char>>,
    pub sha256_sum: Option<Seq<char>>,
    pub pgp_signature: Option<Seq<char>>,
    pub home_url: Option<Seq<char>>,
    pub license: Option<Seq<Seq<char>>>,
    pub architecture: Seq<char>,
    pub build_date: i64,
    pub packager: Seq<char>,
    pub replaces: Option<Seq<Seq<char>>>,
    pub conflicts: Option<Seq<Seq<char>>>,
    pub provides: Option<Seq<Seq<char>>>,
}

impl View for Package {
    type V = PackageView;

    open spec fn view(&self) -> PackageView {
        PackageView {
            name: self.name@,
            file_name: self.file_name@,
            base: self.base.deep_view(),
            version: self.version@,
            description: self.description.deep_view(),
            groups: self.groups.deep_view(),
            compressed_size: self.compressed_size,
            installed_size: self.installed_size,
            md5_sum: self.md5_sum.deep_view(),
            sha256_sum: self.sha256_sum.deep_view(),
            pgp_signature: self.pgp_signature.deep_view(),
            home_url: self.home_url.deep_view(),
            license: self.license.deep_view(),
            architecture: self.architecture@,
            build_date: self.build_date,
            packager: self.packager@,
            replaces: self.replaces.deep_view(),
            conflicts: self.conflicts.deep_view(),
            provides: self.provides.deep_view(),
        }
    }
}

impl DeepView for Package {
    type V = PackageView;

    open spec fn deep_view(&self) -> PackageView {
        self.view()
    }
}

/// One repository aggregate: the repository directory's name and the package
/// records found under it, in directory-enumeration order.
#[derive(Debug, Clone)]
pub struct Database {
    pub name: String,
    pub packages: Vec<Package>,
}

/// Mathematical image of a `Database`.
#[verifier::ext_equal]
pub ghost struct DatabaseView {
    pub name: Seq<char>,
    pub packages: Seq<PackageView>,
}

impl View for Database {
    type V = DatabaseView;

    open spec fn view(&self) -> DatabaseView {
        DatabaseView { name: self.name@, packages: self.packages.deep_view() }
    }
}

impl DeepView for Database {
    type V = DatabaseView;

    open spec fn deep_view(&self) -> DatabaseView {
        self.view()
    }
}

impl Database {
    /// A fresh aggregate for the repository called `name`, with no packages.
    pub fn new(name: String) -> (db: Database)
        ensures
            db@.name == name@,
            db@.packages == Seq::<PackageView>::empty(),
    {
        let db = Database { name, packages: Vec::new() };
        proof {
            assert(db@.packages =~= Seq::<PackageView>::empty());
        }
        db
    }

    /// Populate the aggregate with the packages loaded for it: afterwards it
    /// holds exactly the given records, in the given order, and keeps its
    /// name. Each aggregate is populated once, by its own loader pass.
    pub fn set_packages(&mut self, packages: Vec<Package>)
        ensures
            final(self)@.name == old(self)@.name,
            final(self)@.packages == packages.deep_view(),
    {
        self.packages = packages;
    }
}

} // verus!
