//! Rendering a package record into the row persistence inserts for it.
//!
//! Absent optional text fields are stored as the literal text `NULL`, absent
//! optional sizes as `0`, list-valued fields joined with commas, numbers in
//! decimal, and the download URL as the repository's root URL followed by the
//! package's file name.

use vstd::prelude::*;

use crate::package::{Package, PackageView};
use crate::text::{dec_int, dec_nat, join_comma, i64_to_dec, join_with_commas, u64_to_dec};

verus! {

/// The text stored for an absent optional field.
pub open spec fn null_text() -> Seq<char> {
    seq!['N', 'U', 'L', 'L']
}

/// An optional text as stored: the text itself, or `NULL` when absent.
pub open spec fn opt_text(o: Option<Seq<char>>) -> Seq<char> {
    match o {
        Some(s) => s,
        None => null_text(),
    }
}

/// An optional list as stored: its comma join, or `NULL` when absent.
pub open spec fn opt_list_text(o: Option<Seq<Seq<char>>>) -> Seq<char> {
    match o {
        Some(elems) => join_comma(elems),
        None => null_text(),
    }
}

/// An optional size as stored: its decimal text, zero standing in when
/// absent.
pub open spec fn opt_size_text(o: Option<u64>) -> Seq<char> {
    match o {
        Some(n) => dec_nat(n as nat),
        None => dec_nat(0),
    }
}

/// One fully rendered package row, every column as the text persistence
/// binds for it.
pub struct PackageRow {
    pub name: String,
    pub file_name: String,
    pub base: String,
    pub version: String,
    pub description: String,
    pub groups: String,
    pub compressed_size: String,
    pub installed_size: String,
    pub md5_sum: String,
    pub sha256_sum: String,
    pub pgp_signature: String,
    pub home_url: String,
    pub license: String,
    pub arch: String,
    pub build_date: String,
    pub packager: String,
    pub replaces: String,
    pub conflicts: String,
    pub provides: String,
    pub download_url: String,
    pub repo: String,
}

/// Mathematical image of a `PackageRow`: each column as a `Seq<char>`.
#[verifier::ext_equal]
pub ghost struct RowView {
    pub name: Seq<char>,
    pub file_name: Seq<char>,
    pub base: Seq<char>,
    pub version: Seq<char>,
    pub description: Seq<char>,
    pub groups: Seq<char>,
    pub compressed_size: Seq<char>,
    pub installed_size: Seq<char>,
    pub md5_sum: Seq<char>,
    pub sha256_sum: Seq<char>,
    pub pgp_signature: Seq<char>,
    pub home_url: Seq<char>,
    pub license: Seq<char>,
    pub arch: Seq<char>,
    pub build_date: Seq<char>,
    pub packager: Seq<char>,
    pub replaces: Seq<char>,
    pub conflicts: Seq<char>,
    pub provides: Seq<char>,
    pub download_url: Seq<char>,
    pub repo: Seq<char>,
}

impl View for PackageRow {
    type V = RowView;

    open spec fn view(&self) -> RowView {
        RowView {
            name: self.name@,
            file_name: self.file_name@,
            base: self.base@,
            version: self.version@,
            description: self.description@,
            groups: self.groups@,
            compressed_size: self.compressed_size@,
            installed_size: self.installed_size@,
            md5_sum: self.md5_sum@,
            sha256_sum: self.sha256_sum@,
            pgp_signature: self.pgp_signature@,
            home_url: self.home_url@,
            license: self.license@,
            arch: self.arch@,
            build_date: self.build_date@,
            packager: self.packager@,
            replaces: self.replaces@,
            conflicts: self.conflicts@,
            provides: self.provides@,
            download_url: self.download_url@,
            repo: self.repo@,
        }
    }
}

impl DeepView for PackageRow {
    type V = RowView;

    open spec fn deep_view(&self) -> RowView {
        self.view()
    }
}

/// The row persisted for package `p` of the repository called `repo` whose
/// configured root URL is `root_url`.
pub open spec fn row_of(p: PackageView, root_url: Seq<char>, repo: Seq<char>) -> RowView {
    RowView {
        name: p.name,
        file_name: p.file_name,
        base: opt_text(p.base),
        version: p.version,
        description: opt_text(p.description),
        groups: opt_list_text(p.groups),
        compressed_size: opt_size_text(p.compressed_size),
        installed_size: opt_size_text(p.installed_size),
        md5_sum: opt_text(p.md5_sum),
        sha256_sum: opt_text(p.sha256_sum),
        pgp_signature: opt_text(p.pgp_signature),
        home_url: opt_text(p.home_url),
        license: opt_list_text(p.license),
        arch: p.architecture,
        build_date: dec_int(p.build_date as int),
        packager: p.packager,
        replaces: opt_list_text(p.replaces),
        conflicts: opt_list_text(p.conflicts),
        provides: opt_list_text(p.provides),
        download_url: root_url + p.file_name,
        repo,
    }
}

/// The stored `NULL` marker.
fn null_string() -> (s: String)
    ensures
        s@ == null_text(),
{
    proof {
        reveal_strlit("NULL");
        assert("NULL"@ =~= null_text());
    }
    "NULL".to_owned()
}

/// Render an optional text field.
fn render_opt(o: &Option<String>) -> (s: String)
    ensures
        s@ == opt_text(o.deep_view()),
{
    match o {
        Some(t) => t.clone(),
        None => null_string(),
    }
}

/// Render an optional list-valued field.
fn render_opt_list(o: &Option<Vec<String>>) -> (s: String)
    ensures
        s@ == opt_list_text(o.deep_view()),
{
    match o {
        Some(elems) => join_with_commas(elems),
        None => null_string(),
    }
}

/// Render an optional size field.
fn render_opt_size(o: &Option<u64>) -> (s: String)
    ensures
        s@ == opt_size_text(*o),
{
    match o {
        Some(n) => u64_to_dec(*n),
        None => u64_to_dec(0),
    }
}

/// Render the row persisted for `p` under the repository called `repo` with
/// the configured root URL `root_url`.
pub fn make_row(p: &Package, root_url: &String, repo: &String) -> (r: PackageRow)
    ensures
        r@ == row_of(p@, root_url@, repo@),
{
    let row = PackageRow {
        name: p.name.clone(),
        file_name: p.file_name.clone(),
        base: render_opt(&p.base),
        version: p.version.clone(),
        description: render_opt(&p.description),
        groups: render_opt_list(&p.groups),
        compressed_size: render_opt_size(&p.compressed_size),
        installed_size: render_opt_size(&p.installed_size),
        md5_sum: render_opt(&p.md5_sum),
        sha256_sum: render_opt(&p.sha256_sum),
        pgp_signature: render_opt(&p.pgp_signature),
        home_url: render_opt(&p.home_url),
        license: render_opt_list(&p.license),
        arch: p.architecture.clone(),
        build_date: i64_to_dec(p.build_date),
        packager: p.packager.clone(),
        replaces: render_opt_list(&p.replaces),
        conflicts: render_opt_list(&p.conflicts),
        provides: render_opt_list(&p.provides),
        download_url: root_url.clone().concat(p.file_name.as_str()),
        repo: repo.clone(),
    };
    proof {
        assert(row@ =~= row_of(p@, root_url@, repo@));
    }
    row
}

/// The download URL of a rendered row is by construction the repository's
/// root URL followed by the package's file name, for every package.
pub proof fn lemma_row_download_url(p: PackageView, root_url: Seq<char>, repo: Seq<char>)
    ensures
        row_of(p, root_url, repo).download_url == root_url + p.file_name,
        row_of(p, root_url, repo).repo == repo,
        row_of(p, root_url, repo).file_name == p.file_name,
{
}

} // verus!
