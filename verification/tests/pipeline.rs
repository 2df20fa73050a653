use dbgen::config::{get_root_url, RepoConfig};
use dbgen::package::{Database, Package};
use dbgen::plan::{build_plan, IngestError, Statement};
use dbgen::scan::scan_repositories;

fn s(t: &str) -> String {
    t.to_owned()
}

fn cfg(name: &str, root_url: &str) -> RepoConfig {
    RepoConfig { name: s(name), url: s("https://example.org/"), root_url: s(root_url) }
}

fn zlib_package() -> Package {
    Package {
        name: s("zlib"),
        file_name: s("zlib-1.2.13-1-x86_64.pkg.tar.zst"),
        base: None,
        version: s("1.2.13-1"),
        description: None,
        groups: None,
        compressed_size: None,
        installed_size: None,
        md5_sum: None,
        sha256_sum: None,
        pgp_signature: None,
        home_url: None,
        license: None,
        architecture: s("x86_64"),
        build_date: 1700000000,
        packager: s("Arch"),
        replaces: None,
        conflicts: None,
        provides: None,
    }
}

#[test]
fn scanner_excludes_every_sentinel() {
    let entries = vec![
        s("starttime"),
        s("core"),
        s("endtime"),
        s(".gitkeep"),
        s("extra"),
        s("aur.json"),
    ];
    let dbs = scan_repositories(entries);
    let names: Vec<&str> = dbs.iter().map(|d| d.name.as_str()).collect();
    assert_eq!(names, vec!["core", "extra"]);
}

#[test]
fn scanner_with_only_sentinels_produces_nothing() {
    let entries = vec![s("starttime"), s("endtime"), s(".gitkeep"), s("aur.json")];
    let dbs = scan_repositories(entries);
    assert!(dbs.is_empty());
}

#[test]
fn scanner_yields_one_empty_aggregate_per_directory() {
    let entries = vec![s("core"), s("extra"), s("community")];
    let dbs = scan_repositories(entries);
    assert_eq!(dbs.len(), 3);
    assert_eq!(dbs[0].name, "core");
    assert_eq!(dbs[1].name, "extra");
    assert_eq!(dbs[2].name, "community");
    for db in &dbs {
        assert!(db.packages.is_empty());
    }
}

#[test]
fn loader_keeps_count_and_order_of_packages() {
    let mut db = Database::new(s("core"));
    let mut a = zlib_package();
    a.name = s("alpha");
    let mut b = zlib_package();
    b.name = s("beta");
    let mut c = zlib_package();
    c.name = s("gamma");
    db.set_packages(vec![a, b, c]);
    assert_eq!(db.packages.len(), 3);
    assert_eq!(db.packages[0].name, "alpha");
    assert_eq!(db.packages[1].name, "beta");
    assert_eq!(db.packages[2].name, "gamma");
    assert_eq!(db.name, "core");
}

#[test]
fn root_url_lookup_finds_entry_by_name() {
    let configs = vec![cfg("core", "https://mirror.example/core/"), cfg("extra", "https://mirror.example/extra/")];
    assert_eq!(get_root_url(&configs, &s("extra")), Some(s("https://mirror.example/extra/")));
}

#[test]
fn root_url_lookup_takes_first_match() {
    let configs = vec![cfg("core", "https://first.example/"), cfg("core", "https://second.example/")];
    assert_eq!(get_root_url(&configs, &s("core")), Some(s("https://first.example/")));
}

#[test]
fn root_url_lookup_fails_on_absent_name() {
    let configs = vec![cfg("core", "https://mirror.example/core/")];
    assert_eq!(get_root_url(&configs, &s("multilib")), None);
}

#[test]
fn plan_puts_repository_row_before_its_package_rows() {
    let mut core = Database::new(s("core"));
    let mut a = zlib_package();
    a.file_name = s("a.pkg.tar.zst");
    let mut b = zlib_package();
    b.file_name = s("b.pkg.tar.zst");
    core.set_packages(vec![a, b]);
    let mut extra = Database::new(s("extra"));
    let mut c = zlib_package();
    c.file_name = s("c.pkg.tar.zst");
    extra.set_packages(vec![c]);

    let configs = vec![cfg("core", "https://m/core/"), cfg("extra", "https://m/extra/")];
    let stmts = build_plan(&vec![core, extra], &configs).unwrap();
    assert_eq!(stmts.len(), 5);
    match &stmts[0] {
        Statement::InsertRepo { name } => assert_eq!(name, "core"),
        _ => panic!("expected the core repository row first"),
    }
    match &stmts[1] {
        Statement::InsertPackage { row } => {
            assert_eq!(row.repo, "core");
            assert_eq!(row.download_url, "https://m/core/a.pkg.tar.zst");
        }
        _ => panic!("expected a package row"),
    }
    match &stmts[2] {
        Statement::InsertPackage { row } => {
            assert_eq!(row.repo, "core");
            assert_eq!(row.download_url, "https://m/core/b.pkg.tar.zst");
        }
        _ => panic!("expected a package row"),
    }
    match &stmts[3] {
        Statement::InsertRepo { name } => assert_eq!(name, "extra"),
        _ => panic!("expected the extra repository row before its packages"),
    }
    match &stmts[4] {
        Statement::InsertPackage { row } => {
            assert_eq!(row.repo, "extra");
            assert_eq!(row.download_url, "https://m/extra/c.pkg.tar.zst");
        }
        _ => panic!("expected a package row"),
    }
}

#[test]
fn plan_fails_when_a_repository_with_packages_has_no_config() {
    let mut extra = Database::new(s("extra"));
    extra.set_packages(vec![zlib_package()]);
    let configs = vec![cfg("core", "https://m/core/")];
    match build_plan(&vec![extra], &configs) {
        Err(IngestError::MissingRepoConfig { repo }) => assert_eq!(repo, "extra"),
        Ok(_) => panic!("planning must fail without a configuration entry"),
    }
}

#[test]
fn plan_allows_a_packageless_repository_without_config() {
    // A repository with nothing to persist never needs its root URL.
    let empty = Database::new(s("staging"));
    let stmts = build_plan(&vec![empty], &vec![]).unwrap();
    assert_eq!(stmts.len(), 1);
    match &stmts[0] {
        Statement::InsertRepo { name } => assert_eq!(name, "staging"),
        _ => panic!("expected only the repository row"),
    }
}

#[test]
fn end_to_end_core_with_one_package() {
    // Root `pkgs/` holds `core/` with one package directory besides the
    // sentinels; `config/repo.json` maps core to its mirror root.
    let entries = vec![s("core"), s("starttime"), s("endtime")];
    let mut dbs = scan_repositories(entries);
    assert_eq!(dbs.len(), 1);
    dbs[0].set_packages(vec![zlib_package()]);

    let configs = vec![cfg("core", "https://mirror.example/core/")];
    let stmts = build_plan(&dbs, &configs).unwrap();
    assert_eq!(stmts.len(), 2);
    match &stmts[0] {
        Statement::InsertRepo { name } => assert_eq!(name, "core"),
        _ => panic!("expected the repository row first"),
    }
    match &stmts[1] {
        Statement::InsertPackage { row } => {
            assert_eq!(row.name, "zlib");
            assert_eq!(
                row.download_url,
                "https://mirror.example/core/zlib-1.2.13-1-x86_64.pkg.tar.zst"
            );
            assert_eq!(row.base, "NULL");
            assert_eq!(row.description, "NULL");
            assert_eq!(row.groups, "NULL");
            assert_eq!(row.license, "NULL");
            assert_eq!(row.replaces, "NULL");
            assert_eq!(row.conflicts, "NULL");
            assert_eq!(row.provides, "NULL");
            assert_eq!(row.md5_sum, "NULL");
            assert_eq!(row.sha256_sum, "NULL");
            assert_eq!(row.pgp_signature, "NULL");
            assert_eq!(row.home_url, "NULL");
            assert_eq!(row.compressed_size, "0");
            assert_eq!(row.installed_size, "0");
            assert_eq!(row.version, "1.2.13-1");
            assert_eq!(row.arch, "x86_64");
            assert_eq!(row.build_date, "1700000000");
            assert_eq!(row.packager, "Arch");
            assert_eq!(row.repo, "core");
        }
        _ => panic!("expected the package row after the repository row"),
    }
}
