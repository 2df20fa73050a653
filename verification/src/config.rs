//! Repository configuration: one entry per repository, keyed by name.

use vstd::prelude::*;

verus! {

/// One entry of the repository configuration: a repository's name, its page
/// URL and the root URL that package download URLs are derived from.
#[derive(Debug, Clone)]
pub struct RepoConfig {
    pub name: String,
    pub url: String,
    pub root_url: String,
}

/// Mathematical image of a `RepoConfig`: every text field as a `Seq<char>`.
#[verifier::ext_equal]
pub ghost struct RepoConfigView {
    pub name: Seq<char>,
    pub url: Seq<char>,
    pub root_url: Seq<char>,
}

impl View for RepoConfig {
    type V = RepoConfigView;

    open spec fn view(&self) -> RepoConfigView {
        RepoConfigView { name: self.name@, url: self.url@, root_url: self.root_url@ }
    }
}

impl DeepView for RepoConfig {
    type V = RepoConfigView;

    open spec fn deep_view(&self) -> RepoConfigView {
        self.view()
    }
}

/// Root URL of the first configuration entry named `name`, if any:
/// lookups resolve front to back, so the first match wins.
pub open spec fn lookup_root_url(cfgs: Seq<RepoConfigView>, name: Seq<char>) -> Option<Seq<char>>
    decreases cfgs.len(),
{
    if cfgs.len() == 0 {
        None
    } else if cfgs[0].name == name {
        Some(cfgs[0].root_url)
    } else {
        lookup_root_url(cfgs.drop_first(), name)
    }
}

/// Resolve the configured root URL of the repository called `repo_name`.
/// Returns `None` exactly when no configuration entry carries that name.
pub fn get_root_url(configs: &Vec<RepoConfig>, repo_name: &String) -> (r: Option<String>)
    ensures
        match r {
            Some(u) => lookup_root_url(configs.deep_view(), repo_name@) == Some(u@),
            None => lookup_root_url(configs.deep_view(), repo_name@) is None,
        },
{
    let ghost cfgs: Seq<RepoConfigView> = configs.deep_view();
    proof {
        assert(cfgs.skip(0) =~= cfgs);
    }
    let n = configs.len();
    for i in 0..n
        invariant
            n == cfgs.len(),
            cfgs == configs.deep_view(),
            lookup_root_url(cfgs, repo_name@) == lookup_root_url(cfgs.skip(i as int), repo_name@),
            forall|j: int| 0 <= j < i ==> cfgs[j].name != repo_name@,
    {
        proof {
            assert(cfgs.skip(i as int)[0] =~= cfgs[i as int]);
        }
        if configs[i].name == *repo_name {
            return Some(configs[i].root_url.clone());
        }
        proof {
            assert(cfgs.skip(i as int).drop_first() =~= cfgs.skip(i + 1));
        }
    }
    proof {
        assert(cfgs.skip(n as int) =~= Seq::<RepoConfigView>::empty());
    }
    None
}

} // verus!
