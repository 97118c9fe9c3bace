//! The registry of tracked applications.

use crate::error::Error;
use crate::identity::{repo_info, repo_of};
use crate::text::clone_strings;
use vstd::prelude::*;

verus! {

/// One tracked application, as declared in the registry and completed with
/// what was learned about it since.
#[derive(Debug, PartialEq, Eq)]
pub struct AppInfo {
    /// URL of the source repository.
    pub git: String,
    pub summary: String,
    pub author: String,
    pub name: String,
    pub description: String,
    pub categories: Vec<String>,
    pub anti_features: Vec<String>,
    /// Notes of the release being worked on.
    pub release_description: String,
    pub license: String,
    /// The key under which the registry declares the application.
    pub key_name: String,
    /// The owner of the source repository, taken from its URL.
    pub repo_author: String,
}

/// The model of an [`AppInfo`].
pub struct AppInfoView {
    pub git: Seq<char>,
    pub summary: Seq<char>,
    pub author: Seq<char>,
    pub name: Seq<char>,
    pub description: Seq<char>,
    pub categories: Seq<Seq<char>>,
    pub anti_features: Seq<Seq<char>>,
    pub release_description: Seq<char>,
    pub license: Seq<char>,
    pub key_name: Seq<char>,
    pub repo_author: Seq<char>,
}

impl AppInfoView {
    /// The name the application goes by: its registry key, or its declared
    /// name where it has no key.
    pub open spec fn app_name(self) -> Seq<char> {
        if self.key_name.len() > 0 {
            self.key_name
        } else {
            self.name
        }
    }

    /// The declared author, or the owner of the repository where none is
    /// declared.
    pub open spec fn author_name(self) -> Seq<char> {
        if self.author.len() > 0 {
            self.author
        } else {
            self.repo_author
        }
    }

    /// The name shown to users: the declared name, or [`Self::app_name`]
    /// where none is declared.
    pub open spec fn display_name(self) -> Seq<char> {
        if self.name.len() > 0 {
            self.name
        } else {
            self.app_name()
        }
    }
}

impl View for AppInfo {
    type V = AppInfoView;

    open spec fn view(&self) -> AppInfoView {
        AppInfoView {
            git: self.git@,
            summary: self.summary@,
            author: self.author@,
            name: self.name@,
            description: self.description@,
            categories: self.categories.deep_view(),
            anti_features: self.anti_features.deep_view(),
            release_description: self.release_description@,
            license: self.license@,
            key_name: self.key_name@,
            repo_author: self.repo_author@,
        }
    }
}

impl DeepView for AppInfo {
    type V = AppInfoView;

    open spec fn deep_view(&self) -> AppInfoView {
        self@
    }
}

impl Clone for AppInfo {
    fn clone(&self) -> (r: Self)
        ensures
            r@ == self@,
    {
        AppInfo {
            git: self.git.clone(),
            summary: self.summary.clone(),
            author: self.author.clone(),
            name: self.name.clone(),
            description: self.description.clone(),
            categories: clone_strings(&self.categories),
            anti_features: clone_strings(&self.anti_features),
            release_description: self.release_description.clone(),
            license: self.license.clone(),
            key_name: self.key_name.clone(),
            repo_author: self.repo_author.clone(),
        }
    }
}

impl Default for AppInfo {
    fn default() -> (r: Self)
        ensures
            r@ == (AppInfoView {
                git: Seq::empty(),
                summary: Seq::empty(),
                author: Seq::empty(),
                name: Seq::empty(),
                description: Seq::empty(),
                categories: Seq::empty(),
                anti_features: Seq::empty(),
                release_description: Seq::empty(),
                license: Seq::empty(),
                key_name: Seq::empty(),
                repo_author: Seq::empty(),
            }),
    {
        let r = AppInfo {
            git: String::new(),
            summary: String::new(),
            author: String::new(),
            name: String::new(),
            description: String::new(),
            categories: Vec::new(),
            anti_features: Vec::new(),
            release_description: String::new(),
            license: String::new(),
            key_name: String::new(),
            repo_author: String::new(),
        };
        assert(r.anti_features.deep_view() == Seq::<Seq<char>>::empty());
        r
    }
}

impl AppInfo {
    /// The name the application goes by: its registry key, or its declared
    /// name where it has no key.
    pub fn app_name(&self) -> (r: &str)
        ensures
            r@ == self@.app_name(),
    {
        if !self.key_name.as_str().is_empty() {
            self.key_name.as_str()
        } else {
            self.name.as_str()
        }
    }

    /// The declared author, or the owner of the repository where none is
    /// declared.
    pub fn author_name(&self) -> (r: &str)
        ensures
            r@ == self@.author_name(),
    {
        if !self.author.as_str().is_empty() {
            self.author.as_str()
        } else {
            self.repo_author.as_str()
        }
    }

    /// The name shown to users: the declared name, or [`Self::app_name`]
    /// where none is declared.
    pub fn display_name(&self) -> (r: &str)
        ensures
            r@ == self@.display_name(),
    {
        if !self.name.as_str().is_empty() {
            self.name.as_str()
        } else {
            self.app_name()
        }
    }

    /// Takes over what the hosting platform says about the repository: its
    /// description becomes the summary and its license identifier the
    /// license, each where the platform gives one.
    pub fn apply_upstream_facts(&mut self, description: Option<String>, license: Option<String>)
        ensures
            final(self)@ == (AppInfoView {
                summary: match description {
                    Some(text) => text@,
                    None => old(self)@.summary,
                },
                license: match license {
                    Some(id) => id@,
                    None => old(self)@.license,
                },
                ..old(self)@
            }),
    {
        if let Some(text) = description {
            self.summary = text;
        }
        if let Some(id) = license {
            self.license = id;
        }
    }
}

/// A registry entry under `key`, completed with what its source URL tells:
/// `None` where the key is empty or the URL names no repository.
pub open spec fn resolved(key: Seq<char>, app: AppInfoView) -> Option<AppInfoView> {
    if key.len() == 0 {
        None
    } else {
        match repo_of(app.git) {
            Some(repo) => Some(AppInfoView { key_name: key, repo_author: repo.author, ..app }),
            None => None,
        }
    }
}

/// A completed entry goes by its key, which is not empty, and its source URL
/// names the repository whose owner it records.
pub proof fn lemma_resolved_is_well_formed(key: Seq<char>, app: AppInfoView)
    requires
        resolved(key, app) is Some,
    ensures
        ({
            let done = resolved(key, app).unwrap();
            &&& done.key_name.len() > 0
            &&& done.app_name() == key
            &&& repo_of(done.git) is Some
            &&& done.repo_author == repo_of(done.git).unwrap().author
            &&& done.repo_author.len() > 0
        }),
{
}

/// Completes the registry entry declared under `key`: records the key and
/// the owner of the source repository.
///
/// An entry is rejected when its key is empty or its source URL names no
/// repository.
pub fn resolve_app(key: &str, app: &AppInfo) -> (r: Result<AppInfo, Error>)
    ensures
        match r {
            Ok(done) => resolved(key@, app@) == Some(done@),
            Err(e) => e == Error::InvalidRegistryEntry && resolved(key@, app@) is None,
        },
{
    if key.is_empty() {
        return Err(Error::InvalidRegistryEntry);
    }
    match repo_info(app.git.as_str()) {
        Ok(repo) => {
            let mut done = app.clone();
            done.key_name = key.to_owned();
            done.repo_author = repo.author;
            Ok(done)
        },
        Err(_) => Err(Error::InvalidRegistryEntry),
    }
}

/// A registry after resolution.
#[derive(Debug, PartialEq, Eq)]
pub struct Registry {
    /// The valid entries, completed, in the order in which they were given.
    pub apps: Vec<AppInfo>,
    /// The keys of the entries that were rejected, in the order in which
    /// they were given.
    pub rejected: Vec<String>,
}

/// The valid entries among `entries`, completed.
pub open spec fn resolved_apps(entries: Seq<(Seq<char>, AppInfoView)>) -> Seq<AppInfoView> {
    entries.filter_map(|e: (Seq<char>, AppInfoView)| resolved(e.0, e.1))
}

/// The keys of the invalid entries among `entries`.
pub open spec fn rejected_keys(entries: Seq<(Seq<char>, AppInfoView)>) -> Seq<Seq<char>> {
    entries.filter_map(
        |e: (Seq<char>, AppInfoView)|
            if resolved(e.0, e.1) is None {
                Some(e.0)
            } else {
                None
            },
    )
}

/// Resolves every entry of a registry. An invalid entry is set aside and the
/// rest is still processed.
pub fn resolve_registry(entries: &Vec<(String, AppInfo)>) -> (r: Registry)
    ensures
        r.apps.deep_view() == resolved_apps(entries.deep_view()),
        r.rejected.deep_view() == rejected_keys(entries.deep_view()),
{
    let mut apps: Vec<AppInfo> = Vec::new();
    let mut rejected: Vec<String> = Vec::new();
    let ghost all = entries.deep_view();
    let mut i: usize = 0;
    while i < entries.len()
        invariant
            i <= entries.len(),
            all == entries.deep_view(),
            apps.deep_view() == resolved_apps(all.take(i as int)),
            rejected.deep_view() == rejected_keys(all.take(i as int)),
        decreases entries.len() - i,
    {
        let entry = &entries[i];
        proof {
            all.lemma_filter_map_take_succ(
                |e: (Seq<char>, AppInfoView)| resolved(e.0, e.1),
                i as int,
            );
            all.lemma_filter_map_take_succ(
                |e: (Seq<char>, AppInfoView)|
                    if resolved(e.0, e.1) is None {
                        Some(e.0)
                    } else {
                        None
                    },
                i as int,
            );
        }
        match resolve_app(entry.0.as_str(), &entry.1) {
            Ok(done) => {
                apps.push(done);
            },
            Err(_) => {
                let key = entry.0.clone();
                rejected.push(key);
            },
        }
        i += 1;
    }
    assert(all.take(i as int) == all);
    Registry { apps, rejected }
}

} // verus!
