//! The structured index of a repository and the packages it lists.

use crate::string_map::StringMap;
use crate::text::{
    clone_strings, lemma_lex_less_asymmetric, lemma_lex_less_irreflexive, lemma_lex_less_total,
    lemma_lex_less_transitive, lex_less, same_strings, str_less,
};
use vstd::prelude::*;

verus! {

/// Makes `serde_json::Value` known as an opaque type.
#[verifier::external_type_specification]
#[verifier::external_body]
pub struct ExJsonValue(serde_json::Value);

/// One published build of a package.
#[derive(Debug, PartialEq, Eq)]
pub struct PackageInfo {
    pub added: i64,
    pub apk_name: String,
    pub hash: String,
    pub hash_type: String,
    pub min_sdk_version: i32,
    pub nativecode: Vec<String>,
    pub package_name: String,
    pub sig: String,
    pub signer: String,
    pub size: i64,
    pub target_sdk_version: i32,
    pub version_code: i32,
    pub version_name: String,
}

/// The model of a [`PackageInfo`].
pub struct PackageInfoView {
    pub added: int,
    pub apk_name: Seq<char>,
    pub hash: Seq<char>,
    pub hash_type: Seq<char>,
    pub min_sdk_version: int,
    pub nativecode: Seq<Seq<char>>,
    pub package_name: Seq<char>,
    pub sig: Seq<char>,
    pub signer: Seq<char>,
    pub size: int,
    pub target_sdk_version: int,
    pub version_code: int,
    pub version_name: Seq<char>,
}

impl View for PackageInfo {
    type V = PackageInfoView;

    open spec fn view(&self) -> PackageInfoView {
        PackageInfoView {
            added: self.added as int,
            apk_name: self.apk_name@,
            hash: self.hash@,
            hash_type: self.hash_type@,
            min_sdk_version: self.min_sdk_version as int,
            nativecode: self.nativecode.deep_view(),
            package_name: self.package_name@,
            sig: self.sig@,
            signer: self.signer@,
            size: self.size as int,
            target_sdk_version: self.target_sdk_version as int,
            version_code: self.version_code as int,
            version_name: self.version_name@,
        }
    }
}

impl DeepView for PackageInfo {
    type V = PackageInfoView;

    open spec fn deep_view(&self) -> PackageInfoView {
        self@
    }
}

impl Clone for PackageInfo {
    fn clone(&self) -> (r: Self)
        ensures
            r@ == self@,
    {
        PackageInfo {
            added: self.added,
            apk_name: self.apk_name.clone(),
            hash: self.hash.clone(),
            hash_type: self.hash_type.clone(),
            min_sdk_version: self.min_sdk_version,
            nativecode: clone_strings(&self.nativecode),
            package_name: self.package_name.clone(),
            sig: self.sig.clone(),
            signer: self.signer.clone(),
            size: self.size,
            target_sdk_version: self.target_sdk_version,
            version_code: self.version_code,
            version_name: self.version_name.clone(),
        }
    }
}

impl Default for PackageInfo {
    fn default() -> (r: Self)
        ensures
            r@ == (PackageInfoView {
                added: 0,
                apk_name: Seq::empty(),
                hash: Seq::empty(),
                hash_type: Seq::empty(),
                min_sdk_version: 0,
                nativecode: Seq::empty(),
                package_name: Seq::empty(),
                sig: Seq::empty(),
                signer: Seq::empty(),
                size: 0,
                target_sdk_version: 0,
                version_code: 0,
                version_name: Seq::empty(),
            }),
    {
        let r = PackageInfo {
            added: 0,
            apk_name: String::new(),
            hash: String::new(),
            hash_type: String::new(),
            min_sdk_version: 0,
            nativecode: Vec::new(),
            package_name: String::new(),
            sig: String::new(),
            signer: String::new(),
            size: 0,
            target_sdk_version: 0,
            version_code: 0,
            version_name: String::new(),
        };
        assert(r.nativecode.deep_view() == Seq::<Seq<char>>::empty());
        r
    }
}

impl PackageInfo {
    /// Whether two records state the same facts.
    pub fn same_as(&self, other: &PackageInfo) -> (r: bool)
        ensures
            r == (self@ == other@),
    {
        self.added == other.added && self.apk_name == other.apk_name && self.hash == other.hash
            && self.hash_type == other.hash_type && self.min_sdk_version == other.min_sdk_version
            && same_strings(&self.nativecode, &other.nativecode) && self.package_name
            == other.package_name && self.sig == other.sig && self.signer == other.signer
            && self.size == other.size && self.target_sdk_version == other.target_sdk_version
            && self.version_code == other.version_code && self.version_name == other.version_name
    }

    /// Whether this build is older than `other`.
    pub fn is_older_than(&self, other: &PackageInfo) -> (r: bool)
        ensures
            r == older(self@, other@),
    {
        self.version_code < other.version_code || (self.version_code == other.version_code
            && str_less(self.version_name.as_str(), other.version_name.as_str()))
    }
}

/// The order of builds: by version code, and among builds of one version
/// code by version name in lexicographic order.
pub open spec fn older(a: PackageInfoView, b: PackageInfoView) -> bool {
    a.version_code < b.version_code || (a.version_code == b.version_code && lex_less(
        a.version_name,
        b.version_name,
    ))
}

/// The build at position `i` is the latest of the list: none is newer, and
/// every build behind it is older. Among the builds that share the highest
/// version, this is the one listed last.
pub open spec fn is_latest_at(list: Seq<PackageInfoView>, i: int) -> bool {
    &&& 0 <= i < list.len()
    &&& forall|j: int| 0 <= j < list.len() ==> !older(list[i], #[trigger] list[j])
    &&& forall|j: int| i < j < list.len() ==> older(#[trigger] list[j], list[i])
}

/// The latest build of a list, if the list has any.
pub open spec fn latest_of(list: Seq<PackageInfoView>) -> Option<PackageInfoView> {
    if list.len() == 0 {
        None
    } else {
        Some(list[choose|i: int| is_latest_at(list, i)])
    }
}

/// No build is older than itself, and of two builds at most one is older
/// than the other.
pub proof fn lemma_older_asymmetric(a: PackageInfoView, b: PackageInfoView)
    ensures
        !older(a, a),
        !(older(a, b) && older(b, a)),
{
    lemma_lex_less_irreflexive(a.version_name);
    lemma_lex_less_asymmetric(a.version_name, b.version_name);
}

/// The order of builds is transitive.
pub proof fn lemma_older_transitive(a: PackageInfoView, b: PackageInfoView, c: PackageInfoView)
    requires
        older(a, b),
        older(b, c),
    ensures
        older(a, c),
{
    if a.version_code == b.version_code && b.version_code == c.version_code {
        lemma_lex_less_transitive(a.version_name, b.version_name, c.version_name);
    }
}

/// Two builds of which neither is older than the other have the same
/// version code and the same version name.
pub proof fn lemma_older_total(a: PackageInfoView, b: PackageInfoView)
    ensures
        older(a, b) || older(b, a) || (a.version_code == b.version_code && a.version_name
            == b.version_name),
{
    lemma_lex_less_total(a.version_name, b.version_name);
}

/// A build that is not older than a second one is not older than anything
/// the second one is not older than.
pub proof fn lemma_not_older_transitive(a: PackageInfoView, b: PackageInfoView, c: PackageInfoView)
    requires
        !older(a, b),
        !older(b, c),
    ensures
        !older(a, c),
{
    lemma_older_total(a, b);
    lemma_older_total(b, c);
    lemma_older_asymmetric(a, c);
    if older(a, c) {
        if older(b, a) {
            lemma_older_transitive(b, a, c);
        } else if older(c, b) {
            lemma_older_transitive(a, c, b);
        } else {
            lemma_lex_less_irreflexive(a.version_name);
        }
    }
}

/// A list has at most one latest position.
pub proof fn lemma_latest_is_unique(list: Seq<PackageInfoView>, i: int, j: int)
    requires
        is_latest_at(list, i),
        is_latest_at(list, j),
    ensures
        i == j,
{
    if i < j {
        assert(!older(list[j], list[i]));
    } else if j < i {
        assert(!older(list[i], list[j]));
    }
}

/// The latest build of a list is in the list, and no build of the list is
/// newer than it.
pub proof fn lemma_latest_is_maximum(list: Seq<PackageInfoView>)
    requires
        list.len() > 0,
    ensures
        latest_of(list) is Some,
        list.contains(latest_of(list).unwrap()),
        forall|j: int| 0 <= j < list.len() ==> !older(latest_of(list).unwrap(), #[trigger] list[j]),
{
    let _ = lemma_latest_exists(list);
}

/// The latest build of a list of one is that one.
pub proof fn lemma_latest_of_single(build: PackageInfoView)
    ensures
        latest_of(seq![build]) == Some(build),
{
    let list = seq![build];
    lemma_older_asymmetric(build, build);
    assert(is_latest_at(list, 0));
}

/// An empty list has no latest build.
pub proof fn lemma_latest_of_empty()
    ensures
        latest_of(Seq::<PackageInfoView>::empty()) is None,
{
}

/// Of two builds the one listed second is the latest, unless it is older
/// than the first.
pub proof fn lemma_latest_of_pair(first: PackageInfoView, second: PackageInfoView)
    ensures
        latest_of(seq![first, second]) == Some(
            if older(second, first) {
                first
            } else {
                second
            },
        ),
{
    let list = seq![first, second];
    lemma_older_asymmetric(first, first);
    lemma_latest_extends(list, 0);
    let i: int = if older(second, first) {
        0
    } else {
        1
    };
    let k = choose|k: int| is_latest_at(list, k);
    lemma_latest_is_unique(list, i, k);
}

/// Every list that is not empty has a latest position.
pub proof fn lemma_latest_exists(list: Seq<PackageInfoView>) -> (i: int)
    requires
        list.len() > 0,
    ensures
        is_latest_at(list, i),
    decreases list.len(),
{
    let last = list.len() - 1;
    if list.len() == 1 {
        lemma_older_asymmetric(list[0], list[0]);
        0
    } else {
        let front = list.drop_last();
        let k = lemma_latest_exists(front);
        lemma_latest_extends(list, k);
        if older(list[last], list[k]) {
            k
        } else {
            last
        }
    }
}

/// How the latest position moves when a build is added at the end: it moves
/// to the end unless the added build is older than the latest so far.
pub proof fn lemma_latest_extends(list: Seq<PackageInfoView>, k: int)
    requires
        list.len() > 1,
        is_latest_at(list.drop_last(), k),
    ensures
        older(list.last(), list[k]) ==> is_latest_at(list, k),
        !older(list.last(), list[k]) ==> is_latest_at(list, list.len() - 1),
{
    let last = list.len() - 1;
    let front = list.drop_last();
    if older(list[last], list[k]) {
        lemma_older_asymmetric(list[last], list[k]);
        assert forall|j: int| 0 <= j < list.len() implies !older(list[k], #[trigger] list[j]) by {
            if j < last {
                assert(!older(front[k], front[j]));
            }
        }
        assert forall|j: int| k < j < list.len() implies older(#[trigger] list[j], list[k]) by {
            if j < last {
                assert(older(front[j], front[k]));
            }
        }
    } else {
        assert forall|j: int| 0 <= j < list.len() implies !older(list[last], #[trigger] list[j]) by {
            if j < last {
                assert(!older(front[k], front[j]));
                lemma_not_older_transitive(list[last], list[k], list[j]);
            } else {
                lemma_older_asymmetric(list[last], list[last]);
            }
        }
    }
}

/// The position of the latest build of a list.
pub fn latest_index(list: &Vec<PackageInfo>) -> (r: Option<usize>)
    ensures
        match r {
            Some(i) => is_latest_at(list.deep_view(), i as int),
            None => list.len() == 0,
        },
{
    if list.len() == 0 {
        return None;
    }
    let ghost all = list.deep_view();
    let mut best: usize = 0;
    let mut i: usize = 1;
    proof {
        lemma_older_asymmetric(all[0], all[0]);
    }
    while i < list.len()
        invariant
            1 <= i <= list.len(),
            all == list.deep_view(),
            is_latest_at(all.take(i as int), best as int),
        decreases list.len() - i,
    {
        proof {
            let now = all.take(i + 1);
            lemma_latest_extends(now, best as int);
        }
        if !list[i].is_older_than(&list[best]) {
            best = i;
        }
        i += 1;
    }
    assert(all.take(i as int) == all);
    Some(best)
}

/// A full parse of the structured index of a repository.
#[derive(Debug)]
pub struct RepoIndex {
    /// What the index says of the repository itself.
    pub repo: serde_json::Value,
    /// The log of requested and pending removals.
    pub requests: serde_json::Value,
    /// One summary per application.
    pub apps: Vec<serde_json::Value>,
    /// The published builds of each package, by package name.
    pub packages: StringMap<Vec<PackageInfo>>,
}

impl RepoIndex {
    /// The latest of the builds that the index lists under `pkg_name`, if it
    /// lists any.
    pub fn find_latest_package(&self, pkg_name: &str) -> (r: Option<PackageInfo>)
        ensures
            r.deep_view() == (if self.packages@.contains_key(pkg_name@) {
                latest_of(self.packages@[pkg_name@])
            } else {
                None
            }),
    {
        match self.packages.get(pkg_name) {
            Some(list) => match latest_index(list) {
                Some(i) => {
                    proof {
                        let all = list.deep_view();
                        let k = choose|k: int| is_latest_at(all, k);
                        lemma_latest_is_unique(all, i as int, k);
                    }
                    Some(list[i].clone())
                },
                None => None,
            },
            None => None,
        }
    }
}

} // verus!
