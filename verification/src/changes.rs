//! Whether a run changed the repository enough to publish it again.

use crate::index::{PackageInfo, PackageInfoView, RepoIndex};
use crate::string_map::{distinct_keys, lemma_map_of_dom, lemma_map_of_entry, map_of, StringMap};
use crate::text::{
    chars_of, contains_text, split_lines, str_contains, string_of, trim, trimmed,
};
use vstd::prelude::*;

verus! {

/// The package lists of an index, as a map from package name to builds.
pub type PackagesView = Map<Seq<char>, Seq<PackageInfoView>>;

/// Whether two lists hold the same builds in the same order.
pub fn same_builds(a: &Vec<PackageInfo>, b: &Vec<PackageInfo>) -> (r: bool)
    ensures
        r == (a.deep_view() == b.deep_view()),
{
    if a.len() != b.len() {
        assert(a.deep_view().len() != b.deep_view().len());
        return false;
    }
    let mut i: usize = 0;
    while i < a.len()
        invariant
            i <= a.len(),
            a.len() == b.len(),
            forall|j: int| 0 <= j < i ==> a[j]@ == b[j]@,
        decreases a.len() - i,
    {
        if !a[i].same_as(&b[i]) {
            assert(a.deep_view()[i as int] != b.deep_view()[i as int]);
            return false;
        }
        i += 1;
    }
    assert(a.deep_view() =~= b.deep_view());
    true
}

/// Whether `b` lists every package of `a` with the same builds.
fn covered_by(a: &StringMap<Vec<PackageInfo>>, b: &StringMap<Vec<PackageInfo>>) -> (r: bool)
    ensures
        r == a@.submap_of(b@),
{
    let entries = a.entries();
    let ghost all = entries.deep_view();
    let mut i: usize = 0;
    while i < entries.len()
        invariant
            i <= entries.len(),
            all == entries.deep_view(),
            a@ == map_of(all),
            distinct_keys(all),
            forall|j: int|
                0 <= j < i ==> b@.contains_key((#[trigger] all[j]).0) && b@[all[j].0] == all[j].1,
        decreases entries.len() - i,
    {
        let entry = &entries[i];
        proof {
            lemma_map_of_entry(all, i as int);
        }
        match b.get(entry.0.as_str()) {
            Some(builds) => {
                if !same_builds(&entry.1, builds) {
                    return false;
                }
            },
            None => {
                return false;
            },
        }
        i += 1;
    }
    proof {
        assert forall|key: Seq<char>| #[trigger] a@.dom().contains(key) implies b@.dom().contains(
            key,
        ) && a@[key] == b@[key] by {
            lemma_map_of_dom(all, key);
            let j = choose|j: int| 0 <= j < all.len() && (#[trigger] all[j]).0 == key;
            lemma_map_of_entry(all, j);
        }
    }
    true
}

/// Whether two indexes list the same packages with the same builds.
pub fn same_packages(a: &StringMap<Vec<PackageInfo>>, b: &StringMap<Vec<PackageInfo>>) -> (r: bool)
    ensures
        r == (a@ == b@),
{
    let r = covered_by(a, b) && covered_by(b, a);
    proof {
        if r {
            assert(a@ =~= b@);
        }
    }
    r
}

/// Two indexes differ significantly when they do not list the same builds
/// under the same package names. Nothing else in an index counts.
pub open spec fn significantly_changed(old: PackagesView, new: PackagesView) -> bool {
    old != new
}

/// Two indexes that list the same builds under the same package names do
/// not differ significantly, whatever else they hold.
pub proof fn lemma_only_packages_count(old: RepoIndex, new: RepoIndex)
    requires
        old.packages@ == new.packages@,
    ensures
        !significantly_changed(old.packages@, new.packages@),
{
}

/// Compares the index before a run with the index after it.
///
/// The result is `("packages", true)` when the package lists differ, and
/// `("", false)` when they do not, whatever else differs between the two.
pub fn has_significant_changes(old: &RepoIndex, new: &RepoIndex) -> (r: (String, bool))
    ensures
        r.1 == significantly_changed(old.packages@, new.packages@),
        r.1 ==> r.0@ == "packages"@,
        !r.1 ==> r.0@ == Seq::<char>::empty(),
{
    if !same_packages(&old.packages, &new.packages) {
        ("packages".to_owned(), true)
    } else {
        (String::new(), false)
    }
}

/// A changed file counts unless its name holds `index`: the index files
/// change with every run.
pub open spec fn is_significant_file(name: Seq<char>) -> bool {
    !contains_text(name, "index"@)
}

/// Whether some file of a list counts as a change.
pub open spec fn any_significant_file(names: Seq<Seq<char>>) -> bool {
    exists|i: int| 0 <= i < names.len() && is_significant_file(#[trigger] names[i])
}

/// Decides from the names of the files that changed in the published
/// directory whether the run is worth publishing. This is the rule to fall
/// back on when the indexes themselves show no difference.
pub fn has_significant_file_changes(changed_files: &Vec<String>) -> (r: bool)
    ensures
        r == any_significant_file(changed_files.deep_view()),
{
    let mut i: usize = 0;
    while i < changed_files.len()
        invariant
            i <= changed_files.len(),
            forall|j: int|
                0 <= j < i ==> !is_significant_file(#[trigger] changed_files.deep_view()[j]),
        decreases changed_files.len() - i,
    {
        assert(changed_files.deep_view()[i as int] == changed_files[i as int]@);
        if !str_contains(changed_files[i].as_str(), "index") {
            return true;
        }
        i += 1;
    }
    false
}

/// The name that a line of a listing holds, if it holds one.
pub open spec fn name_on_line(line: Seq<char>) -> Option<Seq<char>> {
    if trimmed(line).len() > 0 {
        Some(trimmed(line))
    } else {
        None
    }
}

/// The names in a listing of changed files: one per line, without the
/// whitespace around it; blank lines hold none.
pub open spec fn changed_file_names(listing: Seq<char>) -> Seq<Seq<char>> {
    split_lines(listing).filter_map(|line: Seq<char>| name_on_line(line))
}

/// Reads the names of the changed files from the listing that the version
/// control system printed, one name per line.
pub fn get_changed_file_names(listing: &str) -> (r: Vec<String>)
    ensures
        r.deep_view() == changed_file_names(listing@),
{
    let chars = chars_of(listing);
    let mut names: Vec<String> = Vec::new();
    let mut line: Vec<char> = Vec::new();
    let ghost mut done: Seq<Seq<char>> = Seq::empty();
    let mut i: usize = 0;
    while i < chars.len()
        invariant
            i <= chars.len(),
            chars@ == listing@,
            split_lines(chars@.take(i as int)) == done.push(line@),
            names.deep_view() == done.filter_map(|line: Seq<char>| name_on_line(line)),
        decreases chars.len() - i,
    {
        proof {
            let now = chars@.take(i + 1);
            assert(now.drop_last() == chars@.take(i as int));
        }
        if chars[i] == '\n' {
            let name = trim(&line);
            if name.len() > 0 {
                let text = string_of(&name);
                names.push(text);
            }
            proof {
                let full = done.push(line@);
                assert(full.drop_last() == done);
                done = full;
            }
            line = Vec::new();
        } else {
            line.push(chars[i]);
        }
        i += 1;
    }
    proof {
        assert(chars@.take(i as int) == chars@);
        let full = done.push(line@);
        assert(full.drop_last() == done);
    }
    let name = trim(&line);
    if name.len() > 0 {
        let text = string_of(&name);
        names.push(text);
    }
    names
}

} // verus!
