//! Finding the screenshots among the files of a source repository.

use crate::text::{
    chars_of, contains_text, find_last, last_index_of, lowercase, str_contains, string_of, tail,
    to_lowercase,
};
use vstd::prelude::*;

verus! {

/// What was found in the working tree of a source repository.
#[derive(Debug, PartialEq, Eq)]
pub struct RepoMetadata {
    /// The paths of the screenshots, in the order in which the files were
    /// given.
    pub screenshots: Vec<String>,
}

impl Default for RepoMetadata {
    fn default() -> (r: Self)
        ensures
            r.screenshots@.len() == 0,
    {
        RepoMetadata { screenshots: Vec::new() }
    }
}

/// The last component of a path: what follows its last `/`.
pub open spec fn file_name(path: Seq<char>) -> Seq<char> {
    path.skip(last_index_of(path, '/') + 1)
}

/// The extension of the file that a path names: what follows the last `.`
/// of the file name, unless the name has no `.` or only begins with one.
pub open spec fn extension(path: Seq<char>) -> Option<Seq<char>> {
    let name = file_name(path);
    let dot = last_index_of(name, '.');
    if dot > 0 {
        Some(name.skip(dot + 1))
    } else {
        None
    }
}

/// The extensions, in lower case, of the image formats that serve as
/// screenshots.
pub open spec fn is_image_extension(ext: Seq<char>) -> bool {
    ext == "png"@ || ext == "jpg"@ || ext == "jpeg"@
}

/// A path whose extension, in whatever case, is that of an image.
pub open spec fn is_image_path(path: Seq<char>) -> bool {
    match extension(path) {
        Some(ext) => is_image_extension(lowercase(ext)),
        None => false,
    }
}

/// A path that names a screenshot: an image with `screenshot` somewhere in
/// its path, in whatever case.
pub open spec fn is_screenshot_path(path: Seq<char>) -> bool {
    contains_text(lowercase(path), "screenshot"@) && is_image_path(path)
}

/// The extension of the file that `path` names.
pub fn extension_of(path: &str) -> (r: Option<String>)
    ensures
        r.deep_view() == extension(path@),
{
    let chars = chars_of(path);
    let name = match find_last(&chars, '/') {
        Some(slash) => tail(&chars, slash + 1),
        None => tail(&chars, 0),
    };
    match find_last(&name, '.') {
        Some(dot) => {
            if dot > 0 {
                let ext = tail(&name, dot + 1);
                Some(string_of(&ext))
            } else {
                None
            }
        },
        None => None,
    }
}

/// Whether `ext`, given in lower case, is the extension of an image.
pub fn has_image_extension(ext: &str) -> (r: bool)
    ensures
        r == is_image_extension(ext@),
{
    let ext = ext.to_owned();
    ext == "png".to_owned() || ext == "jpg".to_owned() || ext == "jpeg".to_owned()
}

/// Whether `path` names an image file, going by its extension.
pub fn is_image_file(path: &str) -> (r: bool)
    ensures
        r == is_image_path(path@),
{
    match extension_of(path) {
        Some(ext) => {
            let lower = to_lowercase(ext.as_str());
            has_image_extension(lower.as_str())
        },
        None => false,
    }
}

/// Whether `path` names a screenshot.
pub fn is_screenshot(path: &str) -> (r: bool)
    ensures
        r == is_screenshot_path(path@),
{
    let lower = to_lowercase(path);
    str_contains(lower.as_str(), "screenshot") && is_image_file(path)
}

/// Picks the screenshots among the regular files of a working tree, given
/// by their paths.
pub fn find_metadata(files: &Vec<String>) -> (r: RepoMetadata)
    ensures
        r.screenshots.deep_view() == files.deep_view().filter(
            |path: Seq<char>| is_screenshot_path(path),
        ),
{
    let mut screenshots: Vec<String> = Vec::new();
    let ghost all = files.deep_view();
    let ghost wanted = |path: Seq<char>| is_screenshot_path(path);
    let mut i: usize = 0;
    proof {
        reveal(Seq::filter);
    }
    while i < files.len()
        invariant
            i <= files.len(),
            all == files.deep_view(),
            wanted == |path: Seq<char>| is_screenshot_path(path),
            screenshots.deep_view() == all.take(i as int).filter(wanted),
        decreases files.len() - i,
    {
        proof {
            assert(all.take(i + 1) == all.take(i as int).push(files[i as int]@));
            all.take(i as int).lemma_filter_push(files[i as int]@, wanted);
        }
        if is_screenshot(files[i].as_str()) {
            let path = files[i].clone();
            screenshots.push(path);
        }
        i += 1;
    }
    assert(all.take(i as int) == all);
    RepoMetadata { screenshots }
}

} // verus!
