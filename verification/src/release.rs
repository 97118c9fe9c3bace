//! Upstream releases and the choice of the artifact to track.

use crate::filename::{generate_release_filename, release_filename};
use crate::registry::{AppInfo, AppInfoView};
use crate::text::str_ends_with;
use vstd::prelude::*;

verus! {

/// A file uploaded with a release.
#[derive(Debug, PartialEq, Eq)]
pub struct Asset {
    pub id: u64,
    pub name: String,
    /// The upload state that the hosting platform reports.
    pub state: String,
}

/// The model of an [`Asset`].
pub struct AssetView {
    pub id: int,
    pub name: Seq<char>,
    pub state: Seq<char>,
}

impl View for Asset {
    type V = AssetView;

    open spec fn view(&self) -> AssetView {
        AssetView { id: self.id as int, name: self.name@, state: self.state@ }
    }
}

impl DeepView for Asset {
    type V = AssetView;

    open spec fn deep_view(&self) -> AssetView {
        self@
    }
}

impl Clone for Asset {
    fn clone(&self) -> (r: Self)
        ensures
            r@ == self@,
    {
        Asset { id: self.id, name: self.name.clone(), state: self.state.clone() }
    }
}

/// One upstream release.
#[derive(Debug, PartialEq, Eq)]
pub struct Release {
    pub tag_name: String,
    pub prerelease: bool,
    pub draft: bool,
    /// The release notes.
    pub body: Option<String>,
    pub assets: Vec<Asset>,
}

/// The model of a [`Release`].
pub struct ReleaseView {
    pub tag_name: Seq<char>,
    pub prerelease: bool,
    pub draft: bool,
    pub body: Option<Seq<char>>,
    pub assets: Seq<AssetView>,
}

impl View for Release {
    type V = ReleaseView;

    open spec fn view(&self) -> ReleaseView {
        ReleaseView {
            tag_name: self.tag_name@,
            prerelease: self.prerelease,
            draft: self.draft,
            body: match self.body {
                Some(text) => Some(text@),
                None => None,
            },
            assets: self.assets.deep_view(),
        }
    }
}

/// An asset that can be installed: fully uploaded, and named as a package.
pub open spec fn is_installable(asset: AssetView) -> bool {
    asset.state == "uploaded"@ && ".apk"@.is_suffix_of(asset.name)
}

/// The first installable asset of a list.
pub open spec fn first_installable(assets: Seq<AssetView>) -> Option<AssetView>
    decreases assets.len(),
{
    if assets.len() == 0 {
        None
    } else if is_installable(assets.first()) {
        Some(assets.first())
    } else {
        first_installable(assets.drop_first())
    }
}

/// The first installable asset stands in the list, and no asset before it
/// is installable; there is none exactly when no asset is installable.
pub proof fn lemma_first_installable(assets: Seq<AssetView>)
    ensures
        match first_installable(assets) {
            Some(asset) => exists|i: int|
                0 <= i < assets.len() && #[trigger] assets[i] == asset && is_installable(asset)
                    && forall|j: int| 0 <= j < i ==> !is_installable(#[trigger] assets[j]),
            None => forall|j: int| 0 <= j < assets.len() ==> !is_installable(#[trigger] assets[j]),
        },
    decreases assets.len(),
{
    if assets.len() > 0 {
        if !is_installable(assets.first()) {
            let rest = assets.drop_first();
            lemma_first_installable(rest);
            match first_installable(rest) {
                Some(asset) => {
                    let i = choose|i: int|
                        0 <= i < rest.len() && #[trigger] rest[i] == asset && is_installable(asset)
                            && forall|j: int| 0 <= j < i ==> !is_installable(#[trigger] rest[j]);
                    assert forall|j: int| 0 <= j < i + 1 implies !is_installable(
                        #[trigger] assets[j],
                    ) by {
                        if j > 0 {
                            assert(rest[j - 1] == assets[j]);
                        }
                    }
                },
                None => {
                    assert forall|j: int| 0 <= j < assets.len() implies !is_installable(
                        #[trigger] assets[j],
                    ) by {
                        if j > 0 {
                            assert(rest[j - 1] == assets[j]);
                        }
                    }
                },
            }
        }
    }
}

impl Asset {
    /// Whether the asset can be installed.
    pub fn is_installable(&self) -> (r: bool)
        ensures
            r == is_installable(self@),
    {
        self.state == "uploaded".to_owned() && str_ends_with(self.name.as_str(), ".apk")
    }
}

/// The asset of a release that stands for the installable artifact: the
/// first one, in the order of the release, that is installable.
pub fn find_apk_release(release: &Release) -> (r: Option<Asset>)
    ensures
        r.deep_view() == first_installable(release@.assets),
{
    let ghost all = release.assets.deep_view();
    let mut i: usize = 0;
    assert(all.skip(0) == all);
    while i < release.assets.len()
        invariant
            i <= release.assets.len(),
            all == release.assets.deep_view(),
            first_installable(all) == first_installable(all.skip(i as int)),
        decreases release.assets.len() - i,
    {
        if release.assets[i].is_installable() {
            return Some(release.assets[i].clone());
        }
        assert(all.skip(i as int).drop_first() == all.skip(i + 1));
        i += 1;
    }
    None
}

/// Why a release is passed over.
#[derive(Clone, Copy, Debug, PartialEq, Eq, Structural)]
pub enum Skip {
    Prerelease,
    Draft,
    EmptyTag,
    /// No asset of the release is installable.
    MissingAsset,
}

/// Why a release is passed over, if it is. The reasons are tried in the
/// order in which [`Skip`] lists them.
pub open spec fn skip_reason(release: ReleaseView) -> Option<Skip> {
    if release.prerelease {
        Some(Skip::Prerelease)
    } else if release.draft {
        Some(Skip::Draft)
    } else if release.tag_name.len() == 0 {
        Some(Skip::EmptyTag)
    } else if first_installable(release.assets) is None {
        Some(Skip::MissingAsset)
    } else {
        None
    }
}

/// What to fetch for a release, and what to record about it.
#[derive(Debug, PartialEq, Eq)]
pub struct ReleasePlan {
    /// The asset to download.
    pub asset: Asset,
    /// The file name under which to store it.
    pub file_name: String,
    /// The application, with the notes of this release.
    pub app: AppInfo,
}

/// The application with the notes of a release.
pub open spec fn with_release_notes(app: AppInfoView, body: Option<Seq<char>>) -> AppInfoView {
    AppInfoView {
        release_description: match body {
            Some(text) => text,
            None => Seq::empty(),
        },
        ..app
    }
}

/// Decides what to do with one release of an application: which asset to
/// download and under which name to store it, or why to pass the release
/// over.
pub fn plan_release(app: &AppInfo, release: &Release) -> (r: Result<ReleasePlan, Skip>)
    ensures
        match r {
            Ok(plan) => {
                &&& skip_reason(release@) is None
                &&& Some(plan.asset@) == first_installable(release@.assets)
                &&& plan.file_name@ == release_filename(app@.app_name(), release@.tag_name)
                &&& plan.app@ == with_release_notes(app@, release@.body)
            },
            Err(reason) => skip_reason(release@) == Some(reason),
        },
{
    if release.prerelease {
        return Err(Skip::Prerelease);
    }
    if release.draft {
        return Err(Skip::Draft);
    }
    if release.tag_name.as_str().is_empty() {
        return Err(Skip::EmptyTag);
    }
    match find_apk_release(release) {
        Some(asset) => {
            let file_name = generate_release_filename(app.app_name(), release.tag_name.as_str());
            let mut noted = app.clone();
            noted.release_description = match &release.body {
                Some(text) => text.clone(),
                None => String::new(),
            };
            Ok(ReleasePlan { asset, file_name, app: noted })
        },
        None => Err(Skip::MissingAsset),
    }
}

} // verus!
