//! The metadata record of an application and how a new build is folded
//! into it.

use crate::index::{PackageInfo, PackageInfoView};
use crate::registry::{AppInfo, AppInfoView};
use crate::string_map::StringMap;
use crate::text::{chars_of, clone_strings, join, joined, string_of};
use vstd::prelude::*;

verus! {

/// Makes `serde_yaml::Value` known as an opaque type.
#[verifier::external_type_specification]
#[verifier::external_body]
pub struct ExYamlValue(serde_yaml::Value);

/// The longest summary that a record holds, in characters.
pub const MAX_SUMMARY_LENGTH: usize = 80;

/// One value of a metadata record.
#[derive(Debug, PartialEq)]
pub enum MetaValue {
    Text(String),
    List(Vec<String>),
    Number(i64),
    /// Any other value; it is carried along unread.
    Other(serde_yaml::Value),
}

/// The model of a [`MetaValue`].
pub enum MetaValueView {
    Text(Seq<char>),
    List(Seq<Seq<char>>),
    Number(int),
    Other(serde_yaml::Value),
}

impl View for MetaValue {
    type V = MetaValueView;

    open spec fn view(&self) -> MetaValueView {
        match self {
            MetaValue::Text(text) => MetaValueView::Text(text@),
            MetaValue::List(items) => MetaValueView::List(items.deep_view()),
            MetaValue::Number(number) => MetaValueView::Number(*number as int),
            MetaValue::Other(value) => MetaValueView::Other(*value),
        }
    }
}

impl DeepView for MetaValue {
    type V = MetaValueView;

    open spec fn deep_view(&self) -> MetaValueView {
        self@
    }
}

/// The key/value document behind the published listing of one application.
pub type MetadataRecord = StringMap<MetaValue>;

/// The model of a [`MetadataRecord`].
pub type RecordView = Map<Seq<char>, MetaValueView>;

/// The sentinel that marks a field as deliberately unset.
pub open spec fn sentinel() -> Seq<char> {
    "Unknown"@
}

/// Whether a field of a record holds the sentinel.
pub open spec fn holds_sentinel(meta: RecordView, key: Seq<char>) -> bool {
    meta.contains_key(key) && meta[key] == MetaValueView::Text(sentinel())
}

/// A record after a text was offered for one of its fields: the text is
/// taken when it is not empty, or when the field holds the sentinel.
pub open spec fn with_non_empty(meta: RecordView, key: Seq<char>, value: Seq<char>) -> RecordView {
    if value.len() > 0 || holds_sentinel(meta, key) {
        meta.insert(key, MetaValueView::Text(value))
    } else {
        meta
    }
}

/// A text that is not empty always replaces the field.
pub proof fn lemma_non_empty_overwrites(meta: RecordView, key: Seq<char>, value: Seq<char>)
    requires
        value.len() > 0,
    ensures
        with_non_empty(meta, key, value) == meta.insert(key, MetaValueView::Text(value)),
{
}

/// An empty text clears a field that holds the sentinel.
pub proof fn lemma_empty_clears_sentinel(meta: RecordView, key: Seq<char>)
    requires
        holds_sentinel(meta, key),
    ensures
        with_non_empty(meta, key, Seq::empty())[key] == MetaValueView::Text(Seq::empty()),
        with_non_empty(meta, key, Seq::empty()) == meta.insert(
            key,
            MetaValueView::Text(Seq::empty()),
        ),
{
}

/// An empty text leaves a record unchanged unless the field holds the
/// sentinel.
pub proof fn lemma_empty_keeps_value(meta: RecordView, key: Seq<char>)
    requires
        !holds_sentinel(meta, key),
    ensures
        with_non_empty(meta, key, Seq::empty()) == meta,
{
}

/// Offers `value` for the field `key` of a record. The field takes the text
/// when it is not empty, or when the field holds `"Unknown"`.
pub fn set_non_empty(meta: &mut MetadataRecord, key: &str, value: &str)
    ensures
        final(meta)@ == with_non_empty(old(meta)@, key@, value@),
{
    let unset = match meta.get(key) {
        Some(MetaValue::Text(text)) => *text == "Unknown".to_owned(),
        _ => false,
    };
    if !value.is_empty() || unset {
        meta.insert(key.to_owned(), MetaValue::Text(value.to_owned()));
    }
}

/// The mark that ends a shortened summary.
pub open spec fn ellipsis() -> Seq<char> {
    seq!['.', '.', '.']
}

/// A summary cut to [`MAX_SUMMARY_LENGTH`] characters, the mark included.
pub open spec fn truncated(summary: Seq<char>) -> Seq<char> {
    if summary.len() > MAX_SUMMARY_LENGTH {
        summary.take(MAX_SUMMARY_LENGTH - 3) + ellipsis()
    } else {
        summary
    }
}

/// A summary that is too long comes out at exactly the maximum length and
/// ends with the mark; any other summary comes out as it is.
pub proof fn lemma_truncated(summary: Seq<char>)
    ensures
        truncated(summary).len() <= MAX_SUMMARY_LENGTH,
        summary.len() > MAX_SUMMARY_LENGTH ==> truncated(summary).len() == MAX_SUMMARY_LENGTH
            && ellipsis().is_suffix_of(truncated(summary)) && truncated(summary).take(
            MAX_SUMMARY_LENGTH - 3,
        ) == summary.take(MAX_SUMMARY_LENGTH - 3),
        summary.len() <= MAX_SUMMARY_LENGTH ==> truncated(summary) == summary,
{
}

/// Cuts a summary to [`MAX_SUMMARY_LENGTH`] characters: one that is longer
/// keeps its first 77 characters, followed by `...`.
pub fn truncate_summary(summary: &str) -> (r: String)
    ensures
        r@ == truncated(summary@),
{
    let chars = chars_of(summary);
    if chars.len() <= MAX_SUMMARY_LENGTH {
        return summary.to_owned();
    }
    let mut kept: Vec<char> = Vec::new();
    let mut i: usize = 0;
    while i < MAX_SUMMARY_LENGTH - 3
        invariant
            i <= MAX_SUMMARY_LENGTH - 3,
            chars.len() > MAX_SUMMARY_LENGTH,
            kept@ == chars@.take(i as int),
        decreases MAX_SUMMARY_LENGTH - 3 - i,
    {
        kept.push(chars[i]);
        i += 1;
    }
    kept.push('.');
    kept.push('.');
    kept.push('.');
    string_of(&kept)
}

/// A record after the facts of an application and of its latest build were
/// folded into it.
///
/// The texts of the application are offered field by field, as
/// [`with_non_empty`] says. The categories and the anti-features replace
/// what the record holds when the application names any. The current version
/// is always that of the build.
pub open spec fn merged(meta: RecordView, app: AppInfoView, latest: PackageInfoView) -> RecordView {
    let meta = with_non_empty(meta, "AuthorName"@, app.author_name());
    let meta = with_non_empty(meta, "Name"@, app.display_name());
    let meta = with_non_empty(meta, "SourceCode"@, app.git);
    let meta = with_non_empty(meta, "License"@, app.license);
    let meta = with_non_empty(meta, "Description"@, app.description);
    let meta = with_non_empty(meta, "Summary"@, truncated(app.summary));
    let meta = if app.categories.len() > 0 {
        meta.insert("Categories"@, MetaValueView::List(app.categories))
    } else {
        meta
    };
    let meta = if app.anti_features.len() > 0 {
        meta.insert("AntiFeatures"@, MetaValueView::Text(joined(app.anti_features, ","@)))
    } else {
        meta
    };
    let meta = meta.insert("CurrentVersion"@, MetaValueView::Text(latest.version_name));
    meta.insert("CurrentVersionCode"@, MetaValueView::Number(latest.version_code))
}

/// What a record holds under a key, if anything.
pub open spec fn field(meta: RecordView, key: Seq<char>) -> Option<MetaValueView> {
    if meta.contains_key(key) {
        Some(meta[key])
    } else {
        None
    }
}

/// The fields that a merge writes.
pub open spec fn is_merged_field(key: Seq<char>) -> bool {
    key == "AuthorName"@ || key == "Name"@ || key == "SourceCode"@ || key == "License"@ || key
        == "Description"@ || key == "Summary"@ || key == "Categories"@ || key == "AntiFeatures"@
        || key == "CurrentVersion"@ || key == "CurrentVersionCode"@
}

/// The names of the fields that a merge writes differ from each other.
proof fn lemma_field_names_differ()
    ensures
        "AuthorName"@.len() == 10,
        "Name"@.len() == 4,
        "SourceCode"@.len() == 10,
        "License"@.len() == 7,
        "Description"@.len() == 11,
        "Summary"@.len() == 7,
        "Categories"@.len() == 10,
        "AntiFeatures"@.len() == 12,
        "CurrentVersion"@.len() == 14,
        "CurrentVersionCode"@.len() == 18,
        "AuthorName"@[0] == 'A',
        "SourceCode"@[0] == 'S',
        "Categories"@[0] == 'C',
        "License"@[0] == 'L',
        "Summary"@[0] == 'S',
{
    reveal_strlit("AuthorName");
    reveal_strlit("Name");
    reveal_strlit("SourceCode");
    reveal_strlit("License");
    reveal_strlit("Description");
    reveal_strlit("Summary");
    reveal_strlit("Categories");
    reveal_strlit("AntiFeatures");
    reveal_strlit("CurrentVersion");
    reveal_strlit("CurrentVersionCode");
}

/// A merge treats every field on its own: what a field holds afterwards
/// depends on what it held before and on the one fact offered for it.
/// The current version is that of the build, whatever the record held, and
/// the fields that a merge does not write stay as they were.
pub proof fn lemma_merged_fields(meta: RecordView, app: AppInfoView, latest: PackageInfoView)
    ensures
        ({
            let after = merged(meta, app, latest);
            &&& field(after, "AuthorName"@) == field(
                with_non_empty(meta, "AuthorName"@, app.author_name()),
                "AuthorName"@,
            )
            &&& field(after, "Name"@) == field(
                with_non_empty(meta, "Name"@, app.display_name()),
                "Name"@,
            )
            &&& field(after, "SourceCode"@) == field(
                with_non_empty(meta, "SourceCode"@, app.git),
                "SourceCode"@,
            )
            &&& field(after, "License"@) == field(
                with_non_empty(meta, "License"@, app.license),
                "License"@,
            )
            &&& field(after, "Description"@) == field(
                with_non_empty(meta, "Description"@, app.description),
                "Description"@,
            )
            &&& field(after, "Summary"@) == field(
                with_non_empty(meta, "Summary"@, truncated(app.summary)),
                "Summary"@,
            )
            &&& field(after, "Categories"@) == (if app.categories.len() > 0 {
                Some(MetaValueView::List(app.categories))
            } else {
                field(meta, "Categories"@)
            })
            &&& field(after, "AntiFeatures"@) == (if app.anti_features.len() > 0 {
                Some(MetaValueView::Text(joined(app.anti_features, ","@)))
            } else {
                field(meta, "AntiFeatures"@)
            })
            &&& field(after, "CurrentVersion"@) == Some(MetaValueView::Text(latest.version_name))
            &&& field(after, "CurrentVersionCode"@) == Some(
                MetaValueView::Number(latest.version_code),
            )
            &&& forall|key: Seq<char>|
                !is_merged_field(key) ==> #[trigger] field(after, key) == field(meta, key)
        }),
{
    lemma_field_names_differ();
}

/// Folds the facts of an application and of its latest build into the
/// metadata record of the application.
pub fn merge_metadata(meta: &mut MetadataRecord, app: &AppInfo, latest: &PackageInfo)
    ensures
        final(meta)@ == merged(old(meta)@, app@, latest@),
{
    set_non_empty(meta, "AuthorName", app.author_name());
    set_non_empty(meta, "Name", app.display_name());
    set_non_empty(meta, "SourceCode", app.git.as_str());
    set_non_empty(meta, "License", app.license.as_str());
    set_non_empty(meta, "Description", app.description.as_str());
    let summary = truncate_summary(app.summary.as_str());
    set_non_empty(meta, "Summary", summary.as_str());
    if app.categories.len() > 0 {
        meta.insert("Categories".to_owned(), MetaValue::List(clone_strings(&app.categories)));
    }
    if app.anti_features.len() > 0 {
        meta.insert("AntiFeatures".to_owned(), MetaValue::Text(join(&app.anti_features, ",")));
    }
    meta.insert("CurrentVersion".to_owned(), MetaValue::Text(latest.version_name.clone()));
    meta.insert("CurrentVersionCode".to_owned(), MetaValue::Number(latest.version_code as i64));
}

/// The notes to publish with a build.
#[derive(Debug, PartialEq, Eq)]
pub struct Changelog {
    pub package_name: String,
    pub version_code: i32,
    pub text: String,
}

/// The model of a [`Changelog`].
pub struct ChangelogView {
    pub package_name: Seq<char>,
    pub version_code: int,
    pub text: Seq<char>,
}

impl View for Changelog {
    type V = ChangelogView;

    open spec fn view(&self) -> ChangelogView {
        ChangelogView {
            package_name: self.package_name@,
            version_code: self.version_code as int,
            text: self.text@,
        }
    }
}

impl DeepView for Changelog {
    type V = ChangelogView;

    open spec fn deep_view(&self) -> ChangelogView {
        self@
    }
}

/// The changelog entry of a build: the release notes of the application,
/// where it has any, under the package name and the version code of the
/// build.
pub open spec fn changelog_of(app: AppInfoView, latest: PackageInfoView) -> Option<ChangelogView> {
    if app.release_description.len() > 0 {
        Some(
            ChangelogView {
                package_name: latest.package_name,
                version_code: latest.version_code,
                text: app.release_description,
            },
        )
    } else {
        None
    }
}

/// The changelog entry to write for the latest build of an application, if
/// its release came with notes.
pub fn changelog_entry(app: &AppInfo, latest: &PackageInfo) -> (r: Option<Changelog>)
    ensures
        r.deep_view() == changelog_of(app@, latest@),
{
    if app.release_description.as_str().is_empty() {
        None
    } else {
        Some(
            Changelog {
                package_name: latest.package_name.clone(),
                version_code: latest.version_code,
                text: app.release_description.clone(),
            },
        )
    }
}

} // verus!
