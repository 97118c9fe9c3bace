use metascoop::error::Error;
use metascoop::identity::{repo_from_parts, repo_info, strip_www, Repo, UrlParts};

fn parts(segments: Option<&[&str]>, host: Option<&str>) -> UrlParts {
    UrlParts {
        path_segments: segments.map(|s| s.iter().map(|p| p.to_string()).collect()),
        host: host.map(|h| h.to_string()),
    }
}

fn repo(author: &str, name: &str, host: &str) -> Repo {
    Repo { author: author.to_string(), name: name.to_string(), host: host.to_string() }
}

#[test]
fn one_segment_is_not_enough() {
    assert_eq!(repo_info("https://example.com/owner"), Err(Error::InvalidRepoUrl));
}

#[test]
fn owner_and_project_are_the_first_two_segments() {
    assert_eq!(
        repo_info("https://example.com/owner/project"),
        Ok(repo("owner", "project", "example.com"))
    );
}

#[test]
fn further_segments_are_ignored() {
    assert_eq!(
        repo_info("https://github.com/owner/project/tree/main?tab=readme#top"),
        Ok(repo("owner", "project", "github.com"))
    );
}

#[test]
fn leading_www_is_stripped_from_the_host() {
    assert_eq!(
        repo_info("https://www.github.com/owner/project"),
        Ok(repo("owner", "project", "github.com"))
    );
    assert_eq!(
        repo_info("https://www.www.example.org/a/b"),
        Ok(repo("a", "b", "example.org"))
    );
}

#[test]
fn text_that_is_no_absolute_url_is_rejected() {
    assert_eq!(repo_info("not a url"), Err(Error::InvalidRepoUrl));
    assert_eq!(repo_info(""), Err(Error::InvalidRepoUrl));
    assert_eq!(repo_info("/owner/project"), Err(Error::InvalidRepoUrl));
    assert_eq!(repo_info("github.com/owner/project"), Err(Error::InvalidRepoUrl));
}

#[test]
fn url_without_a_path_hierarchy_is_rejected() {
    assert_eq!(repo_info("mailto:owner@example.com"), Err(Error::InvalidRepoUrl));
    assert_eq!(repo_info("data:text/plain,owner/project"), Err(Error::InvalidRepoUrl));
}

#[test]
fn empty_segments_are_rejected() {
    assert_eq!(repo_info("https://example.com"), Err(Error::InvalidRepoUrl));
    assert_eq!(repo_info("https://example.com/"), Err(Error::InvalidRepoUrl));
    assert_eq!(repo_info("https://example.com/owner/"), Err(Error::InvalidRepoUrl));
    assert_eq!(repo_info("https://example.com//project"), Err(Error::InvalidRepoUrl));
}

#[test]
fn url_without_a_host_has_an_empty_host() {
    assert_eq!(repo_info("file:///owner/project"), Ok(repo("owner", "project", "")));
}

#[test]
fn parts_give_the_identity() {
    assert_eq!(
        repo_from_parts(&parts(Some(&["owner", "project", "x"]), Some("www.example.com"))),
        Ok(repo("owner", "project", "example.com"))
    );
    assert_eq!(
        repo_from_parts(&parts(Some(&["owner", "project"]), None)),
        Ok(repo("owner", "project", ""))
    );
}

#[test]
fn parts_without_two_full_segments_are_rejected() {
    assert_eq!(repo_from_parts(&parts(None, Some("example.com"))), Err(Error::InvalidRepoUrl));
    assert_eq!(repo_from_parts(&parts(Some(&[]), None)), Err(Error::InvalidRepoUrl));
    assert_eq!(repo_from_parts(&parts(Some(&["owner"]), None)), Err(Error::InvalidRepoUrl));
    assert_eq!(repo_from_parts(&parts(Some(&["", "project"]), None)), Err(Error::InvalidRepoUrl));
    assert_eq!(repo_from_parts(&parts(Some(&["owner", ""]), None)), Err(Error::InvalidRepoUrl));
}

#[test]
fn www_is_stripped_only_at_the_front() {
    assert_eq!(strip_www("www.example.com"), "example.com");
    assert_eq!(strip_www("www.www.example.com"), "example.com");
    assert_eq!(strip_www("example.www.com"), "example.www.com");
    assert_eq!(strip_www("wwwexample.com"), "wwwexample.com");
    assert_eq!(strip_www("www."), "");
    assert_eq!(strip_www("www"), "www");
    assert_eq!(strip_www(""), "");
}

#[test]
fn a_repo_can_be_copied() {
    let r = repo("owner", "project", "example.com");
    assert_eq!(r.clone(), r);
}
