//! Whether a published release is newer than the running version.

use vstd::prelude::*;
use semver::Version;

verus! {

/// A published release.
#[derive(Debug)]
pub struct Update {
    pub html_url: String,
    /// The name of the release: a version, possibly after some `v`.
    pub name: String,
}

pub struct UpdateView {
    pub html_url: Seq<char>,
    pub name: Seq<char>,
}

impl View for Update {
    type V = UpdateView;

    open spec fn view(&self) -> UpdateView {
        UpdateView { html_url: self.html_url@, name: self.name@ }
    }
}

impl Clone for Update {
    fn clone(&self) -> (r: Self)
        ensures
            r@ == self@,
    {
        Update { html_url: self.html_url.clone(), name: self.name.clone() }
    }
}

/// What asking for the latest release gave.
#[derive(Debug)]
pub enum Latest {
    /// There is no release.
    NotFound,
    Release(Update),
}

/// Which version text could not be read.
#[derive(Debug, Clone, Copy, PartialEq, Eq, Structural)]
pub enum VersionError {
    Current,
    Release,
}

/// Whether `Version::parse` of the crate semver accepts the text.
pub uninterp spec fn version_parses(text: Seq<char>) -> bool;

/// Whether the version that `remote` parses to is greater, in the order of
/// the crate semver, than the one that `current` parses to.
pub uninterp spec fn version_newer(remote: Seq<char>, current: Seq<char>) -> bool;

/// `Version::parse` of the crate semver, asked only whether it succeeds.
#[verifier::external_body]
fn is_version(text: &str) -> (r: bool)
    ensures
        r == version_parses(text@),
{
    Version::parse(text).is_ok()
}

/// `Version::parse` on both texts and `>` on the two versions, for texts
/// that both parse.
#[verifier::external_body]
fn is_newer_version(remote: &str, current: &str) -> (r: bool)
    requires
        version_parses(remote@),
        version_parses(current@),
    ensures
        r == version_newer(remote@, current@),
{
    match (Version::parse(remote), Version::parse(current)) {
        (Ok(remote), Ok(current)) => remote > current,
        _ => false,
    }
}

/// The number of `v` that the text begins with.
pub open spec fn leading_vs(name: Seq<char>) -> nat
    decreases name.len(),
{
    if name.len() > 0 && name[0] == 'v' {
        1 + leading_vs(name.drop_first())
    } else {
        0
    }
}

/// The release name without the `v` it begins with.
pub open spec fn release_number(name: Seq<char>) -> Seq<char> {
    name.skip(leading_vs(name) as int)
}

/// How a release stands to the running version. The current version is
/// read first.
#[derive(Debug, Clone, Copy, PartialEq, Eq, Structural)]
pub enum Standing {
    /// The current version is no version.
    CurrentUnreadable,
    /// The number of the release is no version.
    ReleaseUnreadable,
    Newer,
    NotNewer,
}

pub open spec fn standing_of(current: Seq<char>, number: Seq<char>) -> Standing {
    if !version_parses(current) {
        Standing::CurrentUnreadable
    } else if !version_parses(number) {
        Standing::ReleaseUnreadable
    } else if version_newer(number, current) {
        Standing::Newer
    } else {
        Standing::NotNewer
    }
}

/// What is offered for a release that stands so: the release if it is
/// newer, nothing if it is not, an error if a version could not be read.
pub open spec fn offered(update: UpdateView, standing: Standing) -> Result<
    Option<UpdateView>,
    VersionError,
> {
    match standing {
        Standing::CurrentUnreadable => Err(VersionError::Current),
        Standing::ReleaseUnreadable => Err(VersionError::Release),
        Standing::Newer => Ok(Some(update)),
        Standing::NotNewer => Ok(None),
    }
}

/// The update to offer: the release, if its number is a newer version than
/// the current one; none if there is no release or it is not newer.
pub open spec fn newer_release(current: Seq<char>, latest: Option<UpdateView>) -> Result<
    Option<UpdateView>,
    VersionError,
> {
    match latest {
        None => Ok(None),
        Some(update) => offered(update, standing_of(current, release_number(update.name))),
    }
}

pub open spec fn latest_view(latest: Latest) -> Option<UpdateView> {
    match latest {
        Latest::NotFound => None,
        Latest::Release(update) => Some(update@),
    }
}

pub open spec fn update_result(r: Result<Option<Update>, VersionError>) -> Result<
    Option<UpdateView>,
    VersionError,
> {
    match r {
        Ok(Some(update)) => Ok(Some(update@)),
        Ok(None) => Ok(None),
        Err(e) => Err(e),
    }
}

proof fn lemma_leading_vs(name: Seq<char>, k: nat)
    requires
        k <= name.len(),
        forall|j: int| 0 <= j < k ==> name[j] == 'v',
        k == name.len() || name[k as int] != 'v',
    ensures
        leading_vs(name) == k,
    decreases k,
{
    if k > 0 {
        let rest = name.drop_first();
        assert forall|j: int| 0 <= j < k - 1 implies rest[j] == 'v' by {
            assert(rest[j] == name[j + 1]);
        }
        lemma_leading_vs(rest, (k - 1) as nat);
    }
}

/// The release name without the `v` it begins with.
pub fn strip_leading_vs(name: &str) -> (r: &str)
    ensures
        r@ == release_number(name@),
{
    let n = name.unicode_len();
    let mut i: usize = 0;
    while i < n && name.get_char(i) == 'v'
        invariant
            n == name@.len(),
            i <= n,
            forall|j: int| 0 <= j < i ==> name@[j] == 'v',
        decreases n - i,
    {
        i = i + 1;
    }
    proof {
        lemma_leading_vs(name@, i as nat);
    }
    name.substring_char(i, n)
}

/// Reads both versions and compares them.
pub fn compare_versions(current_version: &str, number: &str) -> (r: Standing)
    ensures
        r == standing_of(current_version@, number@),
{
    if !is_version(current_version) {
        Standing::CurrentUnreadable
    } else if !is_version(number) {
        Standing::ReleaseUnreadable
    } else if is_newer_version(number, current_version) {
        Standing::Newer
    } else {
        Standing::NotNewer
    }
}

/// What to offer for a release that stands so.
pub fn offer(update: Update, standing: Standing) -> (r: Result<Option<Update>, VersionError>)
    ensures
        update_result(r) == offered(update@, standing),
{
    match standing {
        Standing::CurrentUnreadable => Err(VersionError::Current),
        Standing::ReleaseUnreadable => Err(VersionError::Release),
        Standing::Newer => Ok(Some(update)),
        Standing::NotNewer => Ok(None),
    }
}

/// Decides whether the latest release is to be offered as an update to the
/// version `current_version`.
pub fn check_inner(current_version: &str, latest: Latest) -> (r: Result<
    Option<Update>,
    VersionError,
>)
    ensures
        update_result(r) == newer_release(current_version@, latest_view(latest)),
{
    match latest {
        Latest::NotFound => Ok(None),
        Latest::Release(update) => {
            let standing = compare_versions(
                current_version,
                strip_leading_vs(update.name.as_str()),
            );
            offer(update, standing)
        },
    }
}

} // verus!
