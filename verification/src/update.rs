//! The update check's decision logic. The caller issues one HTTP HEAD
//! request against the latest-release address and hands the redirect
//! target here; this module extracts the release tag, compares versions,
//! and decides the outcome and the notice to show. Downloading and
//! installing stay with the caller.

use vstd::prelude::*;

verus! {

pub const GITHUB_REPO_URL: &'static str = "https://github.com/felipecrs/volume-locker";

pub const GITHUB_RELEASE_ASSET: &'static str = "volume-locker.exe";

/// The version a development build reports; its automatic startup check
/// stays silent.
pub const DEVELOPMENT_VERSION: &'static str = "0.0.0";

/// An available update: its version and where to read about and download
/// it.
#[derive(Debug, Clone)]
pub struct UpdateInfo {
    pub latest_version: String,
    pub download_url: String,
    pub release_url: String,
}

#[verifier::ext_equal]
pub ghost struct UpdateInfoView {
    pub latest_version: Seq<char>,
    pub download_url: Seq<char>,
    pub release_url: Seq<char>,
}

impl View for UpdateInfo {
    type V = UpdateInfoView;

    open spec fn view(&self) -> UpdateInfoView {
        UpdateInfoView {
            latest_version: self.latest_version@,
            download_url: self.download_url@,
            release_url: self.release_url@,
        }
    }
}

/// A notice for the user about the update check, shown directly (not
/// debounced).
#[derive(Debug, Clone)]
pub struct UpdateNotice {
    pub title: String,
    pub body: String,
    pub long_duration: bool,
}

#[verifier::ext_equal]
pub ghost struct UpdateNoticeView {
    pub title: Seq<char>,
    pub body: Seq<char>,
    pub long_duration: bool,
}

impl View for UpdateNotice {
    type V = UpdateNoticeView;

    open spec fn view(&self) -> UpdateNoticeView {
        UpdateNoticeView { title: self.title@, body: self.body@, long_duration: self.long_duration }
    }
}

/// Whether `latest` names a strictly newer semantic version than
/// `current`; a `latest` that does not parse is never newer, and a
/// `current` that does not parse is below every version that parses.
pub uninterp spec fn spec_semver_newer(latest: Seq<char>, current: Seq<char>) -> bool;

/// Relies on semver::Version::parse and semver::Version's Ord (with std's
/// Option ordering, where None is below any Some): whether `latest` parses
/// to a strictly greater version than `current`, a function of the two
/// strings alone.
#[verifier::external_body]
fn semver_newer(latest: &str, current: &str) -> (newer: bool)
    ensures
        newer == spec_semver_newer(latest@, current@),
{
    semver::Version::parse(latest).ok() > semver::Version::parse(current).ok()
}

/// What stands after the last `/` of `s`: the whole of `s` when it has
/// none, empty when it ends with one.
pub open spec fn spec_after_last_slash(s: Seq<char>) -> Seq<char>
    decreases s.len(),
{
    if s.len() == 0 {
        s
    } else if s.last() == '/' {
        Seq::empty()
    } else {
        spec_after_last_slash(s.drop_last()).push(s.last())
    }
}

/// `s` without its leading `v`s.
pub open spec fn spec_trim_leading_v(s: Seq<char>) -> Seq<char>
    decreases s.len(),
{
    if s.len() > 0 && s[0] == 'v' {
        spec_trim_leading_v(s.drop_first())
    } else {
        s
    }
}

proof fn lemma_after_last_slash_at(s: Seq<char>, k: int)
    requires
        0 <= k < s.len(),
        s[k] == '/',
        forall|j: int| k < j < s.len() ==> s[j] != '/',
    ensures
        spec_after_last_slash(s) =~= s.skip(k + 1),
    decreases s.len(),
{
    if k == s.len() - 1 {
        assert(s.skip(k + 1) =~= Seq::<char>::empty());
    } else {
        assert(s.last() != '/');
        lemma_after_last_slash_at(s.drop_last(), k);
        assert(s.drop_last().skip(k + 1).push(s.last()) =~= s.skip(k + 1));
    }
}

proof fn lemma_after_last_slash_none(s: Seq<char>)
    requires
        forall|j: int| 0 <= j < s.len() ==> s[j] != '/',
    ensures
        spec_after_last_slash(s) =~= s,
    decreases s.len(),
{
    if s.len() > 0 {
        lemma_after_last_slash_none(s.drop_last());
        assert(s.drop_last().push(s.last()) =~= s);
    }
}

proof fn lemma_trim_leading_v_at(s: Seq<char>, k: int)
    requires
        0 <= k <= s.len(),
        forall|j: int| 0 <= j < k ==> s[j] == 'v',
        k < s.len() ==> s[k] != 'v',
    ensures
        spec_trim_leading_v(s) =~= s.skip(k),
    decreases k,
{
    if k == 0 {
        assert(s.skip(0) =~= s);
    } else {
        assert(s[0] == 'v');
        lemma_trim_leading_v_at(s.drop_first(), k - 1);
        assert(s.drop_first().skip(k - 1) =~= s.skip(k));
    }
}

/// The segment of the release address after its last `/`: the tag of the
/// release it names.
pub fn extract_release_tag(release_url: &str) -> (tag: String)
    ensures
        tag@ == spec_after_last_slash(release_url@),
{
    let n = release_url.unicode_len();
    let mut slash_end: usize = 0;
    for i in 0..n
        invariant
            n == release_url@.len(),
            0 <= slash_end <= i,
            slash_end > 0 ==> release_url@[slash_end - 1] == '/',
            forall|j: int| slash_end <= j < i ==> release_url@[j] != '/',
    {
        if release_url.get_char(i) == '/' {
            slash_end = i + 1;
        }
    }
    let tail = release_url.substring_char(slash_end, n);
    proof {
        if slash_end > 0 {
            lemma_after_last_slash_at(release_url@, slash_end - 1);
        } else {
            lemma_after_last_slash_none(release_url@);
        }
        assert(tail@ =~= spec_after_last_slash(release_url@));
    }
    String::from_str(tail)
}

/// The tag without its leading `v`s: the version it names.
pub fn trim_version_prefix(tag: &str) -> (version: String)
    ensures
        version@ == spec_trim_leading_v(tag@),
{
    let n = tag.unicode_len();
    let mut k: usize = 0;
    let mut stop = false;
    while k < n && !stop
        invariant
            n == tag@.len(),
            0 <= k <= n,
            forall|j: int| 0 <= j < k ==> tag@[j] == 'v',
            stop ==> k < n && tag@[k as int] != 'v',
        decreases n - k, (if stop { 0int } else { 1int }),
    {
        if tag.get_char(k) == 'v' {
            k = k + 1;
        } else {
            stop = true;
        }
    }
    let tail = tag.substring_char(k, n);
    proof {
        lemma_trim_leading_v_at(tag@, k as int);
        assert(tail@ =~= spec_trim_leading_v(tag@));
    }
    String::from_str(tail)
}

/// The download address of a release tag's installer asset.
pub open spec fn spec_download_url(tag: Seq<char>) -> Seq<char> {
    GITHUB_REPO_URL@ + "/releases/download/"@ + tag + "/"@ + GITHUB_RELEASE_ASSET@
}

/// Decides the update check's outcome. `release_url` is where the
/// latest-release address redirected, `None` when the request failed;
/// `current_version` is the running build's version. Returns the update to
/// offer, if any, and the notice to show: availability notices always on a
/// manual check, and on the automatic one only outside a development
/// build; failure and no-update notices only on a manual check.
pub fn check(manual_request: bool, release_url: Option<String>, current_version: &str) -> (outcome:
    (Option<UpdateInfo>, Option<UpdateNotice>))
    ensures
        ({
            let info = outcome.0;
            let notice = outcome.1;
            match release_url {
                Some(url) => {
                    let tag = spec_after_last_slash(url@);
                    let version = spec_trim_leading_v(tag);
                    if spec_semver_newer(version, current_version@) {
                        &&& info matches Some(i) && i@ == (UpdateInfoView {
                            latest_version: version,
                            download_url: spec_download_url(tag),
                            release_url: url@,
                        })
                        &&& if manual_request || current_version@ != DEVELOPMENT_VERSION@ {
                            notice matches Some(nt) && nt@ == (UpdateNoticeView {
                                title: "Update Available"@,
                                body: "Version "@ + version
                                    + " is available. Click 'Update' in the menu to install."@,
                                long_duration: true,
                            })
                        } else {
                            notice is None
                        }
                    } else {
                        &&& info is None
                        &&& if manual_request {
                            notice matches Some(nt) && nt@ == (UpdateNoticeView {
                                title: "No Updates Available"@,
                                body: "You are running the latest version of Volume Locker."@,
                                long_duration: false,
                            })
                        } else {
                            notice is None
                        }
                    }
                },
                None => {
                    &&& info is None
                    &&& if manual_request {
                        notice matches Some(nt) && nt@ == (UpdateNoticeView {
                            title: "Update Check Failed"@,
                            body: "Failed to check for updates. Please check your internet connection."@,
                            long_duration: true,
                        })
                    } else {
                        notice is None
                    }
                },
            }
        }),
{
    let url = match release_url {
        Some(u) => u,
        None => {
            let notice = if manual_request {
                Some(
                    UpdateNotice {
                        title: String::from_str("Update Check Failed"),
                        body: String::from_str(
                            "Failed to check for updates. Please check your internet connection.",
                        ),
                        long_duration: true,
                    },
                )
            } else {
                None
            };
            return (None, notice);
        },
    };
    let tag = extract_release_tag(url.as_str());
    let version = trim_version_prefix(tag.as_str());
    if semver_newer(version.as_str(), current_version) {
        let download_url = String::from_str(GITHUB_REPO_URL).concat("/releases/download/").concat(
            tag.as_str(),
        ).concat("/").concat(GITHUB_RELEASE_ASSET);
        let notice = if manual_request || !crate::text::str_eq(
            current_version,
            DEVELOPMENT_VERSION,
        ) {
            Some(
                UpdateNotice {
                    title: String::from_str("Update Available"),
                    body: String::from_str("Version ").concat(version.as_str()).concat(
                        " is available. Click 'Update' in the menu to install.",
                    ),
                    long_duration: true,
                },
            )
        } else {
            None
        };
        (
            Some(
                UpdateInfo { latest_version: version, download_url, release_url: url },
            ),
            notice,
        )
    } else {
        let notice = if manual_request {
            Some(
                UpdateNotice {
                    title: String::from_str("No Updates Available"),
                    body: String::from_str("You are running the latest version of Volume Locker."),
                    long_duration: false,
                },
            )
        } else {
            None
        };
        (None, notice)
    }
}

} // verus!
