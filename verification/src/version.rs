use vstd::prelude::*;
use crate::text::{string_from_chars, chars_of, chars_from, has_prefix, split_chars, split_words, split_on, words, views, lemma_views_push};

verus! {

broadcast use vstd::string::group_string_axioms;

/// `semver::Version`, carried inside `SemVer` for comparisons and otherwise
/// left opaque.
#[verifier::external_type_specification]
#[verifier::external_body]
pub struct ExSemverVersion(semver::Version);

/// What `semver::Version::parse` makes of `text`: the version as (major,
/// minor, patch, pre-release, build metadata), or the message of the error
/// it reports, as the error displays itself.
pub uninterp spec fn semver_parse(text: Seq<char>) -> Result<(u64, u64, u64, Seq<char>, Seq<char>), Seq<char>>;

/// Whether semver's total order on versions puts `a` strictly before `b`.
pub uninterp spec fn semver_less(
    a: (u64, u64, u64, Seq<char>, Seq<char>),
    b: (u64, u64, u64, Seq<char>, Seq<char>),
) -> bool;

/// Whether two versions differ in major, minor or patch number.
pub open spec fn release_numbers_differ(
    a: (u64, u64, u64, Seq<char>, Seq<char>),
    b: (u64, u64, u64, Seq<char>, Seq<char>),
) -> bool {
    a.0 != b.0 || a.1 != b.1 || a.2 != b.2
}

/// Whether (major, minor, patch) of `a` comes before that of `b`, compared
/// number by number.
pub open spec fn release_numbers_less(
    a: (u64, u64, u64, Seq<char>, Seq<char>),
    b: (u64, u64, u64, Seq<char>, Seq<char>),
) -> bool {
    a.0 < b.0 || (a.0 == b.0 && (a.1 < b.1 || (a.1 == b.1 && a.2 < b.2)))
}

/// A semantic version read from text by the semver crate.
#[derive(Debug)]
pub struct SemVer {
    major: u64,
    minor: u64,
    patch: u64,
    pre: String,
    build: String,
    parsed: semver::Version,
}

impl View for SemVer {
    type V = (u64, u64, u64, Seq<char>, Seq<char>);

    closed spec fn view(&self) -> (u64, u64, u64, Seq<char>, Seq<char>) {
        (self.major, self.minor, self.patch, self.pre@, self.build@)
    }
}

impl SemVer {
    /// The major version number.
    pub fn major(&self) -> (r: u64)
        ensures
            r == self@.0,
    {
        self.major
    }

    /// The minor version number.
    pub fn minor(&self) -> (r: u64)
        ensures
            r == self@.1,
    {
        self.minor
    }

    /// The patch version number.
    pub fn patch(&self) -> (r: u64)
        ensures
            r == self@.2,
    {
        self.patch
    }

    /// The pre-release part, empty when there is none.
    pub fn pre(&self) -> (r: &str)
        ensures
            r@ == self@.3,
    {
        self.pre.as_str()
    }

    /// The build metadata, empty when there is none.
    pub fn build(&self) -> (r: &str)
        ensures
            r@ == self@.4,
    {
        self.build.as_str()
    }
}

/// Reads a version with `semver::Version::parse`; where semver refuses the
/// text, the displayed message of its error. A version carries the parsed
/// fields as plain values next to the parsed value itself, which
/// `version_less` compares.
#[verifier::external_body]
fn parse_version(text: &str) -> (r: Result<SemVer, String>)
    ensures
        match r {
            Ok(v) => semver_parse(text@) == Ok::<_, Seq<char>>(v@),
            Err(m) => semver_parse(text@) == Err::<(u64, u64, u64, Seq<char>, Seq<char>), _>(m@),
        },
{
    match semver::Version::parse(text) {
        Ok(v) => Ok(SemVer {
            major: v.major,
            minor: v.minor,
            patch: v.patch,
            pre: v.pre.as_str().to_string(),
            build: v.build.as_str().to_string(),
            parsed: v,
        }),
        Err(e) => Err(e.to_string()),
    }
}

/// `a < b` in semver's `Ord` for `semver::Version` (major, minor, patch,
/// pre-release, then build metadata). Every `SemVer` is made by
/// `parse_version` from one parsed value, fields and all, and is never
/// changed, so the comparison is a function of the two views.
/// `Version` derives `PartialOrd`, which compares the fields in order, so
/// versions whose release numbers differ are ordered by those numbers.
#[verifier::external_body]
fn version_less(a: &SemVer, b: &SemVer) -> (r: bool)
    ensures
        r == semver_less(a@, b@),
        release_numbers_differ(a@, b@) ==> r == release_numbers_less(a@, b@),
{
    a.parsed < b.parsed
}

/// The prefix of a reference name that marks a release tag.
pub open spec fn tag_prefix() -> Seq<char> {
    "refs/tags/v"@
}

/// The version text a line of a reference listing names: the line's second
/// word (the reference name) with the release-tag prefix taken off.
pub open spec fn line_version_text(line: Seq<char>) -> Option<Seq<char>> {
    let ws = words(line);
    if ws.len() >= 2 && tag_prefix().is_prefix_of(ws[1]) {
        Some(ws[1].skip(tag_prefix().len() as int))
    } else {
        None
    }
}

/// The version texts the lines name, in line order.
pub open spec fn lines_version_texts(lines: Seq<Seq<char>>) -> Seq<Seq<char>>
    decreases lines.len(),
{
    if lines.len() == 0 {
        Seq::empty()
    } else {
        let rest = lines_version_texts(lines.drop_last());
        match line_version_text(lines.last()) {
            Some(t) => rest.push(t),
            None => rest,
        }
    }
}

/// The version texts of the release tags in a reference listing.
pub open spec fn tag_version_texts(ref_data: Seq<char>) -> Seq<Seq<char>> {
    lines_version_texts(split_on(ref_data, '\n'))
}

/// The texts that semver reads as versions, read, in order.
pub open spec fn readable_versions(texts: Seq<Seq<char>>) -> Seq<(u64, u64, u64, Seq<char>, Seq<char>)>
    decreases texts.len(),
{
    if texts.len() == 0 {
        Seq::empty()
    } else {
        let rest = readable_versions(texts.drop_last());
        match semver_parse(texts.last()) {
            Ok(v) => rest.push(v),
            Err(_) => rest,
        }
    }
}

/// The versions published as release tags in a reference listing.
pub open spec fn published_versions(ref_data: Seq<char>) -> Seq<(u64, u64, u64, Seq<char>, Seq<char>)> {
    readable_versions(tag_version_texts(ref_data))
}

/// The greatest version in semver's order, the last of several equal ones,
/// as `Iterator::max` picks it; `None` for no versions.
pub open spec fn latest(vs: Seq<(u64, u64, u64, Seq<char>, Seq<char>)>) -> Option<(u64, u64, u64, Seq<char>, Seq<char>)>
    decreases vs.len(),
{
    if vs.len() == 0 {
        None
    } else {
        match latest(vs.drop_last()) {
            None => Some(vs.last()),
            Some(m) => if semver_less(vs.last(), m) {
                Some(m)
            } else {
                Some(vs.last())
            },
        }
    }
}

/// The version texts of the release tags in a reference listing: the second
/// word of each line, where it starts with `refs/tags/v`, without that prefix.
pub fn tag_versions(ref_data: &str) -> (texts: Vec<Vec<char>>)
    ensures
        views(texts@) == tag_version_texts(ref_data@),
{
    let chars = chars_of(ref_data);
    let lines = split_chars(&chars, '\n');
    let prefix_str = "refs/tags/v";
    proof {
        reveal_strlit("refs/tags/v");
    }
    let prefix = chars_of(prefix_str);
    let mut texts: Vec<Vec<char>> = Vec::new();
    let mut i: usize = 0;
    assert(views(lines@).take(0) =~= Seq::<Seq<char>>::empty());
    while i < lines.len()
        invariant
            i <= lines.len(),
            prefix@ == tag_prefix(),
            views(lines@) == split_on(chars@, '\n'),
            views(texts@) == lines_version_texts(views(lines@).take(i as int)),
        decreases lines.len() - i,
    {
        let ghost done = views(lines@).take(i as int);
        let ghost next = views(lines@).take(i + 1);
        assert(next.drop_last() =~= done);
        assert(next.last() == lines@[i as int]@);
        let ws = split_words(&lines[i]);
        if ws.len() >= 2 && has_prefix(&ws[1], &prefix) {
            let t = chars_from(&ws[1], prefix.len());
            proof {
                lemma_views_push(texts@, t);
            }
            texts.push(t);
        }
        i = i + 1;
    }
    assert(views(lines@).take(lines.len() as int) =~= views(lines@));
    texts
}

/// Reads each text as a version, keeping those semver accepts, in order.
pub fn read_versions(texts: &Vec<Vec<char>>) -> (vs: Vec<SemVer>)
    ensures
        vs@.map_values(|v: SemVer| v@) == readable_versions(views(texts@)),
{
    let mut vs: Vec<SemVer> = Vec::new();
    let mut i: usize = 0;
    assert(views(texts@).take(0) =~= Seq::<Seq<char>>::empty());
    assert(vs@.map_values(|v: SemVer| v@) =~= Seq::empty());
    while i < texts.len()
        invariant
            i <= texts.len(),
            vs@.map_values(|v: SemVer| v@) == readable_versions(views(texts@).take(i as int)),
        decreases texts.len() - i,
    {
        let ghost done = views(texts@).take(i as int);
        let ghost next = views(texts@).take(i + 1);
        assert(next.drop_last() =~= done);
        assert(next.last() == texts@[i as int]@);
        let s = string_from_chars(&texts[i]);
        match parse_version(s.as_str()) {
            Ok(v) => {
                let ghost before = vs@;
                vs.push(v);
                assert(vs@.map_values(|v: SemVer| v@) =~= before.map_values(|v: SemVer| v@).push(v@));
            },
            Err(_) => {},
        }
        i = i + 1;
    }
    assert(views(texts@).take(texts.len() as int) =~= views(texts@));
    vs
}

/// The contents of a list of versions.
pub open spec fn version_views(vs: Seq<SemVer>) -> Seq<(u64, u64, u64, Seq<char>, Seq<char>)> {
    vs.map_values(|v: SemVer| v@)
}

/// The greatest of the versions, the last of several equal ones, as
/// `Iterator::max` picks it. There is one exactly when the list is not
/// empty; it is one of the versions, and none of them has greater release
/// numbers.
pub fn latest_version(vs: Vec<SemVer>) -> (r: Option<SemVer>)
    ensures
        r is None <==> latest(version_views(vs@)) is None,
        r matches Some(v) ==> latest(version_views(vs@)) == Some(v@),
        r is None <==> vs@.len() == 0,
        r matches Some(v) ==> version_views(vs@).contains(v@),
        r matches Some(v) ==> forall|i: int|
            0 <= i < vs@.len() ==> !release_numbers_less(v@, #[trigger] version_views(vs@)[i]),
{
    let mut vs = vs;
    let ghost all = version_views(vs@);
    let mut best: Option<usize> = None;
    let mut i: usize = 0;
    assert(all.take(0) =~= Seq::empty());
    while i < vs.len()
        invariant
            i <= vs.len(),
            all == version_views(vs@),
            all.len() == vs@.len(),
            best is None <==> latest(all.take(i as int)) is None,
            best is None <==> i == 0,
            best matches Some(b) ==> b < i && latest(all.take(i as int)) == Some(all[b as int]),
            best matches Some(b) ==> forall|j: int|
                0 <= j < i ==> !release_numbers_less(all[b as int], #[trigger] all[j]),
        decreases vs.len() - i,
    {
        let ghost next = all.take(i + 1);
        assert(next.drop_last() =~= all.take(i as int));
        assert(next.last() == all[i as int]);
        assert(vs@[i as int]@ == all[i as int]);
        match best {
            None => {
                best = Some(i);
            },
            Some(b) => {
                assert(vs@[b as int]@ == all[b as int]);
                if !version_less(&vs[i], &vs[b]) {
                    best = Some(i);
                }
            },
        }
        i = i + 1;
    }
    assert(all.take(vs.len() as int) =~= all);
    match best {
        None => None,
        Some(b) => {
            let ghost before = vs@;
            let m = vs.swap_remove(b);
            assert(before[b as int] == m);
            assert(all[b as int] == m@);
            Some(m)
        },
    }
}

/// The latest of a list of versions, where there are any, is one of them,
/// and no version in the list has greater release numbers (major, minor,
/// patch, compared in that order); a newer patch release is never passed
/// over. This rests only on semver ordering versions with different release
/// numbers by those numbers.
pub proof fn latest_has_the_greatest_release_numbers(vs: Seq<(u64, u64, u64, Seq<char>, Seq<char>)>)
    requires
        forall|i: int, j: int|
            0 <= i < vs.len() && 0 <= j < vs.len() && release_numbers_differ(vs[i], vs[j])
                ==> (semver_less(vs[i], vs[j]) <==> release_numbers_less(vs[i], vs[j])),
    ensures
        latest(vs) is None <==> vs.len() == 0,
        latest(vs) matches Some(m) ==> vs.contains(m),
        latest(vs) matches Some(m) ==> forall|i: int|
            0 <= i < vs.len() ==> !release_numbers_less(m, #[trigger] vs[i]),
    decreases vs.len(),
{
    if vs.len() > 0 {
        let prefix = vs.drop_last();
        assert forall|i: int, j: int|
            0 <= i < prefix.len() && 0 <= j < prefix.len() && release_numbers_differ(prefix[i], prefix[j])
                implies (semver_less(prefix[i], prefix[j]) <==> release_numbers_less(prefix[i], prefix[j])) by {
            assert(prefix[i] == vs[i] && prefix[j] == vs[j]);
        }
        latest_has_the_greatest_release_numbers(prefix);
        match latest(prefix) {
            None => {
                assert(vs.len() == 1);
                assert(vs[0] == vs.last());
            },
            Some(p) => {
                let k = choose|k: int| 0 <= k < prefix.len() && prefix[k] == p;
                assert(vs[k] == p);
                assert(vs[vs.len() - 1] == vs.last());
                assert forall|i: int| 0 <= i < vs.len() implies !release_numbers_less(
                    latest(vs)->0,
                    #[trigger] vs[i],
                ) by {
                    if i < vs.len() - 1 {
                        assert(prefix[i] == vs[i]);
                    }
                }
            },
        }
    }
}

/// No version in a list comes after its latest in semver's order, given that
/// the order is a strict weak order on the list (no two versions each before
/// the other, and "not before" chains), as semver's total order on versions is.
pub proof fn latest_is_not_before_any(vs: Seq<(u64, u64, u64, Seq<char>, Seq<char>)>)
    requires
        forall|i: int, j: int|
            0 <= i < vs.len() && 0 <= j < vs.len() && #[trigger] semver_less(vs[i], vs[j])
                ==> !semver_less(vs[j], vs[i]),
        forall|i: int, j: int, k: int|
            #![trigger semver_less(vs[i], vs[j]), semver_less(vs[j], vs[k])]
            0 <= i < vs.len() && 0 <= j < vs.len() && 0 <= k < vs.len() && !semver_less(vs[i], vs[j])
                && !semver_less(vs[j], vs[k]) ==> !semver_less(vs[i], vs[k]),
    ensures
        latest(vs) matches Some(m) ==> vs.contains(m),
        latest(vs) matches Some(m) ==> forall|i: int|
            0 <= i < vs.len() ==> !semver_less(m, #[trigger] vs[i]),
    decreases vs.len(),
{
    if vs.len() > 0 {
        let prefix = vs.drop_last();
        let n = vs.len() - 1;
        assert(vs[n] == vs.last());
        assert forall|i: int, j: int|
            0 <= i < prefix.len() && 0 <= j < prefix.len() && #[trigger] semver_less(prefix[i], prefix[j])
                implies !semver_less(prefix[j], prefix[i]) by {
            assert(prefix[i] == vs[i] && prefix[j] == vs[j]);
        }
        assert forall|i: int, j: int, k: int|
            #![trigger semver_less(prefix[i], prefix[j]), semver_less(prefix[j], prefix[k])]
            0 <= i < prefix.len() && 0 <= j < prefix.len() && 0 <= k < prefix.len() && !semver_less(
                prefix[i],
                prefix[j],
            ) && !semver_less(prefix[j], prefix[k]) implies !semver_less(prefix[i], prefix[k]) by {
            assert(prefix[i] == vs[i] && prefix[j] == vs[j] && prefix[k] == vs[k]);
        }
        latest_is_not_before_any(prefix);
        match latest(prefix) {
            None => {
                assert(prefix.len() == 0);
                assert(vs[0] == vs.last());
            },
            Some(p) => {
                let k = choose|k: int| 0 <= k < prefix.len() && prefix[k] == p;
                assert(vs[k] == p);
                assert forall|i: int| 0 <= i < vs.len() implies !semver_less(
                    latest(vs)->0,
                    #[trigger] vs[i],
                ) by {
                    if i < n {
                        assert(prefix[i] == vs[i]);
                        assert(!semver_less(vs[k], vs[i]));
                        if !semver_less(vs[n], vs[k]) {
                            assert(!semver_less(vs[n], vs[i]));
                        }
                    } else {
                        if semver_less(vs[n], vs[k]) {
                            assert(!semver_less(vs[k], vs[n]));
                        }
                    }
                }
            },
        }
    }
}

/// Why a check for a newer release could not be completed.
#[derive(Debug)]
pub enum UpdateError {
    /// The package names no repository to look in.
    RepositoryNotSet,
    /// Reaching the repository or reading its references failed, for the
    /// reason given.
    Transport(String),
    /// The server listed no references.
    NoRefs,
    /// No release tag names a version semver can read.
    NoPublishedVersions,
    /// The running program's own version is not a semver version, for the
    /// reason semver gives.
    InvalidCurrentVersion(String),
}

/// Whether a repository is named to look for releases in; to be asked before
/// reaching out to it. Only an empty name is refused.
pub fn check_repository(repository: &str) -> (r: Result<(), UpdateError>)
    ensures
        r is Ok <==> repository@.len() > 0,
        r is Err ==> r matches Err(UpdateError::RepositoryNotSet),
{
    if repository.is_empty() {
        Err(UpdateError::RepositoryNotSet)
    } else {
        Ok(())
    }
}

/// A newer release than the running one.
#[derive(Debug)]
pub struct UpdateNotice {
    pub current: SemVer,
    pub latest: SemVer,
}

/// Looks for a release newer than `current` among the release tags of the
/// repository. `fetched` is what reading the repository's references gave:
/// the listing, `None` where the server listed none, or the reason reading
/// failed. `Ok(Some(..))` means a newer release exists, `Ok(None)` that none
/// does.
pub fn do_update_check(repository: &str, fetched: Result<Option<String>, String>, current: &str) -> (r: Result<Option<UpdateNotice>, UpdateError>)
    ensures
        repository@.len() == 0 ==> r matches Err(UpdateError::RepositoryNotSet),
        repository@.len() > 0 ==> match fetched {
            Err(reason) => r matches Err(UpdateError::Transport(m)) && m@ == reason@,
            Ok(None) => r matches Err(UpdateError::NoRefs),
            Ok(Some(listing)) => match latest(published_versions(listing@)) {
                None => r matches Err(UpdateError::NoPublishedVersions),
                Some(newest) => match semver_parse(current@) {
                    Err(reason) => r matches Err(UpdateError::InvalidCurrentVersion(m)) && m@ == reason,
                    Ok(running) => (if semver_less(running, newest) {
                        r matches Ok(Some(n)) && n.current@ == running && n.latest@ == newest
                    } else {
                        r matches Ok(None)
                    }) && (release_numbers_differ(running, newest) ==> (r is Ok && (r->Ok_0
                        is Some <==> release_numbers_less(running, newest)))),
                },
            },
        },
        fetched matches Ok(Some(listing)) ==> (r matches Ok(Some(n)) ==> (published_versions(
            listing@,
        ).contains(n.latest@) && forall|i: int|
            0 <= i < published_versions(listing@).len() ==> !release_numbers_less(
                n.latest@,
                #[trigger] published_versions(listing@)[i],
            ))),
        fetched matches Ok(Some(listing)) ==> (r matches Ok(None) ==> (semver_parse(current@) matches Ok(
            running,
        ) && forall|i: int|
            0 <= i < published_versions(listing@).len() ==> !release_numbers_less(
                running,
                #[trigger] published_versions(listing@)[i],
            ))),
{
    match check_repository(repository) {
        Err(e) => return Err(e),
        Ok(()) => {},
    }
    let listing = match fetched {
        Err(reason) => return Err(UpdateError::Transport(reason)),
        Ok(None) => return Err(UpdateError::NoRefs),
        Ok(Some(listing)) => listing,
    };
    let texts = tag_versions(listing.as_str());
    let versions = read_versions(&texts);
    let ghost published = version_views(versions@);
    assert(published == published_versions(listing@));
    let newest = match latest_version(versions) {
        None => return Err(UpdateError::NoPublishedVersions),
        Some(v) => v,
    };
    let running = match parse_version(current) {
        Err(reason) => return Err(UpdateError::InvalidCurrentVersion(reason)),
        Ok(v) => v,
    };
    if version_less(&running, &newest) {
        Ok(Some(UpdateNotice { current: running, latest: newest }))
    } else {
        assert forall|i: int| 0 <= i < published.len() implies !release_numbers_less(
            running@,
            #[trigger] published[i],
        ) by {
            assert(!release_numbers_less(newest@, published[i]));
        }
        Ok(None)
    }
}

/// What a check for updates has to tell the user.
#[derive(Debug)]
pub enum UpdateWarning {
    /// A newer release is out.
    NewerRelease(UpdateNotice),
    /// The check could not be completed.
    CheckFailed(UpdateError),
}

/// Checks for a newer release and says what to warn the user about, if
/// anything: a newer release, or the reason the check failed.
pub fn check_for_updates(repository: &str, fetched: Result<Option<String>, String>, current: &str) -> (w: Option<UpdateWarning>)
    ensures
        repository@.len() == 0 ==> w matches Some(UpdateWarning::CheckFailed(UpdateError::RepositoryNotSet)),
        repository@.len() > 0 ==> match fetched {
            Err(reason) => w matches Some(UpdateWarning::CheckFailed(UpdateError::Transport(m))) && m@ == reason@,
            Ok(None) => w matches Some(UpdateWarning::CheckFailed(UpdateError::NoRefs)),
            Ok(Some(listing)) => match latest(published_versions(listing@)) {
                None => w matches Some(UpdateWarning::CheckFailed(UpdateError::NoPublishedVersions)),
                Some(newest) => match semver_parse(current@) {
                    Err(reason) => w matches Some(UpdateWarning::CheckFailed(UpdateError::InvalidCurrentVersion(m))) && m@ == reason,
                    Ok(running) => if semver_less(running, newest) {
                        w matches Some(UpdateWarning::NewerRelease(n)) && n.current@ == running && n.latest@ == newest
                    } else {
                        w is None
                    },
                },
            },
        },
        fetched matches Ok(Some(listing)) ==> (w is None ==> (semver_parse(current@) matches Ok(
            running,
        ) && forall|i: int|
            0 <= i < published_versions(listing@).len() ==> !release_numbers_less(
                running,
                #[trigger] published_versions(listing@)[i],
            ))),
{
    match do_update_check(repository, fetched, current) {
        Ok(Some(notice)) => Some(UpdateWarning::NewerRelease(notice)),
        Ok(None) => None,
        Err(e) => Some(UpdateWarning::CheckFailed(e)),
    }
}

} // verus!
