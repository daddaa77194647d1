use vstd::prelude::*;

use crate::acl::{Principal, Role};
use crate::cards::TitleRef;
use crate::catalog::{Episode, TitleId, Timestamp, Version};
use crate::chars::{chars_of, str_eq, string_of};
use crate::discovery::{contains_id, in_ids};
use crate::enrichment::{MediaKind, MetadataMatch};
use crate::fetch::{admit_fetch, check_cookies, check_fetch_source, expired_message, fetch_payload, refusal_of, source_verdict, CookieVerdict, FetchInput, FetchJobPayload, LibraryError, LibraryKind, LibraryOrigin, Refusal};
use crate::jobs::{JobKind, JobPriority, JobRequest};
use crate::fmt::{decimal, decimal_chars, extend};
use crate::parse::ExternalId;

verus! {

/// The library service over the library, user, job and catalog stores, an optional
/// metadata provider, the switches for the optional jobs, and an optional inspector of the
/// cookies configured for fetch sources.
pub struct LibraryServiceImpl<L, U, J, C, M, K> {
    libraries: L,
    users: U,
    jobs: J,
    catalog: C,
    provider: Option<M>,
    transcription_enabled: bool,
    translation_enabled: bool,
    upscaling_enabled: bool,
    content_fetch_enabled: bool,
    cookie_inspector: Option<K>,
}

/// The switches of a library service: transcription, translation, upscaling, fetching.
pub struct ServiceSwitches {
    pub transcription: bool,
    pub translation: bool,
    pub upscaling: bool,
    pub content_fetch: bool,
}

impl<L, U, J, C, M, K> LibraryServiceImpl<L, U, J, C, M, K> {
    pub closed spec fn stores(&self) -> (L, U, J, C, Option<M>) {
        (self.libraries, self.users, self.jobs, self.catalog, self.provider)
    }

    pub closed spec fn switches(&self) -> ServiceSwitches {
        ServiceSwitches {
            transcription: self.transcription_enabled,
            translation: self.translation_enabled,
            upscaling: self.upscaling_enabled,
            content_fetch: self.content_fetch_enabled,
        }
    }

    pub closed spec fn inspector(&self) -> Option<K> {
        self.cookie_inspector
    }

    /// A service with every optional job switched off and no cookie inspector.
    pub fn new(libraries: L, users: U, jobs: J, catalog: C, provider: Option<M>) -> (r: Self)
        ensures
            r.stores() == (libraries, users, jobs, catalog, provider),
            r.switches() == (ServiceSwitches {
                transcription: false,
                translation: false,
                upscaling: false,
                content_fetch: false,
            }),
            r.inspector() is None,
    {
        LibraryServiceImpl {
            libraries,
            users,
            jobs,
            catalog,
            provider,
            transcription_enabled: false,
            translation_enabled: false,
            upscaling_enabled: false,
            content_fetch_enabled: false,
            cookie_inspector: None,
        }
    }

    /// Sets the transcription, translation and upscaling switches.
    pub fn with_enrichment_flags(
        self,
        transcription_enabled: bool,
        translation_enabled: bool,
        upscaling_enabled: bool,
    ) -> (r: Self)
        ensures
            r.stores() == self.stores(),
            r.inspector() == self.inspector(),
            r.switches() == (ServiceSwitches {
                transcription: transcription_enabled,
                translation: translation_enabled,
                upscaling: upscaling_enabled,
                content_fetch: self.switches().content_fetch,
            }),
    {
        let mut s = self;
        s.transcription_enabled = transcription_enabled;
        s.translation_enabled = translation_enabled;
        s.upscaling_enabled = upscaling_enabled;
        s
    }

    /// Sets the fetch switch.
    pub fn with_content_fetch(self, content_fetch_enabled: bool) -> (r: Self)
        ensures
            r.stores() == self.stores(),
            r.inspector() == self.inspector(),
            r.switches() == (ServiceSwitches { content_fetch: content_fetch_enabled, ..self.switches() }),
    {
        let mut s = self;
        s.content_fetch_enabled = content_fetch_enabled;
        s
    }

    /// Sets (or clears) the cookie inspector.
    pub fn with_cookie_inspector(self, cookie_inspector: Option<K>) -> (r: Self)
        ensures
            r.stores() == self.stores(),
            r.switches() == self.switches(),
            r.inspector() == cookie_inspector,
    {
        let mut s = self;
        s.cookie_inspector = cookie_inspector;
        s
    }

    pub fn libraries(&self) -> (r: &L)
        ensures
            *r == self.stores().0,
    {
        &self.libraries
    }

    pub fn users(&self) -> (r: &U)
        ensures
            *r == self.stores().1,
    {
        &self.users
    }

    pub fn jobs(&self) -> (r: &J)
        ensures
            *r == self.stores().2,
    {
        &self.jobs
    }

    pub fn catalog(&self) -> (r: &C)
        ensures
            *r == self.stores().3,
    {
        &self.catalog
    }

    pub fn provider(&self) -> (r: &Option<M>)
        ensures
            *r == self.stores().4,
    {
        &self.provider
    }

    pub fn cookie_inspector(&self) -> (r: &Option<K>)
        ensures
            *r == self.inspector(),
    {
        &self.cookie_inspector
    }
}


/// Only an administrator may do this.
pub fn require_admin(caller: &Principal) -> (r: Result<(), LibraryError>)
    ensures
        r == if caller.role == Role::Admin {
            Ok::<(), LibraryError>(())
        } else {
            Err(LibraryError::Forbidden)
        },
{
    if caller.role == Role::Admin {
        Ok(())
    } else {
        Err(LibraryError::Forbidden)
    }
}

/// Whether the caller sees the library `id`, given the libraries granted to the caller:
/// administrators and automation accounts see every library.
pub open spec fn visible_spec(caller: Principal, access: Seq<String>, id: Seq<char>) -> bool {
    caller.role == Role::Admin || caller.role == Role::Automation || in_ids(access, id)
}

/// Whether the caller sees the library `id`.
pub fn visible_to(caller: &Principal, access: &[String], id: &str) -> (r: bool)
    ensures
        r == visible_spec(*caller, access@, id@),
{
    caller.role == Role::Admin || caller.role == Role::Automation || contains_id(access, id)
}

/// A library that does not exist, and one the caller does not see, are both not found.
pub fn check_library(caller: &Principal, found: bool, access: &[String], id: &str) -> (r: Result<(), LibraryError>)
    ensures
        r == if found && visible_spec(*caller, access@, id@) {
            Ok::<(), LibraryError>(())
        } else {
            Err(LibraryError::NotFound)
        },
{
    if found && visible_to(caller, access, id) {
        Ok(())
    } else {
        Err(LibraryError::NotFound)
    }
}

/// The ids of `all` that the caller lists: all of them for an administrator, else those
/// granted, in their order.
pub open spec fn listed_spec(is_admin: bool, all: Seq<String>, access: Seq<String>) -> Seq<Seq<char>>
    decreases all.len(),
{
    if all.len() == 0 {
        Seq::empty()
    } else {
        let rest = listed_spec(is_admin, all.drop_last(), access);
        if is_admin || in_ids(access, all.last()@) {
            rest.push(all.last()@)
        } else {
            rest
        }
    }
}

pub open spec fn ids_view(ids: Seq<String>) -> Seq<Seq<char>> {
    ids.map_values(|s: String| s@)
}

/// The libraries, of `all`, that the caller may list.
pub fn listed_libraries(caller: &Principal, all: &[String], access: &[String]) -> (r: Vec<String>)
    ensures
        ids_view(r@) == listed_spec(caller.role == Role::Admin, all@, access@),
{
    let admin = caller.role == Role::Admin;
    let mut out: Vec<String> = Vec::new();
    let mut i: usize = 0;
    while i < all.len()
        invariant
            i <= all.len(),
            admin == (caller.role == Role::Admin),
            ids_view(out@) == listed_spec(admin, all@.subrange(0, i as int), access@),
        decreases all.len() - i,
    {
        let ghost pre = all@.subrange(0, i as int);
        assert(all@.subrange(0, i + 1).drop_last() =~= pre);
        if admin || contains_id(access, all[i].as_str()) {
            out.push(all[i].clone());
            assert(ids_view(out@) =~= ids_view(out@.drop_last()).push(all@[i as int]@));
        }
        i = i + 1;
    }
    assert(all@.subrange(0, all.len() as int) =~= all@);
    out
}

/// An administrator lists every library, in order; anyone else lists only libraries
/// granted to them.
pub proof fn law_listing_shows_all_or_only_grants(all: Seq<String>, access: Seq<String>)
    ensures
        listed_spec(true, all, access) == ids_view(all),
        forall|k: int| 0 <= k < listed_spec(false, all, access).len()
            ==> in_ids(access, #[trigger] listed_spec(false, all, access)[k]),
        listed_spec(false, all, access).len() <= all.len(),
    decreases all.len(),
{
    if all.len() > 0 {
        law_listing_shows_all_or_only_grants(all.drop_last(), access);
        assert(ids_view(all) =~= ids_view(all.drop_last()).push(all.last()@));
        let pre = listed_spec(false, all.drop_last(), access);
        let now = listed_spec(false, all, access);
        assert forall|k: int| 0 <= k < now.len() implies in_ids(access, #[trigger] now[k]) by {
            if k < pre.len() {
                assert(now[k] == pre[k]);
            }
        }
    } else {
        assert(ids_view(all) =~= Seq::<Seq<char>>::empty());
    }
}

/// The grants of a user after the library `library` is added to `existing`.
pub fn granted_access(existing: Vec<String>, library: &str) -> (r: Vec<String>)
    ensures
        ids_view(r@) == ids_view(existing@).push(library@),
{
    let mut out = existing;
    out.push(library.to_string());
    assert(ids_view(out@) =~= ids_view(existing@).push(library@));
    out
}

/// Whether `index` is one of `indices`.
pub open spec fn has_index(indices: Seq<u32>, index: u32) -> bool {
    exists|k: int| 0 <= k < indices.len() && indices[k] == index
}

fn contains_index(indices: &[u32], index: u32) -> (r: bool)
    ensures
        r == has_index(indices@, index),
{
    let mut k: usize = 0;
    while k < indices.len()
        invariant
            k <= indices.len(),
            forall|j: int| 0 <= j < k ==> indices@[j] != index,
        decreases indices.len() - k,
    {
        if indices[k] == index {
            return true;
        }
        k = k + 1;
    }
    false
}

/// What a transcription request of a version is answered, given the audio track indices
/// of the version (nothing where the version does not exist) and the requested track.
pub open spec fn transcription_spec(
    is_admin: bool,
    enabled: bool,
    audio: Option<Seq<u32>>,
    index: Option<u32>,
) -> Result<(), LibraryError> {
    if !is_admin {
        Err(LibraryError::Forbidden)
    } else if !enabled {
        Err(LibraryError::Disabled)
    } else {
        match audio {
            None => Err(LibraryError::NotFound),
            Some(tracks) => match index {
                Some(i) => if has_index(tracks, i) {
                    Ok(())
                } else {
                    Err(LibraryError::NotFound)
                },
                None => Ok(()),
            },
        }
    }
}

/// What a translation request is answered, given the subtitle file ids of the version
/// (nothing where the version does not exist) and the requested source file.
pub open spec fn translation_spec(
    is_admin: bool,
    enabled: bool,
    subtitles: Option<Seq<String>>,
    source: Seq<char>,
) -> Result<(), LibraryError> {
    if !is_admin {
        Err(LibraryError::Forbidden)
    } else if !enabled {
        Err(LibraryError::Disabled)
    } else {
        match subtitles {
            Some(ids) => if in_ids(ids, source) {
                Ok(())
            } else {
                Err(LibraryError::NotFound)
            },
            None => Err(LibraryError::NotFound),
        }
    }
}

/// What a request to combine two subtitle files of a version is answered.
pub open spec fn combine_spec(
    is_admin: bool,
    subtitles: Option<Seq<String>>,
    top: Seq<char>,
    bottom: Seq<char>,
) -> Result<(), LibraryError> {
    if !is_admin {
        Err(LibraryError::Forbidden)
    } else {
        match subtitles {
            Some(ids) => if in_ids(ids, top) && in_ids(ids, bottom) {
                Ok(())
            } else {
                Err(LibraryError::NotFound)
            },
            None => Err(LibraryError::NotFound),
        }
    }
}

impl<L, U, J, C, M, K> LibraryServiceImpl<L, U, J, C, M, K> {
    /// Checks a transcription request before its job is queued.
    pub fn check_transcription(&self, caller: &Principal, audio: Option<&[u32]>, audio_track_index: Option<u32>) -> (r: Result<(), LibraryError>)
        ensures
            r == transcription_spec(
                caller.role == Role::Admin,
                self.switches().transcription,
                match audio { Some(a) => Some(a@), None => None },
                audio_track_index,
            ),
    {
        require_admin(caller)?;
        if !self.transcription_enabled {
            return Err(LibraryError::Disabled);
        }
        match audio {
            None => Err(LibraryError::NotFound),
            Some(tracks) => match audio_track_index {
                Some(i) => if contains_index(tracks, i) {
                    Ok(())
                } else {
                    Err(LibraryError::NotFound)
                },
                None => Ok(()),
            },
        }
    }

    /// Checks a translation request before its job is queued.
    pub fn check_translation(&self, caller: &Principal, subtitles: Option<&[String]>, source_subtitle: &str) -> (r: Result<(), LibraryError>)
        ensures
            r == translation_spec(
                caller.role == Role::Admin,
                self.switches().translation,
                match subtitles { Some(s) => Some(s@), None => None },
                source_subtitle@,
            ),
    {
        require_admin(caller)?;
        if !self.translation_enabled {
            return Err(LibraryError::Disabled);
        }
        match subtitles {
            Some(ids) => if contains_id(ids, source_subtitle) {
                Ok(())
            } else {
                Err(LibraryError::NotFound)
            },
            None => Err(LibraryError::NotFound),
        }
    }

    /// Checks an upscale request of a version, given whether the version exists.
    pub fn check_upscale(&self, caller: &Principal, version_found: bool) -> (r: Result<(), LibraryError>)
        ensures
            r == if caller.role != Role::Admin {
                Err::<(), LibraryError>(LibraryError::Forbidden)
            } else if !self.switches().upscaling {
                Err(LibraryError::Disabled)
            } else if !version_found {
                Err(LibraryError::NotFound)
            } else {
                Ok(())
            },
    {
        require_admin(caller)?;
        if !self.upscaling_enabled {
            return Err(LibraryError::Disabled);
        }
        if !version_found {
            return Err(LibraryError::NotFound);
        }
        Ok(())
    }

    /// Checks a fetch request against the caller and the fetch switch.
    pub fn check_fetch(&self, caller: &Principal) -> (r: Result<(), LibraryError>)
        ensures
            r == if caller.role != Role::Admin {
                Err::<(), LibraryError>(LibraryError::Forbidden)
            } else if !self.switches().content_fetch {
                Err(LibraryError::Disabled)
            } else {
                Ok(())
            },
    {
        admit_fetch(caller, self.content_fetch_enabled)
    }
}

/// Checks a request to combine two subtitle files of a version.
pub fn check_combine(caller: &Principal, subtitles: Option<&[String]>, top: &str, bottom: &str) -> (r: Result<(), LibraryError>)
    ensures
        r == combine_spec(
            caller.role == Role::Admin,
            match subtitles { Some(s) => Some(s@), None => None },
            top@,
            bottom@,
        ),
{
    require_admin(caller)?;
    match subtitles {
        Some(ids) => if contains_id(ids, top) && contains_id(ids, bottom) {
            Ok(())
        } else {
            Err(LibraryError::NotFound)
        },
        None => Err(LibraryError::NotFound),
    }
}

/// Where an unmatched file, a version or a series is to be linked: to a title already in
/// the catalog, or to a title of a metadata provider.
#[derive(Debug, Clone, PartialEq, Eq)]
pub enum ResolveTarget {
    Existing(TitleId),
    Provider(ExternalId),
}

/// Whether `v` is an available file of the episode `episode`.
pub open spec fn plays(v: Version, episode: Seq<char>) -> bool {
    v.available && (v.title matches TitleId::Episode(id) && id@ == episode)
}

/// Whether some version of `versions` is an available file of `episode`.
pub open spec fn playable(versions: Seq<Version>, episode: Seq<char>) -> bool {
    exists|i: int| 0 <= i < versions.len() && plays(#[trigger] versions[i], episode)
}

/// How many of `episodes` have no available file among `versions`.
pub open spec fn stranded(episodes: Seq<String>, versions: Seq<Version>) -> nat
    decreases episodes.len(),
{
    if episodes.len() == 0 {
        0
    } else {
        stranded(episodes.drop_last(), versions) + if playable(versions, episodes.last()@) {
            0nat
        } else {
            1nat
        }
    }
}

pub open spec fn stranded_message(n: nat) -> Seq<char> {
    decimal(n) + " episodes have no available file"@
}

/// What a request to relink a whole series is answered: only to a provider's title, only
/// for a series that exists, only while every one of its episodes has an available file,
/// and only where it has versions to relink.
pub open spec fn relink_series_spec(
    is_admin: bool,
    target: ResolveTarget,
    series_found: bool,
    versions: Seq<Version>,
    episodes: Seq<String>,
) -> Result<(), Refusal> {
    if !is_admin {
        Err(Refusal::Forbidden)
    } else if target is Existing {
        Err(Refusal::InvalidRequest("a series can only be relinked to a provider id"@))
    } else if !series_found {
        Err(Refusal::NotFound)
    } else if stranded(episodes, versions) > 0 {
        Err(Refusal::Unavailable(stranded_message(stranded(episodes, versions))))
    } else if versions.len() == 0 {
        Err(Refusal::Unavailable("the series has nothing to relink"@))
    } else {
        Ok(())
    }
}

/// A result with its error as plain values.
pub open spec fn outcome(r: Result<(), LibraryError>) -> Result<(), Refusal> {
    match r {
        Ok(()) => Ok(()),
        Err(e) => Err(refusal_of(e)),
    }
}

/// Whether some version of `versions` is an available file of `episode`.
fn is_playable(versions: &[Version], episode: &str) -> (r: bool)
    ensures
        r == playable(versions@, episode@),
{
    let mut i: usize = 0;
    while i < versions.len()
        invariant
            i <= versions.len(),
            forall|j: int| 0 <= j < i ==> !plays(#[trigger] versions@[j], episode@),
        decreases versions.len() - i,
    {
        let v = &versions[i];
        if v.available {
            match &v.title {
                TitleId::Episode(id) => {
                    if str_eq(id.as_str(), episode) {
                        assert(plays(versions@[i as int], episode@));
                        return true;
                    }
                },
                TitleId::Movie(_) => {},
            }
        }
        i = i + 1;
    }
    false
}

/// How many of `episodes` have no available file among `versions`.
fn count_stranded(episodes: &[String], versions: &[Version]) -> (r: usize)
    ensures
        r == stranded(episodes@, versions@),
{
    let mut n: usize = 0;
    let mut i: usize = 0;
    while i < episodes.len()
        invariant
            i <= episodes.len(),
            n <= i,
            n == stranded(episodes@.subrange(0, i as int), versions@),
        decreases episodes.len() - i,
    {
        assert(episodes@.subrange(0, i + 1).drop_last() =~= episodes@.subrange(0, i as int));
        if !is_playable(versions, episodes[i].as_str()) {
            n = n + 1;
        }
        i = i + 1;
    }
    assert(episodes@.subrange(0, episodes.len() as int) =~= episodes@);
    n
}

/// Checks a request to relink a whole series, given whether the series exists, its
/// versions, and the ids of its episodes.
pub fn check_relink_series(
    caller: &Principal,
    target: &ResolveTarget,
    series_found: bool,
    versions: &[Version],
    episodes: &[String],
) -> (r: Result<(), LibraryError>)
    ensures
        outcome(r) == relink_series_spec(caller.role == Role::Admin, *target, series_found, versions@, episodes@),
{
    require_admin(caller)?;
    if let ResolveTarget::Existing(_) = target {
        return Err(LibraryError::InvalidRequest("a series can only be relinked to a provider id".to_string()));
    }
    if !series_found {
        return Err(LibraryError::NotFound);
    }
    let n = count_stranded(episodes, versions);
    if n > 0 {
        let mut msg = decimal_chars(n as u64);
        extend(&mut msg, &chars_of(" episodes have no available file"));
        assert(msg@ =~= stranded_message(n as nat));
        return Err(LibraryError::Unavailable(string_of(&msg)));
    }
    if versions.len() == 0 {
        return Err(LibraryError::Unavailable("the series has nothing to relink".to_string()));
    }
    Ok(())
}

impl ResolveTarget {
    pub fn copy(&self) -> (r: ResolveTarget)
        ensures
            r == *self,
    {
        match self {
            ResolveTarget::Existing(t) => ResolveTarget::Existing(t.copy()),
            ResolveTarget::Provider(e) => ResolveTarget::Provider(ExternalId { source: e.source.clone(), value: e.value.clone() }),
        }
    }
}

/// A relink job: normal priority, no parent, the payload relinking `v` to `target`.
pub open spec fn relinks(job: JobRequest<RelinkJobPayload>, v: Version, target: ResolveTarget) -> bool {
    &&& job.kind == JobKind::Relink
    &&& job.priority == JobPriority::Normal
    &&& job.parent is None
    &&& job.payload == (RelinkJobPayload { version: v.id, library: v.library, path: v.path, target })
}

/// A request to relink a whole series to a provider's title, given whether the series
/// exists, its versions, and the ids of its episodes: the refusal of
/// [`check_relink_series`], in which case nothing is queued; else one relink job for each
/// of the series' versions, in order.
pub fn relink_series_jobs(
    caller: &Principal,
    target: &ResolveTarget,
    series_found: bool,
    versions: &[Version],
    episodes: &[String],
) -> (r: Result<Vec<JobRequest<RelinkJobPayload>>, LibraryError>)
    ensures
        match r {
            Ok(_) => relink_series_spec(caller.role == Role::Admin, *target, series_found, versions@, episodes@) is Ok,
            Err(e) => relink_series_spec(caller.role == Role::Admin, *target, series_found, versions@, episodes@)
                == Err::<(), Refusal>(refusal_of(e)),
        },
        r matches Ok(jobs) ==> jobs@.len() == versions@.len()
            && forall|i: int| 0 <= i < versions@.len() ==> relinks(#[trigger] jobs@[i], versions@[i], *target),
{
    check_relink_series(caller, target, series_found, versions, episodes)?;
    let mut jobs: Vec<JobRequest<RelinkJobPayload>> = Vec::new();
    let mut i: usize = 0;
    while i < versions.len()
        invariant
            i <= versions.len(),
            jobs@.len() == i,
            forall|k: int| 0 <= k < i ==> relinks(#[trigger] jobs@[k], versions@[k], *target),
        decreases versions.len() - i,
    {
        jobs.push(JobRequest {
            kind: JobKind::Relink,
            priority: JobPriority::Normal,
            parent: None,
            payload: relink_payload(&versions[i], target.copy()),
        });
        i = i + 1;
    }
    Ok(jobs)
}

/// Checks a request to relink one version (nothing where it does not exist), given
/// whether the title an existing target names is in the catalog.
pub open spec fn relink_version_spec(
    is_admin: bool,
    version: Option<Version>,
    target: ResolveTarget,
    target_found: bool,
) -> Result<(), Refusal> {
    if !is_admin {
        Err(Refusal::Forbidden)
    } else {
        match version {
            None => Err(Refusal::NotFound),
            Some(v) => if !v.available {
                Err(Refusal::Unavailable("the file for this version is missing"@))
            } else if target is Existing && !target_found {
                Err(Refusal::NotFound)
            } else {
                Ok(())
            },
        }
    }
}

/// Checks a request to relink one version before its job is queued.
pub fn check_relink_version(
    caller: &Principal,
    version: Option<&Version>,
    target: &ResolveTarget,
    target_found: bool,
) -> (r: Result<(), LibraryError>)
    ensures
        outcome(r) == relink_version_spec(
            caller.role == Role::Admin,
            match version { Some(v) => Some(*v), None => None },
            *target,
            target_found,
        ),
{
    require_admin(caller)?;
    match version {
        None => Err(LibraryError::NotFound),
        Some(v) => {
            if !v.available {
                return Err(LibraryError::Unavailable("the file for this version is missing".to_string()));
            }
            if let ResolveTarget::Existing(_) = target {
                if !target_found {
                    return Err(LibraryError::NotFound);
                }
            }
            Ok(())
        },
    }
}

/// What of the catalog a delete request names.
#[derive(Debug, Clone, Copy, PartialEq, Eq, Structural)]
pub enum CatalogItem {
    Version,
    Movie,
    Series,
    Season,
    Episode,
}

/// Why the store refuses to delete an item: what it still holds (a version has nothing
/// beneath it).
pub open spec fn not_empty_spec(item: CatalogItem) -> Option<Seq<char>> {
    match item {
        CatalogItem::Version => None,
        CatalogItem::Movie => Some("the movie still has versions"@),
        CatalogItem::Series => Some("the series still has seasons"@),
        CatalogItem::Season => Some("the season still has episodes"@),
        CatalogItem::Episode => Some("the episode still has versions"@),
    }
}

/// Checks a delete request before the store is asked, given whether the item exists.
pub fn check_delete(caller: &Principal, found: bool) -> (r: Result<(), LibraryError>)
    ensures
        r == if caller.role != Role::Admin {
            Err::<(), LibraryError>(LibraryError::Forbidden)
        } else if !found {
            Err(LibraryError::NotFound)
        } else {
            Ok(())
        },
{
    require_admin(caller)?;
    if !found {
        return Err(LibraryError::NotFound);
    }
    Ok(())
}

/// The answer to a delete that the store carried out (`deleted`) or refused because the
/// item still holds something.
pub fn deletion_outcome(item: CatalogItem, deleted: bool) -> (r: Result<(), LibraryError>)
    ensures
        outcome(r) == match not_empty_spec(item) {
            Some(why) => if deleted { Ok::<(), Refusal>(()) } else { Err(Refusal::NotEmpty(why)) },
            None => Ok(()),
        },
{
    if deleted {
        return Ok(());
    }
    match item {
        CatalogItem::Version => Ok(()),
        CatalogItem::Movie => Err(LibraryError::NotEmpty("the movie still has versions".to_string())),
        CatalogItem::Series => Err(LibraryError::NotEmpty("the series still has seasons".to_string())),
        CatalogItem::Season => Err(LibraryError::NotEmpty("the season still has episodes".to_string())),
        CatalogItem::Episode => Err(LibraryError::NotEmpty("the episode still has versions".to_string())),
    }
}

/// A hand edit of an episode.
#[derive(Debug, Clone, PartialEq, Eq)]
pub struct EpisodeEdit {
    pub title: String,
    pub overview: Option<String>,
    pub runtime_minutes: Option<u32>,
    pub air_date: Option<Timestamp>,
}

/// The episode after a hand edit at `now`: the edited fields replaced, marked as edited by
/// hand, the rest kept.
pub fn edited_episode(existing: Episode, edit: EpisodeEdit, now: Timestamp) -> (r: Episode)
    ensures
        r == (Episode {
            title: edit.title,
            overview: edit.overview,
            runtime_minutes: edit.runtime_minutes,
            air_date: edit.air_date,
            manually_edited: true,
            updated_at: now,
            ..existing
        }),
{
    Episode {
        title: edit.title,
        overview: edit.overview,
        runtime_minutes: edit.runtime_minutes,
        air_date: edit.air_date,
        manually_edited: true,
        updated_at: now,
        ..existing
    }
}

/// A metadata job: refresh one title, or fetch the details of people.
#[derive(Debug, Clone, PartialEq, Eq)]
pub enum MetadataJobPayload {
    Title { title: TitleRef, external_id: Option<ExternalId>, force: bool },
    People { ids: Vec<String>, force: bool },
}

/// A job that links an unmatched file to a title.
#[derive(Debug, Clone, PartialEq, Eq)]
pub struct IngestJobPayload {
    pub library: String,
    pub unmatched: String,
    pub path: String,
    pub target: ResolveTarget,
}

/// A job that links a stored version to another title.
#[derive(Debug, Clone, PartialEq, Eq)]
pub struct RelinkJobPayload {
    pub version: String,
    pub library: String,
    pub path: String,
    pub target: ResolveTarget,
}

/// The refresh jobs for every title of a library: one per title, of the library's kind,
/// not forced and with no provider id given, in order.
pub fn library_refresh_payloads(kind: LibraryKind, ids: &[String]) -> (r: Vec<MetadataJobPayload>)
    ensures
        r.len() == ids.len(),
        forall|k: int| 0 <= k < ids.len() ==> (#[trigger] r@[k] matches MetadataJobPayload::Title { title, external_id, force }
            && external_id is None && !force
            && title == (match kind { LibraryKind::Movie => TitleRef::Movie(ids@[k]), LibraryKind::Tv => TitleRef::Series(ids@[k]) })),
{
    let mut out: Vec<MetadataJobPayload> = Vec::new();
    let mut i: usize = 0;
    while i < ids.len()
        invariant
            i <= ids.len(),
            out.len() == i,
            forall|k: int| 0 <= k < i ==> (#[trigger] out@[k] matches MetadataJobPayload::Title { title, external_id, force }
                && external_id is None && !force
                && title == (match kind { LibraryKind::Movie => TitleRef::Movie(ids@[k]), LibraryKind::Tv => TitleRef::Series(ids@[k]) })),
        decreases ids.len() - i,
    {
        let id = ids[i].clone();
        let title = match kind {
            LibraryKind::Movie => TitleRef::Movie(id),
            LibraryKind::Tv => TitleRef::Series(id),
        };
        out.push(MetadataJobPayload::Title { title, external_id: None, force: false });
        i = i + 1;
    }
    out
}

/// The job that refreshes one person's details, forced.
pub fn person_refresh_payload(id: &str) -> (r: MetadataJobPayload)
    ensures
        r matches MetadataJobPayload::People { ids, force } && force && ids@.len() == 1 && ids@[0]@ == id@,
{
    let mut ids: Vec<String> = Vec::new();
    ids.push(id.to_owned());
    MetadataJobPayload::People { ids, force: true }
}

/// The job that fetches the details of people an enrichment named, unforced; nothing
/// when it named nobody.
pub fn people_payload(ids: Vec<String>) -> (r: Option<MetadataJobPayload>)
    ensures
        (r is None) == (ids@.len() == 0),
        r matches Some(p) ==> p == (MetadataJobPayload::People { ids, force: false }),
{
    if ids.len() == 0 {
        None
    } else {
        Some(MetadataJobPayload::People { ids, force: false })
    }
}

/// The job that relinks `version` to `target`.
pub fn relink_payload(version: &Version, target: ResolveTarget) -> (r: RelinkJobPayload)
    ensures
        r == (RelinkJobPayload { version: version.id, library: version.library, path: version.path, target }),
{
    RelinkJobPayload {
        version: version.id.clone(),
        library: version.library.clone(),
        path: version.path.clone(),
        target,
    }
}

/// A search of a metadata provider.
#[derive(Debug, Clone, PartialEq, Eq)]
pub struct MetadataQuery {
    pub title: String,
    pub year: Option<u16>,
    pub kind: MediaKind,
}

/// The kind of title a library holds, as a provider is asked for it.
pub open spec fn media_kind_of(kind: LibraryKind) -> MediaKind {
    match kind {
        LibraryKind::Movie => MediaKind::Movie,
        LibraryKind::Tv => MediaKind::Series,
    }
}

/// The provider search for an unmatched file: the caller's query, else the title its
/// name gives; the year its name gives; the library's kind.
pub fn candidate_query(query: Option<String>, path: &str, kind: LibraryKind) -> (r: MetadataQuery)
    ensures
        r.title@ == match query { Some(q) => q@, None => crate::parse::parsed_title(path@) },
        r.year == crate::parse::parsed_year(path@),
        r.kind == media_kind_of(kind),
{
    let parsed = crate::parse::parse_filename(path);
    MetadataQuery {
        title: match query {
            Some(q) => q,
            None => parsed.title,
        },
        year: parsed.year,
        kind: match kind {
            LibraryKind::Movie => MediaKind::Movie,
            LibraryKind::Tv => MediaKind::Series,
        },
    }
}

/// A title an unmatched file could be linked to.
#[derive(Debug, Clone, PartialEq, Eq)]
pub struct ResolveCandidate {
    pub target: ResolveTarget,
    pub title: String,
    pub year: Option<u16>,
    pub kind: MediaKind,
}

/// What the catalog shows of a title a file was matched against: its name, its year (a
/// movie's) and its kind; nothing where the title is gone.
pub struct TitleDisplay {
    pub title: TitleId,
    pub shown: Option<(String, Option<u16>, MediaKind)>,
}

/// The candidates offered for an unmatched file: first each title of the catalog it was
/// matched against that still exists, in order; then, when a provider answered the
/// search, each of its hits, in order.
pub open spec fn candidates_spec(known: Seq<TitleDisplay>, hits: Option<Seq<MetadataMatch>>) -> Seq<ResolveCandidate> {
    known_candidates(known) + match hits {
        Some(h) => h.map_values(|m: MetadataMatch| ResolveCandidate {
            target: ResolveTarget::Provider(m.external_id),
            title: m.title,
            year: m.year,
            kind: m.kind,
        }),
        None => Seq::empty(),
    }
}

pub open spec fn known_candidates(known: Seq<TitleDisplay>) -> Seq<ResolveCandidate>
    decreases known.len(),
{
    if known.len() == 0 {
        Seq::empty()
    } else {
        let rest = known_candidates(known.drop_last());
        match known.last().shown {
            Some((title, year, kind)) => rest.push(ResolveCandidate {
                target: ResolveTarget::Existing(known.last().title),
                title,
                year,
                kind,
            }),
            None => rest,
        }
    }
}

/// The candidates to offer for linking an unmatched file.
pub fn resolve_candidates(known: Vec<TitleDisplay>, hits: Option<Vec<MetadataMatch>>) -> (r: Vec<ResolveCandidate>)
    ensures
        r@ == candidates_spec(known@, match hits { Some(h) => Some(h@), None => None }),
{
    let ghost all = known@;
    let mut rest = known;
    let mut out: Vec<ResolveCandidate> = Vec::new();
    let ghost mut done: Seq<TitleDisplay> = Seq::empty();
    while rest.len() > 0
        invariant
            all == done + rest@,
            out@ == known_candidates(done),
        decreases rest.len(),
    {
        let k = rest.remove(0);
        proof {
            assert(done.push(k).drop_last() =~= done);
            assert(all =~= done.push(k) + rest@);
        }
        let TitleDisplay { title, shown } = k;
        match shown {
            Some((name, year, kind)) => {
                out.push(ResolveCandidate { target: ResolveTarget::Existing(title), title: name, year, kind });
            },
            None => {},
        }
        proof {
            done = done.push(k);
        }
    }
    assert(done =~= all);
    let ghost head = out@;
    match hits {
        Some(h) => {
            let ghost hs = h@;
            let mut rest_h = h;
            let ghost mut n: int = 0;
            while rest_h.len() > 0
                invariant
                    0 <= n <= hs.len(),
                    rest_h@ == hs.subrange(n, hs.len() as int),
                    out@ == head + hs.subrange(0, n).map_values(|m: MetadataMatch| ResolveCandidate {
                        target: ResolveTarget::Provider(m.external_id),
                        title: m.title,
                        year: m.year,
                        kind: m.kind,
                    }),
                decreases rest_h.len(),
            {
                let m = rest_h.remove(0);
                assert(m == hs[n]);
                out.push(ResolveCandidate {
                    target: ResolveTarget::Provider(m.external_id),
                    title: m.title,
                    year: m.year,
                    kind: m.kind,
                });
                proof {
                    assert(hs.subrange(n + 1, hs.len() as int) =~= rest_h@);
                    assert(hs.subrange(0, n + 1) =~= hs.subrange(0, n).push(hs[n]));
                    n = n + 1;
                }
                assert(out@ =~= head + hs.subrange(0, n).map_values(|m: MetadataMatch| ResolveCandidate {
                    target: ResolveTarget::Provider(m.external_id),
                    title: m.title,
                    year: m.year,
                    kind: m.kind,
                }));
            }
            assert(hs.subrange(0, hs.len() as int) =~= hs);
        },
        None => {
            assert(out@ =~= head + Seq::<ResolveCandidate>::empty());
        },
    }
    out
}

/// How a library notices new files: from file-system events, by polling, on a schedule,
/// or only when asked.
#[derive(Debug, Clone, Copy, PartialEq, Eq, Structural)]
pub enum WatcherStrategy {
    Events,
    Polling,
    Scheduled,
    Manual,
}

/// A library: where its files are, what it holds and how it is kept current.
#[derive(Debug, Clone, PartialEq, Eq)]
pub struct Library {
    pub id: String,
    pub name: String,
    pub kind: LibraryKind,
    pub origin: LibraryOrigin,
    pub roots: Vec<String>,
    pub watcher: WatcherStrategy,
    pub scan_schedule: Option<String>,
    pub metadata_sources: Vec<String>,
    pub sort_articles: Vec<String>,
    pub created_at: Timestamp,
    pub updated_at: Timestamp,
}

/// What a new library is made from.
#[derive(Debug, Clone, PartialEq, Eq)]
pub struct NewLibrary {
    pub name: String,
    pub kind: LibraryKind,
    pub origin: LibraryOrigin,
    pub roots: Vec<String>,
    pub watcher: WatcherStrategy,
    pub scan_schedule: Option<String>,
    pub metadata_sources: Vec<String>,
    pub sort_articles: Vec<String>,
}

/// What an update of a library changes: everything but its id and origin.
#[derive(Debug, Clone, PartialEq, Eq)]
pub struct LibraryUpdate {
    pub name: String,
    pub kind: LibraryKind,
    pub roots: Vec<String>,
    pub watcher: WatcherStrategy,
    pub scan_schedule: Option<String>,
    pub metadata_sources: Vec<String>,
    pub sort_articles: Vec<String>,
}

/// A new library under the id `id`, made at `now`.
pub fn new_library(id: String, input: NewLibrary, now: Timestamp) -> (r: Library)
    ensures
        r == (Library {
            id,
            name: input.name,
            kind: input.kind,
            origin: input.origin,
            roots: input.roots,
            watcher: input.watcher,
            scan_schedule: input.scan_schedule,
            metadata_sources: input.metadata_sources,
            sort_articles: input.sort_articles,
            created_at: now,
            updated_at: now,
        }),
{
    Library {
        id,
        name: input.name,
        kind: input.kind,
        origin: input.origin,
        roots: input.roots,
        watcher: input.watcher,
        scan_schedule: input.scan_schedule,
        metadata_sources: input.metadata_sources,
        sort_articles: input.sort_articles,
        created_at: now,
        updated_at: now,
    }
}

/// A library after an update at `now`: the update's fields, with the id and origin kept;
/// both of its times are set to `now`.
pub fn updated_library(id: String, origin: LibraryOrigin, update: LibraryUpdate, now: Timestamp) -> (r: Library)
    ensures
        r == (Library {
            id,
            name: update.name,
            kind: update.kind,
            origin,
            roots: update.roots,
            watcher: update.watcher,
            scan_schedule: update.scan_schedule,
            metadata_sources: update.metadata_sources,
            sort_articles: update.sort_articles,
            created_at: now,
            updated_at: now,
        }),
{
    Library {
        id,
        name: update.name,
        kind: update.kind,
        origin,
        roots: update.roots,
        watcher: update.watcher,
        scan_schedule: update.scan_schedule,
        metadata_sources: update.metadata_sources,
        sort_articles: update.sort_articles,
        created_at: now,
        updated_at: now,
    }
}

/// Whether a library is scanned every night: a local library on a schedule.
pub fn is_nightly_library(library: &Library) -> (r: bool)
    ensures
        r == (library.watcher == WatcherStrategy::Scheduled && library.origin == LibraryOrigin::Local),
{
    library.watcher == WatcherStrategy::Scheduled && library.origin == LibraryOrigin::Local
}

/// Tells whether the cookies configured for a site are still live.
pub trait CookieInspector {
    fn verdict_for(&self, host: &str) -> CookieVerdict;
}

/// The refusal a fetch request meets before any cookie is looked at: a caller who is not
/// an administrator, fetching switched off, then the target library and source URL as
/// [`source_verdict`] judges them; nothing when it passes them all.
pub open spec fn fetch_refusal(is_admin: bool, enabled: bool, origin: Option<LibraryOrigin>, url: Seq<char>) -> Option<Refusal> {
    if !is_admin {
        Some(Refusal::Forbidden)
    } else if !enabled {
        Some(Refusal::Disabled)
    } else {
        match source_verdict(origin, url) {
            Err(e) => Some(e),
            Ok(_) => None,
        }
    }
}

/// The fetch job for a checked request into `library`.
pub open spec fn fetch_job_is(job: JobRequest<FetchJobPayload>, library: Seq<char>, input: FetchInput) -> bool {
    &&& job.kind == JobKind::Fetch
    &&& job.priority == JobPriority::Normal
    &&& job.parent is None
    &&& job.payload.library@ == library
    &&& job.payload.source_url == input.source_url
    &&& job.payload.kind == input.kind
    &&& job.payload.title == input.title
    &&& job.payload.year == input.year
    &&& job.payload.external_id == input.external_id
    &&& job.payload.season == input.season
    &&& job.payload.episode == input.episode
}

impl<L, U, J, C, M, K: CookieInspector> LibraryServiceImpl<L, U, J, C, M, K> {
    /// A fetch request, given the origin of the target library as read (nothing where
    /// it does not exist): refused in the order of [`fetch_refusal`], then, with a cookie
    /// inspector, refused when the source site's cookies have expired; else the one
    /// fetch job to queue, at normal priority and with no parent.
    pub fn create_fetch(&self, caller: &Principal, library: &str, target: Option<LibraryOrigin>, input: FetchInput) -> (r: Result<JobRequest<FetchJobPayload>, LibraryError>)
        ensures
            match fetch_refusal(caller.role == Role::Admin, self.switches().content_fetch, target, input.source_url@) {
                Some(e) => r matches Err(x) && refusal_of(x) == e,
                None => match r {
                    Ok(job) => fetch_job_is(job, library@, input),
                    Err(x) => self.inspector() is Some && match source_verdict(target, input.source_url@) {
                        Ok(host) => refusal_of(x) == Refusal::InvalidRequest(expired_message(host)),
                        Err(_) => false,
                    },
                },
            },
            self.inspector() is None && fetch_refusal(caller.role == Role::Admin, self.switches().content_fetch, target, input.source_url@) is None
                ==> r is Ok,
    {
        admit_fetch(caller, self.content_fetch_enabled)?;
        let host = check_fetch_source(target, input.source_url.as_str())?;
        let verdict = match &self.cookie_inspector {
            Some(inspector) => Some(inspector.verdict_for(host.as_str())),
            None => None,
        };
        check_cookies(host.as_str(), verdict)?;
        Ok(JobRequest {
            kind: JobKind::Fetch,
            priority: JobPriority::Normal,
            parent: None,
            payload: fetch_payload(library, input),
        })
    }
}

/// Where a library's scan stands.
#[derive(Debug, Clone, Copy, PartialEq, Eq, Structural)]
pub enum ScanStatus {
    Idle,
    Queued,
    Running,
    Failed,
}

/// Whether a scan of a library may be queued: not while one is queued or running.
pub open spec fn scan_may_queue(status: Option<ScanStatus>) -> bool {
    !(status == Some(ScanStatus::Queued) || status == Some(ScanStatus::Running))
}

/// Where a library's scan stands, as stored. The stored row also carries the scan's
/// progress as a fraction, which the caller keeps beside it: zero for a state this
/// library makes.
#[derive(Debug, Clone, PartialEq, Eq)]
pub struct ScanState {
    pub library: String,
    pub status: ScanStatus,
    pub started_at: Option<Timestamp>,
    pub last_scanned_at: Option<Timestamp>,
    pub error: Option<String>,
}

/// A fresh state of `library`'s scan with `status`: never started, never scanned, no error.
pub open spec fn fresh_state(s: ScanState, library: Seq<char>, status: ScanStatus) -> bool {
    &&& s.library@ == library
    &&& s.status == status
    &&& s.started_at is None
    &&& s.last_scanned_at is None
    &&& s.error is None
}

/// The scan state of `library`: the one stored, else an idle one that never ran.
pub fn scan_state_or_idle(stored: Option<ScanState>, library: &str) -> (r: ScanState)
    ensures
        match stored {
            Some(s) => r == s,
            None => fresh_state(r, library@, ScanStatus::Idle),
        },
{
    match stored {
        Some(s) => s,
        None => ScanState {
            library: library.to_owned(),
            status: ScanStatus::Idle,
            started_at: None,
            last_scanned_at: None,
            error: None,
        },
    }
}

/// A scan request for `library`, given the scan status read for it: nothing while a scan
/// is queued or running; else the state to store first (queued, at progress zero, never
/// started, no error) and then one library-scan job at normal priority, under `parent`,
/// whose payload is the library's id.
pub fn queue_scan(status: Option<ScanStatus>, library: &str, parent: Option<&str>) -> (r: Option<(ScanState, JobRequest<String>)>)
    ensures
        (r is Some) == scan_may_queue(status),
        r matches Some((state, job)) ==> fresh_state(state, library@, ScanStatus::Queued)
            && job.kind == JobKind::LibraryScan && job.priority == JobPriority::Normal
            && job.payload@ == library@
            && match parent { Some(p) => job.parent matches Some(q) && q@ == p@, None => job.parent is None },
{
    match status {
        Some(ScanStatus::Queued) | Some(ScanStatus::Running) => None,
        _ => Some((
            ScanState {
                library: library.to_owned(),
                status: ScanStatus::Queued,
                started_at: None,
                last_scanned_at: None,
                error: None,
            },
            JobRequest {
                kind: JobKind::LibraryScan,
                priority: JobPriority::Normal,
                parent: match parent {
                    Some(p) => Some(p.to_owned()),
                    None => None,
                },
                payload: library.to_owned(),
            },
        )),
    }
}

/// The library of a title: that of its first version, if it has one.
pub fn version_library(versions: &[Version]) -> (r: Option<String>)
    ensures
        match r {
            Some(l) => versions@.len() > 0 && l == versions@[0].library,
            None => versions@.len() == 0,
        },
{
    if versions.len() == 0 {
        None
    } else {
        Some(versions[0].library.clone())
    }
}

/// The first library found among a show's episodes, taken in season then episode order.
pub open spec fn first_found(found: Seq<Option<String>>, i: int) -> Option<String>
    decreases found.len() - i,
{
    if i < 0 || i >= found.len() {
        None
    } else {
        match found[i] {
            Some(l) => Some(l),
            None => first_found(found, i + 1),
        }
    }
}

fn first_found_from(found: &[Option<String>], i: usize) -> (r: Option<String>)
    requires
        i <= found.len(),
    ensures
        r == first_found(found@, i as int),
    decreases found.len() - i,
{
    if i == found.len() {
        return None;
    }
    match &found[i] {
        Some(l) => Some(l.clone()),
        None => first_found_from(found, i + 1),
    }
}

/// The library of a show: that of the first of its episodes, in season then episode
/// order, that has a version.
pub fn series_library(episode_libraries: &[Option<String>]) -> (r: Option<String>)
    ensures
        r == first_found(episode_libraries@, 0),
{
    first_found_from(episode_libraries, 0)
}

/// The articles a library's sort titles skip: none without a library.
pub fn library_articles(library: Option<&Library>) -> (r: Vec<String>)
    ensures
        r@ == match library { Some(l) => l.sort_articles@, None => Seq::empty() },
{
    match library {
        Some(l) => l.sort_articles.clone(),
        None => Vec::new(),
    }
}

} // verus!
