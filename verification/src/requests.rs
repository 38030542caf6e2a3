//! What clients ask for, and which part of the daemon answers.

use vstd::prelude::*;

verus! {

/// What a request asks for, without its arguments.
#[derive(Clone, Copy, Debug, PartialEq, Eq, Structural)]
pub enum RequestKind {
    Ping,
    SubscribeEvents,
    GetDaemonStatus,
    GetDoctorReport,
    ClientSeed,
    ProvidersList,
    ResolveTarget,
    ListAudioOutputs,
    CacheStatus,
    LogsTail,
    CheckUpdate,
    Reindex,
    Reload,
    ReloadAuth,
    AuthStart,
    AuthPoll,
    AuthCancel,
    AuthStatus,
    AuthLogout,
    WebApiToken,
    Shutdown,
    Sync,
    SearchCachePrune,
    PlaybackGet,
    PlaybackCommand,
    PlaybackSpeedSet,
    PlaybackSpeedGet,
    EqGet,
    EqSet,
    Reconnect,
    SetAudioOutput,
    DevicesList,
    DeviceTransfer,
    QueueAdd,
    QueueAddMany,
    QueueGet,
    RecentlyPlayed,
    Search,
    SearchStream,
    SearchPage,
    LibraryList,
    LibrarySave,
    LibraryUnsave,
    SavedTracks,
    SavedShows,
    FollowedArtists,
    ArtistFollow,
    ArtistUnfollow,
    ArtistAlbums,
    AlbumTracks,
    ShowEpisodes,
    EpisodeFeed,
    RelatedArtists,
    RadioStart,
    PlaylistsList,
    PlaylistTracks,
    PlaylistItemsPreview,
    PlaylistAddItems,
    PlaylistRemoveItems,
    PlaylistRemoveOccurrences,
    PlaylistRemoveOccurrencesPreview,
    PlaylistCreate,
    PlaylistCreatePreview,
    PlaylistUnfollow,
    PlaylistSetImage,
    AnalyticsRebuild,
    AnalyticsTop,
    AnalyticsHabits,
    AnalyticsSearch,
    AnalyticsRediscovery,
    AnalyticsExport,
    AnalyticsImport,
    AnalyticsImportStatus,
    AnalyticsImportUnresolved,
    AnalyticsImportUndo,
    AnalyticsPrune,
    ListenSessions,
    OpsLog,
    OpsShow,
    OpsUndo,
    OpsRedo,
    ReminderCreate,
    RemindersList,
    ReminderCancel,
    NotificationsList,
    NotificationAct,
    BookmarkCreate,
    BookmarksList,
    BookmarkUpdate,
    BookmarkDelete,
    BookmarkPlay,
    SetVizEnabled,
    SetVizSource,
    GetVizStatus,
    SetVizFocus,
    SetVizStyle,
    ThemesList,
    SetTheme,
    Image,
    CoverArt,
    LyricsGet,
    LyricsOffsetSet,
}

/// The part of the daemon that answers a request.
#[derive(Clone, Copy, Debug, PartialEq, Eq, Structural)]
pub enum Cat {
    Admin,
    Playback,
    Search,
    Library,
    Playlists,
    Analytics,
    Ops,
    Reminders,
    Bookmarks,
    Viz,
    Media,
    Themes,
}

impl RequestKind {
    /// Whether a request is for playback, the queue or the devices.
    pub open spec fn is_playback(self) -> bool {
        ||| self == RequestKind::PlaybackGet
        ||| self == RequestKind::PlaybackCommand
        ||| self == RequestKind::PlaybackSpeedSet
        ||| self == RequestKind::PlaybackSpeedGet
        ||| self == RequestKind::EqGet
        ||| self == RequestKind::EqSet
        ||| self == RequestKind::Reconnect
        ||| self == RequestKind::SetAudioOutput
        ||| self == RequestKind::DevicesList
        ||| self == RequestKind::DeviceTransfer
        ||| self == RequestKind::QueueAdd
        ||| self == RequestKind::QueueAddMany
        ||| self == RequestKind::QueueGet
        ||| self == RequestKind::RecentlyPlayed
    }

    /// Whether a request is for a search.
    pub open spec fn is_search(self) -> bool {
        ||| self == RequestKind::Search
        ||| self == RequestKind::SearchStream
        ||| self == RequestKind::SearchPage
    }

    /// Whether a request is for the library or the catalog around it.
    pub open spec fn is_library(self) -> bool {
        ||| self == RequestKind::LibraryList
        ||| self == RequestKind::LibrarySave
        ||| self == RequestKind::LibraryUnsave
        ||| self == RequestKind::SavedTracks
        ||| self == RequestKind::SavedShows
        ||| self == RequestKind::FollowedArtists
        ||| self == RequestKind::ArtistFollow
        ||| self == RequestKind::ArtistUnfollow
        ||| self == RequestKind::ArtistAlbums
        ||| self == RequestKind::AlbumTracks
        ||| self == RequestKind::ShowEpisodes
        ||| self == RequestKind::EpisodeFeed
        ||| self == RequestKind::RelatedArtists
        ||| self == RequestKind::RadioStart
    }

    /// Whether a request is for playlists.
    pub open spec fn is_playlists(self) -> bool {
        ||| self == RequestKind::PlaylistsList
        ||| self == RequestKind::PlaylistTracks
        ||| self == RequestKind::PlaylistItemsPreview
        ||| self == RequestKind::PlaylistAddItems
        ||| self == RequestKind::PlaylistRemoveItems
        ||| self == RequestKind::PlaylistRemoveOccurrences
        ||| self == RequestKind::PlaylistRemoveOccurrencesPreview
        ||| self == RequestKind::PlaylistCreate
        ||| self == RequestKind::PlaylistCreatePreview
        ||| self == RequestKind::PlaylistUnfollow
        ||| self == RequestKind::PlaylistSetImage
    }

    /// Whether a request is for what was listened to.
    pub open spec fn is_analytics(self) -> bool {
        ||| self == RequestKind::AnalyticsRebuild
        ||| self == RequestKind::AnalyticsTop
        ||| self == RequestKind::AnalyticsHabits
        ||| self == RequestKind::AnalyticsSearch
        ||| self == RequestKind::AnalyticsRediscovery
        ||| self == RequestKind::AnalyticsExport
        ||| self == RequestKind::AnalyticsImport
        ||| self == RequestKind::AnalyticsImportStatus
        ||| self == RequestKind::AnalyticsImportUnresolved
        ||| self == RequestKind::AnalyticsImportUndo
        ||| self == RequestKind::AnalyticsPrune
        ||| self == RequestKind::ListenSessions
    }

    /// Whether a request is for the log of operations.
    pub open spec fn is_ops(self) -> bool {
        ||| self == RequestKind::OpsLog
        ||| self == RequestKind::OpsShow
        ||| self == RequestKind::OpsUndo
        ||| self == RequestKind::OpsRedo
    }

    /// Whether a request is for reminders and their notifications.
    pub open spec fn is_reminders(self) -> bool {
        ||| self == RequestKind::ReminderCreate
        ||| self == RequestKind::RemindersList
        ||| self == RequestKind::ReminderCancel
        ||| self == RequestKind::NotificationsList
        ||| self == RequestKind::NotificationAct
    }

    /// Whether a request is for bookmarks.
    pub open spec fn is_bookmarks(self) -> bool {
        ||| self == RequestKind::BookmarkCreate
        ||| self == RequestKind::BookmarksList
        ||| self == RequestKind::BookmarkUpdate
        ||| self == RequestKind::BookmarkDelete
        ||| self == RequestKind::BookmarkPlay
    }

    /// Whether a request is for the visualizer.
    pub open spec fn is_viz(self) -> bool {
        ||| self == RequestKind::SetVizEnabled
        ||| self == RequestKind::SetVizSource
        ||| self == RequestKind::GetVizStatus
        ||| self == RequestKind::SetVizFocus
        ||| self == RequestKind::SetVizStyle
    }

    /// Whether a request is for themes.
    pub open spec fn is_themes(self) -> bool {
        ||| self == RequestKind::ThemesList
        ||| self == RequestKind::SetTheme
    }

    /// Whether a request is for covers and lyrics.
    pub open spec fn is_media(self) -> bool {
        ||| self == RequestKind::Image
        ||| self == RequestKind::CoverArt
        ||| self == RequestKind::LyricsGet
        ||| self == RequestKind::LyricsOffsetSet
    }
}

/// The part of the daemon that answers a request; what none of the others is
/// for is administration.
pub open spec fn category(kind: RequestKind) -> Cat {
    if kind.is_playback() {
        Cat::Playback
    } else if kind.is_search() {
        Cat::Search
    } else if kind.is_library() {
        Cat::Library
    } else if kind.is_playlists() {
        Cat::Playlists
    } else if kind.is_analytics() {
        Cat::Analytics
    } else if kind.is_ops() {
        Cat::Ops
    } else if kind.is_reminders() {
        Cat::Reminders
    } else if kind.is_bookmarks() {
        Cat::Bookmarks
    } else if kind.is_viz() {
        Cat::Viz
    } else if kind.is_themes() {
        Cat::Themes
    } else if kind.is_media() {
        Cat::Media
    } else {
        Cat::Admin
    }
}

/// The part of the daemon that answers a request.
pub fn categorize(request: &RequestKind) -> (r: Cat)
    ensures
        r == category(*request),
{
    match request {
        RequestKind::Ping |
        RequestKind::SubscribeEvents |
        RequestKind::GetDaemonStatus |
        RequestKind::GetDoctorReport |
        RequestKind::ClientSeed |
        RequestKind::ProvidersList |
        RequestKind::ResolveTarget |
        RequestKind::ListAudioOutputs |
        RequestKind::CacheStatus |
        RequestKind::LogsTail |
        RequestKind::CheckUpdate |
        RequestKind::Reindex |
        RequestKind::Reload |
        RequestKind::ReloadAuth |
        RequestKind::AuthStart |
        RequestKind::AuthPoll |
        RequestKind::AuthCancel |
        RequestKind::AuthStatus |
        RequestKind::AuthLogout |
        RequestKind::WebApiToken |
        RequestKind::Shutdown |
        RequestKind::Sync |
        RequestKind::SearchCachePrune => Cat::Admin,
        RequestKind::PlaybackGet |
        RequestKind::PlaybackCommand |
        RequestKind::PlaybackSpeedSet |
        RequestKind::PlaybackSpeedGet |
        RequestKind::EqGet |
        RequestKind::EqSet |
        RequestKind::Reconnect |
        RequestKind::SetAudioOutput |
        RequestKind::DevicesList |
        RequestKind::DeviceTransfer |
        RequestKind::QueueAdd |
        RequestKind::QueueAddMany |
        RequestKind::QueueGet |
        RequestKind::RecentlyPlayed => Cat::Playback,
        RequestKind::Search |
        RequestKind::SearchStream |
        RequestKind::SearchPage => Cat::Search,
        RequestKind::LibraryList |
        RequestKind::LibrarySave |
        RequestKind::LibraryUnsave |
        RequestKind::SavedTracks |
        RequestKind::SavedShows |
        RequestKind::FollowedArtists |
        RequestKind::ArtistFollow |
        RequestKind::ArtistUnfollow |
        RequestKind::ArtistAlbums |
        RequestKind::AlbumTracks |
        RequestKind::ShowEpisodes |
        RequestKind::EpisodeFeed |
        RequestKind::RelatedArtists |
        RequestKind::RadioStart => Cat::Library,
        RequestKind::PlaylistsList |
        RequestKind::PlaylistTracks |
        RequestKind::PlaylistItemsPreview |
        RequestKind::PlaylistAddItems |
        RequestKind::PlaylistRemoveItems |
        RequestKind::PlaylistRemoveOccurrences |
        RequestKind::PlaylistRemoveOccurrencesPreview |
        RequestKind::PlaylistCreate |
        RequestKind::PlaylistCreatePreview |
        RequestKind::PlaylistUnfollow |
        RequestKind::PlaylistSetImage => Cat::Playlists,
        RequestKind::AnalyticsRebuild |
        RequestKind::AnalyticsTop |
        RequestKind::AnalyticsHabits |
        RequestKind::AnalyticsSearch |
        RequestKind::AnalyticsRediscovery |
        RequestKind::AnalyticsExport |
        RequestKind::AnalyticsImport |
        RequestKind::AnalyticsImportStatus |
        RequestKind::AnalyticsImportUnresolved |
        RequestKind::AnalyticsImportUndo |
        RequestKind::AnalyticsPrune |
        RequestKind::ListenSessions => Cat::Analytics,
        RequestKind::OpsLog |
        RequestKind::OpsShow |
        RequestKind::OpsUndo |
        RequestKind::OpsRedo => Cat::Ops,
        RequestKind::ReminderCreate |
        RequestKind::RemindersList |
        RequestKind::ReminderCancel |
        RequestKind::NotificationsList |
        RequestKind::NotificationAct => Cat::Reminders,
        RequestKind::BookmarkCreate |
        RequestKind::BookmarksList |
        RequestKind::BookmarkUpdate |
        RequestKind::BookmarkDelete |
        RequestKind::BookmarkPlay => Cat::Bookmarks,
        RequestKind::SetVizEnabled |
        RequestKind::SetVizSource |
        RequestKind::GetVizStatus |
        RequestKind::SetVizFocus |
        RequestKind::SetVizStyle => Cat::Viz,
        RequestKind::ThemesList |
        RequestKind::SetTheme => Cat::Themes,
        RequestKind::Image |
        RequestKind::CoverArt |
        RequestKind::LyricsGet |
        RequestKind::LyricsOffsetSet => Cat::Media,
    }
}

// ---------------------------------------------------------------------------
// Handlers
// ---------------------------------------------------------------------------

impl RequestKind {
    /// Whether the handler of administration has an arm for a request.
    pub open spec fn admin_has_arm(self) -> bool {
        ||| self == RequestKind::Ping
        ||| self == RequestKind::SubscribeEvents
        ||| self == RequestKind::GetDaemonStatus
        ||| self == RequestKind::ProvidersList
        ||| self == RequestKind::ResolveTarget
        ||| self == RequestKind::ListAudioOutputs
        ||| self == RequestKind::GetDoctorReport
        ||| self == RequestKind::ClientSeed
        ||| self == RequestKind::Reindex
        ||| self == RequestKind::CacheStatus
        ||| self == RequestKind::LogsTail
        ||| self == RequestKind::Sync
        ||| self == RequestKind::Shutdown
        ||| self == RequestKind::Reload
        ||| self == RequestKind::ReloadAuth
        ||| self == RequestKind::AuthStart
        ||| self == RequestKind::AuthPoll
        ||| self == RequestKind::AuthCancel
        ||| self == RequestKind::AuthStatus
        ||| self == RequestKind::AuthLogout
        ||| self == RequestKind::WebApiToken
        ||| self == RequestKind::CheckUpdate
        ||| self == RequestKind::SearchCachePrune
    }

    /// Whether the handler of playback has an arm for a request.
    pub open spec fn playback_has_arm(self) -> bool {
        ||| self == RequestKind::PlaybackGet
        ||| self == RequestKind::PlaybackCommand
        ||| self == RequestKind::DevicesList
        ||| self == RequestKind::DeviceTransfer
        ||| self == RequestKind::RecentlyPlayed
        ||| self == RequestKind::QueueGet
        ||| self == RequestKind::QueueAdd
        ||| self == RequestKind::QueueAddMany
        ||| self == RequestKind::Reconnect
        ||| self == RequestKind::SetAudioOutput
    }

    /// Whether the handler of searches has an arm for a request.
    pub open spec fn search_has_arm(self) -> bool {
        ||| self == RequestKind::Search
        ||| self == RequestKind::SearchStream
        ||| self == RequestKind::SearchPage
    }

    /// Whether the handler of the library has an arm for a request.
    pub open spec fn library_has_arm(self) -> bool {
        ||| self == RequestKind::LibraryList
        ||| self == RequestKind::SavedTracks
        ||| self == RequestKind::SavedShows
        ||| self == RequestKind::ShowEpisodes
        ||| self == RequestKind::EpisodeFeed
        ||| self == RequestKind::ArtistAlbums
        ||| self == RequestKind::FollowedArtists
        ||| self == RequestKind::AlbumTracks
        ||| self == RequestKind::RelatedArtists
        ||| self == RequestKind::RadioStart
        ||| self == RequestKind::LibrarySave
        ||| self == RequestKind::LibraryUnsave
        ||| self == RequestKind::ArtistFollow
        ||| self == RequestKind::ArtistUnfollow
    }

    /// Whether the handler of playlists has an arm for a request.
    pub open spec fn playlists_has_arm(self) -> bool {
        ||| self == RequestKind::PlaylistsList
        ||| self == RequestKind::PlaylistTracks
        ||| self == RequestKind::PlaylistAddItems
        ||| self == RequestKind::PlaylistItemsPreview
        ||| self == RequestKind::PlaylistRemoveItems
        ||| self == RequestKind::PlaylistCreatePreview
        ||| self == RequestKind::PlaylistCreate
        ||| self == RequestKind::PlaylistUnfollow
        ||| self == RequestKind::PlaylistSetImage
    }

    /// Whether the handler of analytics has an arm for a request.
    pub open spec fn analytics_has_arm(self) -> bool {
        ||| self == RequestKind::ListenSessions
        ||| self == RequestKind::AnalyticsRebuild
        ||| self == RequestKind::AnalyticsTop
        ||| self == RequestKind::AnalyticsHabits
        ||| self == RequestKind::AnalyticsSearch
        ||| self == RequestKind::AnalyticsRediscovery
        ||| self == RequestKind::AnalyticsPrune
    }

    /// Whether the handler of the operation log has an arm for a request.
    pub open spec fn ops_has_arm(self) -> bool {
        ||| self == RequestKind::OpsLog
        ||| self == RequestKind::OpsShow
        ||| self == RequestKind::OpsUndo
        ||| self == RequestKind::OpsRedo
    }

    /// Whether the handler of reminders has an arm for a request.
    pub open spec fn reminders_has_arm(self) -> bool {
        ||| self == RequestKind::ReminderCreate
        ||| self == RequestKind::RemindersList
        ||| self == RequestKind::ReminderCancel
        ||| self == RequestKind::NotificationsList
        ||| self == RequestKind::NotificationAct
    }

    /// Whether the handler of bookmarks has an arm for a request.
    pub open spec fn bookmarks_has_arm(self) -> bool {
        ||| self == RequestKind::BookmarkCreate
        ||| self == RequestKind::BookmarksList
        ||| self == RequestKind::BookmarkUpdate
        ||| self == RequestKind::BookmarkDelete
        ||| self == RequestKind::BookmarkPlay
    }

    /// Whether the handler of the visualizer has an arm for a request.
    pub open spec fn viz_has_arm(self) -> bool {
        ||| self == RequestKind::SetVizEnabled
        ||| self == RequestKind::SetVizSource
        ||| self == RequestKind::SetVizStyle
        ||| self == RequestKind::GetVizStatus
        ||| self == RequestKind::SetVizFocus
    }

    /// Whether the handler of covers and lyrics has an arm for a request.
    pub open spec fn media_has_arm(self) -> bool {
        ||| self == RequestKind::Image
        ||| self == RequestKind::CoverArt
        ||| self == RequestKind::LyricsGet
        ||| self == RequestKind::LyricsOffsetSet
    }

    /// Whether the handler of themes has an arm for a request.
    pub open spec fn themes_has_arm(self) -> bool {
        ||| self == RequestKind::ThemesList
        ||| self == RequestKind::SetTheme
    }

    /// Whether a request is known but answered nowhere yet.
    pub open spec fn is_unanswered(self) -> bool {
        ||| self == RequestKind::PlaybackSpeedSet
        ||| self == RequestKind::PlaybackSpeedGet
        ||| self == RequestKind::EqGet
        ||| self == RequestKind::EqSet
        ||| self == RequestKind::PlaylistRemoveOccurrences
        ||| self == RequestKind::PlaylistRemoveOccurrencesPreview
        ||| self == RequestKind::AnalyticsExport
        ||| self == RequestKind::AnalyticsImport
        ||| self == RequestKind::AnalyticsImportStatus
        ||| self == RequestKind::AnalyticsImportUnresolved
        ||| self == RequestKind::AnalyticsImportUndo
    }
}

/// Whether a part of the daemon has an arm for a request.
pub open spec fn has_arm(part: Cat, kind: RequestKind) -> bool {
    match part {
        Cat::Admin => kind.admin_has_arm(),
        Cat::Playback => kind.playback_has_arm(),
        Cat::Search => kind.search_has_arm(),
        Cat::Library => kind.library_has_arm(),
        Cat::Playlists => kind.playlists_has_arm(),
        Cat::Analytics => kind.analytics_has_arm(),
        Cat::Ops => kind.ops_has_arm(),
        Cat::Reminders => kind.reminders_has_arm(),
        Cat::Bookmarks => kind.bookmarks_has_arm(),
        Cat::Viz => kind.viz_has_arm(),
        Cat::Media => kind.media_has_arm(),
        Cat::Themes => kind.themes_has_arm(),
    }
}

/// The part of the daemon that has an arm for a request. None has one for a
/// request that is answered nowhere yet.
pub fn answering_part(request: &RequestKind) -> (r: Option<Cat>)
    ensures
        match r {
            Some(part) => has_arm(part, *request) && forall|other: Cat| #[trigger]
                has_arm(other, *request) ==> other == part,
            None => forall|part: Cat| !#[trigger] has_arm(part, *request),
        },
        r == if request.is_unanswered() {
            None
        } else {
            Some(category(*request))
        },
{
    let unanswered = match request {
        RequestKind::PlaybackSpeedSet |
        RequestKind::PlaybackSpeedGet |
        RequestKind::EqGet |
        RequestKind::EqSet |
        RequestKind::PlaylistRemoveOccurrences |
        RequestKind::PlaylistRemoveOccurrencesPreview |
        RequestKind::AnalyticsExport |
        RequestKind::AnalyticsImport |
        RequestKind::AnalyticsImportStatus |
        RequestKind::AnalyticsImportUnresolved |
        RequestKind::AnalyticsImportUndo => true,
        _ => false,
    };
    proof {
        if !request.is_unanswered() {
            requests_are_handled_where_they_are_routed(*request);
        }
        assert forall|part: Cat| #[trigger] has_arm(part, *request) implies part == category(
            *request,
        ) && !request.is_unanswered() by {
            requests_have_one_handler(*request, part);
        }
    }
    if unanswered {
        None
    } else {
        Some(categorize(request))
    }
}

/// Every request that is answered at all is answered by the part that it is
/// routed to.
pub proof fn requests_are_handled_where_they_are_routed(kind: RequestKind)
    requires
        !kind.is_unanswered(),
    ensures
        has_arm(category(kind), kind),
{
}

/// No other part than the one that a request is routed to has an arm for it,
/// and none has one for a request that is answered nowhere.
pub proof fn requests_have_one_handler(kind: RequestKind, part: Cat)
    requires
        has_arm(part, kind),
    ensures
        part == category(kind),
        !kind.is_unanswered(),
{
}

/// A request is routed as is told of it.
pub proof fn requests_are_routed_as_told()
    ensures
        forall|request: &RequestKind, answer: Cat|
            #[trigger] call_ensures(categorize, (request,), answer) ==> {
                &&& answer == category(*request)
            },
{
}

/// Nothing answers the speed, the equalizer, the removal of single occurrences,
/// and the export and import of what was listened to; everything else is
/// answered.
pub proof fn eleven_requests_are_answered_nowhere(kind: RequestKind)
    ensures
        kind.is_unanswered() <==> kind == RequestKind::PlaybackSpeedSet || kind
            == RequestKind::PlaybackSpeedGet || kind == RequestKind::EqGet || kind
            == RequestKind::EqSet || kind == RequestKind::PlaylistRemoveOccurrences || kind
            == RequestKind::PlaylistRemoveOccurrencesPreview || kind == RequestKind::AnalyticsExport
            || kind == RequestKind::AnalyticsImport || kind == RequestKind::AnalyticsImportStatus
            || kind == RequestKind::AnalyticsImportUnresolved || kind
            == RequestKind::AnalyticsImportUndo,
{
}

} // verus!
