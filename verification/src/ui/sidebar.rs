//! The sidebar's navigation pages.

use vstd::prelude::*;

verus! {

/// A page the sidebar navigates to.
#[derive(Debug, Clone, Copy, PartialEq, Eq, Structural)]
pub enum NavPage {
    /// The local library / search view.
    Library,
    /// Artist browser (library page drill-down).
    Artists,
    /// Genre browser (library page drill-down).
    Genres,
    /// Search-only view (separate from library browsing).
    Search,
    /// The playback queue.
    Queue,
    /// Application settings.
    Settings,
}

/// The pages in display order.
pub open spec fn nav_pages() -> Seq<NavPage> {
    seq![
        NavPage::Library,
        NavPage::Artists,
        NavPage::Genres,
        NavPage::Search,
        NavPage::Queue,
        NavPage::Settings,
    ]
}

impl NavPage {
    /// Returns the icon name used by the sidebar entry.
    pub fn icon_name(self) -> (s: &'static str)
        ensures
            s@ == match self {
                NavPage::Library => "media-optical-cd-audio-symbolic"@,
                NavPage::Artists => "avatar-default-symbolic"@,
                NavPage::Genres => "emblem-music-symbolic"@,
                NavPage::Search => "system-search-symbolic"@,
                NavPage::Queue => "view-list-symbolic"@,
                NavPage::Settings => "preferences-system-symbolic"@,
            },
    {
        match self {
            NavPage::Library => "media-optical-cd-audio-symbolic",
            NavPage::Artists => "avatar-default-symbolic",
            NavPage::Genres => "emblem-music-symbolic",
            NavPage::Search => "system-search-symbolic",
            NavPage::Queue => "view-list-symbolic",
            NavPage::Settings => "preferences-system-symbolic",
        }
    }

    /// Returns the human-readable label shown in the sidebar entry.
    pub fn label(self) -> (s: &'static str)
        ensures
            s@ == match self {
                NavPage::Library => "Library"@,
                NavPage::Artists => "Artists"@,
                NavPage::Genres => "Genres"@,
                NavPage::Search => "Search"@,
                NavPage::Queue => "Queue"@,
                NavPage::Settings => "Settings"@,
            },
    {
        match self {
            NavPage::Library => "Library",
            NavPage::Artists => "Artists",
            NavPage::Genres => "Genres",
            NavPage::Search => "Search",
            NavPage::Queue => "Queue",
            NavPage::Settings => "Settings",
        }
    }

    /// Every navigation page in display order.
    pub fn all() -> (pages: [NavPage; 6])
        ensures
            pages@ == nav_pages(),
    {
        let pages = [
            NavPage::Library,
            NavPage::Artists,
            NavPage::Genres,
            NavPage::Search,
            NavPage::Queue,
            NavPage::Settings,
        ];
        assert(pages@ =~= nav_pages());
        pages
    }
}

/// The sidebar lists every page exactly once.
pub proof fn law_nav_pages_complete(p: NavPage)
    ensures
        nav_pages().contains(p),
        forall|i: int, j: int| 0 <= i < j < 6 ==> nav_pages()[i] != nav_pages()[j],
{
    match p {
        NavPage::Library => assert(nav_pages()[0] == p),
        NavPage::Artists => assert(nav_pages()[1] == p),
        NavPage::Genres => assert(nav_pages()[2] == p),
        NavPage::Search => assert(nav_pages()[3] == p),
        NavPage::Queue => assert(nav_pages()[4] == p),
        NavPage::Settings => assert(nav_pages()[5] == p),
    }
}

} // verus!
