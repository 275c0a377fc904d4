//! The UI model: state, messages, the main layout and the text renderings of
//! the panels.
pub mod cells;
pub mod components;
pub mod library_views;
pub mod message;
pub mod search;
pub mod state;
pub mod style;

use vstd::prelude::*;

use crate::ui::message::{SearchMessage, UiMessage};
use crate::ui::state::{ActiveTab, SortOption};

verus! {

#[derive(Debug, Default, Clone, Copy, PartialEq, Eq, Structural)]
pub struct TopBar;

#[derive(Debug, Default, Clone, Copy, PartialEq, Eq, Structural)]
pub struct LeftSidebar;

#[derive(Debug, Default, Clone, Copy, PartialEq, Eq, Structural)]
pub struct AlbumsGrid;

#[derive(Debug, Default, Clone, Copy, PartialEq, Eq, Structural)]
pub struct RightPanel;

#[derive(Debug, Default, Clone, Copy, PartialEq, Eq, Structural)]
pub struct PlayerBar;

/// The three columns under the top bar.
#[derive(Debug, Default, Clone, Copy, PartialEq, Eq, Structural)]
pub struct ContentColumns {
    pub left: LeftSidebar,
    pub center: AlbumsGrid,
    pub right: RightPanel,
}

impl ContentColumns {
    pub fn new() -> (r: Self)
        ensures
            r == (ContentColumns { left: LeftSidebar, center: AlbumsGrid, right: RightPanel }),
    {
        ContentColumns { left: LeftSidebar, center: AlbumsGrid, right: RightPanel }
    }
}

impl TopBar {
    /// The message sent when a tab is clicked.
    pub fn tab_selected_message(&self, tab: ActiveTab) -> (r: UiMessage)
        ensures
            r == UiMessage::TabSelected(tab),
    {
        UiMessage::TabSelected(tab)
    }

    /// The message sent when the search text changes.
    pub fn search_query_message(&self, query: &str) -> (r: UiMessage)
        ensures
            r matches UiMessage::Search(SearchMessage::QueryChanged(q)) && q@ == query@,
    {
        UiMessage::Search(SearchMessage::QueryChanged(query.to_owned()))
    }

    /// The message sent when another sort order is chosen.
    pub fn search_sort_message(&self, sort: SortOption) -> (r: UiMessage)
        ensures
            r == UiMessage::Search(SearchMessage::SortChanged(sort)),
    {
        UiMessage::Search(SearchMessage::SortChanged(sort))
    }
}

/// Top bar, columns and the player bar at the foot.
#[derive(Debug, Default, Clone, Copy, PartialEq, Eq, Structural)]
pub struct MainLayout {
    pub top_bar: TopBar,
    pub content: ContentColumns,
    pub footer: PlayerBar,
}

impl MainLayout {
    pub fn new() -> (r: Self)
        ensures
            r == (MainLayout {
                top_bar: TopBar,
                content: ContentColumns { left: LeftSidebar, center: AlbumsGrid, right: RightPanel },
                footer: PlayerBar,
            }),
    {
        MainLayout { top_bar: TopBar, content: ContentColumns::new(), footer: PlayerBar }
    }
}

#[derive(Debug, Default, Clone, Copy, PartialEq, Eq, Structural)]
pub struct MainView {
    pub layout: MainLayout,
}

impl MainView {
    pub fn new() -> (r: Self)
        ensures
            r == (MainView {
                layout: MainLayout {
                    top_bar: TopBar,
                    content: ContentColumns { left: LeftSidebar, center: AlbumsGrid, right: RightPanel },
                    footer: PlayerBar,
                },
            }),
    {
        MainView { layout: MainLayout::new() }
    }
}

/// The main view with its default layout.
pub fn main_view() -> (r: MainView)
    ensures
        r == (MainView {
            layout: MainLayout {
                top_bar: TopBar,
                content: ContentColumns { left: LeftSidebar, center: AlbumsGrid, right: RightPanel },
                footer: PlayerBar,
            },
        }),
{
    MainView::new()
}

} // verus!
