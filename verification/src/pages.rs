//! The frontend's pages, and where the controller's buttons take it: Back
//! leaves the innermost surface, Confirm acts on what has the focus, and the
//! shoulder buttons and triggers switch sections and tabs on the library.
use crate::app::{DashboardShelf, DetailsFocus, focused_entry_index};
use crate::app_group::{DesktopEntryData, Section};
use crate::dashboard::{card_shows, console_widget_id, dashboard_entry_id_for_widget, shelves_view};
use crate::input_ownership::Event as InputEvent;
use crate::library_nav::{next_section, next_tab, section_after, section_position, tab_after};
use crate::text::{
    chars_of, decimal, decimal_round_trips, digits, is_prefix, parse_i64, parse_i64_spec, push_digits, starts_with_chars,
    str_equal, strip_prefix_str, to_owned_string,
};
use vstd::prelude::*;

verus! {

/// The frontend's pages.
#[derive(Clone, Copy, Debug, PartialEq, Eq, Structural)]
pub enum Page {
    /// The start page: shelves of recent games and favorites.
    Dashboard,
    /// The grid of a section's entries, with its tab strip.
    Library,
    /// One console game's details, pushed on top of the library.
    Details,
}

impl Default for Page {
    fn default() -> (r: Self)
        ensures
            r == Page::Dashboard,
    {
        Page::Dashboard
    }
}

/// What is on screen that the controller's buttons answer to.
#[derive(Clone, Copy, Debug, PartialEq, Eq, Structural)]
pub struct Surfaces {
    pub page: Page,
    /// The launch overlay is shown.
    pub launch_visible: bool,
    /// The launch overlay reports a failed launch.
    pub launch_failed: bool,
    /// The details screen's disc picker is open.
    pub disc_picker: bool,
    /// The context menu is open.
    pub menu_open: bool,
    /// The new-group dialog is open.
    pub new_group_open: bool,
    /// The delete-group dialog is open.
    pub delete_open: bool,
    /// A group's name is being edited.
    pub editing_name: bool,
}

impl Default for Surfaces {
    /// The dashboard with nothing over it.
    fn default() -> (r: Self)
        ensures
            r == (Surfaces {
                page: Page::Dashboard,
                launch_visible: false,
                launch_failed: false,
                disc_picker: false,
                menu_open: false,
                new_group_open: false,
                delete_open: false,
                editing_name: false,
            }),
    {
        Surfaces {
            page: Page::Dashboard,
            launch_visible: false,
            launch_failed: false,
            disc_picker: false,
            menu_open: false,
            new_group_open: false,
            delete_open: false,
            editing_name: false,
        }
    }
}

/// What Back or Escape does.
#[derive(Clone, Copy, Debug, PartialEq, Eq, Structural)]
pub enum BackAction {
    DismissLaunch,
    CloseDiscPicker,
    CloseDetails,
    CloseContextMenu,
    CancelNewGroup,
    CancelDelete,
    SubmitName,
    OpenDashboard,
    Nothing,
}

/// Escape: dismisses a failed launch (a launch in progress holds), closes
/// the disc picker and then the details screen, and leaves the library for
/// the dashboard, which stays.
pub open spec fn escape_action_of(s: Surfaces) -> BackAction {
    if s.launch_visible {
        if s.launch_failed {
            BackAction::DismissLaunch
        } else {
            BackAction::Nothing
        }
    } else if s.page == Page::Details {
        if s.disc_picker {
            BackAction::CloseDiscPicker
        } else {
            BackAction::CloseDetails
        }
    } else if s.page == Page::Library {
        BackAction::OpenDashboard
    } else {
        BackAction::Nothing
    }
}

/// Back: leaves the innermost surface. A failed launch is dismissed, a launch
/// in progress holds; then the disc picker, the details screen, the context
/// menu and the dialogs close (an edited name is kept), and last Escape's
/// answer.
pub open spec fn back_action_of(s: Surfaces) -> BackAction {
    if s.launch_failed {
        BackAction::DismissLaunch
    } else if s.launch_visible {
        BackAction::Nothing
    } else if s.page == Page::Details {
        if s.disc_picker {
            BackAction::CloseDiscPicker
        } else {
            BackAction::CloseDetails
        }
    } else if s.menu_open {
        BackAction::CloseContextMenu
    } else if s.new_group_open {
        BackAction::CancelNewGroup
    } else if s.delete_open {
        BackAction::CancelDelete
    } else if s.editing_name {
        BackAction::SubmitName
    } else {
        escape_action_of(s)
    }
}

/// What Escape does, as [`escape_action_of`] says.
pub fn escape_action(s: &Surfaces) -> (r: BackAction)
    ensures
        r == escape_action_of(*s),
{
    if s.launch_visible {
        if s.launch_failed {
            BackAction::DismissLaunch
        } else {
            BackAction::Nothing
        }
    } else if s.page == Page::Details {
        if s.disc_picker {
            BackAction::CloseDiscPicker
        } else {
            BackAction::CloseDetails
        }
    } else if s.page == Page::Library {
        BackAction::OpenDashboard
    } else {
        BackAction::Nothing
    }
}

/// What the controller's Back does, as [`back_action_of`] says.
pub fn back_action(s: &Surfaces) -> (r: BackAction)
    ensures
        r == back_action_of(*s),
{
    if s.launch_failed {
        BackAction::DismissLaunch
    } else if s.launch_visible {
        BackAction::Nothing
    } else if s.page == Page::Details {
        if s.disc_picker {
            BackAction::CloseDiscPicker
        } else {
            BackAction::CloseDetails
        }
    } else if s.menu_open {
        BackAction::CloseContextMenu
    } else if s.new_group_open {
        BackAction::CancelNewGroup
    } else if s.delete_open {
        BackAction::CancelDelete
    } else if s.editing_name {
        BackAction::SubmitName
    } else {
        escape_action(s)
    }
}

/// Back always leaves something, unless a launch is in progress or there is
/// nothing to leave: the bare dashboard.
pub proof fn back_leaves_every_surface_but_the_dashboard(s: Surfaces)
    requires
        !s.launch_visible,
        !s.launch_failed,
    ensures
        back_action_of(s) == BackAction::Nothing <==> (s.page == Page::Dashboard && !s.menu_open
            && !s.new_group_open && !s.delete_open && !s.editing_name),
{
}

/// What the controller's Confirm does.
#[derive(Clone, Copy, Debug, PartialEq, Eq, Structural)]
pub enum ConfirmAction {
    DismissLaunch,
    /// Act on the details screen's cursor.
    ActivateDetails,
    /// Act on the context menu's highlighted entry.
    ActivateMenuEntry,
    /// Act on the widget that has the focus.
    ConfirmFocused,
    Nothing,
}

/// Confirm: dismisses a failed launch (a launch in progress holds); on the
/// details screen it acts on the screen's own cursor, in an open context
/// menu on its highlight, elsewhere on the focused widget.
pub open spec fn confirm_action_of(s: Surfaces) -> ConfirmAction {
    if s.launch_failed {
        ConfirmAction::DismissLaunch
    } else if s.launch_visible {
        ConfirmAction::Nothing
    } else if s.page == Page::Details {
        ConfirmAction::ActivateDetails
    } else if s.menu_open {
        ConfirmAction::ActivateMenuEntry
    } else {
        ConfirmAction::ConfirmFocused
    }
}

/// What the controller's Confirm does, as [`confirm_action_of`] says.
pub fn confirm_action(s: &Surfaces) -> (r: ConfirmAction)
    ensures
        r == confirm_action_of(*s),
{
    if s.launch_failed {
        ConfirmAction::DismissLaunch
    } else if s.launch_visible {
        ConfirmAction::Nothing
    } else if s.page == Page::Details {
        ConfirmAction::ActivateDetails
    } else if s.menu_open {
        ConfirmAction::ActivateMenuEntry
    } else {
        ConfirmAction::ConfirmFocused
    }
}

/// Where a directional press goes.
#[derive(Clone, Copy, Debug, PartialEq, Eq, Structural)]
pub enum MoveRoute {
    /// Dropped: a launch or a dialog holds the screen, or a text input keeps
    /// the press.
    Ignore,
    /// Moves the context menu's highlight.
    MoveMenu,
    /// Leaves the text input for the grid's first entry.
    EnterGrid,
    /// Moves the focus on the page.
    Move,
}

/// Where a directional press goes: nowhere while the launch overlay or a
/// dialog is up; to the open context menu's highlight; out of a text input
/// into the grid when it points down or right (a text input never traps the
/// controller); else to the page.
pub open spec fn move_route_of(s: Surfaces, text_input_focused: bool, down_or_right: bool) -> MoveRoute {
    if s.launch_visible || s.new_group_open || s.delete_open {
        MoveRoute::Ignore
    } else if s.menu_open {
        MoveRoute::MoveMenu
    } else if text_input_focused {
        if down_or_right {
            MoveRoute::EnterGrid
        } else {
            MoveRoute::Ignore
        }
    } else {
        MoveRoute::Move
    }
}

/// Where a directional press goes, as [`move_route_of`] says.
pub fn move_route(s: &Surfaces, text_input_focused: bool, down_or_right: bool) -> (r: MoveRoute)
    ensures
        r == move_route_of(*s, text_input_focused, down_or_right),
{
    if s.launch_visible || s.new_group_open || s.delete_open {
        MoveRoute::Ignore
    } else if s.menu_open {
        MoveRoute::MoveMenu
    } else if text_input_focused {
        if down_or_right {
            MoveRoute::EnterGrid
        } else {
            MoveRoute::Ignore
        }
    } else {
        MoveRoute::Move
    }
}

/// A surface of the frontend's own is open (the context menu or a dialog):
/// it keeps the controller even where the main window looks unfocused.
pub fn frontend_surface_open(s: &Surfaces) -> (r: bool)
    ensures
        r == (s.menu_open || s.new_group_open || s.delete_open),
{
    s.menu_open || s.new_group_open || s.delete_open
}

/// The controller's input reaches the frontend when it owns the input or
/// one of its own surfaces is open.
pub fn gamepad_reaches_frontend(frontend_has_control: bool, s: &Surfaces) -> (r: bool)
    ensures
        r == (frontend_has_control || s.menu_open || s.new_group_open || s.delete_open),
{
    frontend_has_control || frontend_surface_open(s)
}

/// The input event a change of the main window's focus makes: focus gained
/// or lost; none when focus goes to a surface of the frontend's own, which
/// is part of the frontend and not it yielding the input.
pub fn window_focus_event(focused: bool, s: &Surfaces) -> (r: Option<InputEvent>)
    ensures
        r == (if focused {
            Some(InputEvent::FrontendFocused)
        } else if s.menu_open || s.new_group_open || s.delete_open {
            None
        } else {
            Some(InputEvent::FrontendUnfocused)
        }),
{
    if focused {
        Some(InputEvent::FrontendFocused)
    } else if frontend_surface_open(s) {
        None
    } else {
        Some(InputEvent::FrontendUnfocused)
    }
}

/// The section the shoulder buttons switch to: only on the library.
pub fn section_switch(page: Page, current: Section, delta: i32) -> (r: Option<Section>)
    requires
        section_position(current) + delta <= i32::MAX,
    ensures
        r == (if page == Page::Library {
            Some(section_after(current, delta as int))
        } else {
            None
        }),
{
    if page != Page::Library {
        return None;
    }
    Some(next_section(current, delta))
}

/// The tab the triggers switch to: only on the library, and only where the
/// section has group tabs.
pub fn tab_switch(page: Page, current: Option<usize>, tabs: usize, delta: i32) -> (r: Option<Option<usize>>)
    requires
        tabs < i32::MAX,
        current matches Some(i) ==> i + 1 + delta <= i32::MAX && i < i32::MAX,
        current is None ==> delta <= i32::MAX,
    ensures
        r == (if page == Page::Library {
            tab_after(current, tabs as int, delta as int)
        } else {
            None
        }),
{
    if page != Page::Library {
        return None;
    }
    next_tab(current, tabs, delta)
}

/// Where opening console tab `index` from the dashboard leads, with
/// `consoles` tabs in the console games section: the library, on that
/// section at that tab; nowhere when there is no such tab.
pub fn console_tab(consoles: usize, index: usize) -> (r: Option<(Page, Section, Option<usize>)>)
    ensures
        r == (if index < consoles {
            Some((Page::Library, Section::ConsoleGames, Some(index)))
        } else {
            None
        }),
{
    if index < consoles {
        Some((Page::Library, Section::ConsoleGames, Some(index)))
    } else {
        None
    }
}

/// What the context-menu button does.
#[derive(Clone, Copy, Debug, PartialEq, Eq, Structural)]
pub enum ContextAction {
    Nothing,
    CloseContextMenu,
    /// Open the details screen of the grid entry at this position.
    OpenDetails(usize),
    /// Open the context menu of the grid entry at this position.
    OpenContextMenu(usize),
}

/// The context-menu button: nothing on the dashboard; closes an open menu;
/// on a RomM console game it opens the details screen, whose actions are the
/// menu's; on any other focused grid entry it opens the menu.
pub fn context_action(page: Page, menu_open: bool, focused: Option<usize>, entries: &[DesktopEntryData]) -> (r:
    ContextAction)
    requires
        focused matches Some(i) ==> i < entries@.len(),
    ensures
        r == (if page == Page::Dashboard {
            ContextAction::Nothing
        } else if menu_open {
            ContextAction::CloseContextMenu
        } else {
            match focused {
                None => ContextAction::Nothing,
                Some(i) => if is_prefix("romm:"@, entries@[i as int].id@) {
                    ContextAction::OpenDetails(i)
                } else {
                    ContextAction::OpenContextMenu(i)
                },
            }
        }),
{
    if page == Page::Dashboard {
        return ContextAction::Nothing;
    }
    if menu_open {
        return ContextAction::CloseContextMenu;
    }
    let i = match focused {
        Some(i) => i,
        None => {
            return ContextAction::Nothing;
        },
    };
    proof {
        reveal_strlit("romm:");
    }
    if starts_with_chars(&chars_of(entries[i].id.as_str()), &chars_of("romm:")) {
        ContextAction::OpenDetails(i)
    } else {
        ContextAction::OpenContextMenu(i)
    }
}

/// A text input has the focus: the search field or a group-name field.
pub fn is_text_input(id: &str) -> (r: bool)
    ensures
        r == (id@ == "search"@ || id@ == "edit_group"@ || id@ == "new_group"@),
{
    str_equal(id, "search") || str_equal(id, "edit_group") || str_equal(id, "new_group")
}

/// The top navigation's ids.
pub open spec fn is_nav_id(id: Seq<char>) -> bool {
    id == "dashboard-home"@ || id == "dashboard-library"@ || id == "dashboard-search"@
}

/// Where the dashboard puts the focus when it opens: its first card, or Home
/// when it has none.
pub fn dashboard_landing(entry_ids: &Vec<String>) -> (r: String)
    ensures
        r@ == (if entry_ids@.len() > 0 {
            entry_ids@[0]@
        } else {
            "dashboard-home"@
        }),
{
    if entry_ids.len() > 0 {
        to_owned_string(entry_ids[0].as_str())
    } else {
        to_owned_string("dashboard-home")
    }
}

/// Where the focus goes when the dashboard's cards change: nowhere while it
/// is on the navigation or a card that is still there; else to the first
/// card, or Home.
pub fn dashboard_focus_repair(focused: Option<&str>, entry_ids: &Vec<String>) -> (r: Option<String>)
    ensures
        (match focused {
            Some(f) => is_nav_id(f@) || exists|k: int| 0 <= k < entry_ids@.len() && #[trigger] entry_ids@[k]@ == f@,
            None => false,
        }) ==> r is None,
        !(match focused {
            Some(f) => is_nav_id(f@) || exists|k: int| 0 <= k < entry_ids@.len() && #[trigger] entry_ids@[k]@ == f@,
            None => false,
        }) ==> (r matches Some(id) && id@ == (if entry_ids@.len() > 0 {
            entry_ids@[0]@
        } else {
            "dashboard-home"@
        })),
{
    if let Some(f) = focused {
        let on_nav = str_equal(f, "dashboard-home") || str_equal(f, "dashboard-library") || str_equal(
            f,
            "dashboard-search",
        );
        if on_nav {
            return None;
        }
        if let Some(k) = focused_entry_index(f, entry_ids.as_slice()) {
            assert(entry_ids@[k as int]@ == f@);
            return None;
        }
    }
    Some(dashboard_landing(entry_ids))
}

/// The widget id of a details-screen control, stable for the page's life,
/// so the focus ring and the cursor name the same control.
pub open spec fn details_id(focus: DetailsFocus) -> Seq<char> {
    match focus {
        DetailsFocus::Play => "details-play"@,
        DetailsFocus::Favorite => "details-favorite"@,
        DetailsFocus::Disc => "details-disc"@,
        DetailsFocus::PlayLater => "details-play-later"@,
        DetailsFocus::Back => "details-back"@,
        DetailsFocus::Screenshot(i) => "details-screenshot-"@ + digits(i as nat),
        DetailsFocus::DiscChoice(i) => "details-disc-"@ + digits(i as nat),
    }
}

/// The widget id of a details-screen control, as [`details_id`] says.
pub fn details_focus_id(focus: DetailsFocus) -> (r: String)
    ensures
        r@ == details_id(focus),
{
    match focus {
        DetailsFocus::Play => to_owned_string("details-play"),
        DetailsFocus::Favorite => to_owned_string("details-favorite"),
        DetailsFocus::Disc => to_owned_string("details-disc"),
        DetailsFocus::PlayLater => to_owned_string("details-play-later"),
        DetailsFocus::Back => to_owned_string("details-back"),
        DetailsFocus::Screenshot(i) => {
            let mut s = to_owned_string("details-screenshot-");
            push_digits(&mut s, i as u64);
            s
        },
        DetailsFocus::DiscChoice(i) => {
            let mut s = to_owned_string("details-disc-");
            push_digits(&mut s, i as u64);
            s
        },
    }
}

/// The RomM file a grid entry stands for: its id is `romm:` and the file's
/// number.
pub open spec fn rom_id_of(entry_id: Seq<char>) -> Option<i64> {
    if is_prefix("romm:"@, entry_id) {
        parse_i64_spec(entry_id.skip(5))
    } else {
        None
    }
}

/// The RomM file a grid entry stands for, which its details screen opens
/// on; `None` for every other entry.
pub fn details_rom_id(entry_id: &str) -> (r: Option<i64>)
    ensures
        r == rom_id_of(entry_id@),
{
    proof {
        reveal_strlit("romm:");
    }
    match strip_prefix_str(entry_id, "romm:") {
        Some(rest) => {
            assert(rest@ =~= entry_id@.skip(5));
            parse_i64(rest)
        },
        None => None,
    }
}

/// The details screen opens on the game its tile shows: the id a RomM
/// game's tile carries leads back to the game's number.
pub proof fn a_rom_tile_leads_to_its_game(n: i64)
    ensures
        rom_id_of("romm:"@ + decimal(n as int)) == Some(n),
{
    reveal_strlit("romm:");
    let id = "romm:"@ + decimal(n as int);
    assert(id.subrange(0, 5) =~= "romm:"@);
    assert(id.skip(5) =~= decimal(n as int));
    decimal_round_trips(n);
}

/// What confirming the focused widget does.
#[derive(Clone, Debug, PartialEq, Eq)]
pub enum FocusAction {
    OpenDashboard,
    OpenLibrary,
    OpenSearch,
    /// Open the library on the console tab at this position.
    OpenConsole(usize),
    /// Launch the dashboard entry with this id.
    ActivateDashboardApp(String),
    SubmitNewGroup,
    ConfirmDelete,
    SubmitName,
    /// Launch the grid entry at this position.
    ActivateApp(usize),
    Nothing,
}

/// The console whose dashboard card has widget id `id`, among `consoles`.
pub fn dashboard_console_for_widget(consoles: &Vec<usize>, id: &str) -> (r: Option<usize>)
    ensures
        r matches Some(c) ==> consoles@.contains(c) && id@ == "dashboard-console-"@ + digits(c as nat),
        r is None ==> forall|k: int|
            0 <= k < consoles@.len() ==> id@ != "dashboard-console-"@ + digits(#[trigger] consoles@[k] as nat),
{
    let mut i: usize = 0;
    while i < consoles.len()
        invariant
            i <= consoles@.len(),
            forall|k: int|
                0 <= k < i ==> id@ != "dashboard-console-"@ + digits(#[trigger] consoles@[k] as nat),
        decreases consoles@.len() - i,
    {
        let card = console_widget_id(consoles[i]);
        if str_equal(card.as_str(), id) {
            assert(consoles@[i as int] == consoles[i as int]);
            return Some(consoles[i]);
        }
        i = i + 1;
    }
    None
}

/// What confirming the widget `focused` does: the navigation buttons open
/// their page; on the dashboard a console card opens its tab and an entry's
/// card launches it; the dialogs' fields submit; a grid entry launches.
pub fn confirm_focused(
    focused: &str,
    page: Page,
    shelves: &Vec<(DashboardShelf, Vec<&DesktopEntryData>)>,
    consoles: &Vec<usize>,
    entry_ids: &[String],
) -> (r: FocusAction)
    ensures
        focused@ == "dashboard-home"@ ==> r == FocusAction::OpenDashboard,
        focused@ == "dashboard-library"@ ==> r == FocusAction::OpenLibrary,
        focused@ == "dashboard-search"@ ==> r == FocusAction::OpenSearch,
        !is_nav_id(focused@) && page == Page::Dashboard ==> match r {
            FocusAction::OpenConsole(c) => consoles@.contains(c) && focused@ == "dashboard-console-"@ + digits(
                c as nat,
            ),
            FocusAction::ActivateDashboardApp(e) => card_shows(shelves_view(shelves@), focused@, e@) && forall|k: int|
                0 <= k < consoles@.len() ==> focused@ != "dashboard-console-"@ + digits(
                    #[trigger] consoles@[k] as nat,
                ),
            FocusAction::Nothing => !(exists|e: Seq<char>| card_shows(shelves_view(shelves@), focused@, e))
                && forall|k: int|
                0 <= k < consoles@.len() ==> focused@ != "dashboard-console-"@ + digits(
                    #[trigger] consoles@[k] as nat,
                ),
            _ => false,
        },
        !is_nav_id(focused@) && page != Page::Dashboard ==> (if focused@ == "new_group"@ {
            r == FocusAction::SubmitNewGroup
        } else if focused@ == "cancel_delete"@ {
            r == FocusAction::ConfirmDelete
        } else if focused@ == "edit_group"@ {
            r == FocusAction::SubmitName
        } else {
            match r {
                FocusAction::ActivateApp(i) => i < entry_ids@.len() && entry_ids@[i as int]@ == focused@
                    && forall|k: int| 0 <= k < i ==> #[trigger] entry_ids@[k]@ != focused@,
                FocusAction::Nothing => forall|k: int|
                    0 <= k < entry_ids@.len() ==> #[trigger] entry_ids@[k]@ != focused@,
                _ => false,
            }
        }),
{
    proof {
        reveal_strlit("dashboard-home");
        reveal_strlit("dashboard-library");
        reveal_strlit("dashboard-search");
        reveal_strlit("new_group");
        reveal_strlit("cancel_delete");
        reveal_strlit("edit_group");
        assert("dashboard-home"@[10] != "dashboard-library"@[10]);
        assert("dashboard-home"@[10] != "dashboard-search"@[10]);
        assert("dashboard-library"@[10] != "dashboard-search"@[10]);
    }
    if str_equal(focused, "dashboard-home") {
        return FocusAction::OpenDashboard;
    }
    if str_equal(focused, "dashboard-library") {
        return FocusAction::OpenLibrary;
    }
    if str_equal(focused, "dashboard-search") {
        return FocusAction::OpenSearch;
    }
    if page == Page::Dashboard {
        if let Some(c) = dashboard_console_for_widget(consoles, focused) {
            return FocusAction::OpenConsole(c);
        }
        return match dashboard_entry_id_for_widget(shelves, focused) {
            Some(e) => FocusAction::ActivateDashboardApp(e),
            None => FocusAction::Nothing,
        };
    }
    if str_equal(focused, "new_group") {
        return FocusAction::SubmitNewGroup;
    }
    if str_equal(focused, "cancel_delete") {
        return FocusAction::ConfirmDelete;
    }
    if str_equal(focused, "edit_group") {
        return FocusAction::SubmitName;
    }
    match focused_entry_index(focused, entry_ids) {
        Some(i) => FocusAction::ActivateApp(i),
        None => FocusAction::Nothing,
    }
}

} // verus!
