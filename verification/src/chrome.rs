//! The chrome's small decisions: what sits in the navigation bar and what it
//! is called, what a revealed sidebar carries, which tabs can be reloaded,
//! and the words and themes the first-run setup shows.

use vstd::prelude::*;

use crate::chars::{chars_of, string_of};
use crate::text::{trim_chars, trimmed};

verus! {

// ── The navigation bar ─────────────────────────────────────────────────────

/// Something that can sit in the navigation bar. The bar is a list of these
/// rather than a fixed sequence of calls, so it can be rearranged.
#[derive(Clone, Copy, PartialEq, Eq, Hash, Debug, Structural)]
pub enum NavItem {
    Sidebar,
    Back,
    Forward,
    Reload,
    Favourite,
    Extensions,
    History,
    Downloads,
    Settings,
}

/// Which side of the address pill an item lives on.
#[derive(Clone, Copy, PartialEq, Eq, Debug, Structural)]
pub enum NavSide {
    Left,
    Right,
}

/// Every item, in the order the bar's configuration lists them.
pub open spec fn all_nav_items() -> Seq<NavItem> {
    seq![
        NavItem::Sidebar,
        NavItem::Back,
        NavItem::Forward,
        NavItem::Reload,
        NavItem::Favourite,
        NavItem::Extensions,
        NavItem::History,
        NavItem::Downloads,
        NavItem::Settings,
    ]
}

/// What sits left of the address pill until the reader moves it.
pub open spec fn default_left_items() -> Seq<NavItem> {
    seq![NavItem::Sidebar, NavItem::Back, NavItem::Forward, NavItem::Reload, NavItem::Favourite]
}

/// What sits right of the address pill until the reader moves it.
pub open spec fn default_right_items() -> Seq<NavItem> {
    seq![NavItem::Extensions, NavItem::History, NavItem::Downloads, NavItem::Settings]
}

/// An item's name, as its tooltip and the bar's configuration show it.
pub open spec fn nav_label(item: NavItem) -> Seq<char> {
    match item {
        NavItem::Sidebar => "Sidebar"@,
        NavItem::Back => "Back"@,
        NavItem::Forward => "Forward"@,
        NavItem::Reload => "Reload"@,
        NavItem::Favourite => "Favourites"@,
        NavItem::Extensions => "Extensions"@,
        NavItem::History => "History"@,
        NavItem::Downloads => "Downloads"@,
        NavItem::Settings => "Settings"@,
    }
}

impl NavItem {
    /// Every item, in the order the bar's configuration lists them.
    pub const ALL: [NavItem; 9] = [
        NavItem::Sidebar,
        NavItem::Back,
        NavItem::Forward,
        NavItem::Reload,
        NavItem::Favourite,
        NavItem::Extensions,
        NavItem::History,
        NavItem::Downloads,
        NavItem::Settings,
    ];

    pub fn default_left() -> (items: Vec<NavItem>)
        ensures
            items@ == default_left_items(),
    {
        let items = vec![
            NavItem::Sidebar,
            NavItem::Back,
            NavItem::Forward,
            NavItem::Reload,
            NavItem::Favourite,
        ];
        assert(items@ =~= default_left_items());
        items
    }

    pub fn default_right() -> (items: Vec<NavItem>)
        ensures
            items@ == default_right_items(),
    {
        let items = vec![
            NavItem::Extensions,
            NavItem::History,
            NavItem::Downloads,
            NavItem::Settings,
        ];
        assert(items@ =~= default_right_items());
        items
    }

    pub fn label(self) -> (out: &'static str)
        ensures
            out@ == nav_label(self),
    {
        match self {
            NavItem::Sidebar => "Sidebar",
            NavItem::Back => "Back",
            NavItem::Forward => "Forward",
            NavItem::Reload => "Reload",
            NavItem::Favourite => "Favourites",
            NavItem::Extensions => "Extensions",
            NavItem::History => "History",
            NavItem::Downloads => "Downloads",
            NavItem::Settings => "Settings",
        }
    }
}

/// The bar as it first appears holds every item exactly once: nothing is
/// missing from it, and nothing is on both sides.
pub proof fn law_default_bar_holds_every_item_once()
    ensures
        (default_left_items() + default_right_items()).len() == all_nav_items().len(),
        forall|item: NavItem| #[trigger]
            (default_left_items() + default_right_items()).contains(item),
        forall|i: int, j: int|
            0 <= i < j < (default_left_items() + default_right_items()).len() ==> (
            default_left_items() + default_right_items())[i] != (default_left_items()
                + default_right_items())[j],
{
    let bar = default_left_items() + default_right_items();
    assert(bar =~= all_nav_items());
    assert forall|item: NavItem| #[trigger] bar.contains(item) by {
        match item {
            NavItem::Sidebar => assert(bar[0] == item),
            NavItem::Back => assert(bar[1] == item),
            NavItem::Forward => assert(bar[2] == item),
            NavItem::Reload => assert(bar[3] == item),
            NavItem::Favourite => assert(bar[4] == item),
            NavItem::Extensions => assert(bar[5] == item),
            NavItem::History => assert(bar[6] == item),
            NavItem::Downloads => assert(bar[7] == item),
            NavItem::Settings => assert(bar[8] == item),
        }
    }
}

/// No two items share a name.
pub proof fn law_nav_labels_are_distinct(a: NavItem, b: NavItem)
    requires
        a != b,
    ensures
        nav_label(a) != nav_label(b),
{
    reveal_strlit("Sidebar");
    reveal_strlit("Back");
    reveal_strlit("Forward");
    reveal_strlit("Reload");
    reveal_strlit("Favourites");
    reveal_strlit("Extensions");
    reveal_strlit("History");
    reveal_strlit("Downloads");
    reveal_strlit("Settings");
    assert(nav_label(a).len() != nav_label(b).len() || nav_label(a)[0] != nav_label(b)[0]
        || nav_label(a)[1] != nav_label(b)[1]);
}

// ── Layouts and the revealed sidebar ───────────────────────────────────────

/// Where the chrome lives: a docked sidebar, a bar across the top, or
/// nowhere, with the page filling the window.
#[derive(Clone, Copy, PartialEq, Eq, Debug, Structural)]
pub enum Layout {
    Sidebar,
    Bar,
    FullPage,
}

/// Which of the sidebar's two jobs a copy of it is doing.
///
/// `compact` drops what the navigation bar is already showing: the nav row
/// and the address pill. `utilities` is a separate question, because
/// full-page mode has no bar either: there, the revealed panel is the only
/// chrome there is and it has to carry everything.
#[derive(Clone, Copy, PartialEq, Eq, Debug, Structural)]
pub struct SidebarHost {
    pub compact: bool,
    pub utilities: bool,
}

/// What a sidebar revealed over the page in `layout` carries.
pub open spec fn peeked_host(layout: Layout) -> SidebarHost {
    SidebarHost { compact: layout != Layout::FullPage, utilities: layout == Layout::FullPage }
}

/// Whether brushing the left edge reveals the sidebar.
pub open spec fn peek_allowed(sidebar_autohide: bool, layout: Layout) -> bool {
    sidebar_autohide || layout == Layout::FullPage
}

impl SidebarHost {
    /// The docked panel: it has the window to itself.
    pub fn docked() -> (host: Self)
        ensures
            !host.compact,
            host.utilities,
    {
        SidebarHost { compact: false, utilities: true }
    }

    /// A reveal over the page. What it carries depends on what the layout it
    /// was revealed from is already showing: in full-page mode nothing, so
    /// the reveal is the whole of the chrome.
    pub fn peeked(layout: Layout) -> (host: Self)
        ensures
            host == peeked_host(layout),
    {
        let alone = layout == Layout::FullPage;
        SidebarHost { compact: !alone, utilities: alone }
    }
}

/// Whether brushing the window's left edge reveals the sidebar: the reader's
/// setting, except in full-page mode, where there is no other way back to the
/// tabs and it is always on.
pub fn peek_available(sidebar_autohide: bool, layout: Layout) -> (b: bool)
    ensures
        b == peek_allowed(sidebar_autohide, layout),
{
    sidebar_autohide || layout == Layout::FullPage
}

/// A revealed sidebar carries the nav row and the address pill exactly when
/// it does not carry the utilities: the one it drops is the one the layout
/// already shows elsewhere, and in full-page mode, where nothing else shows,
/// it carries everything and can always be revealed.
pub proof fn law_reveal_carries_what_is_missing(layout: Layout, sidebar_autohide: bool)
    ensures
        peeked_host(layout).compact != peeked_host(layout).utilities,
        layout == Layout::FullPage ==> peeked_host(layout) == (SidebarHost {
            compact: false,
            utilities: true,
        }),
        layout == Layout::FullPage ==> peek_allowed(sidebar_autohide, layout),
{
}

// ── Tabs ───────────────────────────────────────────────────────────────────

/// The pages a tab that would not load lands on.
#[derive(Clone, Copy, PartialEq, Eq, Debug, Structural)]
pub enum Trouble {
    Offline,
    NotFound,
    Certificate,
    Crashed,
    Unsupported,
}

/// What a tab is showing.
#[derive(Clone, Copy, PartialEq, Eq, Debug, Structural)]
pub enum TabKind {
    Web,
    NewTab,
    Settings,
    History,
    Downloads,
    Trouble(Trouble),
}

/// Whether reloading this kind of tab means anything: a web page, and a
/// trouble page, whose whole purpose is to be tried again. The other internal
/// pages are drawn from state that is already live.
pub fn reloadable(kind: TabKind) -> (b: bool)
    ensures
        b == (kind is Web || kind is Trouble),
{
    match kind {
        TabKind::Web | TabKind::Trouble(_) => true,
        _ => false,
    }
}

/// Whether the active tab is one of the pages the chrome draws itself, which
/// cover the content area so that nothing of the web view is shown.
pub open spec fn internal_page_open(kind: Option<TabKind>) -> bool {
    match kind {
        Some(TabKind::Web) | None => false,
        Some(_) => true,
    }
}

/// Whether an internal page covers the content area, for the active tab's
/// kind, if there is an active tab.
pub fn settings_open(kind: Option<TabKind>) -> (open: bool)
    ensures
        open == internal_page_open(kind),
{
    match kind {
        Some(TabKind::Settings) | Some(TabKind::NewTab) | Some(TabKind::Downloads) | Some(
            TabKind::History,
        ) | Some(TabKind::Trouble(_)) => true,
        _ => false,
    }
}

/// What dropping a dragged tab in the sidebar does. Tabs are named by their
/// numbers.
#[derive(Clone, Copy, Debug, PartialEq, Eq, Structural)]
pub enum TabDrop {
    /// Dropped on another tab: the two become a workspace.
    Group { onto: u64, dragged: u64 },
    /// Dropped between tabs: the tab moves to `index` in `workspace`.
    Move { tab: u64, workspace: usize, index: usize },
}

/// What a drop of `held` does, given the place under the pointer and the tab
/// it is over, if it is over one. Dropping a tab on itself is the one case
/// that means nothing, and it is taken as a move to where it already is.
pub open spec fn drop_outcome(held: u64, workspace: usize, index: usize, onto: Option<u64>) -> TabDrop {
    match onto {
        Some(target) if target != held => TabDrop::Group { onto: target, dragged: held },
        _ => TabDrop::Move { tab: held, workspace, index },
    }
}

/// What a drop of `held` does, as [`drop_outcome`] says.
pub fn tab_drop(held: u64, workspace: usize, index: usize, onto: Option<u64>) -> (drop: TabDrop)
    ensures
        drop == drop_outcome(held, workspace, index, onto),
{
    match onto {
        Some(target) if target != held => TabDrop::Group { onto: target, dragged: held },
        _ => TabDrop::Move { tab: held, workspace, index },
    }
}

/// A tab is never grouped with itself.
pub proof fn law_a_tab_is_never_grouped_with_itself(held: u64, workspace: usize, index: usize, onto: Option<u64>)
    ensures
        drop_outcome(held, workspace, index, onto) matches TabDrop::Group { onto: target, dragged }
            ==> target != dragged && dragged == held,
{
}

// ── World clocks ───────────────────────────────────────────────────────────

/// A city on the new tab page's world clock: what it is called, and the
/// IANA zone it reads.
pub struct Zone {
    pub label: String,
    pub name: String,
}

/// Whether a zone called `name` is among `clocks`.
pub open spec fn has_zone(clocks: Seq<Zone>, name: Seq<char>) -> bool {
    exists|k: int| 0 <= k < clocks.len() && (#[trigger] clocks[k]).name@ == name
}

/// Whether no zone is on the clock twice.
pub open spec fn zones_distinct(clocks: Seq<Zone>) -> bool {
    forall|k: int, l: int| 0 <= k < l < clocks.len() ==> (#[trigger] clocks[k]).name@ != (#[trigger] clocks[l]).name@
}

/// Whether the zone `name` is already on the clock.
pub fn zone_listed(clocks: &Vec<Zone>, name: &str) -> (listed: bool)
    ensures
        listed == has_zone(clocks@, name@),
{
    let target = chars_of(name);
    let mut k: usize = 0;
    while k < clocks.len()
        invariant
            k <= clocks.len(),
            target@ == name@,
            forall|m: int| 0 <= m < k ==> (#[trigger] clocks@[m]).name@ != name@,
        decreases clocks.len() - k,
    {
        if crate::wallpaper::same_chars(&chars_of(clocks[k].name.as_str()), &target) {
            assert(clocks@[k as int].name@ == name@);
            return true;
        }
        k = k + 1;
    }
    false
}

/// Which cities of `catalogue`, given as (label, zone) pairs, can be added:
/// their places in it, in order, for every one whose zone is not already on
/// the clock, and for nothing else.
pub fn offered_zones(catalogue: &[(&str, &str)], clocks: &Vec<Zone>) -> (offered: Vec<usize>)
    ensures
        forall|k: int| 0 <= k < offered.len() ==> offered[k] < catalogue.len() && !has_zone(
            clocks@,
            catalogue@[offered[k] as int].1@,
        ),
        forall|k: int, l: int| 0 <= k < l < offered.len() ==> offered[k] < offered[l],
        forall|i: int| 0 <= i < catalogue.len() && !has_zone(clocks@, (#[trigger] catalogue@[i]).1@)
            ==> offered@.contains(i as usize),
{
    let mut offered: Vec<usize> = Vec::new();
    let mut i: usize = 0;
    while i < catalogue.len()
        invariant
            i <= catalogue.len(),
            forall|k: int| 0 <= k < offered.len() ==> offered[k] < i && !has_zone(
                clocks@,
                catalogue@[offered[k] as int].1@,
            ),
            forall|k: int, l: int| 0 <= k < l < offered.len() ==> offered[k] < offered[l],
            forall|j: int| 0 <= j < i && !has_zone(clocks@, (#[trigger] catalogue@[j]).1@)
                ==> offered@.contains(j as usize),
        decreases catalogue.len() - i,
    {
        let (_, zone) = catalogue[i];
        if !zone_listed(clocks, zone) {
            let ghost prev = offered@;
            offered.push(i);
            proof {
                assert forall|j: int| 0 <= j < i + 1 && !has_zone(clocks@, (#[trigger] catalogue@[j]).1@)
                    implies offered@.contains(j as usize) by {
                    if j == i {
                        assert(offered@[offered.len() - 1] == i);
                    } else {
                        assert(prev.contains(j as usize));
                        let k = choose|k: int| 0 <= k < prev.len() && prev[k] == j as usize;
                        assert(offered@[k] == j as usize);
                    }
                }
            }
        }
        i = i + 1;
    }
    offered
}

/// Put a city on the clock, at the end.
pub fn add_clock(clocks: &mut Vec<Zone>, label: &str, name: &str)
    ensures
        final(clocks)@.len() == old(clocks)@.len() + 1,
        final(clocks)@.take(old(clocks)@.len() as int) == old(clocks)@,
        final(clocks)@.last().label@ == label@,
        final(clocks)@.last().name@ == name@,
{
    clocks.push(Zone { label: String::from_str(label), name: String::from_str(name) });
    assert(final(clocks)@.take(old(clocks)@.len() as int) =~= old(clocks)@);
}

/// Take the city at `index` off the clock.
pub fn remove_clock(clocks: &mut Vec<Zone>, index: usize)
    requires
        index < old(clocks)@.len(),
    ensures
        final(clocks)@ == old(clocks)@.remove(index as int),
{
    clocks.remove(index);
}

/// Adding only what is offered keeps every city on the clock once, and
/// taking one off leaves the rest once each.
pub proof fn law_clock_holds_each_zone_once(clocks: Seq<Zone>, added: Zone, index: int)
    requires
        zones_distinct(clocks),
    ensures
        !has_zone(clocks, added.name@) ==> zones_distinct(clocks.push(added)),
        0 <= index < clocks.len() ==> zones_distinct(clocks.remove(index)),
{
    if !has_zone(clocks, added.name@) {
        let grown = clocks.push(added);
        assert forall|k: int, l: int| 0 <= k < l < grown.len() implies (#[trigger] grown[k]).name@
            != (#[trigger] grown[l]).name@ by {
            if l == clocks.len() {
                assert(grown[k] == clocks[k]);
                if grown[k].name@ == added.name@ {
                    assert(has_zone(clocks, added.name@));
                }
            } else {
                assert(grown[k] == clocks[k] && grown[l] == clocks[l]);
            }
        }
    }
    if 0 <= index < clocks.len() {
        let fewer = clocks.remove(index);
        assert forall|k: int, l: int| 0 <= k < l < fewer.len() implies (#[trigger] fewer[k]).name@
            != (#[trigger] fewer[l]).name@ by {
            let k0 = if k < index { k } else { k + 1 };
            let l0 = if l < index { l } else { l + 1 };
            assert(fewer[k] == clocks[k0]);
            assert(fewer[l] == clocks[l0]);
        }
    }
}

// ── Naming a workspace ─────────────────────────────────────────────────────

/// What an inline rename of a workspace asks for this frame.
#[derive(Debug, PartialEq, Eq)]
pub enum WorkspaceName {
    /// Still being typed: this is the draft so far.
    Typing(String),
    /// Confirmed: this is the new name.
    Keep(String),
    /// Abandoned: the old name stands.
    Discard,
}

/// What the rename field reports, given what was clicked or pressed, the
/// text in it now, and the draft it started the frame with. Confirming wins
/// over abandoning; with neither, only a changed draft is reported, since a
/// report every frame would overwrite a rename asked for elsewhere.
pub open spec fn name_edit_for(
    keep: bool,
    entered: bool,
    discard: bool,
    escaped: bool,
    text: Seq<char>,
    draft: Seq<char>,
) -> Option<(Option<Seq<char>>, bool)> {
    if keep || entered {
        Some((Some(text), true))
    } else if discard || escaped {
        Some((None, false))
    } else if text != draft {
        Some((Some(text), false))
    } else {
        None
    }
}

/// The view of a rename report: the name it carries, if any, and whether
/// it is confirmed.
pub open spec fn edit_view(edit: Option<WorkspaceName>) -> Option<(Option<Seq<char>>, bool)> {
    match edit {
        Some(WorkspaceName::Keep(name)) => Some((Some(name@), true)),
        Some(WorkspaceName::Discard) => Some((None, false)),
        Some(WorkspaceName::Typing(name)) => Some((Some(name@), false)),
        None => None,
    }
}

/// What the rename field reports this frame, as [`name_edit_for`] says.
pub fn name_edit(
    keep: bool,
    entered: bool,
    discard: bool,
    escaped: bool,
    text: String,
    draft: &str,
) -> (edit: Option<WorkspaceName>)
    ensures
        edit_view(edit) == name_edit_for(keep, entered, discard, escaped, text@, draft@),
        !keep && !entered && (discard || escaped) ==> edit matches Some(WorkspaceName::Discard),
{
    if keep || entered {
        Some(WorkspaceName::Keep(text))
    } else if discard || escaped {
        Some(WorkspaceName::Discard)
    } else if !crate::wallpaper::same_chars(&chars_of(text.as_str()), &chars_of(draft)) {
        Some(WorkspaceName::Typing(text))
    } else {
        None
    }
}

/// What a rename reports, by what was done: Enter or the keep control
/// confirms what was typed; without a confirmation, the discard control or
/// Escape abandons the rename whatever was typed; with nothing clicked or
/// pressed, the text is reported as a draft exactly when it changed.
pub proof fn law_rename_outcomes(
    keep: bool,
    entered: bool,
    discard: bool,
    escaped: bool,
    text: Seq<char>,
    draft: Seq<char>,
)
    ensures
        keep || entered ==> name_edit_for(keep, entered, discard, escaped, text, draft) == Some(
            (Some(text), true),
        ),
        !keep && !entered && discard ==> name_edit_for(keep, entered, discard, escaped, text, draft)
            == Some((None::<Seq<char>>, false)),
        !keep && !entered && escaped ==> name_edit_for(keep, entered, discard, escaped, text, draft)
            == Some((None::<Seq<char>>, false)),
        !keep && !entered && !discard && !escaped && text != draft ==> name_edit_for(
            keep,
            entered,
            discard,
            escaped,
            text,
            draft,
        ) == Some((Some(text), false)),
        !keep && !entered && !discard && !escaped && text == draft ==> name_edit_for(
            keep,
            entered,
            discard,
            escaped,
            text,
            draft,
        ) is None,
{
}

// ── The address pill's badge and the notification bell ─────────────────────

/// What the badge beside the address says about a trouble page.
pub open spec fn trouble_hint_text(trouble: Trouble) -> Seq<char> {
    match trouble {
        Trouble::Unsupported => "The engine cannot render this page"@,
        Trouble::Offline => "No network"@,
        Trouble::Certificate => "The certificate does not match this site"@,
        Trouble::NotFound => "Nothing answered at this address"@,
        Trouble::Crashed => "The engine fell over on this page"@,
    }
}

/// What the badge says about a page at an address with this scheme.
pub open spec fn scheme_hint_text(scheme: Seq<char>) -> Seq<char> {
    if scheme == "https"@ {
        "Encrypted connection"@
    } else if scheme == "http"@ {
        "Not encrypted — anyone on the network can read this"@
    } else if scheme == "file"@ {
        "A file on this computer"@
    } else {
        seq![]
    }
}

/// What the badge beside the address says. Nothing while the address is
/// being edited, since it then describes the box and not a page; a trouble
/// page says what it is; otherwise the active page's scheme, the text before
/// its first `:`, says how it was reached.
pub open spec fn pill_hint_text(editing: bool, kind: Option<TabKind>, url: Option<Seq<char>>) -> Seq<char> {
    if editing {
        seq![]
    } else {
        match kind {
            Some(TabKind::Trouble(trouble)) => trouble_hint_text(trouble),
            _ => match url {
                Some(u) => scheme_hint_text(crate::text::before_pat(u, ":"@)),
                None => seq![],
            },
        }
    }
}

/// The badge's words for a trouble page.
pub fn trouble_hint(trouble: Trouble) -> (hint: &'static str)
    ensures
        hint@ == trouble_hint_text(trouble),
{
    match trouble {
        Trouble::Unsupported => "The engine cannot render this page",
        Trouble::Offline => "No network",
        Trouble::Certificate => "The certificate does not match this site",
        Trouble::NotFound => "Nothing answered at this address",
        Trouble::Crashed => "The engine fell over on this page",
    }
}

/// The badge's words, as [`pill_hint_text`] says. `kind` and `url` are the
/// active tab's, when there is one.
pub fn pill_hint(editing: bool, kind: Option<TabKind>, url: Option<&str>) -> (hint: &'static str)
    ensures
        hint@ == pill_hint_text(editing, kind, match url {
            Some(u) => Some(u@),
            None => None,
        }),
{
    proof {
        reveal_strlit("");
    }
    if editing {
        return "";
    }
    if let Some(TabKind::Trouble(trouble)) = kind {
        return trouble_hint(trouble);
    }
    match url {
        None => "",
        Some(u) => {
            let v = chars_of(u);
            let colon = chars_of(":");
            proof {
                reveal_strlit(":");
            }
            assert(v@.skip(0) =~= v@);
            let end = match crate::text::find_from(&v, 0, &colon) {
                Some(i) => i,
                None => {
                    assert(v@.take(v.len() as int) =~= v@);
                    v.len()
                },
            };
            assert(v@.take(end as int) == crate::text::before_pat(v@, ":"@));
            let scheme = crate::text::prefix(&v, end);
            if crate::wallpaper::same_chars(&scheme, &chars_of("https")) {
                "Encrypted connection"
            } else if crate::wallpaper::same_chars(&scheme, &chars_of("http")) {
                "Not encrypted — anyone on the network can read this"
            } else if crate::wallpaper::same_chars(&scheme, &chars_of("file")) {
                "A file on this computer"
            } else {
                ""
            }
        },
    }
}

/// The count on the notification bell's shoulder: none for one notification
/// or fewer, the number up to nine, and `9+` past that.
pub open spec fn bell_badge_text(count: nat) -> Option<Seq<char>> {
    if count <= 1 {
        None
    } else if count > 9 {
        Some("9+"@)
    } else {
        Some(crate::sources::decimal(count))
    }
}

/// The count on the notification bell, as [`bell_badge_text`] says.
pub fn bell_badge(count: usize) -> (text: Option<String>)
    ensures
        crate::sources::opt_string_view(text) == bell_badge_text(count as nat),
{
    if count <= 1 {
        None
    } else if count > 9 {
        Some(String::from_str("9+"))
    } else {
        let mut text = String::new();
        crate::sources::push_decimal(&mut text, count as u64);
        Some(text)
    }
}

// ── The content card and the settings controls ─────────────────────────────

/// How the content card's corners are finished.
#[derive(Clone, Copy, PartialEq, Eq, Debug, Structural)]
pub enum Corners {
    /// An internal page, drawn with rounded corners of its own.
    AlreadyRounded,
    /// Cut out of the framebuffer; the chrome is painted back at its tint.
    Cut,
    /// Nothing could be cut, so the page's square corner is hidden.
    Masked,
}

/// What a slider reports back.
#[derive(Clone, Copy, PartialEq, Eq, Debug, Structural)]
pub struct SliderOut {
    /// The interaction finished, so this is a value worth keeping.
    pub settled: bool,
}

impl Default for SliderOut {
    fn default() -> (s: Self)
        ensures
            !s.settled,
    {
        SliderOut { settled: false }
    }
}

// ── The first-run setup ────────────────────────────────────────────────────

/// The looks the setup offers.
#[derive(Clone, Copy, PartialEq, Eq, Debug, Structural)]
pub enum Preset {
    Zervo,
    Candy,
    Flat,
    LiquidGlass,
    Material,
}

/// The line under each look in the setup.
pub open spec fn preset_line(preset: Preset) -> Seq<char> {
    match preset {
        Preset::Zervo => "Quiet, settled, finished"@,
        Preset::Candy => "Frosted, lit, colourful"@,
        Preset::Flat => "No blur, no sheen, square"@,
        Preset::LiquidGlass => "Translucent, unblurred"@,
        Preset::Material => "Generous corners, no glass"@,
    }
}

pub fn preset_blurb(preset: Preset) -> (out: &'static str)
    ensures
        out@ == preset_line(preset),
{
    match preset {
        Preset::Zervo => "Quiet, settled, finished",
        Preset::Candy => "Frosted, lit, colourful",
        Preset::Flat => "No blur, no sheen, square",
        Preset::LiquidGlass => "Translucent, unblurred",
        Preset::Material => "Generous corners, no glass",
    }
}

/// Light or dark chrome.
#[derive(Clone, Copy, PartialEq, Eq, Debug, Structural)]
pub enum ThemeMode {
    Light,
    Dark,
}

/// The theme that matches a palette, given whether the palette is dark.
pub fn chrome_theme(dark: bool) -> (mode: ThemeMode)
    ensures
        mode == (if dark {
            ThemeMode::Dark
        } else {
            ThemeMode::Light
        }),
{
    if dark {
        ThemeMode::Dark
    } else {
        ThemeMode::Light
    }
}


/// The setup's steps: a welcome, four questions, and a last look. The first
/// and last are not questions, which is why the counter says four.
pub const STEPS: u8 = 6;

/// A step asked for, kept to the steps there are.
pub open spec fn clamped_step(to: u8) -> u8 {
    if to < STEPS {
        to
    } else {
        (STEPS - 1) as u8
    }
}

/// Where the setup is, given the step it was sent to.
pub fn clamp_step(to: u8) -> (step: u8)
    ensures
        step == clamped_step(to),
        step < STEPS,
{
    if to < STEPS {
        to
    } else {
        STEPS - 1
    }
}

/// Where Back goes from `now`: the step before, or the first.
pub open spec fn step_back(now: u8) -> u8 {
    clamped_step(if now == 0 {
        0u8
    } else {
        (now - 1) as u8
    })
}

/// Where Back goes from `now`.
pub fn back_step(now: u8) -> (step: u8)
    ensures
        step == step_back(now),
{
    clamp_step(now.saturating_sub(1))
}

/// Where Next goes from `now`: the step after, unless this is the last.
pub open spec fn step_next(now: u8) -> Option<u8> {
    if now + 1 < STEPS {
        Some((now + 1) as u8)
    } else {
        None
    }
}

/// Where Next goes from `now`, if there is a Next at all.
pub fn next_step(now: u8) -> (step: Option<u8>)
    ensures
        step == step_next(now),
{
    if now < STEPS - 1 {
        Some(now + 1)
    } else {
        None
    }
}

/// What the forward button says at `now`: the step before the last finishes.
pub open spec fn next_label_text(now: u8) -> Seq<char> {
    if now + 2 == STEPS {
        "Finish"@
    } else {
        "Next"@
    }
}

/// What the forward button says at `now`.
pub fn next_label(now: u8) -> (label: &'static str)
    ensures
        label@ == next_label_text(now),
{
    if now == STEPS - 2 {
        "Finish"
    } else {
        "Next"
    }
}

/// The first workspace's name, from what was typed: trimmed, or `Home` when
/// nothing was.
pub open spec fn first_space_text(typed: Seq<char>) -> Seq<char> {
    if trimmed(typed).len() == 0 {
        "Home"@
    } else {
        trimmed(typed)
    }
}

/// The first workspace's name, from what was typed in the setup.
pub fn first_space_name(typed: &str) -> (name: String)
    ensures
        name@ == first_space_text(typed@),
{
    let name = trim_chars(&chars_of(typed));
    if name.len() == 0 {
        String::from_str("Home")
    } else {
        string_of(&name)
    }
}

/// The setup never leaves its steps: Back and Next from any step land on a
/// step, Back from the first stays there, and Next from the last is not
/// offered.
pub proof fn law_setup_stays_in_its_steps(now: u8)
    requires
        now < STEPS,
    ensures
        step_back(now) < STEPS,
        step_next(now) matches Some(next) ==> next < STEPS,
        step_back(0) == 0,
        step_next((STEPS - 1) as u8) is None,
{
}

/// Back undoes Next: going forward from a step and back again returns to it,
/// and so does going back from a step after the first and forward again.
pub proof fn law_back_undoes_next(now: u8)
    requires
        now < STEPS,
    ensures
        step_next(now) matches Some(next) ==> step_back(next) == now,
        now > 0 ==> step_next(step_back(now)) == Some(now),
{
}

/// Next reaches the last step from any step, one press at a time, and the
/// button that gets there is the one that says Finish.
pub proof fn law_next_reaches_the_end(now: u8)
    requires
        now < STEPS,
    ensures
        now + 1 < STEPS ==> step_next(now) == Some((now + 1) as u8),
        next_label_text(now) == "Finish"@ <==> step_next(now) == Some((STEPS - 1) as u8),
{
    reveal_strlit("Finish");
    reveal_strlit("Next");
    if next_label_text(now) == "Finish"@ && now + 2 != STEPS {
        assert("Next"@[0] != "Finish"@[0]);
    }
}

} // verus!
