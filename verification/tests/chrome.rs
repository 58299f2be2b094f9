use zervo::chrome::{
    add_clock, offered_zones, remove_clock, settings_open, tab_drop, TabDrop, Zone,
    bell_badge, pill_hint, trouble_hint,
    back_step, clamp_step, first_space_name, name_edit, next_label, next_step, WorkspaceName,
    STEPS,
    chrome_theme, peek_available, preset_blurb, reloadable, Layout, NavItem, NavSide, Preset,
    SidebarHost, SliderOut, TabKind, ThemeMode, Trouble,
};

#[test]
fn the_default_bar_holds_every_item_once() {
    let mut bar = NavItem::default_left();
    bar.extend(NavItem::default_right());
    assert_eq!(bar.len(), NavItem::ALL.len());
    for item in NavItem::ALL {
        assert_eq!(bar.iter().filter(|placed| **placed == item).count(), 1);
    }
    assert_eq!(bar, NavItem::ALL.to_vec());
}

#[test]
fn nav_labels() {
    assert_eq!(NavItem::Favourite.label(), "Favourites");
    assert_eq!(NavItem::Downloads.label(), "Downloads");
    let labels: Vec<&str> = NavItem::ALL.iter().map(|item| item.label()).collect();
    for (i, a) in labels.iter().enumerate() {
        for b in &labels[i + 1..] {
            assert_ne!(a, b);
        }
    }
    assert_ne!(NavSide::Left, NavSide::Right);
}

#[test]
fn a_reveal_in_full_page_mode_carries_everything() {
    assert_eq!(SidebarHost::peeked(Layout::FullPage), SidebarHost::docked());
    let host = SidebarHost::peeked(Layout::Bar);
    assert!(host.compact && !host.utilities);
    let host = SidebarHost::peeked(Layout::Sidebar);
    assert!(host.compact && !host.utilities);
}

#[test]
fn the_edge_always_reveals_in_full_page_mode() {
    assert!(peek_available(false, Layout::FullPage));
    assert!(!peek_available(false, Layout::Bar));
    assert!(peek_available(true, Layout::Sidebar));
}

#[test]
fn only_pages_that_load_can_be_reloaded() {
    assert!(reloadable(TabKind::Web));
    assert!(reloadable(TabKind::Trouble(Trouble::Offline)));
    assert!(!reloadable(TabKind::NewTab));
    assert!(!reloadable(TabKind::Settings));
    assert!(!reloadable(TabKind::History));
    assert!(!reloadable(TabKind::Downloads));
}

#[test]
fn setup_words_and_themes() {
    assert_eq!(preset_blurb(Preset::Flat), "No blur, no sheen, square");
    assert_eq!(preset_blurb(Preset::LiquidGlass), "Translucent, unblurred");
    assert_eq!(chrome_theme(true), ThemeMode::Dark);
    assert_eq!(chrome_theme(false), ThemeMode::Light);
    assert!(!SliderOut::default().settled);
}

#[test]
fn setup_steps() {
    assert_eq!(STEPS, 6);
    assert_eq!(clamp_step(9), 5);
    assert_eq!(clamp_step(3), 3);
    assert_eq!(back_step(0), 0);
    assert_eq!(back_step(3), 2);
    assert_eq!(next_step(0), Some(1));
    assert_eq!(next_step(4), Some(5));
    assert_eq!(next_step(5), None);
    assert_eq!(next_label(4), "Finish");
    assert_eq!(next_label(1), "Next");
    for now in 1..STEPS {
        assert_eq!(next_step(back_step(now)), Some(now));
    }
    assert_eq!(first_space_name("  Work "), "Work");
    assert_eq!(first_space_name("   "), "Home");
    assert_eq!(first_space_name(""), "Home");
}

#[test]
fn renaming_a_workspace() {
    let typed = || "Work".to_owned();
    assert_eq!(name_edit(true, false, true, false, typed(), "Wor"), Some(WorkspaceName::Keep("Work".to_owned())));
    assert_eq!(name_edit(false, true, false, false, typed(), "Work"), Some(WorkspaceName::Keep("Work".to_owned())));
    assert_eq!(name_edit(false, false, false, true, typed(), "Wor"), Some(WorkspaceName::Discard));
    assert_eq!(name_edit(false, false, false, false, typed(), "Wor"), Some(WorkspaceName::Typing("Work".to_owned())));
    assert_eq!(name_edit(false, false, false, false, typed(), "Work"), None);
}

#[test]
fn the_address_badge() {
    assert_eq!(pill_hint(true, Some(TabKind::Web), Some("https://a.org")), "");
    assert_eq!(pill_hint(false, Some(TabKind::Web), Some("https://a.org")), "Encrypted connection");
    assert_eq!(
        pill_hint(false, Some(TabKind::Web), Some("http://a.org")),
        "Not encrypted — anyone on the network can read this"
    );
    assert_eq!(pill_hint(false, Some(TabKind::Web), Some("file:///tmp/x")), "A file on this computer");
    assert_eq!(pill_hint(false, Some(TabKind::NewTab), Some("zervo://newtab")), "");
    assert_eq!(pill_hint(false, Some(TabKind::Web), Some("https")), "Encrypted connection");
    assert_eq!(pill_hint(false, None, None), "");
    assert_eq!(
        pill_hint(false, Some(TabKind::Trouble(Trouble::Certificate)), Some("https://a.org")),
        "The certificate does not match this site"
    );
    assert_eq!(trouble_hint(Trouble::Offline), "No network");
}

#[test]
fn the_bell_count() {
    assert_eq!(bell_badge(0), None);
    assert_eq!(bell_badge(1), None);
    assert_eq!(bell_badge(2).as_deref(), Some("2"));
    assert_eq!(bell_badge(9).as_deref(), Some("9"));
    assert_eq!(bell_badge(10).as_deref(), Some("9+"));
    assert_eq!(bell_badge(250).as_deref(), Some("9+"));
}

#[test]
fn internal_pages_cover_the_content() {
    assert!(!settings_open(None));
    assert!(!settings_open(Some(TabKind::Web)));
    for kind in [TabKind::Settings, TabKind::NewTab, TabKind::Downloads, TabKind::History, TabKind::Trouble(Trouble::Crashed)] {
        assert!(settings_open(Some(kind)));
    }
}

#[test]
fn dropping_a_tab() {
    assert_eq!(tab_drop(7, 1, 3, Some(9)), TabDrop::Group { onto: 9, dragged: 7 });
    assert_eq!(tab_drop(7, 1, 3, Some(7)), TabDrop::Move { tab: 7, workspace: 1, index: 3 });
    assert_eq!(tab_drop(7, 0, 0, None), TabDrop::Move { tab: 7, workspace: 0, index: 0 });
}

#[test]
fn world_clocks_hold_each_zone_once() {
    let catalogue = [("London", "Europe/London"), ("Tokyo", "Asia/Tokyo"), ("Oslo", "Europe/Oslo")];
    let mut clocks: Vec<Zone> = Vec::new();
    add_clock(&mut clocks, "Tokyo", "Asia/Tokyo");
    assert_eq!(offered_zones(&catalogue, &clocks), vec![0, 2]);
    add_clock(&mut clocks, "Oslo", "Europe/Oslo");
    assert_eq!(offered_zones(&catalogue, &clocks), vec![0]);
    remove_clock(&mut clocks, 0);
    assert_eq!(clocks.len(), 1);
    assert_eq!(clocks[0].label, "Oslo");
    assert_eq!(offered_zones(&catalogue, &clocks), vec![0, 1]);
}
