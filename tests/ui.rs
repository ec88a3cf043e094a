use table_forge::ui::header::{Header, HeaderMessage};
use table_forge::ui::primary::{ContentMessage, Primary, PrimaryMessage};
use table_forge::ui::sidebar::{Sidebar, SidebarMessage};
use table_forge::ui::title::{Title, TitleMessage};

#[test]
fn title_starts_untitled_and_takes_edits() {
    let mut t = Title::new();
    assert_eq!(t.name(), "Untitled project*");
    assert_eq!(t.version(), "initial version");
    t.update(TitleMessage::NameInput("shop".to_string()));
    t.update(TitleMessage::VersionInput("v2".to_string()));
    assert_eq!(t.name(), "shop");
    assert_eq!(t.version(), "v2");
    assert_eq!(Title::default().name(), "Untitled project*");
}

#[test]
fn header_passes_title_edits_and_ignores_buttons() {
    let mut h = Header::new();
    h.update(HeaderMessage::Undo);
    h.update(HeaderMessage::Title(TitleMessage::NameInput("crm".to_string())));
    assert_eq!(h.title().name(), "crm");
    assert_eq!(h.title().version(), "initial version");
}

#[test]
fn primary_routes_messages() {
    let mut p = Primary::new();
    p.update(PrimaryMessage::Content(ContentMessage::Refresh));
    p.update(PrimaryMessage::Header(HeaderMessage::Title(TitleMessage::VersionInput(
        "draft".to_string(),
    ))));
    assert_eq!(p.header().title().version(), "draft");
    assert_eq!(p.header().title().name(), "Untitled project*");
}

#[test]
fn sidebar_keeps_one_entry_active() {
    let mut s = Sidebar::new();
    assert!(s.is_active(SidebarMessage::Diagram));
    s.update(SidebarMessage::Table);
    assert!(s.is_active(SidebarMessage::Table));
    assert!(!s.is_active(SidebarMessage::Diagram));
    s.update(SidebarMessage::Logo);
    assert!(s.is_active(SidebarMessage::Table));
    assert!(!s.is_active(SidebarMessage::Logo));
}
