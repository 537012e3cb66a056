use site_os::shell::{BottomBar, Desktop, FileType, InitIconSpacing, MsgTheme, RowColsCount, TopLeftEye, UserMsg};
use site_os::topbar::{DropDownShow, FinderAbout, FinderViewAsSortBy, LogoAboutSiteOs, TopBarField};

#[test]
fn grid_counts_saturate() {
    assert_eq!(RowColsCount::fitting(500, 300, 48), RowColsCount { rows: 6, cols: 10 });
    assert_eq!(RowColsCount::fitting(100_000, 47, 48), RowColsCount { rows: 0, cols: 255 });
}

#[test]
fn drop_down_click_toggles() {
    let none = DropDownShow(None);
    let logo = DropDownShow(Some(0));
    let file = DropDownShow(Some(2));
    assert_eq!(none.after_click(logo), logo);
    assert_eq!(logo.after_click(logo), none);
    assert_eq!(logo.after_click(file), file);
}

#[test]
fn drop_down_hover_moves_only_an_open_menu() {
    let none = DropDownShow(None);
    let logo = DropDownShow(Some(0));
    let file = DropDownShow(Some(2));
    assert_eq!(none.after_hover(file), none);
    assert_eq!(logo.after_hover(file), file);
    assert_eq!(file.after_hover(file), file);
}

#[test]
fn menu_entries_have_labels() {
    assert_eq!(FinderAbout.name(), "About");
    assert_eq!(LogoAboutSiteOs.name(), "About site_os");
    assert_eq!(FinderViewAsSortBy.name(), "As SortBy");
    assert!(FinderAbout.available());
}

#[test]
fn static_views() {
    assert_eq!(BottomBar().len(), 8);
    assert_eq!(BottomBar()[7], "/terminal.png");
    assert!(TopLeftEye().starts_with("<svg"));
    assert_eq!(InitIconSpacing(), "w-auto min-w-[0.25rem");
    assert!(Desktop().contains("flex-wrap"));
}

#[test]
fn messages_and_file_types() {
    let m = UserMsg::default();
    assert_eq!(m.theme, MsgTheme::Clear);
    assert!(!m.is_shown());
    let r = UserMsg { theme: MsgTheme::Red, header: "Error".to_string(), body: String::new() };
    assert!(r.is_shown());
    assert_eq!(FileType::default(), FileType::File);
}
