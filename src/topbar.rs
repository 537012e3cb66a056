use vstd::prelude::*;

verus! {

/// An entry of a drop-down menu of the top bar.
pub trait TopBarField {
    /// The label shown for the entry.
    spec fn label(&self) -> Seq<char>;

    /// Whether the entry can be chosen.
    spec fn offered(&self) -> bool;

    fn name(&self) -> (r: &'static str)
        ensures
            r@ == self.label(),
    ;

    fn available(&self) -> (r: bool)
        ensures
            r == self.offered(),
    ;
}

#[derive(Clone, Copy, Debug, PartialEq, Eq, Structural)]
pub struct FinderAbout;

impl TopBarField for FinderAbout {
    open spec fn label(&self) -> Seq<char> {
        "About"@
    }

    open spec fn offered(&self) -> bool {
        true
    }

    fn name(&self) -> (r: &'static str) {
        "About"
    }

    fn available(&self) -> (r: bool) {
        true
    }
}

#[derive(Clone, Copy, Debug, PartialEq, Eq, Structural)]
pub struct FinderPreferences;

impl TopBarField for FinderPreferences {
    open spec fn label(&self) -> Seq<char> {
        "Preferences"@
    }

    open spec fn offered(&self) -> bool {
        true
    }

    fn name(&self) -> (r: &'static str) {
        "Preferences"
    }

    fn available(&self) -> (r: bool) {
        true
    }
}

#[derive(Clone, Copy, Debug, PartialEq, Eq, Structural)]
pub struct LogoAboutSiteOs;

impl TopBarField for LogoAboutSiteOs {
    open spec fn label(&self) -> Seq<char> {
        "About site_os"@
    }

    open spec fn offered(&self) -> bool {
        true
    }

    fn name(&self) -> (r: &'static str) {
        "About site_os"
    }

    fn available(&self) -> (r: bool) {
        true
    }
}

#[derive(Clone, Copy, Debug, PartialEq, Eq, Structural)]
pub struct LogoSystemPreferences;

impl TopBarField for LogoSystemPreferences {
    open spec fn label(&self) -> Seq<char> {
        "System Preferences"@
    }

    open spec fn offered(&self) -> bool {
        true
    }

    fn name(&self) -> (r: &'static str) {
        "System Preferences"
    }

    fn available(&self) -> (r: bool) {
        true
    }
}

#[derive(Clone, Copy, Debug, PartialEq, Eq, Structural)]
pub struct FinderFileNewFolder;

impl TopBarField for FinderFileNewFolder {
    open spec fn label(&self) -> Seq<char> {
        "New Folder"@
    }

    open spec fn offered(&self) -> bool {
        true
    }

    fn name(&self) -> (r: &'static str) {
        "New Folder"
    }

    fn available(&self) -> (r: bool) {
        true
    }
}

#[derive(Clone, Copy, Debug, PartialEq, Eq, Structural)]
pub struct FinderFileRename;

impl TopBarField for FinderFileRename {
    open spec fn label(&self) -> Seq<char> {
        "Rename"@
    }

    open spec fn offered(&self) -> bool {
        true
    }

    fn name(&self) -> (r: &'static str) {
        "Rename"
    }

    fn available(&self) -> (r: bool) {
        true
    }
}

#[derive(Clone, Copy, Debug, PartialEq, Eq, Structural)]
pub struct FinderEditUndo;

impl TopBarField for FinderEditUndo {
    open spec fn label(&self) -> Seq<char> {
        "Undo"@
    }

    open spec fn offered(&self) -> bool {
        true
    }

    fn name(&self) -> (r: &'static str) {
        "Undo"
    }

    fn available(&self) -> (r: bool) {
        true
    }
}

#[derive(Clone, Copy, Debug, PartialEq, Eq, Structural)]
pub struct FinderEditRedo;

impl TopBarField for FinderEditRedo {
    open spec fn label(&self) -> Seq<char> {
        "Redo"@
    }

    open spec fn offered(&self) -> bool {
        true
    }

    fn name(&self) -> (r: &'static str) {
        "Redo"
    }

    fn available(&self) -> (r: bool) {
        true
    }
}

#[derive(Clone, Copy, Debug, PartialEq, Eq, Structural)]
pub struct FinderEditCut;

impl TopBarField for FinderEditCut {
    open spec fn label(&self) -> Seq<char> {
        "Cut"@
    }

    open spec fn offered(&self) -> bool {
        true
    }

    fn name(&self) -> (r: &'static str) {
        "Cut"
    }

    fn available(&self) -> (r: bool) {
        true
    }
}

#[derive(Clone, Copy, Debug, PartialEq, Eq, Structural)]
pub struct FinderEditCopy;

impl TopBarField for FinderEditCopy {
    open spec fn label(&self) -> Seq<char> {
        "Copy"@
    }

    open spec fn offered(&self) -> bool {
        true
    }

    fn name(&self) -> (r: &'static str) {
        "Copy"
    }

    fn available(&self) -> (r: bool) {
        true
    }
}

#[derive(Clone, Copy, Debug, PartialEq, Eq, Structural)]
pub struct FinderEditPaste;

impl TopBarField for FinderEditPaste {
    open spec fn label(&self) -> Seq<char> {
        "Paste"@
    }

    open spec fn offered(&self) -> bool {
        true
    }

    fn name(&self) -> (r: &'static str) {
        "Paste"
    }

    fn available(&self) -> (r: bool) {
        true
    }
}

#[derive(Clone, Copy, Debug, PartialEq, Eq, Structural)]
pub struct FinderEditShowClipboard;

impl TopBarField for FinderEditShowClipboard {
    open spec fn label(&self) -> Seq<char> {
        "Show Clipboard"@
    }

    open spec fn offered(&self) -> bool {
        true
    }

    fn name(&self) -> (r: &'static str) {
        "Show Clipboard"
    }

    fn available(&self) -> (r: bool) {
        true
    }
}

#[derive(Clone, Copy, Debug, PartialEq, Eq, Structural)]
pub struct FinderViewAsColumns;

impl TopBarField for FinderViewAsColumns {
    open spec fn label(&self) -> Seq<char> {
        "As Columns"@
    }

    open spec fn offered(&self) -> bool {
        true
    }

    fn name(&self) -> (r: &'static str) {
        "As Columns"
    }

    fn available(&self) -> (r: bool) {
        true
    }
}

#[derive(Clone, Copy, Debug, PartialEq, Eq, Structural)]
pub struct FinderViewAsIcons;

impl TopBarField for FinderViewAsIcons {
    open spec fn label(&self) -> Seq<char> {
        "As Icons"@
    }

    open spec fn offered(&self) -> bool {
        true
    }

    fn name(&self) -> (r: &'static str) {
        "As Icons"
    }

    fn available(&self) -> (r: bool) {
        true
    }
}

#[derive(Clone, Copy, Debug, PartialEq, Eq, Structural)]
pub struct FinderViewAsList;

impl TopBarField for FinderViewAsList {
    open spec fn label(&self) -> Seq<char> {
        "As List"@
    }

    open spec fn offered(&self) -> bool {
        true
    }

    fn name(&self) -> (r: &'static str) {
        "As List"
    }

    fn available(&self) -> (r: bool) {
        true
    }
}

#[derive(Clone, Copy, Debug, PartialEq, Eq, Structural)]
pub struct FinderViewAsGallery;

impl TopBarField for FinderViewAsGallery {
    open spec fn label(&self) -> Seq<char> {
        "As Gallery"@
    }

    open spec fn offered(&self) -> bool {
        true
    }

    fn name(&self) -> (r: &'static str) {
        "As Gallery"
    }

    fn available(&self) -> (r: bool) {
        true
    }
}

#[derive(Clone, Copy, Debug, PartialEq, Eq, Structural)]
pub struct FinderViewAsSortBy;

impl TopBarField for FinderViewAsSortBy {
    open spec fn label(&self) -> Seq<char> {
        "As SortBy"@
    }

    open spec fn offered(&self) -> bool {
        true
    }

    fn name(&self) -> (r: &'static str) {
        "As SortBy"
    }

    fn available(&self) -> (r: bool) {
        true
    }
}

/// Which drop-down of the top bar is open: `Some(0)` for the logo's, `Some(k)`
/// for the k-th menu header, `None` for none.
#[derive(Clone, Copy, Debug, PartialEq, Eq, Structural)]
pub struct DropDownShow(pub Option<usize>);

impl DropDownShow {
    /// The drop-down open after a click on the button of `button`: a click on
    /// the open one closes it, any other opens that one.
    pub fn after_click(self, button: DropDownShow) -> (r: DropDownShow)
        ensures
            r == (if self == button {
                DropDownShow(None)
            } else {
                button
            }),
    {
        if self == button {
            DropDownShow(None)
        } else {
            button
        }
    }

    /// The drop-down open after the pointer moves onto the button of `button`:
    /// while some drop-down is open, the hovered one opens in its place.
    pub fn after_hover(self, button: DropDownShow) -> (r: DropDownShow)
        ensures
            r == (if self != button && self.0 is Some {
                button
            } else {
                self
            }),
    {
        if self != button && self.0.is_some() {
            button
        } else {
            self
        }
    }
}

/// Whether the entries of the open drop-down light up under the pointer.
#[derive(Clone, Copy, Debug, PartialEq, Eq, Structural)]
pub struct HoverHighlight(pub bool);

/// Where the open drop-down is placed: the left and the bottom of its button.
#[derive(Clone, Copy, Debug, PartialEq, Eq)]
pub struct DropDownXY(pub (i32, i32));

} // verus!
