use vstd::prelude::*;

verus! {

/// Whether a file-system entry is a folder or a file.
#[derive(Clone, Copy, Debug, PartialEq, Eq, Structural, Default)]
pub enum FileType {
    Directory,
    #[default]
    File,
}

/// How the icons of a folder or of the desktop are arranged.
#[derive(Clone, Copy, Debug, PartialEq, Eq, Structural)]
pub enum FileSortBy {
    Unsorted,
    SnapToGrid,
    Name,
    Kind,
    DateLastOpened,
    DateModified,
    DateCreated,
}

/// The colour of a message box; `Clear` hides it.
#[derive(Clone, Copy, Debug, PartialEq, Eq, Structural, Default)]
pub enum MsgTheme {
    Green,
    Red,
    #[default]
    Clear,
}

/// A message box shown to the user.
#[derive(Clone, Debug, PartialEq, Default)]
pub struct UserMsg {
    pub theme: MsgTheme,
    pub header: String,
    pub body: String,
}

impl UserMsg {
    /// Whether the box is drawn at all.
    pub fn is_shown(&self) -> (r: bool)
        ensures
            r == (self.theme != MsgTheme::Clear),
    {
        self.theme != MsgTheme::Clear
    }
}

/// How many icon cells of the desktop grid fit the area, saturating at 255.
#[derive(Clone, Copy, Debug, PartialEq, Eq, Structural, Default)]
pub struct RowColsCount {
    pub rows: u8,
    pub cols: u8,
}

/// `n`, or 255 where it is larger.
pub open spec fn saturated(n: int) -> int {
    if n > 255 {
        255
    } else {
        n
    }
}

impl RowColsCount {
    /// The cells of side `side` pixels that fit an area of `width` by
    /// `height` pixels.
    pub fn fitting(width: u32, height: u32, side: u32) -> (r: RowColsCount)
        requires
            side > 0,
        ensures
            r.rows == saturated(height as int / side as int),
            r.cols == saturated(width as int / side as int),
    {
        let rows = height / side;
        let cols = width / side;
        RowColsCount {
            rows: if rows > 255 { 255 } else { rows as u8 },
            cols: if cols > 255 { 255 } else { cols as u8 },
        }
    }
}

/// The class of the desktop area, which holds the icon grid.
#[allow(non_snake_case)]
pub fn Desktop() -> (r: &'static str)
    ensures
        r@ == "flex flex-wrap pt-8 pl-4 pr-4 pb-16 w-[95vw] h-[95vh] m-auto -z-50"@,
{
    "flex flex-wrap pt-8 pl-4 pr-4 pb-16 w-[95vw] h-[95vh] m-auto -z-50"
}

/// The class of the gap measured after each icon of the hidden measuring dock.
#[allow(non_snake_case)]
pub fn InitIconSpacing() -> (r: &'static str)
    ensures
        r@ == "w-auto min-w-[0.25rem"@,
{
    "w-auto min-w-[0.25rem"
}

/// The images of the static bottom bar, left to right.
#[allow(non_snake_case)]
pub fn BottomBar() -> (r: Vec<&'static str>)
    ensures
        r@.len() == 8,
        r@[0]@ == "/folder.png"@,
        r@[1]@ == "/browser.png"@,
        r@[2]@ == "/calendar.png"@,
        r@[3]@ == "/calculator.png"@,
        r@[4]@ == "/text.png"@,
        r@[5]@ == "/csv-file.png"@,
        r@[6]@ == "/picture.png"@,
        r@[7]@ == "/terminal.png"@,
{
    let mut v: Vec<&'static str> = Vec::new();
    v.push("/folder.png");
    v.push("/browser.png");
    v.push("/calendar.png");
    v.push("/calculator.png");
    v.push("/text.png");
    v.push("/csv-file.png");
    v.push("/picture.png");
    v.push("/terminal.png");
    v
}

/// The markup of the eye logo at the left end of the top bar.
#[allow(non_snake_case)]
pub fn TopLeftEye() -> (r: &'static str)
    ensures
        r@ == EYE_SVG@,
{
    EYE_SVG
}

pub const EYE_SVG: &'static str = "<svg class=\"h-6\" id=\"top_left_eye\" version=\"1.0\" xmlns=\"http://www.w3.org/2000/svg\" width=\"32.000000pt\" height=\"32.000000pt\" viewBox=\"0 0 32.000000 32.000000\" preserveAspectRatio=\"xMidYMid meet\"><g class=\"fill-white\" transform=\"translate(0.000000,32.000000) scale(0.100000,-0.100000)\" fill=\"#000000\" stroke=\"none\"><path d=\"M65 212 c-16 -11 -36 -26 -44 -36 -12 -14 -11 -19 5 -37 30 -33 89 -59 134 -59 45 0 104 26 134 59 19 21 19 21 0 42 -17 19 -65 49 -79 49 -3 0 -1 -9 5 -19 16 -31 12 -56 -13 -79 -30 -28 -68 -28 -95 1 -24 26 -27 48 -12 78 13 24 3 24 -35 1z\"/><path d=\"M134 196 c-10 -26 4 -48 28 -44 17 2 23 10 23 28 0 18 -6 26 -23 28 -13 2 -25 -3 -28 -12z\"/></g></svg>";

} // verus!
