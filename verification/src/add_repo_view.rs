//! What the add-repository popup shows: where it stands on screen, and each
//! field's row with its focus marker and the value or placeholder shown.
use crate::state::{AddRepoField, AddRepoForm};
use crate::text::push_str;
use vstd::prelude::*;

verus! {

/// A rectangle of the screen.
#[derive(Debug, Clone, Copy, PartialEq, Eq, Structural)]
pub struct ScreenRect {
    pub x: u16,
    pub y: u16,
    pub width: u16,
    pub height: u16,
}

/// Rows the popup takes.
pub const POPUP_HEIGHT: u16 = 14;

/// The popup's width: 60% of the screen, at most 70 columns.
pub open spec fn popup_width(area_width: u16) -> u16 {
    let w = (area_width * 60 / 100) as u16;
    if w < 70 { w } else { 70 }
}

/// Half of what is left of `total` beside `used`.
pub open spec fn centre_gap(total: u16, used: u16) -> u16 {
    ((if total >= used { total - used } else { 0 }) / 2) as u16
}

/// The popup, centred in `area`.
pub open spec fn popup_rect(area: ScreenRect) -> ScreenRect {
    let w = popup_width(area.width);
    ScreenRect {
        x: (area.x + centre_gap(area.width, w)) as u16,
        y: (area.y + centre_gap(area.height, POPUP_HEIGHT)) as u16,
        width: w,
        height: POPUP_HEIGHT,
    }
}

/// The popup fits the coordinates of the screen.
pub open spec fn popup_fits(area: ScreenRect) -> bool {
    &&& area.width * 60 <= u16::MAX
    &&& area.x + centre_gap(area.width, popup_width(area.width)) <= u16::MAX
    &&& area.y + centre_gap(area.height, POPUP_HEIGHT) <= u16::MAX
}

/// How a field's value is drawn.
#[derive(Debug, Clone, Copy, PartialEq, Eq, Structural)]
pub enum FieldStyle {
    /// The focused field, highlighted
    Focused,
    Normal,
    /// The default shown for an empty branch
    Muted,
}

/// One field of the form as shown.
pub struct FieldRow {
    /// `> ` before the focused field, two spaces before the others
    pub marker: String,
    pub label: String,
    pub value: String,
    pub focused: bool,
    pub style: FieldStyle,
}

pub open spec fn marker_text(focused: bool) -> Seq<char> {
    if focused { "> "@ } else { "  "@ }
}

pub open spec fn field_label(f: AddRepoField) -> Seq<char> {
    match f {
        AddRepoField::Org => "Organization: "@,
        AddRepoField::Repo => "Repository:   "@,
        AddRepoField::Branch => "Branch:       "@,
    }
}

/// The value shown: the branch field shows the default where it is empty.
pub open spec fn field_value(form: AddRepoForm, f: AddRepoField) -> Seq<char> {
    match f {
        AddRepoField::Org => form.org@,
        AddRepoField::Repo => form.repo@,
        AddRepoField::Branch => if form.branch@.len() == 0 { "main (default)"@ } else { form.branch@ },
    }
}

pub open spec fn field_style(form: AddRepoForm, f: AddRepoField) -> FieldStyle {
    if form.focused_field == f {
        FieldStyle::Focused
    } else if f == AddRepoField::Branch {
        FieldStyle::Muted
    } else {
        FieldStyle::Normal
    }
}

pub open spec fn row_shows(r: FieldRow, form: AddRepoForm, f: AddRepoField) -> bool {
    &&& r.focused == (form.focused_field == f)
    &&& r.marker@ == marker_text(form.focused_field == f)
    &&& r.label@ == field_label(f)
    &&& r.value@ == field_value(form, f)
    &&& r.style == field_style(form, f)
}

/// What the popup shows.
pub struct AddRepoPopupView {
    pub area: ScreenRect,
    pub title: String,
    pub instructions: String,
    /// Organisation, repository and branch, in this order
    pub rows: Vec<FieldRow>,
    /// Key and what it does
    pub hints: Vec<(String, String)>,
}

fn text_of(s: &str) -> (r: String)
    ensures
        r@ == s@,
{
    let mut acc: Vec<char> = Vec::new();
    push_str(&mut acc, s);
    crate::text::from_chars(acc.as_slice())
}

fn field_row(form: &AddRepoForm, f: AddRepoField) -> (r: FieldRow)
    ensures
        row_shows(r, *form, f),
{
    let focused = form.focused_field == f;
    let marker = if focused { text_of("> ") } else { text_of("  ") };
    let label = match f {
        AddRepoField::Org => text_of("Organization: "),
        AddRepoField::Repo => text_of("Repository:   "),
        AddRepoField::Branch => text_of("Branch:       "),
    };
    let value = match f {
        AddRepoField::Org => form.org.clone(),
        AddRepoField::Repo => form.repo.clone(),
        AddRepoField::Branch => if form.branch.as_str().is_empty() {
            text_of("main (default)")
        } else {
            form.branch.clone()
        },
    };
    let style = if focused {
        FieldStyle::Focused
    } else {
        match f {
            AddRepoField::Branch => FieldStyle::Muted,
            _ => FieldStyle::Normal,
        }
    };
    FieldRow { marker, label, value, focused, style }
}

impl AddRepoPopupView {
    /// The popup for `form`, centred in `area`.
    pub fn from_form(form: &AddRepoForm, area: ScreenRect) -> (r: Self)
        requires
            popup_fits(area),
        ensures
            r.area == popup_rect(area),
            r.title@ == " Add New Repository "@,
            r.instructions@ == "Enter GitHub URL or fill in the fields manually:"@,
            r.rows@.len() == 3,
            row_shows(r.rows@[0], *form, AddRepoField::Org),
            row_shows(r.rows@[1], *form, AddRepoField::Repo),
            row_shows(r.rows@[2], *form, AddRepoField::Branch),
            r.hints@.len() == 3,
            r.hints@[0].0@ == "Tab"@ && r.hints@[0].1@ == " navigate  "@,
            r.hints@[1].0@ == "Enter"@ && r.hints@[1].1@ == " add  "@,
            r.hints@[2].0@ == "Esc"@ && r.hints@[2].1@ == " cancel"@,
    {
        let share: u16 = area.width * 60 / 100;
        let width: u16 = if share < 70 { share } else { 70 };
        let x = area.x + area.width.saturating_sub(width) / 2;
        let y = area.y + area.height.saturating_sub(POPUP_HEIGHT) / 2;
        let rows = vec![
            field_row(form, AddRepoField::Org),
            field_row(form, AddRepoField::Repo),
            field_row(form, AddRepoField::Branch),
        ];
        let hints = vec![
            (text_of("Tab"), text_of(" navigate  ")),
            (text_of("Enter"), text_of(" add  ")),
            (text_of("Esc"), text_of(" cancel")),
        ];
        AddRepoPopupView {
            area: ScreenRect { x, y, width, height: POPUP_HEIGHT },
            title: text_of(" Add New Repository "),
            instructions: text_of("Enter GitHub URL or fill in the fields manually:"),
            rows,
            hints,
        }
    }
}

/// The popup stays inside the screen it is centred in, where the screen is
/// at least its height.
pub proof fn law_popup_inside(area: ScreenRect)
    requires
        popup_fits(area),
        area.height >= POPUP_HEIGHT,
    ensures
        popup_rect(area).x >= area.x,
        popup_rect(area).y >= area.y,
        popup_rect(area).x + popup_rect(area).width <= area.x + area.width,
        popup_rect(area).y + popup_rect(area).height <= area.y + area.height,
        popup_rect(area).width <= 70,
{
}

} // verus!
