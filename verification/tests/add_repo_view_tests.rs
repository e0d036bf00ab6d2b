use gh_pr_tui::add_repo_view::{AddRepoPopupView, FieldStyle, ScreenRect};
use gh_pr_tui::state::{AddRepoField, AddRepoForm};

fn form(org: &str, repo: &str, branch: &str, focused_field: AddRepoField) -> AddRepoForm {
    AddRepoForm { org: org.into(), repo: repo.into(), branch: branch.into(), focused_field }
}

#[test]
fn popup_is_centred_and_capped_at_seventy_columns() {
    let view = AddRepoPopupView::from_form(&AddRepoForm::default(), ScreenRect { x: 0, y: 0, width: 200, height: 50 });
    assert_eq!(view.area, ScreenRect { x: 65, y: 18, width: 70, height: 14 });
    let small = AddRepoPopupView::from_form(&AddRepoForm::default(), ScreenRect { x: 2, y: 1, width: 80, height: 10 });
    assert_eq!(small.area, ScreenRect { x: 18, y: 1, width: 48, height: 14 });
    assert_eq!(small.title, " Add New Repository ");
    assert_eq!(small.instructions, "Enter GitHub URL or fill in the fields manually:");
}

#[test]
fn focused_field_is_marked_and_empty_branch_shows_default() {
    let view = AddRepoPopupView::from_form(&form("acme", "tool", "", AddRepoField::Repo), ScreenRect { x: 0, y: 0, width: 100, height: 40 });
    assert_eq!(view.rows.len(), 3);
    assert_eq!(view.rows[0].marker, "  ");
    assert_eq!(view.rows[0].label, "Organization: ");
    assert_eq!(view.rows[0].value, "acme");
    assert_eq!(view.rows[0].style, FieldStyle::Normal);
    assert_eq!(view.rows[1].marker, "> ");
    assert!(view.rows[1].focused);
    assert_eq!(view.rows[1].style, FieldStyle::Focused);
    assert_eq!(view.rows[2].label, "Branch:       ");
    assert_eq!(view.rows[2].value, "main (default)");
    assert_eq!(view.rows[2].style, FieldStyle::Muted);
    let hints: Vec<(String, String)> = view.hints.iter().map(|(k, d)| (k.clone(), d.clone())).collect();
    assert_eq!(hints[0], ("Tab".to_string(), " navigate  ".to_string()));
    assert_eq!(hints[2], ("Esc".to_string(), " cancel".to_string()));
}

#[test]
fn typed_branch_is_shown() {
    let view = AddRepoPopupView::from_form(&form("", "", "dev", AddRepoField::Branch), ScreenRect { x: 0, y: 0, width: 100, height: 40 });
    assert_eq!(view.rows[2].value, "dev");
    assert_eq!(view.rows[2].style, FieldStyle::Focused);
    assert_eq!(view.rows[2].marker, "> ");
}
