use lavish::menu::{Mesh, MeshPreview};
use lavish::engine::Completion;
use lavish::prompt::{prompt_left, prompt_right, Color, EditMode, StyledSpan};

fn joined(spans: &[StyledSpan]) -> String {
    let mut out = String::new();
    for s in spans {
        out.push_str(&s.text);
    }
    out
}

#[test]
fn left_segment_orders_user_directory_and_indicator() {
    let r = prompt_left(EditMode::Insert, false, Some("alice"), "projects");
    let texts: Vec<&str> = r.iter().map(|s| s.text.as_str()).collect();
    assert_eq!(texts, vec![" ", "alice", " ", "projects", " ", ">", " "]);
    assert_eq!(r[1].color, Color::Blue);
    assert_eq!(r[3].color, Color::White);
    assert!(r[3].bold);
    assert_eq!(r[5].color, Color::Cyan);
}

#[test]
fn left_segment_omits_unavailable_user_name() {
    let r = prompt_left(EditMode::Insert, false, None, "projects");
    let texts: Vec<&str> = r.iter().map(|s| s.text.as_str()).collect();
    assert_eq!(texts, vec![" ", " ", "projects", " ", ">", " "]);
}

#[test]
fn left_segment_on_multiline_buffer_is_only_the_indicator() {
    let r = prompt_left(EditMode::Insert, true, Some("alice"), "projects");
    let texts: Vec<&str> = r.iter().map(|s| s.text.as_str()).collect();
    assert_eq!(texts, vec![" ", ">", " "]);
    let flat = joined(&r);
    assert_eq!(flat, " > ");
    assert!(!flat.contains("alice"));
    assert!(!flat.contains("projects"));
}

#[test]
fn the_two_modes_get_distinct_glyphs_and_colors() {
    let ins = prompt_left(EditMode::Insert, true, None, "");
    let nor = prompt_left(EditMode::Normal, true, None, "");
    assert_eq!(ins[1].text, ">");
    assert_eq!(ins[1].color, Color::Cyan);
    assert_eq!(nor[1].text, ":");
    assert_eq!(nor[1].color, Color::Yellow);
    assert_ne!(ins[1].text, nor[1].text);
}

#[test]
fn right_segment_with_branch_time_and_language() {
    let r = prompt_right(Some("main"), Some("1.2s"), "bash");
    let texts: Vec<&str> = r.iter().map(|s| s.text.as_str()).collect();
    assert_eq!(texts, vec!["git:main", " ", "1.2s", " ", "bash", " "]);
    assert_eq!(r[0].color, Color::Blue);
    assert!(r[0].bold);
}

#[test]
fn right_segment_outside_a_repository_has_no_branch_label() {
    let r = prompt_right(None, Some("1.2s"), "bash");
    let texts: Vec<&str> = r.iter().map(|s| s.text.as_str()).collect();
    assert_eq!(texts, vec!["1.2s", " ", "bash", " "]);
    assert!(!joined(&r).contains("git:"));
}

#[test]
fn right_segment_before_any_command_omits_the_duration() {
    let r = prompt_right(None, None, "nu");
    let texts: Vec<&str> = r.iter().map(|s| s.text.as_str()).collect();
    assert_eq!(texts, vec![" ", "nu", " "]);
}

#[test]
fn mesh_pairs_give_back_their_completion_and_text() {
    let mesh = Mesh(Completion {
        replacement: "cargo".to_string(),
        description: None,
    });
    assert_eq!(mesh.as_ref().replacement, "cargo");
    let preview = MeshPreview("cargo (command)".to_string());
    assert_eq!(preview.text(), "cargo (command)");
}
