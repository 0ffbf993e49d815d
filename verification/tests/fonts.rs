use j3ecs_netprint::fonts::{
    add_enumerated_font_face, chars_less, font_face_candidates, sorted_font_face_names,
};

fn owned(names: &[&str]) -> Vec<String> {
    names.iter().map(|name| name.to_string()).collect()
}

#[test]
fn enumerated_faces_skip_empty_vertical_and_repeated_names() {
    let mut faces = Vec::new();
    add_enumerated_font_face(&mut faces, "Arial".to_owned());
    add_enumerated_font_face(&mut faces, String::new());
    add_enumerated_font_face(&mut faces, "@Malgun Gothic".to_owned());
    add_enumerated_font_face(&mut faces, "Malgun Gothic".to_owned());
    add_enumerated_font_face(&mut faces, "ARIAL".to_owned());
    add_enumerated_font_face(&mut faces, " arial ".to_owned());

    assert_eq!(faces, owned(&["Arial", "Malgun Gothic"]));
}

#[test]
fn face_list_is_sorted_by_compared_name_keeping_the_first_of_each() {
    let faces = owned(&["Segoe UI", "arial", "Consolas", "Arial", "batang", "SEGOE UI"]);

    assert_eq!(
        sorted_font_face_names(faces),
        owned(&["arial", "batang", "Consolas", "Segoe UI"])
    );
    assert!(sorted_font_face_names(Vec::new()).is_empty());
}

#[test]
fn face_list_orders_names_by_code_point() {
    let faces = owned(&["맑은 고딕", "Zeta", "alpha", "Ábc"]);

    assert_eq!(
        sorted_font_face_names(faces),
        owned(&["alpha", "Zeta", "Ábc", "맑은 고딕"])
    );
}

#[test]
fn text_order_compares_characters_then_length() {
    let chars = |text: &str| text.chars().collect::<Vec<char>>();

    assert!(chars_less(&chars("abc"), &chars("abd")));
    assert!(chars_less(&chars("ab"), &chars("abc")));
    assert!(!chars_less(&chars("abc"), &chars("abc")));
    assert!(!chars_less(&chars("b"), &chars("abc")));
    assert!(chars_less(&chars(""), &chars("a")));
}

#[test]
fn face_candidates_start_with_the_preferred_face() {
    assert_eq!(
        font_face_candidates("Gulim"),
        vec!["Gulim", "Malgun Gothic", "Segoe UI", "Arial", "Consolas"]
    );
}
