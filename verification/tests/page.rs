use first_link::page::{Page, Revision};

fn page(title: &str, texts: &[&str]) -> Page {
    Page {
        title: title.to_string(),
        revision: texts.iter().map(|text| Revision { text: text.to_string() }).collect(),
    }
}

#[test]
fn the_body_is_the_text_of_the_first_revision() {
    assert_eq!(page("Dog", &["first", "second"]).text(), Some("first"));
    assert_eq!(page("Dog", &[""]).text(), Some(""));
}

#[test]
fn a_page_without_revision_has_no_body() {
    assert_eq!(page("Dog", &[]).text(), None);
}

#[test]
fn a_redirect_has_no_body() {
    assert_eq!(page("Foo", &["#REDIRECT [[Bar]]"]).text(), None);
    assert_eq!(page("Foo", &["#REDIRECT"]).text(), None);
    assert_eq!(page("Foo", &["#REDIRECT [[Bar]]\nA [[Link]] in prose."]).text(), None);
    assert_eq!(page("Foo", &["#REDIRECT [[Bar]]", "Prose with a [[Link]]."]).text(), None);
}

#[test]
fn only_the_first_revision_decides() {
    assert_eq!(page("Foo", &["Prose.", "#REDIRECT [[Bar]]"]).text(), Some("Prose."));
}

#[test]
fn the_redirect_marker_is_taken_literally() {
    assert_eq!(page("Foo", &["#redirect [[Bar]]"]).text(), Some("#redirect [[Bar]]"));
    assert_eq!(page("Foo", &[" #REDIRECT [[Bar]]"]).text(), Some(" #REDIRECT [[Bar]]"));
    assert_eq!(page("Foo", &["#REDIREC"]).text(), Some("#REDIREC"));
}

#[test]
fn disambiguation_goes_by_the_end_of_the_title() {
    assert!(page("Foo (disambiguation)", &[]).is_disambiguation());
    assert!(page("(disambiguation)", &[]).is_disambiguation());
    assert!(!page("Foo (disambiguation) 2", &[]).is_disambiguation());
    assert!(!page("Foo (Disambiguation)", &[]).is_disambiguation());
    assert!(!page("Foo", &[]).is_disambiguation());
    assert!(!page("", &[]).is_disambiguation());
}

#[test]
fn a_disambiguation_page_is_not_searched() {
    assert_eq!(page("Foo (disambiguation)", &["See [[Bar]]."]).searched(), None);
    assert_eq!(page("Foo", &["See [[Bar]]."]).searched(), Some("See [[Bar]]."));
    assert_eq!(page("Foo", &["#REDIRECT [[Bar]]"]).searched(), None);
    assert_eq!(page("Foo", &[]).searched(), None);
}
