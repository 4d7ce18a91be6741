use first_link::extract::LinkExtractor;
use first_link::filter::TextFilter;
use first_link::page::{Page, Revision};
use first_link::pipeline::{first_link_of, first_links, OutputRecord};

fn page(title: &str, texts: &[&str]) -> Page {
    Page {
        title: title.to_string(),
        revision: texts.iter().map(|text| Revision { text: text.to_string() }).collect(),
    }
}

fn line_of(page: &Page) -> Option<String> {
    let filter = TextFilter::new().expect("the patterns compile");
    let extractor = LinkExtractor::new().expect("the pattern compiles");
    first_link_of(&filter, &extractor, page).map(|record| record.line())
}

fn lines_of(pages: &Vec<Page>) -> Vec<String> {
    let filter = TextFilter::new().expect("the patterns compile");
    let extractor = LinkExtractor::new().expect("the pattern compiles");
    first_links(&filter, &extractor, pages).iter().map(|record| record.line()).collect()
}

#[test]
fn an_output_line_is_title_arrow_link() {
    let record = OutputRecord { title: "Dog".to_string(), link: "Canine".to_string() };
    assert_eq!(record.line(), "Dog -> Canine");
    let odd = OutputRecord { title: "a -> b".to_string(), link: "".to_string() };
    assert_eq!(odd.line(), "a -> b -> ");
}

#[test]
fn a_record_holds_title_and_link() {
    let filter = TextFilter::new().expect("the patterns compile");
    let extractor = LinkExtractor::new().expect("the pattern compiles");
    let dog = page("Dog", &["'''Dog''' is a (domesticated) animal. See [[Canine]]."]);
    let record = first_link_of(&filter, &extractor, &dog).expect("a record");
    assert_eq!(record.title, "Dog");
    assert_eq!(record.link, "Canine");
}

#[test]
fn prose_with_an_aside_gives_its_link() {
    let dog = page("Dog", &["'''Dog''' is a (domesticated) animal. See [[Canine]]."]);
    assert_eq!(line_of(&dog), Some("Dog -> Canine".to_string()));
}

#[test]
fn a_disambiguation_page_gives_nothing() {
    let foo = page("Foo (disambiguation)", &["Foo may be [[Bar]] or [[Baz]]."]);
    assert_eq!(line_of(&foo), None);
}

#[test]
fn a_redirect_gives_nothing() {
    assert_eq!(line_of(&page("Foo", &["#REDIRECT [[Bar]]"])), None);
    assert_eq!(line_of(&page("Foo", &["#REDIRECT [[Bar]]\nProse with a [[Link]]."])), None);
}

#[test]
fn a_link_at_the_start_of_a_line_gives_nothing() {
    assert_eq!(line_of(&page("Baz", &["{{Infobox}}\n[[Baz]] is notable."])), None);
}

#[test]
fn prose_with_a_citation_gives_its_link() {
    let city = page("City", &["The city <ref>cite.com</ref> hosts [[Event]]."]);
    assert_eq!(line_of(&city), Some("City -> Event".to_string()));
}

#[test]
fn a_link_inside_what_is_stripped_does_not_count() {
    let text = "A thing (see [[Aside]]) {{cite|[[Template]]}}<ref>[[Citation]]</ref> is a [[Thing]].";
    assert_eq!(line_of(&page("Thing", &[text])), Some("Thing -> Thing".to_string()));
}

#[test]
fn stripping_can_make_a_line_a_paragraph() {
    assert_eq!(
        line_of(&page("Dog", &["(also hound) Dog is a [[Canine]]."])),
        None
    );
    assert_eq!(
        line_of(&page("Dog", &["{{short}}Dog is a [[Canine]]."])),
        Some("Dog -> Canine".to_string())
    );
}

#[test]
fn a_page_without_body_or_link_has_no_record() {
    assert_eq!(line_of(&page("Empty", &[])), None);
    assert_eq!(line_of(&page("Plain", &["No links here."])), None);
    assert_eq!(line_of(&page("Later", &["No links here.", "A [[Link]]."])), None);
}

#[test]
fn records_keep_the_order_of_the_pages() {
    let pages = vec![
        page("One", &["One is [[A]]."]),
        page("Two (disambiguation)", &["Two is [[B]]."]),
        page("Three", &["#REDIRECT [[C]]"]),
        page("Four", &["Four has none."]),
        page("Five", &["* [[D]]\nFive is [[E|e]]."]),
        page("One", &["One again is [[F]]."]),
    ];
    assert_eq!(lines_of(&pages), vec!["One -> A", "Five -> E", "One -> F"]);
}

#[test]
fn excluded_pages_leave_no_trace() {
    let kept = vec![page("One", &["One is [[A]]."]), page("Five", &["Five is [[E]]."])];
    let mut with_redirect = kept.clone();
    with_redirect.insert(1, page("R", &["#REDIRECT [[C]]\nLater [[D]]."]));
    let mut with_disambiguation = kept.clone();
    with_disambiguation.insert(0, page("D (disambiguation)", &["D is [[E]]."]));
    assert_eq!(lines_of(&with_redirect), lines_of(&kept));
    assert_eq!(lines_of(&with_disambiguation), lines_of(&kept));
    assert_eq!(lines_of(&kept), vec!["One -> A", "Five -> E"]);
}

#[test]
fn no_pages_no_records() {
    assert_eq!(lines_of(&Vec::new()), Vec::<String>::new());
}
