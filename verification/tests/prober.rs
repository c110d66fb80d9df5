use museum_finder::museum::Museum;
use museum_finder::prober::{Fetched, ProbeAction, ProbeState};

fn body(text: &str) -> Fetched {
    Fetched::Body(text.to_string())
}

fn museum_with(urls: &[&str]) -> Museum {
    let mut museum = Museum::default();
    for url in urls {
        museum.add_other(url.to_string());
    }
    museum
}

#[test]
fn probe_without_candidates_is_false_and_fetches_nothing() {
    let (state, action) = ProbeState::start(0);
    assert_eq!(state, ProbeState::NotFound);
    assert_eq!(action, ProbeAction::Finish);
    assert_eq!(state.result(), Some(false));
    let museum = museum_with(&[]);
    assert!(!museum.websites_contain_art(&vec![]));
    assert!(!museum.websites_contain_art(&vec![body("art")]));
}

#[test]
fn probe_with_candidates_launches_the_fetches() {
    let (state, action) = ProbeState::start(3);
    assert_eq!(state, ProbeState::Waiting { pending: 3 });
    assert_eq!(action, ProbeAction::Launch);
    assert_eq!(state.result(), None);
}

#[test]
fn first_page_with_art_cancels_the_rest() {
    let (state, _) = ProbeState::start(3);
    let (state, action) = state.step(&body("gift shop hours"));
    assert_eq!((state, action), (ProbeState::Waiting { pending: 2 }, ProbeAction::Await));
    let (state, action) = state.step(&body("local art exhibit"));
    assert_eq!((state, action), (ProbeState::Found, ProbeAction::Cancel));
    assert_eq!(state.result(), Some(true));
}

#[test]
fn no_completion_counts_after_the_probe_is_settled() {
    let (state, _) = ProbeState::start(3);
    let (state, _) = state.step(&body("art"));
    assert_eq!(state, ProbeState::Found);
    for late in [body("art"), body("nothing"), Fetched::Failed] {
        assert_eq!(state.step(&late), (ProbeState::Found, ProbeAction::Discard));
    }
    let (state, _) = ProbeState::start(1);
    let (state, action) = state.step(&Fetched::Failed);
    assert_eq!((state, action), (ProbeState::NotFound, ProbeAction::Finish));
    for late in [body("art"), body("nothing"), Fetched::Failed] {
        assert_eq!(state.step(&late), (ProbeState::NotFound, ProbeAction::Discard));
    }
}

#[test]
fn failed_fetches_are_passed_over() {
    let (state, _) = ProbeState::start(2);
    let (state, action) = state.step(&Fetched::Failed);
    assert_eq!((state, action), (ProbeState::Waiting { pending: 1 }, ProbeAction::Await));
    let (state, action) = state.step(&Fetched::Failed);
    assert_eq!((state, action), (ProbeState::NotFound, ProbeAction::Finish));
    assert_eq!(state.result(), Some(false));
}

#[test]
fn a_waiting_state_without_fetches_settles_as_false() {
    let state = ProbeState::Waiting { pending: 0 };
    assert_eq!(state.step(&body("nothing")), (ProbeState::NotFound, ProbeAction::Finish));
}

#[test]
fn websites_contain_art_iff_some_page_has_the_token() {
    let museum = museum_with(&["http://a.example.com", "http://b.example.com", "http://c.example.com"]);
    assert!(museum.websites_contain_art(&vec![body("local art exhibit")]));
    assert!(museum.websites_contain_art(&vec![Fetched::Failed, body("x"), body("Moderne Kunst")]));
    assert!(museum.websites_contain_art(&vec![body("ART"), body("art")]));
    assert!(!museum.websites_contain_art(&vec![body("gift shop hours")]));
    assert!(!museum.websites_contain_art(&vec![body("the arts"), body("smart"), body("party")]));
    assert!(!museum.websites_contain_art(&vec![Fetched::Failed, Fetched::Failed, Fetched::Failed]));
    assert!(!museum.websites_contain_art(&vec![]));
}

#[test]
fn websites_contain_art_where_white_space_of_any_kind_bounds_the_token() {
    let museum = museum_with(&["http://example.com"]);
    assert!(museum.websites_contain_art(&vec![body("local\nart\texhibit")]));
    assert!(museum.websites_contain_art(&vec![body("<h1>\r\nKunst\r\n</h1>")]));
    assert!(!museum.websites_contain_art(&vec![body("local\narts\texhibit")]));
    let (state, _) = ProbeState::start(1);
    assert_eq!(
        state.step(&body("local\nart\texhibit")),
        (ProbeState::Found, ProbeAction::Cancel)
    );
}

#[test]
fn websites_contain_art_in_any_order_of_completion() {
    let museum = museum_with(&["http://a.example.com", "http://b.example.com", "http://c.example.com"]);
    let orders = [[0, 1, 2], [0, 2, 1], [1, 0, 2], [1, 2, 0], [2, 0, 1], [2, 1, 0]];
    for order in orders {
        let pages = ["opening hours", "our art collection", "contact"];
        let completed: Vec<Fetched> = order.iter().map(|i| body(pages[*i])).collect();
        assert!(museum.websites_contain_art(&completed));
        let pages = ["opening hours", "our arts", "contact"];
        let completed: Vec<Fetched> = order.iter().map(|i| body(pages[*i])).collect();
        assert!(!museum.websites_contain_art(&completed));
    }
}

#[test]
fn websites_contain_art_looks_at_one_completion_for_each_address() {
    let museum = museum_with(&["http://a.example.com"]);
    assert!(!museum.websites_contain_art(&vec![body("nothing"), body("art")]));
    assert!(museum.websites_contain_art(&vec![body("art"), body("nothing")]));
}
