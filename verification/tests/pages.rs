use spektra::pages::{page_bounds, urlencode, FleetQuery, FLEET_PAGE};

fn query(q: Option<&str>, state: Option<&str>) -> FleetQuery {
    FleetQuery {
        q: q.map(ToOwned::to_owned),
        state: state.map(ToOwned::to_owned),
        offset: None,
    }
}

#[test]
fn a_query_value_keeps_only_unreserved_bytes() {
    assert_eq!(urlencode("Aalborg-Øst 2"), "Aalborg-%C3%98st%202");
    assert_eq!(urlencode("a_b.c~d"), "a_b.c~d");
}

#[test]
fn the_next_page_link_keeps_the_filters() {
    assert_eq!(query(None, None).at(200), "?offset=200");
    assert_eq!(
        query(Some("Århus"), Some("silent")).at(400),
        "?offset=400&q=%C3%85rhus&state=silent"
    );
    assert_eq!(query(Some(""), Some("")).at(0), "?offset=0");
}

#[test]
fn a_search_matches_names_regardless_of_case() {
    let search = query(Some("  aal "), None);
    assert!(search.matches("Aalborg", "silent"));
    assert!(!search.matches("Odense", "silent"));

    let silent = query(None, Some("silent"));
    assert!(silent.matches("Odense", "silent"));
    assert!(!silent.matches("Odense", "reporting"));
}

#[test]
fn a_page_never_runs_past_the_list() {
    assert_eq!(page_bounds(None, 450), (0, FLEET_PAGE, true));
    assert_eq!(page_bounds(Some(400), 450), (400, 450, false));
    assert_eq!(page_bounds(Some(9_999), 450), (450, 450, false));
}
