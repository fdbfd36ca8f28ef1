use pidwait::{
    build_candidates, choose_candidate, listing_line, render_listing, resolve, Candidate,
    Resolution, ResolveError,
};

fn listing() -> Vec<String> {
    vec![
        String::from("  101 sleep 50"),
        String::from("  202 sleep 60"),
        String::from("  303 editor file.txt"),
    ]
}

#[test]
fn single_match_resolves_directly() {
    let r = resolve(&listing(), "editor", 999);
    assert_eq!(r, Ok(Resolution::Target(303)));
}

#[test]
fn no_match_fails() {
    let r = resolve(&listing(), "browser", 999);
    assert_eq!(r, Err(ResolveError::NoMatches));
}

#[test]
fn multiple_matches_are_ambiguous() {
    let r = resolve(&listing(), "sleep", 999);
    let expected = vec![
        Candidate { pid: 101, cmd: String::from("sleep 50") },
        Candidate { pid: 202, cmd: String::from("sleep 60") },
    ];
    assert_eq!(r, Ok(Resolution::Ambiguous(expected)));
}

#[test]
fn listing_lines_are_indexed_in_order() {
    let cands = match resolve(&listing(), "sleep", 999) {
        Ok(Resolution::Ambiguous(cands)) => cands,
        other => panic!("expected an ambiguous resolution, got {:?}", other),
    };
    let lines = render_listing(&cands);
    assert_eq!(lines, vec![
        String::from("0: (101) sleep 50"),
        String::from("1: (202) sleep 60"),
    ]);
}

#[test]
fn selection_picks_the_indexed_candidate() {
    let cands = vec![
        Candidate { pid: 101, cmd: String::from("sleep 50") },
        Candidate { pid: 202, cmd: String::from("sleep 60") },
    ];
    assert_eq!(choose_candidate(&cands, "0"), Ok(101));
    assert_eq!(choose_candidate(&cands, "1\n"), Ok(202));
    assert_eq!(choose_candidate(&cands, " 1 "), Ok(202));
    assert_eq!(choose_candidate(&cands, "+1"), Ok(202));
}

#[test]
fn selection_out_of_range_is_invalid() {
    let cands = vec![
        Candidate { pid: 101, cmd: String::from("sleep 50") },
        Candidate { pid: 202, cmd: String::from("sleep 60") },
    ];
    assert_eq!(choose_candidate(&cands, "2"), Err(ResolveError::InvalidChoice(2)));
    assert_eq!(choose_candidate(&cands, "5"), Err(ResolveError::InvalidChoice(5)));
}

#[test]
fn selection_not_a_number_is_a_parse_failure() {
    let cands = vec![
        Candidate { pid: 101, cmd: String::from("sleep 50") },
        Candidate { pid: 202, cmd: String::from("sleep 60") },
    ];
    assert_eq!(
        choose_candidate(&cands, "x\n"),
        Err(ResolveError::ParseFailure(String::from("x\n")))
    );
    assert_eq!(
        choose_candidate(&cands, "-1"),
        Err(ResolveError::ParseFailure(String::from("-1")))
    );
    assert_eq!(
        choose_candidate(&cands, "+"),
        Err(ResolveError::ParseFailure(String::from("+")))
    );
    assert_eq!(
        choose_candidate(&cands, "++1"),
        Err(ResolveError::ParseFailure(String::from("++1")))
    );
}

#[test]
fn own_pid_is_never_a_candidate() {
    let r = resolve(&listing(), "sleep", 101);
    assert_eq!(r, Ok(Resolution::Target(202)));
    let r = build_candidates(&listing(), "sleep", 101);
    assert_eq!(r, Ok(vec![Candidate { pid: 202, cmd: String::from("sleep 60") }]));
}

#[test]
fn bad_pid_token_on_matching_line_is_fatal() {
    let lines = vec![String::from("abc sleep 1"), String::from("  7 sleep 2")];
    let r = resolve(&lines, "sleep", 999);
    assert_eq!(r, Err(ResolveError::ParseFailure(String::from("abc"))));
}

#[test]
fn bad_pid_token_on_non_matching_line_is_fatal_too() {
    let lines = vec![String::from("abc other 1"), String::from("  7 sleep 2")];
    let r = resolve(&lines, "sleep", 999);
    assert_eq!(r, Err(ResolveError::ParseFailure(String::from("abc"))));
}

#[test]
fn line_without_whitespace_has_an_empty_unparseable_pid_token() {
    let lines = vec![String::from("xyz")];
    assert_eq!(
        resolve(&lines, "x", 999),
        Err(ResolveError::ParseFailure(String::from("")))
    );
    assert_eq!(
        resolve(&lines, "", 999),
        Err(ResolveError::ParseFailure(String::from("")))
    );
}

#[test]
fn empty_search_matches_every_line() {
    let lines = vec![String::from("1 a"), String::from("2 b")];
    let expected = vec![
        Candidate { pid: 1, cmd: String::from("a") },
        Candidate { pid: 2, cmd: String::from("b") },
    ];
    assert_eq!(build_candidates(&lines, "", 999), Ok(expected));
}

#[test]
fn listing_line_format() {
    let c = Candidate { pid: 303, cmd: String::from("editor file.txt") };
    assert_eq!(listing_line(7, &c), "7: (303) editor file.txt");
}

#[test]
fn resolve_error_messages() {
    assert_eq!(
        ResolveError::NoMatches.message(),
        "There were no matches for search"
    );
    assert_eq!(ResolveError::InvalidChoice(5).message(), "Invalid choice: 5");
    assert_eq!(
        ResolveError::ParseFailure(String::from("abc")).message(),
        "Could not parse number: abc"
    );
    assert_eq!(
        ResolveError::ListingFailure(String::from("no ps")).message(),
        "Error listing processes: no ps"
    );
}
