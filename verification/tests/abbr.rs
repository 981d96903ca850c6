use kn::error::Error;
use kn::query::abbr::{Abbr, Congruence};

fn abbr(s: &str) -> Result<Abbr, Error> {
    Abbr::from_string(s.to_string())
}

fn abbr_ok(s: &str) -> Abbr {
    Abbr::from_string(s.to_string()).unwrap()
}

#[test]
fn test_from_string() {
    assert!(abbr(".").is_err());
    assert!(abbr("..").is_err());
    assert!(abbr("...").is_err());
    assert!(abbr("one two three").is_err());

    match abbr_ok("-") {
        Abbr::Wildcard => {}
        variant => panic!("{:?}", variant),
    }
    match abbr_ok("mOcKiNgBiRd") {
        Abbr::Literal(literal) if literal == "mockingbird" => {}
        variant => panic!("{:?}", variant),
    }
    match abbr_ok("X.ae.A-12") {
        Abbr::Literal(literal) if literal == "x.ae.a-12" => {}
        variant => panic!("{:?}", variant),
    }
}

#[test]
fn test_wildcard_match() {
    let abbr = Abbr::Wildcard;

    match abbr.compare("iks") {
        Some(Congruence::Wildcard) => {}
        variant => panic!("{:?}", variant),
    }
    match abbr.compare("eh--ehe123") {
        Some(Congruence::Wildcard) => {}
        variant => panic!("{:?}", variant),
    }
}

#[test]
fn test_literal_match() {
    let abbr = Abbr::Literal("mi".to_string());

    match abbr.compare("mi") {
        Some(Congruence::Complete) => {}
        variant => panic!("{:?}", variant),
    }
    match abbr.compare("Mi") {
        Some(Congruence::Complete) => {}
        variant => panic!("{:?}", variant),
    }
    match abbr.compare("ooo..oo---mi-ooooo") {
        Some(Congruence::Partial(_)) => {}
        variant => panic!("{:?}", variant),
    }
    match abbr.compare("ooo..oo---mI-ooooo") {
        Some(Congruence::Partial(_)) => {}
        variant => panic!("{:?}", variant),
    }
    match abbr.compare("xxxxxx") {
        None => {}
        variant => panic!("{:?}", variant),
    }
}

#[test]
fn test_subseries_match() {
    let abbr = Abbr::Literal("mi".to_string());

    let dist_a = match abbr.compare("m-----i") {
        Some(Congruence::Partial(dist_a)) => dist_a,
        variant => panic!("{:?}", variant),
    };
    let dist_b = match abbr.compare("M--i") {
        Some(Congruence::Partial(dist_b)) => dist_b,
        variant => panic!("{:?}", variant),
    };
    assert!(dist_a > dist_b);
    match abbr.compare("im") {
        None => {}
        variant => panic!("{:?}", variant),
    }
}

#[test]
fn test_empty_pattern_rejected() {
    match abbr("") {
        Err(Error::InvalidAbbr(raw)) => assert_eq!(raw, ""),
        variant => panic!("{:?}", variant),
    }
}

#[test]
fn test_error_keeps_offending_token() {
    match abbr("one two three") {
        Err(Error::InvalidAbbr(raw)) => assert_eq!(raw, "one two three"),
        variant => panic!("{:?}", variant),
    }
}

#[test]
fn test_dash_inside_literal_is_not_wildcard() {
    match abbr_ok("-a-") {
        Abbr::Literal(literal) if literal == "-a-" => {}
        variant => panic!("{:?}", variant),
    }
}

#[test]
fn test_exact_partial_distances() {
    let abbr = Abbr::Literal("mi".to_string());

    assert_eq!(abbr.compare("m-i"), Some(Congruence::Partial(1)));
    assert_eq!(abbr.compare("ooo..oo---mi-ooooo"), Some(Congruence::Partial(16)));
}

#[test]
fn test_compare_is_repeatable() {
    let abbr = Abbr::Literal("mi".to_string());

    assert_eq!(abbr.compare("m--i"), abbr.compare("m--i"));
    assert_eq!(abbr.compare("xxxxxx"), abbr.compare("xxxxxx"));
    assert_eq!(Abbr::Wildcard.compare("iks"), Abbr::Wildcard.compare("iks"));
}

#[test]
fn test_literal_round_trip() {
    let first = match abbr_ok("mOcKiNgBiRd") {
        Abbr::Literal(literal) => literal,
        variant => panic!("{:?}", variant),
    };
    let second = match abbr_ok(&first) {
        Abbr::Literal(literal) => literal,
        variant => panic!("{:?}", variant),
    };
    assert_eq!(second, first);
}

#[test]
fn test_literal_no_match_on_empty_candidate() {
    let abbr = Abbr::Literal("mi".to_string());

    match abbr.compare("") {
        None => {}
        variant => panic!("{:?}", variant),
    }
}

#[test]
fn test_wildcard_matches_single_character() {
    match Abbr::Wildcard.compare("x") {
        Some(Congruence::Wildcard) => {}
        variant => panic!("{:?}", variant),
    }
}

#[test]
fn test_as_path_keeps_text() {
    assert_eq!(kn::utils::as_path("dir/file.txt"), "dir/file.txt");
}
