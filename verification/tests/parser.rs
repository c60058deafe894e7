use tunneload::rules::matcher::Matcher;
use tunneload::rules::parser::matchers::find::{inner, split, Combinator};
use tunneload::rules::parser::matchers::{inner_scope, parse_matchers, ParseMatcherError};

#[test]
fn parse_single() {
    assert_eq!(
        Ok(Matcher::Domain("example.com".to_owned())),
        parse_matchers("Host(`example.com`)")
    );
}

#[test]
fn parse_two_with_and() {
    assert_eq!(
        Ok(Matcher::And(vec![
            Matcher::Domain("example.com".to_owned()),
            Matcher::PathPrefix("/api/".to_owned())
        ])),
        parse_matchers("Host(`example.com`) && PathPrefix(`/api/`)")
    );
}

#[test]
fn parse_two_with_or() {
    let input = "Host(`example.com`) || PathPrefix(`/api/`)";

    assert_eq!(
        Ok(Matcher::Or(vec![
            Matcher::Domain("example.com".to_owned()),
            Matcher::PathPrefix("/api/".to_owned())
        ])),
        parse_matchers(input)
    );
}

#[test]
fn parse_single_and_two_or_nested() {
    let input = "Host(`example.com`) && ( PathPrefix(`/api/`) || PathPrefix(`/dashboard/`) )";

    assert_eq!(
        Ok(Matcher::And(vec![
            Matcher::Domain("example.com".to_owned()),
            Matcher::Or(vec![
                Matcher::PathPrefix("/api/".to_owned()),
                Matcher::PathPrefix("/dashboard/".to_owned())
            ]),
        ])),
        parse_matchers(input)
    );
}

#[test]
fn parse_two_or_and_two_or_nested() {
    let input = "(Host(`example.com`) || Host(`example.net`)) && (PathPrefix(`/api/`) || PathPrefix(`/dashboard/`))";

    assert_eq!(
        Ok(Matcher::And(vec![
            Matcher::Or(vec![
                Matcher::Domain("example.com".to_owned()),
                Matcher::Domain("example.net".to_owned())
            ]),
            Matcher::Or(vec![
                Matcher::PathPrefix("/api/".to_owned()),
                Matcher::PathPrefix("/dashboard/".to_owned())
            ]),
        ])),
        parse_matchers(input)
    );
}

#[test]
fn parse_two_and_and_two_or_nested() {
    let input = "(PathPrefix(`/api/`) && PathPrefix(`/api/test/`)) && (Host(`example.com`) || Host(`example.net`))";

    assert_eq!(
        Ok(Matcher::And(vec![
            Matcher::And(vec![
                Matcher::PathPrefix("/api/".to_owned()),
                Matcher::PathPrefix("/api/test/".to_owned())
            ]),
            Matcher::Or(vec![
                Matcher::Domain("example.com".to_owned()),
                Matcher::Domain("example.net".to_owned())
            ]),
        ])),
        parse_matchers(input)
    );
}

#[test]
fn parse_invalid_pair_first_missing() {
    assert_eq!(
        Err(ParseMatcherError::Invalid),
        parse_matchers("PathPrefix(`/api/`) &&")
    );
}
#[test]
fn parse_invalid_pair_second_missing() {
    assert_eq!(
        Err(ParseMatcherError::Invalid),
        parse_matchers("&& PathPrefix(`/api/`)")
    );
}

#[test]
fn parse_invalid_missing_closing_bracket() {
    assert_eq!(
        Err(ParseMatcherError::Invalid),
        parse_matchers("Domain(`example.net`) && (PathPrefix(`/api/`) || PathPrefix(`/dashboard/`)")
    );
}

#[test]
fn parse_invalid() {
    assert_eq!(
        Err(ParseMatcherError::Invalid),
        parse_matchers("Host(`example.net`")
    );

    assert_eq!(
        Err(ParseMatcherError::Invalid),
        parse_matchers("Host`example.net`)")
    );
}

#[test]
fn parse_unknown_key() {
    assert_eq!(
        Err(ParseMatcherError::UnknownMatcher {
            key: "Domain".to_owned()
        }),
        parse_matchers("Domain(`example.net`)")
    );
}

#[test]
fn parse_value_without_closing_backtick() {
    assert_eq!(
        Ok(Matcher::PathPrefix("/api/".to_owned())),
        parse_matchers("PathPrefix(`/api/)")
    );
}

#[test]
fn parse_no_backtick() {
    assert_eq!(
        Err(ParseMatcherError::Invalid),
        parse_matchers("Host(example.net)")
    );
}

#[test]
fn split_and_valid() {
    let input = "first&&second";
    let expected = Some(("first", "second", Combinator::And));

    assert_eq!(expected, split(input));
}
#[test]
fn split_and_invalid() {
    let input = "first&second";
    let expected = None;

    assert_eq!(expected, split(input));
}
#[test]
fn split_and_valid_subs() {
    let input = "(first || first_other)&&second";
    let expected = Some(("(first || first_other)", "second", Combinator::And));

    assert_eq!(expected, split(input));
}
#[test]
fn split_and_invalid_subs() {
    let input = "(first || first_other &&second";
    let expected = None;

    assert_eq!(expected, split(input));
}

#[test]
fn split_or_valid() {
    let input = "first||second";
    let expected = Some(("first", "second", Combinator::Or));

    assert_eq!(expected, split(input));
}
#[test]
fn split_or_invalid() {
    let input = "first|second";
    let expected = None;

    assert_eq!(expected, split(input));
}

#[test]
fn split_multibyte_characters() {
    assert_eq!(Some(("ä", "ö", Combinator::Or)), split("ä||ö"));
}

#[test]
fn inner_finds_outer_group() {
    assert_eq!(Some(("Host", "(a)b")), inner("Host((a)b)rest"));
    assert_eq!(None, inner("Host(open"));
    assert_eq!(Some(("", "")), inner("()"));
}

#[test]
fn inner_scope_strips_one_pair() {
    assert_eq!("a", inner_scope("(a)"));
    assert_eq!("(a)", inner_scope("((a))"));
    assert_eq!("(a", inner_scope("(a"));
    assert_eq!("(", inner_scope("("));
    assert_eq!("", inner_scope("()"));
}
