use arthas_launcher::fetcher::{redirect_decision, RedirectDecision, MAX_REDIRECTS};

#[test]
fn the_limit_is_five_redirects() {
    assert_eq!(MAX_REDIRECTS, 5);
}

#[test]
fn up_to_five_redirects_are_followed() {
    for hop in 0..=5 {
        assert_eq!(redirect_decision(hop), RedirectDecision::Follow);
    }
}

#[test]
fn the_sixth_redirect_fails_the_fetch() {
    assert_eq!(redirect_decision(6), RedirectDecision::TooManyRedirects);
    assert_eq!(redirect_decision(7), RedirectDecision::TooManyRedirects);
    assert_eq!(redirect_decision(usize::MAX), RedirectDecision::TooManyRedirects);
}

#[test]
fn a_chain_of_redirects_stops_after_more_than_five_hops() {
    // A server that redirects for ever: the fetch asks the first URL and
    // then follows until the decision says stop.
    let mut requested = 1;
    let mut followed = 0;
    while redirect_decision(requested) == RedirectDecision::Follow {
        followed += 1;
        requested += 1;
    }
    assert_eq!(followed, 5);
}
