use shorty::object_id::ObjectId;
use shorty::shorty::{GoogleAnalyticsCampaign as Campaign, ShortenRequest, Shorty};
use shorty::shorty_mongo::{
    create_short_segment, join_url, num_to_base62, shorten, GoogleAnalyticsCampaign, ShortenAction,
    ShortenEvent, ShortyDocument,
};

fn campaign(source: &str, medium: &str, name: &str, term: &str, content: &str) -> Campaign {
    Campaign {
        utm_source: source.to_string(),
        utm_medium: medium.to_string(),
        utm_campaign: name.to_string(),
        utm_term: term.to_string(),
        utm_content: content.to_string(),
    }
}

fn request(url: &str, c: Option<Campaign>) -> ShortenRequest {
    ShortenRequest { url: url.to_string(), campaign: c }
}

fn counting_id() -> ObjectId {
    ObjectId { bytes: [0, 1, 2, 3, 4, 5, 6, 7, 8, 9, 10, 11] }
}

#[test]
fn test_encode() {
    assert_eq!(num_to_base62(1254654), "qfol");
}

#[test]
fn test_create_short_segment() {
    let shortened = create_short_segment("5916ac09028d015664bd4f95".into());
    assert_eq!("obkm5d78", shortened);
    let shortened = create_short_segment("5d291a7845cd7b75c40124c3".into());
    assert_eq!("GLCuBLsT", shortened);
}

#[test]
fn base62_small_and_large_values() {
    assert_eq!(num_to_base62(0), "n");
    assert_eq!(num_to_base62(61), "Z");
    assert_eq!(num_to_base62(62), "Hn");
    assert_eq!(num_to_base62(u64::MAX), "g3h6yHF16Pe");
}

#[test]
fn short_segment_edge_ids() {
    assert_eq!(create_short_segment("ffffffffffffffffffffffff"), "H6cjkB1y4");
    assert_eq!(create_short_segment("000000000000000000000000"), "n");
    assert_eq!(create_short_segment("5D291A7845CD7B75C40124C3"), "GLCuBLsT");
    // A leading '+' of the digits read is skipped, as u64::from_str_radix does.
    assert_eq!(create_short_segment("5916ac09028d015664bd+f95"), "QOrr0z2B");
    // Bytes past the 24th are not read.
    assert_eq!(create_short_segment("5916ac09028d015664bd4f95zz"), "obkm5d78");
}

#[test]
fn short_segment_is_short_and_alphanumeric() {
    for id in ["ffffffffffffffffffffffff", "5916ac09028d015664bd4f95", "000102030405060708090a0b"] {
        let s = create_short_segment(id);
        assert!(!s.is_empty() && s.len() <= 9);
        assert!(s.chars().all(|c| c.is_ascii_alphanumeric()));
    }
}

#[test]
fn join_url_without_campaign() {
    let r = request("  HTTPS://Example.com/Path \t", None);
    assert_eq!(join_url(&r), "https://example.com/path?");
}

#[test]
fn join_url_with_campaign_in_fixed_order() {
    let r = request(
        "https://rwt.to/a",
        Some(campaign(" twitter ", "social", "launch", "bus", "top")),
    );
    assert_eq!(
        join_url(&r),
        "https://rwt.to/a?utm_medium=social&utm_campaign=launch&utm_content=top&utm_source=twitter&utm_term=bus&"
    );
}

#[test]
fn join_url_skips_empty_and_keeps_blank_parameters() {
    let r = request("https://rwt.to/a", Some(campaign("", "  ", "", "", "")));
    assert_eq!(join_url(&r), "https://rwt.to/a?utm_medium=&");
}

#[test]
fn campaign_conversion_drops_empty_parameters() {
    let c = campaign("src", "", "name", "", " ");
    let stored = GoogleAnalyticsCampaign::from(&c);
    assert_eq!(
        stored,
        GoogleAnalyticsCampaign {
            utm_source: Some("src".to_string()),
            utm_campaign: Some("name".to_string()),
            utm_medium: None,
            utm_content: Some(" ".to_string()),
            utm_term: None,
        }
    );
}

#[test]
fn find_url_query() {
    let q = ShortyDocument::find_url(&request(" HTTP://A.b ", None));
    assert_eq!(q.original, "http://a.b");
    assert_eq!(q.utm_content, None);
    let q = ShortyDocument::find_url(&request("x", Some(campaign("", "", "", "", "c"))));
    assert_eq!(q.utm_content, Some(String::new()));
    let q = ShortyDocument::find_url(&request("x", Some(campaign("s", "", "", "", ""))));
    assert_eq!(q.utm_content, None);
}

#[test]
fn find_original_query_is_trimmed() {
    assert_eq!(ShortyDocument::find_original("\u{3000} https://rwt.to/abc\n").url, "https://rwt.to/abc");
}

#[test]
fn add_counter_always_adds_one() {
    let inc = ShortyDocument::add_counter(counting_id(), 7, 1_600_000_000_000);
    assert_eq!(inc.id, counting_id());
    assert_eq!(inc.amount, 1);
    assert_eq!(inc.accessed, 1_600_000_000_000);
}

#[test]
fn counter_updated_needs_a_match() {
    assert!(ShortyDocument::counter_updated(Some(1)));
    assert!(!ShortyDocument::counter_updated(Some(0)));
    assert!(!ShortyDocument::counter_updated(None));
}

#[test]
fn create_new_document() {
    let r = request("https://Rwt.to/x", Some(campaign("a", "", "", "", "")));
    let doc = ShortyDocument::create(&r, counting_id(), 1_500_000_000_000, "https://rwt.to");
    assert_eq!(doc.id, counting_id());
    assert_eq!(doc.url, "https://rwt.to/2p89glLa");
    assert_eq!(doc.original, "https://Rwt.to/x");
    assert_eq!(doc.constructed, "https://rwt.to/x?utm_source=a&");
    assert_eq!(doc.created, 1_500_000_000_000);
    assert_eq!(doc.accessed, None);
    assert_eq!(doc.visits, 0);
    assert_eq!(doc.ga_campaign.utm_source, Some("a".to_string()));
    assert_eq!(doc.ga_campaign.utm_term, None);
    assert_eq!(
        doc.to_shorty(),
        Shorty { id: "000102030405060708090a0b".to_string(), url: "https://rwt.to/2p89glLa".to_string() }
    );
}

#[test]
fn shorten_steps_for_a_new_link() {
    let r = request("https://rwt.to/x", Some(campaign("", "", "", "", "")));
    match shorten(&r, ShortenEvent::Start) {
        ShortenAction::Find(q) => assert_eq!(q.original, "https://rwt.to/x"),
        other => panic!("unexpected {:?}", other),
    }
    assert_eq!(shorten(&r, ShortenEvent::Looked(None)), ShortenAction::ReadPrefix);
    let doc = match shorten(&r, ShortenEvent::Prefix("https://rwt.to".to_string())) {
        ShortenAction::Save(doc) => doc,
        other => panic!("unexpected {:?}", other),
    };
    assert_eq!(doc.constructed, "https://rwt.to/x?");
    assert_eq!(doc.url, format!("https://rwt.to/{}", create_short_segment(&doc.id.to_hex())));
    assert_eq!(
        shorten(&r, ShortenEvent::Stored(doc.clone(), true)),
        ShortenAction::Reply(Some(Shorty { id: doc.id.to_hex(), url: doc.url.clone() }))
    );
    assert_eq!(shorten(&r, ShortenEvent::Stored(doc, false)), ShortenAction::Reply(None));
}

#[test]
fn shorten_returns_a_found_link() {
    let r = request("https://rwt.to/x", None);
    let doc = ShortyDocument::create(
        &request("https://rwt.to/x", Some(Campaign::default())),
        counting_id(),
        0,
        "p",
    );
    assert_eq!(
        shorten(&r, ShortenEvent::Looked(Some(doc))),
        ShortenAction::Reply(Some(Shorty {
            id: "000102030405060708090a0b".to_string(),
            url: "p/2p89glLa".to_string()
        }))
    );
}

#[test]
fn new_link_resolves_to_its_constructed_url() {
    let r = request(" HTTPS://rwt.to/Y ", Some(campaign("", "m", "", "", "")));
    let doc = ShortyDocument::create(&r, counting_id(), 0, "https://rwt.to");
    let reply = doc.to_shorty();
    assert_eq!(ShortyDocument::find_original(&reply.url).url, doc.url);
    assert_eq!(doc.constructed, "https://rwt.to/y?utm_medium=m&");
}

#[test]
fn repeat_shorten_finds_only_normalised_links() {
    let plain = request("https://rwt.to/y", Some(Campaign::default()));
    let doc = ShortyDocument::create(&plain, counting_id(), 0, "p");
    assert_eq!(ShortyDocument::find_url(&plain).original, doc.original);
    let upper = request("https://rwt.to/Y", Some(Campaign::default()));
    let doc = ShortyDocument::create(&upper, counting_id(), 0, "p");
    assert_ne!(ShortyDocument::find_url(&upper).original, doc.original);
}

#[test]
fn alphabet_repeats_one_symbol() {
    // The alphabet holds 'U' at digits 46 and 56 and has no 'I'.
    assert_eq!(num_to_base62(46), "U");
    assert_eq!(num_to_base62(56), "U");
    assert_eq!(num_to_base62(46), num_to_base62(56));
}

#[test]
fn shorten_without_campaign_stores_no_parameters() {
    let r = request(" HTTPS://rwt.to/Q ", None);
    assert_eq!(shorten(&r, ShortenEvent::Looked(None)), ShortenAction::ReadPrefix);
    let doc = match shorten(&r, ShortenEvent::Prefix("https://rwt.to".to_string())) {
        ShortenAction::Save(doc) => doc,
        other => panic!("unexpected {:?}", other),
    };
    assert_eq!(doc.ga_campaign, GoogleAnalyticsCampaign::default());
    assert_eq!(doc.constructed, "https://rwt.to/q?");
    assert_eq!(doc.original, " HTTPS://rwt.to/Q ");
    assert!(doc.id.bytes[4..7].iter().all(|c| c.is_ascii_digit() || (b'a'..=b'f').contains(c)));
    let created = ShortyDocument::create(&r, counting_id(), 5, "p");
    assert_eq!(created.ga_campaign, GoogleAnalyticsCampaign::default());
    assert_eq!(created.url, "p/2p89glLa");
}

#[test]
fn repeat_shorten_returns_the_same_link() {
    let r = request("https://rwt.to/y", None);
    let doc = ShortyDocument::create(&r, counting_id(), 0, "p");
    let first = shorten(&r, ShortenEvent::Stored(doc.clone(), true));
    assert_eq!(ShortyDocument::find_url(&r).original, doc.original);
    assert_eq!(ShortyDocument::find_url(&r).utm_content, None);
    assert_eq!(shorten(&r, ShortenEvent::Looked(Some(doc))), first);
}
