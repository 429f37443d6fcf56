use shorty::object_id::ObjectId;
use shorty::shorty::{route_path, Counter, ShortenRequest, Shorty, ShortyMethod};
use shorty::shorty_mongo::ShortyDocument;
use shorty::shorty_server::{add_counter_update, get_url_reply, shorten_reply, Code, Status};
use shorty::text::{str_eq, to_ascii_lowercase, trim_str};

#[test]
fn routes_by_path() {
    assert_eq!(route_path("/shorty.ShortyService/Shorten"), ShortyMethod::Shorten);
    assert_eq!(route_path("/shorty.ShortyService/AddCounter"), ShortyMethod::AddCounter);
    assert_eq!(route_path("/shorty.ShortyService/GetUrl"), ShortyMethod::GetUrl);
    assert_eq!(route_path("/shorty.ShortyService/getUrl"), ShortyMethod::Unimplemented);
    assert_eq!(route_path(""), ShortyMethod::Unimplemented);
}

#[test]
fn shorten_reply_statuses() {
    let s = Shorty { id: "a".to_string(), url: "b".to_string() };
    assert_eq!(shorten_reply(Some(s.clone())), Ok(s));
    assert_eq!(
        shorten_reply(None),
        Err(Status { code: Code::Internal, message: "Unable to shorten URL".to_string() })
    );
}

#[test]
fn get_url_reply_gives_constructed_url() {
    let r = ShortenRequest { url: "https://x.y/Z".to_string(), campaign: Some(Default::default()) };
    let doc = ShortyDocument::create(&r, ObjectId { bytes: [255; 12] }, 0, "https://rwt.to");
    assert_eq!(
        get_url_reply(Some(doc)),
        Ok(Shorty { id: "ffffffffffffffffffffffff".to_string(), url: "https://x.y/z?".to_string() })
    );
    assert_eq!(
        get_url_reply(None),
        Err(Status { code: Code::NotFound, message: "Error getting shorty URL (1)".to_string() })
    );
}

#[test]
fn add_counter_update_parses_the_id() {
    let c = Counter { id: "000102030405060708090A0B".to_string(), value: 5 };
    let inc = add_counter_update(&c, 42).unwrap();
    assert_eq!(inc.accessed, 42);
    assert_eq!(inc.id.bytes, [0, 1, 2, 3, 4, 5, 6, 7, 8, 9, 10, 11]);
    assert_eq!(inc.amount, 1);
    for bad in ["", "00010203040506070809", "000102030405060708090a0g", "000102030405060708090a0b00", "é00102030405060708090a0"] {
        assert_eq!(add_counter_update(&Counter { id: bad.to_string(), value: 1 }, 0), None);
    }
}

#[test]
fn object_id_hex_round_trip() {
    let id = ObjectId { bytes: [0xde, 0xad, 0xbe, 0xef, 0, 1, 2, 3, 0x7f, 0x80, 0xab, 0xcd] };
    let hex = id.to_hex();
    assert_eq!(hex, "deadbeef000102037f80abcd");
    assert_eq!(ObjectId::with_string(&hex), Some(id));
    let reply = ShortyDocument::create(
        &ShortenRequest { url: "u".to_string(), campaign: Some(Default::default()) },
        id,
        0,
        "p",
    )
    .to_shorty();
    let inc = add_counter_update(&Counter { id: reply.id, value: 0 }, 0).unwrap();
    assert_eq!(inc.id, id);
}

#[test]
fn generated_ids_differ() {
    let a = ObjectId::new().unwrap();
    let b = ObjectId::new().unwrap();
    assert_ne!(a, b);
    for id in [a, b] {
        assert!(id.bytes[4..7].iter().all(|c| c.is_ascii_digit() || (b'a'..=b'f').contains(c)));
        assert_ne!(&id.bytes[9..12], &[0xff, 0xff, 0xff]);
    }
}

#[test]
fn text_helpers() {
    assert_eq!(trim_str("\u{85}\u{a0} a b \u{2028}"), "a b");
    assert_eq!(trim_str(" \t\n"), "");
    assert_eq!(trim_str("\u{180e}x"), "\u{180e}x");
    assert_eq!(to_ascii_lowercase("AbÇZ[@"), "abÇz[@");
    assert!(str_eq("abc", "abc"));
    assert!(!str_eq("abc", "abd"));
    assert!(!str_eq("abc", "ab"));
}
