//! Stored links: the short-segment encoding, the URL that carries the
//! campaign parameters, the documents kept for each link, the queries run
//! against them, and the steps of shortening a URL.
use vstd::prelude::*;

use vstd::string::StringSliceAdditionalSpecFns;

use crate::object_id::{hex_decode, hex_lower, is_generated_id, is_object_id_hex, ObjectId};
use crate::shorty;
use crate::text::{ascii_lowercase, push_char, to_ascii_lowercase, trim, trim_str};

verus! {

/// Number of symbols in the short-segment alphabet.
pub const BASE: u64 = 62;

/// The symbols of the short-segment alphabet, by digit value.
/// Written as the byte values of
/// `nHz2QqF4p51G7a9ef6mXdglBo8sVtLwRjkPxySACrNhMDEUiTJ0KbOuvUcWY3Z`.
pub const ALPHABET: [u8; 62] = [
    110, 72, 122, 50, 81, 113, 70, 52, 112, 53, 49, 71, 55, 97, 57, 101,
    102, 54, 109, 88, 100, 103, 108, 66, 111, 56, 115, 86, 116, 76, 119, 82,
    106, 107, 80, 120, 121, 83, 65, 67, 114, 78, 104, 77, 68, 69, 85, 105,
    84, 74, 48, 75, 98, 79, 117, 118, 85, 99, 87, 89, 51, 90,
];

/// The symbol for a digit value below 62.
pub open spec fn alphabet_char(d: int) -> char {
    ALPHABET@[d] as char
}

/// `n` written in base 62 with the alphabet above, most significant digit
/// first; zero is the single digit for zero.
pub open spec fn base62(n: nat) -> Seq<char>
    decreases n,
{
    if n < 62 {
        seq![alphabet_char(n as int)]
    } else {
        base62(n / 62).push(alphabet_char((n % 62) as int))
    }
}

fn push_base62(num: u64, out: &mut String)
    ensures
        final(out)@ == old(out)@ + base62(num as nat),
    decreases num,
{
    if num >= BASE {
        push_base62(num / BASE, out);
    }
    let d = (num % BASE) as usize;
    push_char(out, ALPHABET[d] as char);
    proof {
        if num >= 62 {
            assert(base62(num as nat) == base62((num / 62) as nat).push(alphabet_char(d as int)));
        }
    }
}

/// Writes `num` in base 62 with the short-segment alphabet.
pub fn num_to_base62(num: u64) -> (s: String)
    ensures
        s@ == base62(num as nat),
        s@.len() >= 1,
        num < pow62(s@.len()),
        s@.len() == 1 || pow62((s@.len() - 1) as nat) <= num,
        forall|i: int|
            0 <= i < s@.len() ==> #[trigger] s@[i] == ALPHABET@[((num as nat / pow62(
                (s@.len() - 1 - i) as nat,
            )) % 62) as int] as char,
{
    let mut s = String::new();
    push_base62(num, &mut s);
    assert(s@ =~= base62(num as nat));
    proof {
        lemma_base62_positional(num as nat);
    }
    s
}

/// Whether a byte is an ASCII hex digit, in either case.
pub open spec fn is_hex_byte(b: u8) -> bool {
    ||| 48 <= b <= 57
    ||| 97 <= b <= 102
    ||| 65 <= b <= 70
}

/// The value of an ASCII hex digit.
pub open spec fn hex_byte_value(b: u8) -> nat {
    if 48 <= b <= 57 {
        (b - 48) as nat
    } else if 97 <= b <= 102 {
        (b - 87) as nat
    } else {
        (b - 55) as nat
    }
}

/// The digits that `u64::from_str_radix` reads: one leading `+` is skipped.
pub open spec fn unsigned_digits(d: Seq<u8>) -> Seq<u8> {
    if d.len() > 0 && d[0] == 43 {
        d.subrange(1, d.len() as int)
    } else {
        d
    }
}

/// Whether `u64::from_str_radix(_, 16)` accepts `d` (for up to 16 digits):
/// an optional `+`, then at least one hex digit and nothing else.
pub open spec fn is_hex_number(d: Seq<u8>) -> bool {
    let ds = unsigned_digits(d);
    &&& ds.len() > 0
    &&& forall|i: int| 0 <= i < ds.len() ==> is_hex_byte(#[trigger] ds[i])
}

/// The number that a sequence of hex digits spells, most significant first.
pub open spec fn hex_number_value(ds: Seq<u8>) -> nat
    decreases ds.len(),
{
    if ds.len() == 0 {
        0
    } else {
        hex_number_value(ds.drop_last()) * 16 + hex_byte_value(ds.last())
    }
}

/// Sixteen to the power `n`.
pub open spec fn pow16(n: nat) -> nat
    decreases n,
{
    if n == 0 {
        1
    } else {
        16 * pow16((n - 1) as nat)
    }
}

/// The twelve bytes a short segment is read from: bytes 20 to 24 of the id
/// (the end of its counter), then bytes 0 to 8 (its timestamp).
pub open spec fn segment_digits(id: Seq<u8>) -> Seq<u8> {
    id.subrange(20, 24) + id.subrange(0, 8)
}

/// The ids that `create_short_segment` accepts: at least 24 bytes, whose
/// segment digits form a hex number.
pub open spec fn is_segment_source(id: Seq<u8>) -> bool {
    &&& id.len() >= 24
    &&& is_hex_number(segment_digits(id))
}

/// The short segment of an id: its segment digits read as a hex number and
/// written in base 62.
pub open spec fn short_segment(id: Seq<u8>) -> Seq<char> {
    base62(hex_number_value(unsigned_digits(segment_digits(id))))
}

proof fn lemma_hex_number_bound(ds: Seq<u8>)
    requires
        forall|i: int| 0 <= i < ds.len() ==> is_hex_byte(#[trigger] ds[i]),
    ensures
        hex_number_value(ds) < pow16(ds.len()),
    decreases ds.len(),
{
    if ds.len() > 0 {
        let t = ds.drop_last();
        assert forall|i: int| 0 <= i < t.len() implies is_hex_byte(#[trigger] t[i]) by {
            assert(t[i] == ds[i]);
        }
        lemma_hex_number_bound(t);
        assert(is_hex_byte(ds[ds.len() - 1]));
    }
}

proof fn lemma_pow16_monotone(a: nat, b: nat)
    requires
        a <= b,
    ensures
        pow16(a) <= pow16(b),
    decreases b,
{
    if a < b {
        lemma_pow16_monotone(a, (b - 1) as nat);
    }
}

fn hex_byte_to_value(b: u8) -> (v: u64)
    requires
        is_hex_byte(b),
    ensures
        v == hex_byte_value(b),
        v < 16,
{
    if 48 <= b && b <= 57 {
        (b - 48) as u64
    } else if 97 <= b && b <= 102 {
        (b - 87) as u64
    } else {
        (b - 55) as u64
    }
}

/// The short segment of a document id written in hex: the last four hex
/// digits followed by the first eight, read as one hex number, written in
/// base 62.
pub fn create_short_segment(id: &str) -> (s: String)
    requires
        is_segment_source(id.spec_bytes()),
    ensures
        s@ == short_segment(id.spec_bytes()),
{
    let b = id.as_bytes();
    let ghost bytes = id.spec_bytes();
    let mut digits: Vec<u8> = Vec::new();
    let mut i: usize = 20;
    while i < 24
        invariant
            b@ == bytes,
            bytes.len() >= 24,
            20 <= i <= 24,
            digits@ == bytes.subrange(20, i as int),
        decreases 24 - i,
    {
        digits.push(b[i]);
        i = i + 1;
    }
    let mut i: usize = 0;
    while i < 8
        invariant
            b@ == bytes,
            bytes.len() >= 24,
            i <= 8,
            digits@ == bytes.subrange(20, 24) + bytes.subrange(0, i as int),
        decreases 8 - i,
    {
        digits.push(b[i]);
        i = i + 1;
        proof {
            assert(bytes.subrange(0, i as int) =~= bytes.subrange(0, i - 1).push(bytes[i - 1]));
        }
    }
    assert(digits@ =~= segment_digits(bytes));
    let start: usize = if digits[0] == 43 {
        1
    } else {
        0
    };
    let ghost ds = unsigned_digits(digits@);
    assert(ds =~= digits@.subrange(start as int, 12));
    let mut v: u64 = 0;
    let mut k: usize = start;
    proof {
        assert(ds.take(0) =~= Seq::<u8>::empty());
        lemma_pow16_monotone(ds.len(), 12);
        reveal_with_fuel(pow16, 13);
    }
    while k < 12
        invariant
            digits@.len() == 12,
            ds =~= digits@.subrange(start as int, 12),
            ds == unsigned_digits(digits@),
            start <= k <= 12,
            is_hex_number(digits@),
            pow16(ds.len()) <= 281474976710656,
            v == hex_number_value(ds.take(k - start)),
            v < pow16((k - start) as nat),
        decreases 12 - k,
    {
        let ghost j = k - start;
        assert(is_hex_byte(ds[j]));
        let d = hex_byte_to_value(digits[k]);
        proof {
            lemma_pow16_monotone((j + 1) as nat, ds.len());
            assert(ds.take(j + 1).drop_last() =~= ds.take(j));
            assert(pow16((j + 1) as nat) == 16 * pow16(j as nat));
        }
        v = v * 16 + d;
        k = k + 1;
    }
    assert(ds.take(12 - start) =~= ds);
    num_to_base62(v)
}

/// The campaign parameters as stored: an absent parameter is `None`.
#[derive(Clone, Debug, PartialEq, Eq, Default)]
pub struct GoogleAnalyticsCampaign {
    pub utm_source: Option<String>,
    pub utm_campaign: Option<String>,
    pub utm_medium: Option<String>,
    pub utm_content: Option<String>,
    pub utm_term: Option<String>,
}

/// An empty parameter is absent; any other is kept as it is.
pub open spec fn optional_param(s: String) -> Option<String> {
    if s@.len() == 0 {
        None
    } else {
        Some(s)
    }
}

fn optional(s: &String) -> (r: Option<String>)
    ensures
        r == optional_param(*s),
{
    if s.as_str().is_empty() {
        None
    } else {
        Some(s.clone())
    }
}

/// The campaign stored for a request: its stored form, or every parameter
/// absent when the request has none.
pub open spec fn stored_campaign_of(c: Option<shorty::GoogleAnalyticsCampaign>) -> GoogleAnalyticsCampaign {
    match c {
        Some(value) => stored_campaign(value),
        None => GoogleAnalyticsCampaign {
            utm_source: None,
            utm_campaign: None,
            utm_medium: None,
            utm_content: None,
            utm_term: None,
        },
    }
}

/// The stored form of a request's campaign: each empty parameter becomes
/// `None`, each other one is kept.
pub open spec fn stored_campaign(value: shorty::GoogleAnalyticsCampaign) -> GoogleAnalyticsCampaign {
    GoogleAnalyticsCampaign {
        utm_source: optional_param(value.utm_source),
        utm_campaign: optional_param(value.utm_campaign),
        utm_medium: optional_param(value.utm_medium),
        utm_content: optional_param(value.utm_content),
        utm_term: optional_param(value.utm_term),
    }
}

impl<'a> From<&'a shorty::GoogleAnalyticsCampaign> for GoogleAnalyticsCampaign {
    /// Stores each parameter of a request, an empty one as `None`.
    fn from(value: &'a shorty::GoogleAnalyticsCampaign) -> (r: Self)
        ensures
            r.utm_source is Some <==> value.utm_source@.len() > 0,
            r.utm_source matches Some(v) ==> v == value.utm_source,
            r.utm_campaign is Some <==> value.utm_campaign@.len() > 0,
            r.utm_campaign matches Some(v) ==> v == value.utm_campaign,
            r.utm_medium is Some <==> value.utm_medium@.len() > 0,
            r.utm_medium matches Some(v) ==> v == value.utm_medium,
            r.utm_content is Some <==> value.utm_content@.len() > 0,
            r.utm_content matches Some(v) ==> v == value.utm_content,
            r.utm_term is Some <==> value.utm_term@.len() > 0,
            r.utm_term matches Some(v) ==> v == value.utm_term,
    {
        GoogleAnalyticsCampaign {
            utm_source: optional(&value.utm_source),
            utm_campaign: optional(&value.utm_campaign),
            utm_medium: optional(&value.utm_medium),
            utm_content: optional(&value.utm_content),
            utm_term: optional(&value.utm_term),
        }
    }
}

impl<'a> vstd::std_specs::convert::FromSpecImpl<&'a shorty::GoogleAnalyticsCampaign> for GoogleAnalyticsCampaign {
    open spec fn obeys_from_spec() -> bool {
        true
    }

    open spec fn from_spec(value: &'a shorty::GoogleAnalyticsCampaign) -> Self {
        stored_campaign(*value)
    }
}

/// One `key=value&` pair of the joined URL, for a non-empty value; the value
/// is trimmed.
pub open spec fn utm_param(key: Seq<char>, value: Seq<char>) -> Seq<char> {
    if value.len() == 0 {
        seq![]
    } else {
        key + trim(value) + "&"@
    }
}

/// The campaign's parameters in the order the joined URL lists them.
pub open spec fn utm_params(c: shorty::GoogleAnalyticsCampaign) -> Seq<char> {
    utm_param("utm_medium="@, c.utm_medium@) + utm_param("utm_campaign="@, c.utm_campaign@)
        + utm_param("utm_content="@, c.utm_content@) + utm_param("utm_source="@, c.utm_source@)
        + utm_param("utm_term="@, c.utm_term@)
}

/// The requested URL, lower-cased and trimmed, then `?`, then the
/// campaign's non-empty parameters.
pub open spec fn joined_url(request: shorty::ShortenRequest) -> Seq<char> {
    trim(ascii_lowercase(request.url@)) + "?"@ + match request.campaign {
        Some(c) => utm_params(c),
        None => seq![],
    }
}

fn push_param(s: &mut String, key: &str, value: &String)
    ensures
        final(s)@ == old(s)@ + utm_param(key@, value@),
{
    if !value.as_str().is_empty() {
        s.append(key);
        s.append(trim_str(value.as_str()));
        s.append("&");
    } else {
        assert(old(s)@ + utm_param(key@, value@) =~= old(s)@);
    }
}

/// Joins the requested URL with its Google Analytics parameters.
pub fn join_url(request: &shorty::ShortenRequest) -> (s: String)
    ensures
        s@ == joined_url(*request),
{
    let lower = to_ascii_lowercase(request.url.as_str());
    let mut s = String::new();
    s.append(trim_str(lower.as_str()));
    s.append("?");
    match &request.campaign {
        Some(c) => {
            push_param(&mut s, "utm_medium=", &c.utm_medium);
            push_param(&mut s, "utm_campaign=", &c.utm_campaign);
            push_param(&mut s, "utm_content=", &c.utm_content);
            push_param(&mut s, "utm_source=", &c.utm_source);
            push_param(&mut s, "utm_term=", &c.utm_term);
        },
        None => {},
    }
    assert(s@ =~= joined_url(*request));
    s
}

/// A stored link: its id, the short URL, the URL as requested, the URL with
/// its campaign parameters, the campaign, when it was created and last
/// accessed (milliseconds since the Unix epoch, UTC) and its visit count.
#[derive(Clone, Debug, PartialEq, Eq)]
pub struct ShortyDocument {
    pub id: ObjectId,
    pub url: String,
    pub original: String,
    pub constructed: String,
    pub ga_campaign: GoogleAnalyticsCampaign,
    pub created: i64,
    pub accessed: Option<i64>,
    pub visits: i32,
}

/// The lookup of an already shortened URL: documents whose `original` equals
/// `original` and, when `utm_content` is set, whose campaign `utm_content`
/// equals it.
#[derive(Clone, Debug, PartialEq, Eq)]
pub struct UrlQuery {
    pub original: String,
    pub utm_content: Option<String>,
}

/// The lookup of a link by its short URL.
#[derive(Clone, Debug, PartialEq, Eq)]
pub struct OriginalQuery {
    pub url: String,
}

/// Counts a visit of the document with id `id`: adds `amount` to its visit
/// count and records `accessed` (milliseconds since the Unix epoch, UTC) as
/// its last access.
#[derive(Clone, Copy, Debug, PartialEq, Eq)]
pub struct VisitIncrement {
    pub id: ObjectId,
    pub amount: i32,
    pub accessed: i64,
}

/// What applying a `VisitIncrement` to the document it names leaves: the
/// visit count grown by `amount`, `accessed` set to the time of the visit,
/// every other field as it was.
pub open spec fn visit_counted(
    before: ShortyDocument,
    after: ShortyDocument,
    u: VisitIncrement,
) -> bool {
    &&& before.id == u.id
    &&& after.visits == before.visits + u.amount
    &&& after.accessed == Some(u.accessed)
    &&& after.id == before.id
    &&& after.url == before.url
    &&& after.original == before.original
    &&& after.constructed == before.constructed
    &&& after.ga_campaign == before.ga_campaign
    &&& after.created == before.created
}

/// Whether a stored document answers a `UrlQuery` (equality on each field
/// that the query names; an absent parameter never equals a string).
pub open spec fn url_query_matches(q: UrlQuery, doc: ShortyDocument) -> bool {
    &&& doc.original@ == q.original@
    &&& q.utm_content matches Some(v) ==> (doc.ga_campaign.utm_content matches Some(w) && w@ == v@)
}

/// The lookup made for a request: the requested URL lower-cased and
/// trimmed, and, when the request has a `utm_content` parameter, an empty
/// stored `utm_content`.
pub open spec fn is_url_query_for(q: UrlQuery, args: shorty::ShortenRequest) -> bool {
    &&& q.original@ == trim(ascii_lowercase(args.url@))
    &&& q.utm_content is Some <==> (args.campaign matches Some(c) && c.utm_content@.len() > 0)
    &&& q.utm_content matches Some(v) ==> v@ == Seq::<char>::empty()
}

/// Whether a stored document answers an `OriginalQuery`.
pub open spec fn original_query_matches(q: OriginalQuery, doc: ShortyDocument) -> bool {
    doc.url@ == q.url@
}

/// The bytes of an ASCII text.
pub open spec fn ascii_bytes(s: Seq<char>) -> Seq<u8> {
    s.map_values(|c: char| c as u8)
}

/// The short segment of a document id.
pub open spec fn id_segment(id: ObjectId) -> Seq<char> {
    short_segment(ascii_bytes(hex_lower(id.bytes@)))
}

/// The short URL of a document id under `prefix`.
pub open spec fn short_url(prefix: Seq<char>, id: ObjectId) -> Seq<char> {
    prefix + "/"@ + id_segment(id)
}

/// What a document created for `request` under `prefix` holds, whatever its
/// id and creation time.
pub open spec fn is_new_document(
    doc: ShortyDocument,
    request: shorty::ShortenRequest,
    prefix: Seq<char>,
) -> bool {
    &&& doc.original@ == request.url@
    &&& doc.accessed is None
    &&& doc.constructed@ == joined_url(request)
    &&& doc.ga_campaign == stored_campaign_of(request.campaign)
    &&& doc.url@ == short_url(prefix, doc.id)
    &&& doc.visits == 0
}

/// The reply that names a document: its hex id and its short URL.
pub open spec fn reply_of(doc: ShortyDocument, reply: shorty::Shorty) -> bool {
    &&& reply.id@ == hex_lower(doc.id.bytes@)
    &&& reply.url@ == doc.url@
}

proof fn lemma_hex_segment_source(id: ObjectId)
    ensures
        is_segment_source(ascii_bytes(hex_lower(id.bytes@))),
        vstd::utf8::is_ascii_chars(hex_lower(id.bytes@)),
{
    let h = hex_lower(id.bytes@);
    assert forall|i: int| 0 <= i < h.len() implies '\0' <= #[trigger] h[i] <= '\u{7f}' && is_hex_byte(
        h[i] as u8,
    ) by {
        let b = id.bytes@[i / 2];
        assert(b / 16 < 16 && b % 16 < 16);
    }
    let d = segment_digits(ascii_bytes(h));
    assert forall|i: int| 0 <= i < d.len() implies is_hex_byte(#[trigger] d[i]) by {
        if i < 4 {
            assert(d[i] == h[i + 20] as u8);
        } else {
            assert(d[i] == h[i - 4] as u8);
        }
    }
    assert(d[0] == h[20] as u8);
}

proof fn lemma_hex_is_segment_source(id: ObjectId, s: &str)
    requires
        s@ == hex_lower(id.bytes@),
    ensures
        s.spec_bytes() == ascii_bytes(s@),
        is_segment_source(s.spec_bytes()),
{
    broadcast use vstd::string::group_string_axioms;

    lemma_hex_segment_source(id);
    assert(vstd::string::is_ascii(s));
    assert(s.spec_bytes() =~= ascii_bytes(s@));
}

impl ShortyDocument {
    /// The lookup of a stored link for `args`: the requested URL lower-cased
    /// and trimmed, and, when the request has a `utm_content` parameter, an
    /// empty stored `utm_content`.
    pub fn find_url(args: &shorty::ShortenRequest) -> (q: UrlQuery)
        ensures
            is_url_query_for(q, *args),
    {
        let lower = to_ascii_lowercase(args.url.as_str());
        let original = String::from_str(trim_str(lower.as_str()));
        let utm_content = match &args.campaign {
            Some(c) => {
                if !c.utm_content.as_str().is_empty() {
                    Some(String::new())
                } else {
                    None
                }
            },
            None => None,
        };
        UrlQuery { original, utm_content }
    }

    /// The lookup of a link by its short URL, trimmed.
    pub fn find_original(url: &str) -> (q: OriginalQuery)
        ensures
            q.url@ == trim(url@),
    {
        OriginalQuery { url: String::from_str(trim_str(url)) }
    }

    /// The update that counts a visit of the document `id` at time
    /// `accessed`: one more visit, whatever `_counter` asks for, and
    /// `accessed` as the last access.
    pub fn add_counter(id: ObjectId, _counter: i32, accessed: i64) -> (u: VisitIncrement)
        ensures
            u.id == id,
            u.amount == 1,
            u.accessed == accessed,
    {
        VisitIncrement { id, amount: 1, accessed }
    }

    /// Whether a visit was counted, from the number of documents that the
    /// update matched (`None` when the update failed).
    pub fn counter_updated(matched_count: Option<i32>) -> (b: bool)
        ensures
            b == (matched_count matches Some(n) && n > 0),
    {
        match matched_count {
            Some(n) => n > 0,
            None => false,
        }
    }

    /// The reply that names this document: its hex id and short URL.
    pub fn to_shorty(&self) -> (r: shorty::Shorty)
        ensures
            reply_of(*self, r),
    {
        shorty::Shorty { id: self.id.to_hex(), url: self.url.clone() }
    }

    /// The document for a request that has no stored link yet, with the
    /// given id and creation time, its short URL under `prefix`.
    pub fn create(request: &shorty::ShortenRequest, id: ObjectId, created: i64, prefix: &str) -> (doc:
        ShortyDocument)
        ensures
            is_new_document(doc, *request, prefix@),
            doc.id == id,
            doc.created == created,
    {
        let hex = id.to_hex();
        let hex_str = hex.as_str();
        proof {
            lemma_hex_is_segment_source(id, hex_str);
        }
        let segment = create_short_segment(hex_str);
        let mut url = String::from_str(prefix);
        url.append("/");
        url.append(segment.as_str());
        let ga_campaign = match &request.campaign {
            Some(c) => GoogleAnalyticsCampaign::from(c),
            None => GoogleAnalyticsCampaign {
                utm_source: None,
                utm_campaign: None,
                utm_medium: None,
                utm_content: None,
                utm_term: None,
            },
        };
        ShortyDocument {
            id,
            original: request.url.clone(),
            accessed: None,
            constructed: join_url(request),
            created,
            ga_campaign,
            url,
            visits: 0,
        }
    }
}

/// `chrono::Utc::now`, as milliseconds since the Unix epoch
/// (`DateTime::timestamp_millis`). The clock's reading is not stated.
#[verifier::external_body]
fn utc_now_millis() -> (t: i64) {
    chrono::Utc::now().timestamp_millis()
}

/// What happened since the last step of shortening a URL.
#[derive(Clone, Debug, PartialEq, Eq)]
pub enum ShortenEvent {
    /// The request arrived.
    Start,
    /// The lookup asked for by `Find` answered.
    Looked(Option<ShortyDocument>),
    /// The URL prefix of short links, asked for by `ReadPrefix`, was read.
    Prefix(String),
    /// The document handed out by `Save` was stored (`true`) or not.
    Stored(ShortyDocument, bool),
}

/// What to do next while shortening a URL.
#[derive(Clone, Debug, PartialEq, Eq)]
pub enum ShortenAction {
    /// Look up a stored link with this query, then report `Looked`.
    Find(UrlQuery),
    /// Read the URL prefix of short links, then report `Prefix`.
    ReadPrefix,
    /// Store this new document, then report `Stored`.
    Save(ShortyDocument),
    /// No object id could be generated.
    NoObjectId,
    /// Answer the request.
    Reply(Option<shorty::Shorty>),
}

/// One step of shortening `req`: look for a link stored for the same URL and
/// return it, or else create, store and return a new one.
pub fn shorten(req: &shorty::ShortenRequest, event: ShortenEvent) -> (a: ShortenAction)
    ensures
        match event {
            ShortenEvent::Start => a matches ShortenAction::Find(q) && is_url_query_for(q, *req),
            ShortenEvent::Looked(Some(doc)) => a matches ShortenAction::Reply(Some(r)) && reply_of(
                doc,
                r,
            ),
            ShortenEvent::Looked(None) => a is ReadPrefix,
            ShortenEvent::Prefix(prefix) => a is NoObjectId || (a matches ShortenAction::Save(doc)
                && is_new_document(doc, *req, prefix@) && is_generated_id(doc.id.bytes@)),
            ShortenEvent::Stored(doc, saved) => if saved {
                a matches ShortenAction::Reply(Some(r)) && reply_of(doc, r)
            } else {
                a == ShortenAction::Reply(None)
            },
        },
{
    match event {
        ShortenEvent::Start => ShortenAction::Find(ShortyDocument::find_url(req)),
        ShortenEvent::Looked(Some(doc)) => ShortenAction::Reply(Some(doc.to_shorty())),
        ShortenEvent::Looked(None) => ShortenAction::ReadPrefix,
        ShortenEvent::Prefix(prefix) => match ObjectId::new() {
            Some(id) => {
                let created = utc_now_millis();
                ShortenAction::Save(ShortyDocument::create(req, id, created, prefix.as_str()))
            },
            None => ShortenAction::NoObjectId,
        },
        ShortenEvent::Stored(doc, saved) => if saved {
            ShortenAction::Reply(Some(doc.to_shorty()))
        } else {
            ShortenAction::Reply(None)
        },
    }
}

/// Whether `c` is an ASCII letter or digit.
pub open spec fn is_ascii_alphanumeric(c: char) -> bool {
    ||| '0' <= c <= '9'
    ||| 'a' <= c <= 'z'
    ||| 'A' <= c <= 'Z'
}

/// Sixty-two to the power `n`.
pub open spec fn pow62(n: nat) -> nat
    decreases n,
{
    if n == 0 {
        1
    } else {
        62 * pow62((n - 1) as nat)
    }
}

proof fn lemma_alphabet_alphanumeric(d: int)
    requires
        0 <= d < 62,
    ensures
        is_ascii_alphanumeric(alphabet_char(d)),
{
    assert(forall|k: int| 0 <= k < 62 ==> is_ascii_alphanumeric(#[trigger] alphabet_char(k)));
}

proof fn lemma_base62_shape(n: nat, k: nat)
    requires
        1 <= k,
        n < pow62(k),
    ensures
        1 <= base62(n).len() <= k,
        forall|i: int| 0 <= i < base62(n).len() ==> is_ascii_alphanumeric(#[trigger] base62(n)[i]),
    decreases n,
{
    if n < 62 {
        lemma_alphabet_alphanumeric(n as int);
    } else {
        let p = pow62((k - 1) as nat);
        if k == 1 {
            assert(pow62(1) == 62) by {
                reveal_with_fuel(pow62, 2);
            }
        }
        assert(k >= 2);
        assert(n / 62 < p) by (nonlinear_arith)
            requires
                n < 62 * p,
        ;
        lemma_base62_shape(n / 62, (k - 1) as nat);
        lemma_alphabet_alphanumeric((n % 62) as int);
    }
}

/// A short segment is one to nine ASCII letters and digits.
pub proof fn lemma_short_segment_shape(id: Seq<u8>)
    requires
        is_segment_source(id),
    ensures
        1 <= short_segment(id).len() <= 9,
        forall|i: int|
            0 <= i < short_segment(id).len() ==> is_ascii_alphanumeric(#[trigger] short_segment(id)[i]),
{
    let ds = unsigned_digits(segment_digits(id));
    lemma_hex_number_bound(ds);
    lemma_pow16_monotone(ds.len(), 12);
    assert(pow16(12) == 281474976710656) by {
        reveal_with_fuel(pow16, 13);
    }
    assert(pow62(9) == 13537086546263552) by {
        reveal_with_fuel(pow62, 10);
    }
    lemma_base62_shape(hex_number_value(ds), 9);
}

/// The short URL of a newly created link reads back as itself: `find_original`
/// on the URL of the reply to `Shorten` looks up exactly the stored document,
/// whose constructed URL is what `GetUrl` then answers. This holds for every
/// prefix that does not begin with whitespace.
pub proof fn lemma_new_link_resolves(
    doc: ShortyDocument,
    request: shorty::ShortenRequest,
    prefix: Seq<char>,
    reply: shorty::Shorty,
)
    requires
        is_new_document(doc, request, prefix),
        reply_of(doc, reply),
        prefix.len() == 0 || !crate::text::is_white_space(prefix[0]),
    ensures
        trim(reply.url@) == doc.url@,
        doc.constructed@ == joined_url(request),
{
    reveal_strlit("/");
    let seg = id_segment(doc.id);
    lemma_hex_segment_source(doc.id);
    lemma_short_segment_shape(ascii_bytes(hex_lower(doc.id.bytes@)));
    let u = doc.url@;
    assert(u == prefix + "/"@ + seg);
    assert(u.len() > 0);
    assert(!crate::text::is_white_space(u[0])) by {
        if prefix.len() == 0 {
            assert(u[0] == '/');
        } else {
            assert(u[0] == prefix[0]);
        }
    }
    assert(u.last() == seg.last());
    assert(is_ascii_alphanumeric(seg[seg.len() - 1]));
    assert(crate::text::trim_start(u) == u);
    assert(crate::text::trim_end(u) == u);
}

/// The hex id in the reply to `Shorten` names the stored document: it is 24
/// hex digits, and reading it back gives the document's id, so
/// `AddCounter` with that id counts a visit of that document.
pub proof fn lemma_reply_id_names_document(doc: ShortyDocument, reply: shorty::Shorty)
    requires
        reply_of(doc, reply),
    ensures
        is_object_id_hex(reply.id@),
        hex_decode(reply.id@) == doc.id.bytes@,
{
    crate::object_id::lemma_hex_round_trip(doc.id);
}

/// Shortening the same request again finds the link stored for it exactly
/// when its URL is already lower-case and trimmed and it has no
/// `utm_content` parameter.
pub proof fn lemma_repeat_shorten_finds_link(
    doc: ShortyDocument,
    request: shorty::ShortenRequest,
    prefix: Seq<char>,
    q: UrlQuery,
)
    requires
        is_new_document(doc, request, prefix),
        is_url_query_for(q, request),
    ensures
        url_query_matches(q, doc) <==> (request.url@ == trim(ascii_lowercase(request.url@))
            && !(request.campaign matches Some(c) && c.utm_content@.len() > 0)),
{
}

/// Whether `found` is a possible answer of a store holding `store` to the
/// lookup `q`: some matching document when there is one, `None` when there
/// is none. Which of several matching documents comes back is the store's.
pub open spec fn lookup_answers(store: Seq<ShortyDocument>, q: UrlQuery, found: Option<
    ShortyDocument,
>) -> bool {
    match found {
        Some(d) => store.contains(d) && url_query_matches(q, d),
        None => forall|i: int| 0 <= i < store.len() ==> !url_query_matches(q, #[trigger] store[i]),
    }
}

/// Shortening a request a second time returns the link made the first time
/// and stores nothing new: when the first lookup found no link, the new
/// document was added, the URL is lower-case and trimmed and there is no
/// `utm_content`, the second lookup can only answer that document, on which
/// `shorten` replies with the same id and short URL (`Looked(Some(doc))`
/// leads to a reply, never to `Save`).
pub proof fn lemma_repeat_shorten_returns_same_link(
    store: Seq<ShortyDocument>,
    doc: ShortyDocument,
    request: shorty::ShortenRequest,
    prefix: Seq<char>,
    q: UrlQuery,
    found: Option<ShortyDocument>,
)
    requires
        is_new_document(doc, request, prefix),
        is_url_query_for(q, request),
        lookup_answers(store, q, None),
        lookup_answers(store.push(doc), q, found),
        request.url@ == trim(ascii_lowercase(request.url@)),
        !(request.campaign matches Some(c) && c.utm_content@.len() > 0),
    ensures
        found == Some(doc),
{
    lemma_repeat_shorten_finds_link(doc, request, prefix, q);
    let s2 = store.push(doc);
    let d = found->0;
    assert(found is Some) by {
        assert(s2[store.len() as int] == doc);
    }
    let i = choose|i: int| 0 <= i < s2.len() && s2[i] == d;
    if i < store.len() {
        assert(s2[i] == store[i]);
    }
}

proof fn lemma_pow62_positive(j: nat)
    ensures
        pow62(j) > 0,
    decreases j,
{
    if j > 0 {
        lemma_pow62_positive((j - 1) as nat);
    }
}

/// The alphabet is `nHz2QqF4p51G7a9ef6mXdglBo8sVtLwRjkPxySACrNhMDEUiTJ0KbOuvUcWY3Z`:
/// digit `d` is written as the `d`-th character of that text.
pub proof fn lemma_alphabet_text(d: int)
    requires
        0 <= d < 62,
    ensures
        alphabet_char(d) == "nHz2QqF4p51G7a9ef6mXdglBo8sVtLwRjkPxySACrNhMDEUiTJ0KbOuvUcWY3Z"@[d],
        alphabet_char(d) == ALPHABET@[d] as char,
{
    broadcast use vstd::string::group_string_axioms;

    reveal_strlit("nHz2QqF4p51G7a9ef6mXdglBo8sVtLwRjkPxySACrNhMDEUiTJ0KbOuvUcWY3Z");
}

/// Base 62 is positional: the numeral of `n` has `k` digits exactly when
/// `62^(k-1) <= n < 62^k` (or `k` is 1 and `n` is below 62), and its
/// `i`-th character is the alphabet byte of the digit `(n / 62^(k-1-i)) % 62`.
pub proof fn lemma_base62_positional(n: nat)
    ensures
        base62(n).len() >= 1,
        n < pow62(base62(n).len()),
        base62(n).len() == 1 || pow62((base62(n).len() - 1) as nat) <= n,
        forall|i: int|
            0 <= i < base62(n).len() ==> #[trigger] base62(n)[i] == ALPHABET@[((n / pow62(
                (base62(n).len() - 1 - i) as nat,
            )) % 62) as int] as char,
    decreases n,
{
    let s = base62(n);
    if n < 62 {
        assert(pow62(1) == 62) by {
            reveal_with_fuel(pow62, 2);
        }
        assert(pow62(0) == 1);
        assert(n / 1 == n);
    } else {
        let m = n / 62;
        lemma_base62_positional(m);
        let t = base62(m);
        let k = t.len();
        assert(s == t.push(alphabet_char((n % 62) as int)));
        assert(pow62(k + 1) == 62 * pow62(k));
        assert(n < pow62(k + 1)) by (nonlinear_arith)
            requires
                m < pow62(k),
                m == n / 62,
                pow62(k + 1) == 62 * pow62(k),
        ;
        if k >= 1 {
            assert(pow62(k) == 62 * pow62((k - 1) as nat));
            if k > 1 {
                assert(pow62(k) <= n) by (nonlinear_arith)
                    requires
                        pow62((k - 1) as nat) <= m,
                        m == n / 62,
                        pow62(k) == 62 * pow62((k - 1) as nat),
                ;
            } else {
                assert(pow62(1) == 62) by {
                    reveal_with_fuel(pow62, 2);
                }
            }
        }
        assert forall|i: int| 0 <= i < s.len() implies #[trigger] s[i] == ALPHABET@[((n / pow62(
            (s.len() - 1 - i) as nat,
        )) % 62) as int] as char by {
            if i == k {
                assert(pow62(0) == 1);
                assert(n / 1 == n);
            } else {
                lemma_pow62_positive((k - 1 - i) as nat);
                let j = (k - 1 - i) as nat;
                assert(s[i] == t[i]);
                assert(pow62(j + 1) == 62 * pow62(j));
                vstd::arithmetic::div_mod::lemma_div_denominator(n as int, 62, pow62(j) as int);
                assert((s.len() - 1 - i) as nat == j + 1);
            }
        }
    }
}

/// The hex digits mean what they say: the `d`-th character of
/// `0123456789abcdef`, and of `0123456789ABCDEF`, is a hex digit of value `d`.
pub proof fn lemma_hex_digit_values(d: int)
    requires
        0 <= d < 16,
    ensures
        is_hex_byte("0123456789abcdef"@[d] as u8),
        hex_byte_value("0123456789abcdef"@[d] as u8) == d,
        is_hex_byte("0123456789ABCDEF"@[d] as u8),
        hex_byte_value("0123456789ABCDEF"@[d] as u8) == d,
{
    broadcast use vstd::string::group_string_axioms;

    reveal_strlit("0123456789abcdef");
    reveal_strlit("0123456789ABCDEF");
}

/// The short segment of a document id encodes, as one number, the id's last
/// two bytes followed by its first four (its timestamp), most significant
/// first.
pub proof fn lemma_segment_number_of_id(id: ObjectId)
    ensures
        hex_number_value(unsigned_digits(segment_digits(ascii_bytes(hex_lower(id.bytes@)))))
            == id.bytes@[10] * 0x100_0000_0000 + id.bytes@[11] * 0x1_0000_0000 + id.bytes@[0]
            * 0x100_0000 + id.bytes@[1] * 0x1_0000 + id.bytes@[2] * 0x100 + id.bytes@[3],
{
    let b = id.bytes@;
    let h = hex_lower(b);
    lemma_hex_segment_source(id);
    let d = segment_digits(ascii_bytes(h));
    assert(unsigned_digits(d) == d);
    assert forall|i: int| 0 <= i < 12 implies #[trigger] hex_byte_value(d[i]) == (if (i % 2)
        == 0 {
        b[(if i < 4 {
            i + 20
        } else {
            i - 4
        }) / 2] / 16
    } else {
        b[(if i < 4 {
            i + 20
        } else {
            i - 4
        }) / 2] % 16
    }) by {
        let j = if i < 4 {
            i + 20
        } else {
            i - 4
        };
        assert(d[i] == h[j] as u8);
        assert(j % 2 == i % 2);
        let x = b[j / 2];
        assert(x / 16 < 16 && x % 16 < 16);
    }
    reveal_with_fuel(hex_number_value, 13);
    assert(d.drop_last() =~= d.take(11));
    assert(d.take(11).drop_last() =~= d.take(10));
    assert(d.take(10).drop_last() =~= d.take(9));
    assert(d.take(9).drop_last() =~= d.take(8));
    assert(d.take(8).drop_last() =~= d.take(7));
    assert(d.take(7).drop_last() =~= d.take(6));
    assert(d.take(6).drop_last() =~= d.take(5));
    assert(d.take(5).drop_last() =~= d.take(4));
    assert(d.take(4).drop_last() =~= d.take(3));
    assert(d.take(3).drop_last() =~= d.take(2));
    assert(d.take(2).drop_last() =~= d.take(1));
    assert(d.take(1).drop_last() =~= d.take(0));
    assert(hex_byte_value(d[0]) == b[10] / 16);
    assert(hex_byte_value(d[1]) == b[10] % 16);
    assert(hex_byte_value(d[2]) == b[11] / 16);
    assert(hex_byte_value(d[3]) == b[11] % 16);
    assert(hex_byte_value(d[4]) == b[0] / 16);
    assert(hex_byte_value(d[5]) == b[0] % 16);
    assert(hex_byte_value(d[6]) == b[1] / 16);
    assert(hex_byte_value(d[7]) == b[1] % 16);
    assert(hex_byte_value(d[8]) == b[2] / 16);
    assert(hex_byte_value(d[9]) == b[2] % 16);
    assert(hex_byte_value(d[10]) == b[3] / 16);
    assert(hex_byte_value(d[11]) == b[3] % 16);
    assert(b[10] == (b[10] / 16) * 16 + b[10] % 16);
    assert(b[11] == (b[11] / 16) * 16 + b[11] % 16);
    assert(b[0] == (b[0] / 16) * 16 + b[0] % 16);
    assert(b[1] == (b[1] / 16) * 16 + b[1] % 16);
    assert(b[2] == (b[2] / 16) * 16 + b[2] % 16);
    assert(b[3] == (b[3] / 16) * 16 + b[3] % 16);
}

/// Storing a campaign keeps each parameter in the field of the same name:
/// a stored field is present exactly when the request's field of that name
/// is non-empty, and then holds that very string.
pub proof fn lemma_stored_campaign_fields(value: shorty::GoogleAnalyticsCampaign)
    ensures
        stored_campaign(value).utm_source is Some <==> value.utm_source@.len() > 0,
        stored_campaign(value).utm_source matches Some(v) ==> v == value.utm_source,
        stored_campaign(value).utm_campaign is Some <==> value.utm_campaign@.len() > 0,
        stored_campaign(value).utm_campaign matches Some(v) ==> v == value.utm_campaign,
        stored_campaign(value).utm_medium is Some <==> value.utm_medium@.len() > 0,
        stored_campaign(value).utm_medium matches Some(v) ==> v == value.utm_medium,
        stored_campaign(value).utm_content is Some <==> value.utm_content@.len() > 0,
        stored_campaign(value).utm_content matches Some(v) ==> v == value.utm_content,
        stored_campaign(value).utm_term is Some <==> value.utm_term@.len() > 0,
        stored_campaign(value).utm_term matches Some(v) ==> v == value.utm_term,
{
}

/// The constructed URL is the requested URL lower-cased and trimmed, then
/// `?`, then, in the order medium, campaign, content, source, term, each
/// non-empty parameter as its key, its value trimmed with every character
/// kept as it is (case included), and `&`. Only the URL is lower-cased.
pub proof fn lemma_join_url_layout(request: shorty::ShortenRequest, c: shorty::GoogleAnalyticsCampaign)
    requires
        request.campaign == Some(c),
    ensures
        joined_url(request) == trim(ascii_lowercase(request.url@)) + "?"@ + (if c.utm_medium@.len()
            == 0 {
            Seq::<char>::empty()
        } else {
            "utm_medium="@ + trim(c.utm_medium@) + "&"@
        }) + (if c.utm_campaign@.len() == 0 {
            Seq::<char>::empty()
        } else {
            "utm_campaign="@ + trim(c.utm_campaign@) + "&"@
        }) + (if c.utm_content@.len() == 0 {
            Seq::<char>::empty()
        } else {
            "utm_content="@ + trim(c.utm_content@) + "&"@
        }) + (if c.utm_source@.len() == 0 {
            Seq::<char>::empty()
        } else {
            "utm_source="@ + trim(c.utm_source@) + "&"@
        }) + (if c.utm_term@.len() == 0 {
            Seq::<char>::empty()
        } else {
            "utm_term="@ + trim(c.utm_term@) + "&"@
        }),
{
}

/// Without a campaign the constructed URL is the requested URL lower-cased
/// and trimmed, followed by `?`.
pub proof fn lemma_join_url_without_campaign(request: shorty::ShortenRequest)
    requires
        request.campaign is None,
    ensures
        joined_url(request) == trim(ascii_lowercase(request.url@)) + "?"@,
{
    assert(joined_url(request) =~= trim(ascii_lowercase(request.url@)) + "?"@);
}

/// The campaign's part of the constructed URL does not depend on the URL:
/// two requests with the same campaign give the same text after the
/// normalised URL and `?`.
pub proof fn lemma_join_url_campaign_part(r1: shorty::ShortenRequest, r2: shorty::ShortenRequest)
    requires
        r1.campaign == r2.campaign,
    ensures
        joined_url(r1).skip(trim(ascii_lowercase(r1.url@)).len() + 1int) == joined_url(r2).skip(
            trim(ascii_lowercase(r2.url@)).len() + 1int,
        ),
{
    let b1 = trim(ascii_lowercase(r1.url@)) + "?"@;
    let b2 = trim(ascii_lowercase(r2.url@)) + "?"@;
    reveal_strlit("?");
    let rest = match r1.campaign {
        Some(c) => utm_params(c),
        None => seq![],
    };
    assert((b1 + rest).skip(b1.len() as int) =~= rest);
    assert((b2 + rest).skip(b2.len() as int) =~= rest);
}

} // verus!
