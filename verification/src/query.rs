//! The search request: the query in percent-encoded form, the address to
//! call and the headers to send.

use vstd::prelude::*;
use vstd::string::*;

verus! {

/// Whether a byte stands for itself in an encoded query: the letters and
/// digits of ASCII, and `-`, `.`, `_`, `~`.
pub open spec fn is_unreserved(byte: u8) -> bool {
    ||| 0x30 <= byte <= 0x39
    ||| 0x41 <= byte <= 0x5A
    ||| 0x61 <= byte <= 0x7A
    ||| byte == 0x2D
    ||| byte == 0x2E
    ||| byte == 0x5F
    ||| byte == 0x7E
}

/// The digit for a value below sixteen, with capital letters from ten on.
pub open spec fn hex_digit(value: int) -> char {
    if value < 10 {
        ((0x30 + value) as u8) as char
    } else {
        ((0x41 + value - 10) as u8) as char
    }
}

/// One byte in encoded form: itself where it is unreserved, else a percent
/// sign and its two hexadecimal digits.
pub open spec fn encoded_byte(byte: u8) -> Seq<char> {
    if is_unreserved(byte) {
        seq![byte as char]
    } else {
        seq!['%', hex_digit(byte as int / 16), hex_digit(byte as int % 16)]
    }
}

/// The bytes in encoded form, one after the other.
pub open spec fn percent_encoded(bytes: Seq<u8>) -> Seq<char>
    decreases bytes.len(),
{
    if bytes.len() == 0 {
        Seq::empty()
    } else {
        percent_encoded(bytes.drop_last()) + encoded_byte(bytes.last())
    }
}

/// Whether a character may stand in an encoded query: a percent sign or an
/// unreserved character.
pub open spec fn is_query_safe(c: char) -> bool {
    c == '%' || (c as u32 <= 0x7F && is_unreserved(c as u8))
}

/// An encoded query holds nothing but percent signs and unreserved
/// characters, whatever was encoded.
pub proof fn lemma_percent_encoded_is_safe(bytes: Seq<u8>)
    ensures
        forall|i: int|
            0 <= i < percent_encoded(bytes).len() ==> is_query_safe(
                #[trigger] percent_encoded(bytes)[i],
            ),
    decreases bytes.len(),
{
    if bytes.len() > 0 {
        lemma_percent_encoded_is_safe(bytes.drop_last());
        let byte = bytes.last();
        let tail = encoded_byte(byte);
        assert forall|k: int| 0 <= k < tail.len() implies is_query_safe(#[trigger] tail[k]) by {
            if !is_unreserved(byte) {
                assert(is_query_safe(hex_digit(byte as int / 16)));
                assert(is_query_safe(hex_digit(byte as int % 16)));
            }
        }
        let front = percent_encoded(bytes.drop_last());
        assert forall|i: int| 0 <= i < percent_encoded(bytes).len() implies is_query_safe(
            #[trigger] percent_encoded(bytes)[i],
        ) by {
            if i < front.len() {
                assert(percent_encoded(bytes)[i] == front[i]);
            } else {
                assert(percent_encoded(bytes)[i] == tail[i - front.len()]);
            }
        }
    }
}

/// Unreserved bytes alone are encoded as themselves.
pub proof fn lemma_percent_encoded_unreserved(bytes: Seq<u8>)
    requires
        forall|i: int| 0 <= i < bytes.len() ==> is_unreserved(#[trigger] bytes[i]),
    ensures
        percent_encoded(bytes) == Seq::new(bytes.len(), |i: int| bytes[i] as char),
    decreases bytes.len(),
{
    if bytes.len() > 0 {
        let front = bytes.drop_last();
        lemma_percent_encoded_unreserved(front);
        assert(percent_encoded(bytes) =~= Seq::new(bytes.len(), |i: int| bytes[i] as char));
    } else {
        assert(percent_encoded(bytes) =~= Seq::new(bytes.len(), |i: int| bytes[i] as char));
    }
}

/// Calls `urlencoding::encode`, which walks the bytes of the text's UTF-8
/// form, copies each letter or digit of ASCII and each of `-`, `.`, `_`,
/// `~`, and writes any other byte as `%` and two capital hexadecimal
/// digits. It accepts every text.
#[verifier::external_body]
fn percent_encode(data: &str) -> (encoded: String)
    ensures
        encoded@ == percent_encoded(data.spec_bytes()),
{
    urlencoding::encode(data).into_owned()
}

/// The query in percent-encoded form, fit to stand as the value of one
/// parameter of a URL.
pub fn encode_query(query: &str) -> (encoded: String)
    ensures
        encoded@ == percent_encoded(query.spec_bytes()),
{
    percent_encode(query)
}

/// The address called for a search with the given encoded query.
pub open spec fn search_url(encoded_query: Seq<char>) -> Seq<char> {
    "https://api.spotify.com/v1/search?q="@ + encoded_query + "&type=track,artist"@
}

/// The value of the authorization header for a token.
pub open spec fn bearer(token: Seq<char>) -> Seq<char> {
    "Bearer "@ + token
}

/// A search request: a GET of `url` with the three headers.
#[derive(Debug, Clone, PartialEq, Eq)]
pub struct SearchRequest {
    pub url: String,
    pub authorization: String,
    pub content_type: String,
    pub accept: String,
}

/// The request that searches tracks and artists for a query that is
/// already percent-encoded, on behalf of the bearer of `token`.
pub fn search_request(encoded_query: &str, token: &str) -> (request: SearchRequest)
    ensures
        request.url@ == search_url(encoded_query@),
        request.authorization@ == bearer(token@),
        request.content_type@ == "application/json"@,
        request.accept@ == "application/json"@,
{
    let mut url = "https://api.spotify.com/v1/search?q=".to_owned();
    url.append(encoded_query);
    url.append("&type=track,artist");
    let mut authorization = "Bearer ".to_owned();
    authorization.append(token);
    SearchRequest {
        url,
        authorization,
        content_type: "application/json".to_owned(),
        accept: "application/json".to_owned(),
    }
}

} // verus!
