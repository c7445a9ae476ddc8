//! Basic authentication of a request against the configured credentials.

use vstd::prelude::*;
use vstd::utf8::encode_utf8;
use base64::Engine;
use crate::request::{find_line, lemma_found_has_prefix, first_with_prefix, lines_of};
use crate::scan::{bytes_equal, colon, copy_range, find_byte, first_match, lemma_first_match};

verus! {

/// The username and password that every client must present.
pub struct ProxyCredentials {
    pub username: String,
    pub password: String,
}

impl ProxyCredentials {
    pub fn new(username: String, password: String) -> (r: ProxyCredentials)
        ensures
            r.username@ == username@,
            r.password@ == password@,
    {
        ProxyCredentials { username, password }
    }

    /// The username as UTF-8 bytes.
    pub open spec fn user_bytes(&self) -> Seq<u8> {
        encode_utf8(self.username@)
    }

    /// The password as UTF-8 bytes.
    pub open spec fn pass_bytes(&self) -> Seq<u8> {
        encode_utf8(self.password@)
    }
}

/// The bytes `Proxy-Authorization: Basic ` that open the credentials line.
pub open spec fn auth_prefix() -> Seq<u8> {
    seq![80u8, 114u8, 111u8, 120u8, 121u8, 45u8, 65u8, 117u8, 116u8, 104u8, 111u8, 114u8, 105u8,
        122u8, 97u8, 116u8, 105u8, 111u8, 110u8, 58u8, 32u8, 66u8, 97u8, 115u8, 105u8, 99u8, 32u8]
}

fn auth_prefix_bytes() -> (r: Vec<u8>)
    ensures
        r@ == auth_prefix(),
{
    let r = vec![80u8, 114u8, 111u8, 120u8, 121u8, 45u8, 65u8, 117u8, 116u8, 104u8, 111u8, 114u8, 105u8,
        122u8, 97u8, 116u8, 105u8, 111u8, 110u8, 58u8, 32u8, 66u8, 97u8, 115u8, 105u8, 99u8, 32u8];
    assert(r@ =~= auth_prefix());
    r
}

/// What base64's standard engine decodes `text` to, if it decodes.
pub uninterp spec fn base64_decoding(text: Seq<u8>) -> Option<Seq<u8>>;

/// Relies on base64's `general_purpose::STANDARD.decode` (standard alphabet,
/// canonical padding): the decoded bytes, or an error for text that is not
/// base64; either way a function of the text alone.
#[verifier::external_body]
fn decode_base64(text: &[u8]) -> (r: Option<Vec<u8>>)
    ensures
        match r {
            Some(v) => base64_decoding(text@) == Some(v@),
            None => base64_decoding(text@).is_none(),
        },
{
    base64::engine::general_purpose::STANDARD.decode(text).ok()
}

/// Decoded credentials match when they split at their first `:` into the
/// username and the password. The expected parts are text, so the bytes also
/// decode as UTF-8 exactly when they match.
pub open spec fn credentials_match(decoded: Seq<u8>, user: Seq<u8>, pass: Seq<u8>) -> bool {
    let k = first_match(decoded, colon()) as int;
    k < decoded.len() && decoded.take(k) == user && decoded.skip(k + 1) == pass
}

/// A request is authorized when its first line that opens with
/// `Proxy-Authorization: Basic ` carries base64 that decodes to matching
/// credentials.
pub open spec fn authorized(req: Seq<u8>, user: Seq<u8>, pass: Seq<u8>) -> bool {
    match first_with_prefix(lines_of(req), auth_prefix()) {
        None => false,
        Some(line) => match base64_decoding(line.skip(auth_prefix().len() as int)) {
            None => false,
            Some(d) => credentials_match(d, user, pass),
        },
    }
}

impl ProxyCredentials {
    /// Whether decoded credentials name this username and password.
    pub fn matches_decoded(&self, decoded: &[u8]) -> (r: bool)
        ensures
            r == credentials_match(decoded@, self.user_bytes(), self.pass_bytes()),
    {
        let k = find_byte(decoded, 0, 58u8);
        proof {
            assert forall|j: int| 0 <= j < k implies !colon()(#[trigger] decoded@[j]) by {}
            lemma_first_match(decoded@, colon(), k as int);
        }
        if k == decoded.len() {
            return false;
        }
        let user = self.username.as_str().as_bytes_vec();
        let pass = self.password.as_str().as_bytes_vec();
        let head = copy_range(decoded, 0, k);
        let tail = copy_range(decoded, k + 1, decoded.len());
        assert(decoded@.take(k as int) == head@);
        assert(decoded@.skip(k + 1) =~= tail@);
        bytes_equal(&head, &user) && bytes_equal(&tail, &pass)
    }

    /// Whether the request `req` carries this username and password.
    pub fn authenticates(&self, req: &[u8]) -> (r: bool)
        ensures
            r == authorized(req@, self.user_bytes(), self.pass_bytes()),
    {
        let pre = auth_prefix_bytes();
        match find_line(req, &pre) {
            None => false,
            Some(line) => {
                proof {
                    lemma_found_has_prefix(lines_of(req@), auth_prefix());
                }
                let payload = copy_range(&line, pre.len(), line.len());
                assert(payload@ =~= line@.skip(auth_prefix().len() as int));
                match decode_base64(&payload) {
                    None => false,
                    Some(d) => self.matches_decoded(&d),
                }
            },
        }
    }
}

} // verus!
