//! Content-derived identifiers: a tag, then the start of the SHA-256 digest
//! of some bytes, written in hexadecimal. A connection is identified by the
//! three strings that describe it, a statement by its shape.

use crate::literals::{strip_literals, stripped};
use crate::text::{chars_of, is_plain};
use sha2::{Digest, Sha256};
use vstd::prelude::*;
use vstd::string::*;
use vstd::utf8::{encode_utf8, is_ascii_chars};

verus! {

/// The SHA-256 digest of `data`.
pub uninterp spec fn sha256_digest(data: Seq<u8>) -> Seq<u8>;

/// How many bytes a SHA-256 digest has.
pub const DIGEST_BYTES: usize = 32;

/// How many hexadecimal digits of the digest a connection identity keeps.
pub const CONNECTION_DIGITS: usize = 32;

/// How many hexadecimal digits of the digest a statement hash keeps.
pub const STATEMENT_DIGITS: usize = 16;

/// The character that writes `n`, from 0 to 15, in hexadecimal, with small
/// letters.
pub open spec fn hex_digit(n: int) -> char {
    if n == 0 {
        '0'
    } else if n == 1 {
        '1'
    } else if n == 2 {
        '2'
    } else if n == 3 {
        '3'
    } else if n == 4 {
        '4'
    } else if n == 5 {
        '5'
    } else if n == 6 {
        '6'
    } else if n == 7 {
        '7'
    } else if n == 8 {
        '8'
    } else if n == 9 {
        '9'
    } else if n == 10 {
        'a'
    } else if n == 11 {
        'b'
    } else if n == 12 {
        'c'
    } else if n == 13 {
        'd'
    } else if n == 14 {
        'e'
    } else {
        'f'
    }
}

/// The bytes of `data` in hexadecimal: two digits for each byte, the high
/// four bits first.
pub open spec fn hex_text(data: Seq<u8>) -> Seq<char> {
    Seq::new(
        2 * data.len(),
        |i: int|
            if i % 2 == 0 {
                hex_digit(data[i / 2] as int / 16)
            } else {
                hex_digit(data[i / 2] as int % 16)
            },
    )
}

/// True for the hexadecimal digits with small letters.
pub open spec fn is_hex_char(c: char) -> bool {
    ('0' <= c <= '9') || ('a' <= c <= 'f')
}

/// True when `s` has the form of an identifier: `tag`, then `digits`
/// hexadecimal digits with small letters.
pub open spec fn is_tagged_hex(s: Seq<char>, tag: Seq<char>, digits: int) -> bool {
    &&& 0 <= digits
    &&& s.len() == tag.len() + digits
    &&& s.subrange(0, tag.len() as int) == tag
    &&& forall|i: int| tag.len() <= i < s.len() ==> is_hex_char(#[trigger] s[i])
}

/// True when `s` has the form of a connection identity: `conn_`, then 32
/// hexadecimal digits.
pub open spec fn is_identity_form(s: Seq<char>) -> bool {
    is_tagged_hex(s, "conn_"@, CONNECTION_DIGITS as int)
}

/// True when `s` has the form of a statement hash: `sql_`, then 16
/// hexadecimal digits.
pub open spec fn is_hash_form(s: Seq<char>) -> bool {
    is_tagged_hex(s, "sql_"@, STATEMENT_DIGITS as int)
}

/// The identifier made of `tag` and the first `keep` hexadecimal digits of
/// `digest`.
pub open spec fn tagged_digest_text(tag: Seq<char>, digest: Seq<u8>, keep: int) -> Seq<char>
    recommends
        0 <= keep <= 2 * digest.len(),
{
    tag + hex_text(digest).subrange(0, keep)
}

/// The identity of the connection between a database address, a client
/// address and an application: `conn_`, then the first 32 hexadecimal digits
/// of the SHA-256 digest of the three strings, one after the other.
pub open spec fn connection_identity_text(
    db_ip: Seq<char>,
    client_ip: Seq<char>,
    app_name: Seq<char>,
) -> Seq<char> {
    tagged_digest_text(
        "conn_"@,
        sha256_digest(encode_utf8(db_ip) + encode_utf8(client_ip) + encode_utf8(app_name)),
        CONNECTION_DIGITS as int,
    )
}

/// True when `s` is the identity of the connection between some database
/// address, client address and application.
pub open spec fn is_connection_identity(s: Seq<char>) -> bool {
    exists|db_ip: Seq<char>, client_ip: Seq<char>, app_name: Seq<char>|
        s == #[trigger] connection_identity_text(db_ip, client_ip, app_name)
}

/// The hash of a statement: `sql_`, then the first 16 hexadecimal digits of
/// the SHA-256 digest of the statement's shape.
pub open spec fn statement_hash_text(sql: Seq<char>) -> Seq<char> {
    tagged_digest_text(
        "sql_"@,
        sha256_digest(encode_utf8(stripped(sql))),
        STATEMENT_DIGITS as int,
    )
}

/// Hexadecimal text is plain ASCII.
pub proof fn lemma_hex_text_plain(data: Seq<u8>)
    ensures
        is_plain(hex_text(data)),
        is_ascii_chars(hex_text(data)),
        hex_text(data).len() == 2 * data.len(),
{
    reveal(is_plain);
}

/// A tagged digest has the form of an identifier, where the digest has
/// the digits that are kept.
pub proof fn lemma_tagged_digest_form(tag: Seq<char>, digest: Seq<u8>, keep: int)
    requires
        0 <= keep <= 2 * digest.len(),
    ensures
        is_tagged_hex(tagged_digest_text(tag, digest, keep), tag, keep),
{
    let s = tagged_digest_text(tag, digest, keep);
    assert(s.subrange(0, tag.len() as int) =~= tag);
    assert forall|i: int| tag.len() <= i < s.len() implies is_hex_char(#[trigger] s[i]) by {
        assert(s[i] == hex_text(digest)[i - tag.len()]);
    }
}

/// A text of the form of an identifier is plain where its tag is.
pub proof fn lemma_tagged_hex_plain(s: Seq<char>, tag: Seq<char>, digits: int)
    requires
        is_tagged_hex(s, tag, digits),
        is_plain(tag),
    ensures
        is_plain(s),
{
    reveal(is_plain);
    assert forall|i: int| 0 <= i < s.len() implies ' ' <= #[trigger] s[i] <= '~' by {
        if i < tag.len() {
            assert(s[i] == s.subrange(0, tag.len() as int)[i]);
        }
    }
}

/// Connection identities and statement hashes of the right form are plain.
pub proof fn lemma_forms_plain(s: Seq<char>)
    ensures
        is_identity_form(s) ==> is_plain(s) && s.len() == 5 + CONNECTION_DIGITS,
        is_hash_form(s) ==> is_plain(s) && s.len() == 4 + STATEMENT_DIGITS,
{
    lemma_tags_plain();
    if is_identity_form(s) {
        lemma_tagged_hex_plain(s, "conn_"@, CONNECTION_DIGITS as int);
    }
    if is_hash_form(s) {
        lemma_tagged_hex_plain(s, "sql_"@, STATEMENT_DIGITS as int);
    }
}

/// The two tags are plain.
pub proof fn lemma_tags_plain()
    ensures
        is_plain("conn_"@),
        "conn_"@.len() == 5,
        is_plain("sql_"@),
        "sql_"@.len() == 4,
{
    reveal(is_plain);
    reveal_strlit("conn_");
    reveal_strlit("sql_");
}

/// The same three strings always give the same connection identity, and so
/// do any three strings with the same bytes when written one after the
/// other.
pub proof fn lemma_connection_identity_by_content(
    db_ip: Seq<char>,
    client_ip: Seq<char>,
    app_name: Seq<char>,
    other_db_ip: Seq<char>,
    other_client_ip: Seq<char>,
    other_app_name: Seq<char>,
)
    requires
        encode_utf8(db_ip) + encode_utf8(client_ip) + encode_utf8(app_name) == encode_utf8(
            other_db_ip,
        ) + encode_utf8(other_client_ip) + encode_utf8(other_app_name),
    ensures
        connection_identity_text(db_ip, client_ip, app_name) == connection_identity_text(
            other_db_ip,
            other_client_ip,
            other_app_name,
        ),
{
}

/// Two statements of the same shape have the same hash: what their literals
/// hold does not count.
pub proof fn lemma_statement_hash_by_shape(sql: Seq<char>, other: Seq<char>)
    requires
        stripped(sql) == stripped(other),
    ensures
        statement_hash_text(sql) == statement_hash_text(other),
{
}

/// The identifier made of `tag` and the first `keep` hexadecimal digits of
/// `digest`.
pub fn tagged_digest(tag: &str, digest: &[u8], keep: usize) -> (r: String)
    requires
        keep <= 2 * digest@.len(),
    ensures
        r@ == tagged_digest_text(tag@, digest@, keep as int),
        is_tagged_hex(r@, tag@, keep as int),
{
    let hex = hex_encode(digest);
    proof {
        lemma_hex_text_plain(digest@);
        lemma_tagged_digest_form(tag@, digest@, keep as int);
    }
    let mut out = String::new();
    out.append(tag);
    out.append(hex.as_str().substring_ascii(0, keep));
    assert(out@ =~= tagged_digest_text(tag@, digest@, keep as int));
    out
}

/// The identity of the connection between a database address, a client
/// address and an application: `conn_`, then 32 hexadecimal digits.
pub fn gen_conn_hash(db_ip: &str, client_ip: &str, app_name: &str) -> (r: String)
    ensures
        r@ == connection_identity_text(db_ip@, client_ip@, app_name@),
        is_identity_form(r@),
        sha256_digest(
            encode_utf8(db_ip@) + encode_utf8(client_ip@) + encode_utf8(app_name@),
        ).len() == DIGEST_BYTES,
{
    let mut data: Vec<u8> = Vec::new();
    data.extend_from_slice(db_ip.as_bytes());
    data.extend_from_slice(client_ip.as_bytes());
    data.extend_from_slice(app_name.as_bytes());
    assert(data@ =~= encode_utf8(db_ip@) + encode_utf8(client_ip@) + encode_utf8(app_name@));
    let digest = sha256(data.as_slice());
    tagged_digest("conn_", digest.as_slice(), CONNECTION_DIGITS)
}

/// The hash of the statement `sql_stmt`, which depends on its shape alone:
/// `sql_`, then 16 hexadecimal digits.
pub fn gen_sql_hash(sql_stmt: &str) -> (r: String)
    ensures
        r@ == statement_hash_text(sql_stmt@),
        is_hash_form(r@),
        sha256_digest(encode_utf8(stripped(sql_stmt@))).len() == DIGEST_BYTES,
{
    let shape = strip_literals(sql_stmt);
    let digest = sha256(shape.as_str().as_bytes());
    tagged_digest("sql_", digest.as_slice(), STATEMENT_DIGITS)
}

/// Whether `s` has the form of a connection identity.
pub fn has_identity_form(s: &str) -> (ok: bool)
    ensures
        ok == is_identity_form(s@),
{
    proof {
        reveal_strlit("conn_");
    }
    let chars = chars_of(s);
    if chars.len() != 5 + CONNECTION_DIGITS {
        return false;
    }
    if chars[0] != 'c' || chars[1] != 'o' || chars[2] != 'n' || chars[3] != 'n' || chars[4] != '_' {
        assert(s@.subrange(0, 5)[0] == s@[0] && s@.subrange(0, 5)[1] == s@[1] && s@.subrange(
            0,
            5,
        )[2] == s@[2] && s@.subrange(0, 5)[3] == s@[3] && s@.subrange(0, 5)[4] == s@[4]);
        return false;
    }
    assert(s@.subrange(0, 5) =~= "conn_"@);
    let mut i: usize = 5;
    while i < chars.len()
        invariant
            5 <= i <= chars.len(),
            chars@ == s@,
            forall|j: int| 5 <= j < i ==> is_hex_char(#[trigger] s@[j]),
        decreases chars.len() - i,
    {
        let c = chars[i];
        if !(('0' <= c && c <= '9') || ('a' <= c && c <= 'f')) {
            proof {
                reveal_strlit("conn_");
                assert(!is_hex_char(s@[i as int]));
            }
            return false;
        }
        i += 1;
    }
    true
}

/// `Digest::digest` of `Sha256`: the SHA-256 digest of `data`, which has 32
/// bytes.
#[verifier::external_body]
fn sha256(data: &[u8]) -> (digest: Vec<u8>)
    ensures
        digest@ == sha256_digest(data@),
        digest@.len() == DIGEST_BYTES,
{
    Sha256::digest(data).to_vec()
}

/// `hex::encode`: each byte as two hexadecimal digits with small letters,
/// the high four bits first.
#[verifier::external_body]
fn hex_encode(data: &[u8]) -> (text: String)
    ensures
        text@ == hex_text(data@),
{
    hex::encode(data)
}

} // verus!
