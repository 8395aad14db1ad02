//! The SSH side of a tunnel: its errors, the check of the proxy's host key
//! against `known_hosts`, the choice of login, and the decisions of a
//! tunnel session from connection to shutdown.

use vstd::prelude::*;
use crate::text::{occurs_at, contains_text, decimal, push_char, push_decimal, text_contains};

verus! {

/// Why a tunnel stopped with an error.
#[derive(Debug)]
pub enum TunnelError {
    /// A message for the user.
    Message(String),
    /// The proxy's host key is not in `known_hosts`: its SHA-256
    /// fingerprint in hex, and the `known_hosts` line that would accept it.
    UnknownHostKey(String, String),
}

/// A tunnel error as values.
pub enum TunnelErrorModel {
    Message(Seq<char>),
    UnknownHostKey(Seq<char>, Seq<char>),
}

impl View for TunnelError {
    type V = TunnelErrorModel;

    open spec fn view(&self) -> TunnelErrorModel {
        match self {
            TunnelError::Message(m) => TunnelErrorModel::Message(m@),
            TunnelError::UnknownHostKey(f, l) => TunnelErrorModel::UnknownHostKey(f@, l@),
        }
    }
}

impl From<String> for TunnelError {
    fn from(s: String) -> (e: TunnelError) {
        TunnelError::Message(s)
    }
}

impl vstd::std_specs::convert::FromSpecImpl<String> for TunnelError {
    open spec fn obeys_from_spec() -> bool {
        true
    }

    open spec fn from_spec(v: String) -> TunnelError {
        TunnelError::Message(v)
    }
}

/// The character for a six-bit value in the standard Base64 alphabet
/// (`A`-`Z`, `a`-`z`, `0`-`9`, `+`, `/`).
pub open spec fn base64_char(v: nat) -> char
    recommends
        v < 64,
{
    if v < 26 {
        (v + 65) as char
    } else if v < 52 {
        (v + 71) as char
    } else if v < 62 {
        (v - 4) as char
    } else if v == 62 {
        '+'
    } else {
        '/'
    }
}

/// Standard Base64 with `=` padding (RFC 4648, section 4): each group of
/// three bytes becomes four characters of six bits each; a last group of
/// one or two bytes is padded to four characters with `=`.
pub open spec fn base64_standard(b: Seq<u8>) -> Seq<char>
    decreases b.len(),
{
    if b.len() == 0 {
        Seq::empty()
    } else if b.len() == 1 {
        seq![base64_char(b[0] as nat / 4), base64_char((b[0] as nat % 4) * 16), '=', '=']
    } else if b.len() == 2 {
        seq![
            base64_char(b[0] as nat / 4),
            base64_char((b[0] as nat % 4) * 16 + b[1] as nat / 16),
            base64_char((b[1] as nat % 16) * 4),
            '=',
        ]
    } else {
        seq![
            base64_char(b[0] as nat / 4),
            base64_char((b[0] as nat % 4) * 16 + b[1] as nat / 16),
            base64_char((b[1] as nat % 16) * 4 + b[2] as nat / 64),
            base64_char(b[2] as nat % 64),
        ] + base64_standard(b.subrange(3, b.len() as int))
    }
}

/// `base64::engine::general_purpose::STANDARD.encode`: the contract claims
/// that it writes the bytes in standard Base64 with padding, as that engine
/// (standard alphabet, padding on) is documented to.
#[verifier::external_body]
fn encode_base64(bytes: &[u8]) -> (s: String)
    ensures
        s@ == base64_standard(bytes@),
{
    base64::Engine::encode(&base64::engine::general_purpose::STANDARD, bytes)
}

/// The SHA-256 digest of some bytes.
pub uninterp spec fn sha256_digest(data: Seq<u8>) -> Seq<u8>;

/// `sha2::Sha256`: `new`, `update` with the bytes, `finalize`. The contract
/// names the digest and claims only that it has 32 bytes.
#[verifier::external_body]
fn sha256(data: &[u8]) -> (d: Vec<u8>)
    ensures
        d@ == sha256_digest(data@),
        d@.len() == 32,
{
    let mut hasher = <sha2::Sha256 as sha2::Digest>::new();
    sha2::Digest::update(&mut hasher, data);
    sha2::Digest::finalize(hasher).to_vec()
}

/// The lowercase hexadecimal digit for a value below 16.
pub open spec fn hex_digit(v: nat) -> char
    recommends
        v < 16,
{
    if v < 10 {
        (v + 48) as char
    } else {
        (v + 87) as char
    }
}

/// Bytes in lowercase hexadecimal, two digits each (as `{:02x}` writes
/// them).
pub open spec fn hex_text(b: Seq<u8>) -> Seq<char>
    decreases b.len(),
{
    if b.len() == 0 {
        Seq::empty()
    } else {
        hex_text(b.drop_last()) + seq![
            hex_digit(b.last() as nat / 16),
            hex_digit(b.last() as nat % 16),
        ]
    }
}

proof fn lemma_hex_text_digits(b: Seq<u8>)
    ensures
        hex_text(b).len() == 2 * b.len(),
        forall|k: int|
            0 <= k < b.len() ==> #[trigger] hex_text(b)[2 * k] == hex_digit(b[k] as nat / 16)
                && hex_text(b)[2 * k + 1] == hex_digit(b[k] as nat % 16),
    decreases b.len(),
{
    if b.len() > 0 {
        let p = b.drop_last();
        lemma_hex_text_digits(p);
        assert forall|k: int| 0 <= k < b.len() implies #[trigger] hex_text(b)[2 * k] == hex_digit(
            b[k] as nat / 16,
        ) && hex_text(b)[2 * k + 1] == hex_digit(b[k] as nat % 16) by {
            if k < p.len() {
                assert(b[k] == p[k]);
                assert(hex_text(b)[2 * k] == hex_text(p)[2 * k]);
                assert(hex_text(b)[2 * k + 1] == hex_text(p)[2 * k + 1]);
            }
        }
    }
}

fn hex_digit_char(v: u8) -> (c: char)
    requires
        v < 16,
    ensures
        c == hex_digit(v as nat),
{
    if v < 10 {
        (v + 48) as char
    } else {
        (v + 87) as char
    }
}

/// Bytes in lowercase hexadecimal.
pub fn to_hex(bytes: &[u8]) -> (s: String)
    ensures
        s@ == hex_text(bytes@),
        s@.len() == 2 * bytes@.len(),
        forall|k: int|
            0 <= k < bytes@.len() ==> {
                let hi = bytes@[k] as nat / 16;
                let lo = bytes@[k] as nat % 16;
                &&& #[trigger] s@[2 * k] == (if hi < 10 {
                    (hi + 48) as char
                } else {
                    (hi + 87) as char
                })
                &&& s@[2 * k + 1] == (if lo < 10 {
                    (lo + 48) as char
                } else {
                    (lo + 87) as char
                })
            },
{
    proof {
        lemma_hex_text_digits(bytes@);
    }
    let n = bytes.len();
    let mut s = String::new();
    let mut i: usize = 0;
    while i < n
        invariant
            n == bytes@.len(),
            i <= n,
            s@ == hex_text(bytes@.subrange(0, i as int)),
        decreases n - i,
    {
        let b = bytes[i];
        push_char(&mut s, hex_digit_char(b / 16));
        push_char(&mut s, hex_digit_char(b % 16));
        let ghost next = bytes@.subrange(0, i + 1);
        assert(next.drop_last() =~= bytes@.subrange(0, i as int));
        i = i + 1;
        assert(s@ =~= hex_text(next));
    }
    assert(bytes@.subrange(0, n as int) =~= bytes@);
    s
}

/// How `known_hosts` names a host: the bare name on port 22, otherwise
/// `[host]:port`.
pub open spec fn host_label(host: Seq<char>, port: u16) -> Seq<char> {
    if port == 22 {
        host
    } else {
        "["@ + host + "]:"@ + decimal(port as nat)
    }
}

/// The `known_hosts` line that accepts a key: host, key type, Base64 key.
pub open spec fn known_hosts_line(
    host: Seq<char>,
    port: u16,
    key_type: Seq<char>,
    key_base64: Seq<char>,
) -> Seq<char> {
    host_label(host, port) + " "@ + key_type + " "@ + key_base64
}

/// The texts of some strings.
pub open spec fn string_views(v: Seq<String>) -> Seq<Seq<char>> {
    Seq::new(v.len(), |i: int| v[i]@)
}

/// Whether some line of `known_hosts` holds the key in Base64.
pub open spec fn key_is_known(lines: Seq<Seq<char>>, key_base64: Seq<char>) -> bool {
    exists|i: int| 0 <= i < lines.len() && contains_text(#[trigger] lines[i], key_base64)
}

/// Checks the host key that the proxy presents. It is accepted when some
/// line of `known_hosts` holds it in Base64; otherwise the error carries
/// its SHA-256 fingerprint and the line to add for it.
pub fn check_server_key(
    known_hosts: &Vec<String>,
    host: &str,
    port: u16,
    key_type: &str,
    key_bytes: &[u8],
) -> (r: Result<(), TunnelError>)
    ensures
        r is Ok <==> key_is_known(
            string_views(known_hosts@),
            base64_standard(key_bytes@),
        ),
        r matches Err(e) ==> e@ == TunnelErrorModel::UnknownHostKey(
            hex_text(sha256_digest(key_bytes@)),
            known_hosts_line(host@, port, key_type@, base64_standard(key_bytes@)),
        ),
        r is Ok <==> exists|i: int|
            0 <= i < known_hosts@.len() && contains_text(
                #[trigger] known_hosts@[i]@,
                base64_standard(key_bytes@),
            ),
        r matches Err(TunnelError::UnknownHostKey(_, line)) ==> line@ == (if port == 22 {
            host@
        } else {
            "["@ + host@ + "]:"@ + decimal(port as nat)
        }) + " "@ + key_type@ + " "@ + base64_standard(key_bytes@),
        r matches Err(TunnelError::UnknownHostKey(fingerprint, _)) ==> fingerprint@ == hex_text(
            sha256_digest(key_bytes@),
        ) && fingerprint@.len() == 64,
        r matches Err(e) ==> e is UnknownHostKey,
{
    let b64_key = encode_base64(key_bytes);
    let ghost lines = string_views(known_hosts@);
    let n = known_hosts.len();
    let mut i: usize = 0;
    while i < n
        invariant
            n == known_hosts@.len(),
            i <= n,
            lines == string_views(known_hosts@),
            b64_key@ == base64_standard(key_bytes@),
            forall|j: int| 0 <= j < i ==> !contains_text(#[trigger] lines[j], b64_key@),
        decreases n - i,
    {
        if text_contains(known_hosts[i].as_str(), b64_key.as_str()) {
            assert(contains_text(lines[i as int], b64_key@));
            assert(key_is_known(lines, b64_key@));
            return Ok(());
        }
        i = i + 1;
    }
    assert forall|j: int| 0 <= j < known_hosts@.len() implies !contains_text(
        #[trigger] known_hosts@[j]@,
        base64_standard(key_bytes@),
    ) by {
        assert(lines[j] == known_hosts@[j]@);
    }
    let digest = sha256(key_bytes);
    let fingerprint = to_hex(digest.as_slice());
    let mut line = if port == 22 {
        String::from_str(host)
    } else {
        let mut l = String::from_str("[");
        l.append(host);
        l.append("]:");
        push_decimal(&mut l, port as u64);
        l
    };
    line.append(" ");
    line.append(key_type);
    line.append(" ");
    line.append(b64_key.as_str());
    assert(line@ =~= known_hosts_line(host@, port, key_type@, b64_key@));
    Err(TunnelError::UnknownHostKey(fingerprint, line))
}


/// Once the line that `check_server_key` proposes for a rejected key is in
/// `known_hosts`, the same key from the same host is accepted.
pub proof fn lemma_accepted_key_is_known(
    lines: Seq<Seq<char>>,
    host: Seq<char>,
    port: u16,
    key_type: Seq<char>,
    key: Seq<u8>,
)
    requires
        lines.contains(known_hosts_line(host, port, key_type, base64_standard(key))),
    ensures
        key_is_known(lines, base64_standard(key)),
{
    let b = base64_standard(key);
    let line = known_hosts_line(host, port, key_type, b);
    let i = choose|i: int| 0 <= i < lines.len() && lines[i] == line;
    let start = line.len() - b.len();
    assert(line.subrange(start, start + b.len()) =~= b);
    assert(occurs_at(line, b, start));
    assert(contains_text(lines[i], b));
}

} // verus!
