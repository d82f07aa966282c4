//! Byte encodings the launcher relies on: UTF-8 text, SHA-1 checksums of
//! downloads written in lowercase hexadecimal, and Base64 data URLs for
//! mod icons.
use vstd::prelude::*;
use vstd::utf8::{decode_utf8, valid_utf8};
use base64::Engine;
use crate::loader::ErrorKind;
use crate::metadata::parse_mods_toml;
use crate::text::{lines, push_char, same_text};

verus! {

/// The text that `bytes` encode in UTF-8, as `String::from_utf8` gives it:
/// `None` for bytes that are not valid UTF-8.
#[verifier::external_body]
fn utf8_text(bytes: &[u8]) -> (r: Option<String>)
    ensures
        r is Some <==> valid_utf8(bytes@),
        r matches Some(s) ==> s@ == decode_utf8(bytes@),
{
    String::from_utf8(bytes.to_vec()).ok()
}

/// Title and version from the bytes of a Forge `META-INF/mods.toml`;
/// nothing where they are not UTF-8 text.
pub fn mods_toml_metadata(bytes: &[u8]) -> (r: (Option<String>, Option<String>))
    ensures
        !valid_utf8(bytes@) ==> r.0 is None && r.1 is None,
        valid_utf8(bytes@) ==> crate::metadata::opt_text(r.0) == crate::metadata::toml_title(
            lines(decode_utf8(bytes@)),
        ) && crate::metadata::opt_text(r.1) == crate::metadata::toml_version(
            lines(decode_utf8(bytes@)),
        ),
{
    match utf8_text(bytes) {
        Some(t) => parse_mods_toml(t.as_str()),
        None => (None, None),
    }
}

/// The SHA-1 digest of `data` (20 bytes).
pub uninterp spec fn sha1_of(data: Seq<u8>) -> Seq<u8>;

/// The SHA-1 digest of `data`, computed by `sha1_smol::Sha1::from(..).digest()`;
/// the digest is 20 bytes long, and which bytes it holds is not stated.
#[verifier::external_body]
fn sha1_digest(data: &[u8]) -> (r: Vec<u8>)
    ensures
        r@ == sha1_of(data@),
        r@.len() == 20,
{
    sha1_smol::Sha1::from(data).digest().bytes().to_vec()
}

pub open spec fn hex_digit(n: int) -> char {
    if n < 10 {
        (48 + n) as char
    } else {
        (87 + n) as char
    }
}

/// Bytes in lowercase hexadecimal, two digits each.
pub open spec fn hex_text(b: Seq<u8>) -> Seq<char>
    decreases b.len(),
{
    if b.len() == 0 {
        seq![]
    } else {
        hex_text(b.drop_last()) + seq![hex_digit(b.last() as int / 16), hex_digit(b.last() as int % 16)]
    }
}

fn hex_char(n: u8) -> (c: char)
    requires
        n < 16,
    ensures
        c == hex_digit(n as int),
{
    if n < 10 {
        (48 + n) as char
    } else {
        (87 + n) as char
    }
}

/// Bytes written as `{:02x}` each, joined.
pub fn hex_lower(b: &[u8]) -> (s: String)
    ensures
        s@ == hex_text(b@),
{
    let mut s = String::new();
    let mut i: usize = 0;
    while i < b.len()
        invariant
            i <= b.len(),
            s@ == hex_text(b@.take(i as int)),
        decreases b.len() - i,
    {
        let x = b[i];
        push_char(&mut s, hex_char(x / 16));
        push_char(&mut s, hex_char(x % 16));
        assert(b@.take(i + 1).drop_last() =~= b@.take(i as int));
        assert(s@ =~= hex_text(b@.take(i + 1)));
        i = i + 1;
    }
    assert(b@.take(b.len() as int) =~= b@);
    s
}

/// The SHA-1 of `data` in lowercase hexadecimal.
pub fn sha1_hex(data: &[u8]) -> (s: String)
    ensures
        s@ == hex_text(sha1_of(data@)),
{
    let d = sha1_digest(data);
    hex_lower(d.as_slice())
}

/// Checks a download against the SHA-1 its metadata names: fine where none
/// is named or it matches; an input error naming both checksums otherwise.
pub fn check_download_sha1(url: &str, expected: Option<&str>, data: &[u8]) -> (r: Result<
    (),
    ErrorKind,
>)
    ensures
        match expected {
            None => r is Ok,
            Some(e) => if e@ == hex_text(sha1_of(data@)) {
                r is Ok
            } else {
                r matches Err(ErrorKind::InputError(m)) && m@ == "Downloaded "@ + url@
                    + " has wrong SHA-1 (expected "@ + e@ + ", got "@ + hex_text(sha1_of(data@))
                    + ")"@
            },
        },
{
    match expected {
        None => Ok(()),
        Some(e) => {
            let actual = sha1_hex(data);
            if same_text(actual.as_str(), e) {
                Ok(())
            } else {
                let mut m = String::from_str("Downloaded ");
                m.append(url);
                m.append(" has wrong SHA-1 (expected ");
                m.append(e);
                m.append(", got ");
                m.append(actual.as_str());
                m.append(")");
                Err(ErrorKind::InputError(m))
            }
        },
    }
}

/// The Base64 digit for a 6-bit value, in the standard alphabet.
pub open spec fn b64_digit(n: int) -> char {
    if n < 26 {
        (65 + n) as char
    } else if n < 52 {
        (97 + n - 26) as char
    } else if n < 62 {
        (48 + n - 52) as char
    } else if n == 62 {
        '+'
    } else {
        '/'
    }
}

/// Standard Base64 with padding (RFC 4648, section 4): each group of three
/// bytes becomes four digits; a final group of one or two bytes becomes
/// two or three digits and `=` padding.
pub open spec fn base64_text(b: Seq<u8>) -> Seq<char>
    decreases b.len(),
{
    if b.len() == 0 {
        seq![]
    } else {
        let x = b[0] as int;
        let y = if b.len() > 1 {
            b[1] as int
        } else {
            0
        };
        let z = if b.len() > 2 {
            b[2] as int
        } else {
            0
        };
        if b.len() == 1 {
            seq![b64_digit(x / 4), b64_digit((x % 4) * 16), '=', '=']
        } else if b.len() == 2 {
            seq![b64_digit(x / 4), b64_digit((x % 4) * 16 + y / 16), b64_digit((y % 16) * 4), '=']
        } else {
            seq![
                b64_digit(x / 4),
                b64_digit((x % 4) * 16 + y / 16),
                b64_digit((y % 16) * 4 + z / 64),
                b64_digit(z % 64),
            ] + base64_text(b.skip(3))
        }
    }
}

/// `base64::engine::general_purpose::STANDARD.encode`: standard Base64
/// with padding, as `base64_text` states it.
#[verifier::external_body]
fn base64_standard(data: &[u8]) -> (s: String)
    ensures
        s@ == base64_text(data@),
{
    base64::engine::general_purpose::STANDARD.encode(data)
}

/// The `data:` URL of a PNG icon, as shown for a mod.
pub fn icon_data_url(png: &[u8]) -> (s: String)
    ensures
        s@ == "data:image/png;base64,"@ + base64_text(png@),
{
    let mut s = String::from_str("data:image/png;base64,");
    let e = base64_standard(png);
    s.append(e.as_str());
    s
}

} // verus!
