//! The header that tells the backend of the certificates that the client
//! presented.
//!
//! Each certificate is written as PEM by the `pem` crate and then
//! form-encoded by the `url` crate. The functions here that call into
//! these crates are not verified. What `pem` writes is given a name; what
//! `url` writes is stated in full.

use vstd::prelude::*;

use crate::headers::{is_value, is_value_byte};
use crate::text::{ascii, ascii_bytes, COMMA, PLUS, SPACE};

verus! {

/// What `pem::encode` writes for a certificate with the given DER bytes:
/// the text between and including the `BEGIN CERTIFICATE` and
/// `END CERTIFICATE` lines.
pub uninterp spec fn pem_certificate(der: Seq<u8>) -> Seq<u8>;

/// Calls `pem::encode` on a `CERTIFICATE` with the given contents and
/// hands the text out as bytes.
#[verifier::external_body]
fn pem_encode(der: &[u8]) -> (r: Vec<u8>)
    ensures
        r@ == pem_certificate(der@),
{
    pem::encode(&pem::Pem::new("CERTIFICATE", der)).into_bytes()
}

/// Whether form-encoding leaves the byte as it is: a letter, a digit, or
/// one of `*`, `-`, `.` and `_`.
pub open spec fn is_unchanged(b: u8) -> bool {
    (0x30 <= b <= 0x39) || (0x41 <= b <= 0x5a) || (0x61 <= b <= 0x7a) || b == 0x2a || b == 0x2d
        || b == 0x2e || b == 0x5f
}

/// The upper-case hexadecimal digit of a value below sixteen.
pub open spec fn upper_hex_digit(n: int) -> u8 {
    if n < 10 {
        (0x30 + n) as u8
    } else {
        (0x41 + n - 10) as u8
    }
}

/// What form-encoding makes of one byte: the byte itself where it is left
/// unchanged, `+` for a space, and else `%` with the two hexadecimal
/// digits of the byte.
pub open spec fn encoded_byte(b: u8) -> Seq<u8> {
    if is_unchanged(b) {
        seq![b]
    } else if b == SPACE {
        seq![PLUS]
    } else {
        seq![0x25u8, upper_hex_digit(b as int / 16), upper_hex_digit(b as int % 16)]
    }
}

/// What form-encoding makes of bytes: each byte encoded, in order.
pub open spec fn form_urlencoded(s: Seq<u8>) -> Seq<u8>
    decreases s.len(),
{
    if s.len() == 0 {
        Seq::empty()
    } else {
        form_urlencoded(s.drop_last()) + encoded_byte(s.last())
    }
}

/// Calls `url::form_urlencoded::byte_serialize` and gathers the pieces
/// that it hands out into one text, as bytes.
#[verifier::external_body]
fn byte_serialize(bytes: &[u8]) -> (r: Vec<u8>)
    ensures
        r@ == form_urlencoded(bytes@),
{
    url::form_urlencoded::byte_serialize(bytes).collect::<String>().into_bytes()
}

/// Form-encoded bytes can stand in a header value.
pub proof fn lemma_form_urlencoded_is_value(s: Seq<u8>)
    ensures
        is_value(form_urlencoded(s)),
    decreases s.len(),
{
    if s.len() > 0 {
        lemma_form_urlencoded_is_value(s.drop_last());
        let head = form_urlencoded(s.drop_last());
        let tail = encoded_byte(s.last());
        assert forall|i: int| 0 <= i < tail.len() implies is_value_byte(#[trigger] tail[i]) by {}
        assert forall|i: int| 0 <= i < (head + tail).len() implies is_value_byte(
            #[trigger] (head + tail)[i],
        ) by {
            if i < head.len() {
                assert(is_value_byte(head[i]));
            } else {
                assert(is_value_byte(tail[i - head.len()]));
            }
        }
    }
}

/// The entry for one certificate: `Cert=` and the form-encoded PEM.
pub open spec fn cert_entry(coded: Seq<u8>) -> Seq<u8> {
    ascii("Cert="@) + coded
}

/// The entries of some certificates with commas between them.
pub open spec fn cert_entries(coded: Seq<Seq<u8>>) -> Seq<u8>
    decreases coded.len(),
{
    if coded.len() == 0 {
        Seq::empty()
    } else if coded.len() == 1 {
        cert_entry(coded[0])
    } else {
        cert_entries(coded.drop_last()) + seq![COMMA] + cert_entry(coded.last())
    }
}

/// Each certificate of a chain as form-encoded PEM.
pub open spec fn coded_chain(certs: Seq<Seq<u8>>) -> Seq<Seq<u8>> {
    Seq::new(certs.len(), |i: int| form_urlencoded(pem_certificate(certs[i])))
}

/// The value of the header for a chain of certificates: the entry of
/// each, with commas between them.
pub open spec fn client_cert_value(certs: Seq<Seq<u8>>) -> Seq<u8> {
    cert_entries(coded_chain(certs))
}

/// The DER bytes of each certificate of a chain.
pub open spec fn chain_view(certs: Seq<Vec<u8>>) -> Seq<Seq<u8>> {
    Seq::new(certs.len(), |i: int| certs[i]@)
}

/// Whether each of some byte strings can stand in a header value.
pub open spec fn all_values(coded: Seq<Seq<u8>>) -> bool {
    forall|i: int| 0 <= i < coded.len() ==> is_value(#[trigger] coded[i])
}

/// Entries made of bytes that can stand in a header value can stand in
/// one.
pub proof fn lemma_cert_entries_is_value(coded: Seq<Seq<u8>>)
    requires
        all_values(coded),
    ensures
        is_value(cert_entries(coded)),
    decreases coded.len(),
{
    reveal_strlit("Cert=");
    if coded.len() >= 1 {
        let last = cert_entry(coded.last());
        let word = ascii("Cert="@);
        assert(is_value(coded.last()));
        assert forall|i: int| 0 <= i < last.len() implies is_value_byte(#[trigger] last[i]) by {
            if i < word.len() {
                assert(last[i] == word[i]);
            } else {
                assert(is_value_byte(coded.last()[i - word.len()]));
            }
        }
        if coded.len() > 1 {
            let rest = coded.drop_last();
            assert forall|i: int| 0 <= i < rest.len() implies is_value(#[trigger] rest[i]) by {
                assert(rest[i] == coded[i]);
            }
            lemma_cert_entries_is_value(rest);
            let head = cert_entries(rest);
            let all = cert_entries(coded);
            assert forall|i: int| 0 <= i < all.len() implies is_value_byte(#[trigger] all[i]) by {
                if i < head.len() {
                    assert(is_value_byte(head[i]));
                } else if i == head.len() {
                } else {
                    assert(is_value_byte(last[i - head.len() - 1]));
                }
            }
        }
    }
}

/// Writes the entries of some certificates, given as form-encoded PEM,
/// with commas between them.
pub fn join_cert_entries(coded: &[Vec<u8>]) -> (r: Vec<u8>)
    ensures
        r@ == cert_entries(chain_view(coded@)),
{
    proof {
        reveal_strlit("Cert=");
    }
    let ghost all = chain_view(coded@);
    let word = ascii_bytes("Cert=");
    let mut out: Vec<u8> = Vec::new();
    let mut i: usize = 0;
    while i < coded.len()
        invariant
            i <= coded.len(),
            all == chain_view(coded@),
            word@ == ascii("Cert="@),
            out@ == cert_entries(all.subrange(0, i as int)),
        decreases coded.len() - i,
    {
        let ghost done = all.subrange(0, i as int);
        let ghost next = all.subrange(0, i + 1);
        proof {
            assert(next.drop_last() =~= done);
            assert(next.last() == coded@[i as int]@);
        }
        if i > 0 {
            out.push(COMMA);
        }
        out.extend_from_slice(word.as_slice());
        out.extend_from_slice(coded[i].as_slice());
        proof {
            if i == 0 {
                assert(out@ =~= cert_entry(coded@[i as int]@));
            } else {
                assert(out@ =~= cert_entries(done) + seq![COMMA] + cert_entry(coded@[i as int]@));
            }
        }
        i += 1;
    }
    assert(all.subrange(0, coded@.len() as int) =~= all);
    out
}

/// Writes the value of the header for a chain of certificates.
pub fn client_cert_header(certs: &[Vec<u8>]) -> (r: Vec<u8>)
    ensures
        r@ == client_cert_value(chain_view(certs@)),
        is_value(r@),
{
    let ghost chain = chain_view(certs@);
    let mut coded: Vec<Vec<u8>> = Vec::new();
    let mut i: usize = 0;
    while i < certs.len()
        invariant
            i <= certs.len(),
            chain == chain_view(certs@),
            coded@.len() == i,
            forall|j: int|
                0 <= j < i ==> (#[trigger] coded@[j])@ == form_urlencoded(
                    pem_certificate(chain[j]),
                ),
        decreases certs.len() - i,
    {
        let pem = pem_encode(certs[i].as_slice());
        coded.push(byte_serialize(pem.as_slice()));
        i += 1;
    }
    proof {
        assert(chain_view(coded@) =~= coded_chain(chain));
        assert forall|j: int| 0 <= j < coded_chain(chain).len() implies is_value(
            #[trigger] coded_chain(chain)[j],
        ) by {
            lemma_form_urlencoded_is_value(pem_certificate(chain[j]));
        }
        lemma_cert_entries_is_value(coded_chain(chain));
    }
    join_cert_entries(coded.as_slice())
}

} // verus!
