//! The wire format of a `multipart/form-data` body, as a mathematical model.
//!
//! Every function here is specification-level: it defines, byte for byte, what
//! the encoder must produce. A body is the concatenation of each part's
//! encoding, in order, followed by the closing delimiter line.

use vstd::prelude::*;

verus! {

use vstd::utf8::encode_utf8;

/// One part of a multipart body, at the specification level: the form field
/// name, the MIME content type, the optional file name, and the raw content
/// bytes. Names and types are character strings; content is an opaque byte
/// sequence that the encoder never inspects.
#[verifier::ext_equal]
pub struct PartView {
    pub name: Seq<char>,
    pub content_type: Seq<char>,
    pub filename: Option<Seq<char>>,
    pub content: Seq<u8>,
}

/// The two bytes of a CR LF line ending.
pub open spec fn crlf() -> Seq<u8> {
    seq![13u8, 10u8]
}

/// Two ASCII hyphen-minus bytes, `--`.
pub open spec fn dashes() -> Seq<u8> {
    seq![45u8, 45u8]
}

/// One ASCII double-quote byte.
pub open spec fn quote() -> Seq<u8> {
    seq![34u8]
}

/// The delimiter line that opens a part: `--`, the boundary, CR LF.
pub open spec fn delimiter_line(boundary: Seq<char>) -> Seq<u8> {
    dashes() + encode_utf8(boundary) + crlf()
}

/// The closing delimiter that ends the body: `--`, the boundary, `--`, CR LF.
pub open spec fn closing_line(boundary: Seq<char>) -> Seq<u8> {
    dashes() + encode_utf8(boundary) + dashes() + crlf()
}

/// The `Content-Disposition` header line of a part. The field name and, for
/// file-like parts, the file name stand verbatim between double quotes; no
/// escaping is applied to quote characters embedded in either.
pub open spec fn disposition_line(p: PartView) -> Seq<u8> {
    encode_utf8("Content-Disposition: form-data; name=\""@) + encode_utf8(p.name) + quote() + (
    match p.filename {
        Some(f) => encode_utf8("; filename=\""@) + encode_utf8(f) + quote(),
        None => Seq::<u8>::empty(),
    }) + crlf()
}

/// The `Content-Type` header line of a part, followed by the blank line that
/// ends the part's headers.
pub open spec fn content_type_line(p: PartView) -> Seq<u8> {
    encode_utf8("Content-Type: "@) + encode_utf8(p.content_type) + crlf() + crlf()
}

/// The encoding of one part: its delimiter line, its two header lines, the
/// blank line, the raw content bytes unchanged, and a trailing CR LF.
pub open spec fn part_encoding(boundary: Seq<char>, p: PartView) -> Seq<u8> {
    delimiter_line(boundary) + disposition_line(p) + content_type_line(p) + p.content + crlf()
}

/// The concatenation of the encodings of the given parts, in sequence order,
/// without the closing delimiter.
pub open spec fn parts_encoding(boundary: Seq<char>, parts: Seq<PartView>) -> Seq<u8>
    decreases parts.len(),
{
    if parts.len() == 0 {
        Seq::<u8>::empty()
    } else {
        part_encoding(boundary, parts[0]) + parts_encoding(boundary, parts.drop_first())
    }
}

/// The whole multipart body: each part's encoding in insertion order, then the
/// closing delimiter line.
pub open spec fn body_encoding(boundary: Seq<char>, parts: Seq<PartView>) -> Seq<u8>
    decreases parts.len(),
{
    if parts.len() == 0 {
        closing_line(boundary)
    } else {
        part_encoding(boundary, parts[0]) + body_encoding(boundary, parts.drop_first())
    }
}

/// The value of the `Content-Type` header that accompanies the body: the fixed
/// prefix followed by the boundary token, unquoted.
pub open spec fn content_type_value(boundary: Seq<char>) -> Seq<char> {
    "multipart/form-data; boundary="@ + boundary
}

/// The characters a generated boundary token is drawn from: lowercase
/// hexadecimal digits and hyphens, the alphabet of a hyphenated UUID. None of
/// them needs escaping inside a `Content-Type` header parameter value.
pub open spec fn boundary_char(c: char) -> bool {
    c == '-' || ('0' <= c && c <= '9') || ('a' <= c && c <= 'f')
}

/// A well-formed boundary token: non-empty, drawn from [`boundary_char`].
pub open spec fn boundary_token(b: Seq<char>) -> bool {
    b.len() > 0 && forall|i: int| 0 <= i < b.len() ==> boundary_char(#[trigger] b[i])
}

/// The body is the parts' encodings in insertion order, followed by the
/// closing delimiter: parts appear in the body in exactly the order they were
/// added, whatever their kind.
pub proof fn lemma_parts_in_order(boundary: Seq<char>, parts: Seq<PartView>)
    ensures
        body_encoding(boundary, parts) == parts_encoding(boundary, parts) + closing_line(boundary),
    decreases parts.len(),
{
    if parts.len() == 0 {
        assert(body_encoding(boundary, parts) =~= parts_encoding(boundary, parts) + closing_line(
            boundary,
        ));
    } else {
        lemma_parts_in_order(boundary, parts.drop_first());
        assert(body_encoding(boundary, parts) =~= parts_encoding(boundary, parts) + closing_line(
            boundary,
        ));
    }
}

/// Appending one part to the sequence appends its encoding to the parts'
/// concatenated encodings.
pub proof fn lemma_parts_encoding_push(boundary: Seq<char>, parts: Seq<PartView>, p: PartView)
    ensures
        parts_encoding(boundary, parts.push(p)) == parts_encoding(boundary, parts) + part_encoding(
            boundary,
            p,
        ),
    decreases parts.len(),
{
    if parts.len() == 0 {
        let e = parts.push(p);
        assert(e[0] == p);
        assert(e.drop_first() =~= Seq::<PartView>::empty());
        assert(parts_encoding(boundary, e.drop_first()) == Seq::<u8>::empty());
        assert(parts_encoding(boundary, e) == part_encoding(boundary, p) + Seq::<u8>::empty());
        assert(parts_encoding(boundary, e) =~= parts_encoding(boundary, parts) + part_encoding(
            boundary,
            p,
        ));
    } else {
        assert(parts.push(p)[0] == parts[0]);
        assert(parts.push(p).drop_first() =~= parts.drop_first().push(p));
        lemma_parts_encoding_push(boundary, parts.drop_first(), p);
        assert(parts_encoding(boundary, parts.push(p)) =~= parts_encoding(boundary, parts)
            + part_encoding(boundary, p));
    }
}

} // verus!
