//! Laws of the encoding, stated and proved once for all boundaries and all
//! part sequences.

use vstd::prelude::*;

verus! {

use vstd::utf8::encode_utf8;
use vstd::utf8::encode_scalar;
use vstd::utf8::char_is_scalar;
use vstd::utf8::char_u32_cast;
use vstd::utf8::encode_utf8_decode_utf8;
use vstd::utf8::has_width_1_encoding;
use vstd::utf8::leading_byte_width_1;
use crate::encoding::PartView;
use crate::encoding::body_encoding;
use crate::encoding::closing_line;
use crate::encoding::content_type_value;
use crate::encoding::crlf;
use crate::encoding::dashes;
use crate::encoding::delimiter_line;
use crate::encoding::part_encoding;
use crate::encoding::quote;

/// Boundary consistency: the suffix of the `Content-Type` header value after
/// the fixed prefix is exactly the boundary token, and every delimiter line in
/// the body — the line opening each part, and the closing line — embeds the
/// UTF-8 bytes of that same token.
pub proof fn lemma_boundary_consistent(boundary: Seq<char>, parts: Seq<PartView>)
    ensures
        content_type_value(boundary).skip("multipart/form-data; boundary="@.len() as int)
            == boundary,
        forall|i: int|
            0 <= i < parts.len() ==> (#[trigger] part_encoding(boundary, parts[i])).take(
                delimiter_line(boundary).len() as int,
            ) == delimiter_line(boundary),
        delimiter_line(boundary).subrange(2, 2 + encode_utf8(boundary).len() as int)
            == encode_utf8(boundary),
        closing_line(boundary).subrange(2, 2 + encode_utf8(boundary).len() as int) == encode_utf8(
            boundary,
        ),
{
    assert(content_type_value(boundary).skip("multipart/form-data; boundary="@.len() as int)
        =~= boundary);
    assert forall|i: int| 0 <= i < parts.len() implies (#[trigger] part_encoding(
        boundary,
        parts[i],
    )).take(delimiter_line(boundary).len() as int) == delimiter_line(boundary) by {
        assert(part_encoding(boundary, parts[i]).take(delimiter_line(boundary).len() as int)
            =~= delimiter_line(boundary));
    }
    assert(delimiter_line(boundary).subrange(2, 2 + encode_utf8(boundary).len() as int)
        =~= encode_utf8(boundary));
    assert(closing_line(boundary).subrange(2, 2 + encode_utf8(boundary).len() as int)
        =~= encode_utf8(boundary));
}

/// A generated boundary token needs no escaping inside a `Content-Type`
/// header parameter value: it holds no double quote, no semicolon, no space
/// and no line-ending character, since its alphabet is hexadecimal digits and
/// hyphens alone.
pub proof fn lemma_boundary_needs_no_escaping(b: Seq<char>)
    requires
        crate::encoding::boundary_token(b),
    ensures
        !b.contains('"'),
        !b.contains(';'),
        !b.contains(' '),
        !b.contains('\r'),
        !b.contains('\n'),
{
    assert forall|i: int| 0 <= i < b.len() implies b[i] != '"' && b[i] != ';' && b[i] != ' '
        && b[i] != '\r' && b[i] != '\n' by {
        assert(crate::encoding::boundary_char(b[i]));
    }
}

/// The byte pattern that separates a part's content from whatever follows it:
/// CR LF, `--`, and the boundary's UTF-8 bytes.
pub open spec fn sep(boundary: Seq<char>) -> Seq<u8> {
    crlf() + dashes() + encode_utf8(boundary)
}

/// The content bytes never form the separator pattern early: wherever a window
/// of `content` followed by the separator is compared against the separator,
/// it matches only at the very end. This is the multipart precondition that a
/// boundary must not occur inside part content.
pub open spec fn delimiter_free(content: Seq<u8>, boundary: Seq<char>) -> bool {
    forall|k: int|
        0 <= k < content.len() ==> #[trigger] (content + sep(boundary)).subrange(
            k,
            k + sep(boundary).len() as int,
        ) != sep(boundary)
}

/// A part whose encoding a conformant parser can take apart again: no double
/// quote inside the field name or the file name, no carriage return inside the
/// content type, and no separator pattern inside the content.
pub open spec fn unambiguous_part(boundary: Seq<char>, p: PartView) -> bool {
    &&& !p.name.contains('"')
    &&& (p.filename matches Some(f) ==> !f.contains('"'))
    &&& !p.content_type.contains('\r')
    &&& delimiter_free(p.content, boundary)
}

/// Removing one and the same prefix from both sides of an equation of byte
/// sequences leaves equal tails.
proof fn lemma_peel_prefix(p: Seq<u8>, t1: Seq<u8>, t2: Seq<u8>)
    requires
        p + t1 == p + t2,
    ensures
        t1 == t2,
{
    assert((p + t1).len() == p.len() + t1.len());
    assert((p + t2).len() == p.len() + t2.len());
    assert(t1.len() == t2.len());
    assert forall|i: int| 0 <= i < t1.len() implies t1[i] == t2[i] by {
        assert((p + t1)[p.len() + i] == t1[i]);
        assert((p + t2)[p.len() + i] == t2[i]);
    }
    assert(t1 =~= t2);
}

/// A byte sequence of the shape `a`, one marker byte, `t`, where `a` never
/// holds the marker, determines `a` and `t`: the first occurrence of the
/// marker is the split point.
proof fn lemma_split_at_byte(a1: Seq<u8>, t1: Seq<u8>, a2: Seq<u8>, t2: Seq<u8>, m: u8)
    requires
        a1 + seq![m] + t1 == a2 + seq![m] + t2,
        !a1.contains(m),
        !a2.contains(m),
    ensures
        a1 == a2,
        t1 == t2,
{
    let s = a1 + seq![m] + t1;
    if a1.len() < a2.len() {
        assert(s[a1.len() as int] == m);
        assert((a2 + seq![m] + t2)[a1.len() as int] == a2[a1.len() as int]);
        assert(a2.contains(m)) by {
            assert(a2[a1.len() as int] == m);
        }
        assert(false);
    }
    if a2.len() < a1.len() {
        assert(s[a2.len() as int] == a1[a2.len() as int]);
        assert((a2 + seq![m] + t2)[a2.len() as int] == m);
        assert(a1.contains(m)) by {
            assert(a1[a2.len() as int] == m);
        }
        assert(false);
    }
    assert(a1 =~= a2) by {
        assert forall|i: int| 0 <= i < a1.len() implies a1[i] == a2[i] by {
            assert(s[i] == a1[i]);
            assert((a2 + seq![m] + t2)[i] == a2[i]);
        }
    }
    assert(a1 + seq![m] + t1 =~= (a1 + seq![m]) + t1);
    assert(a2 + seq![m] + t2 =~= (a1 + seq![m]) + t2);
    lemma_peel_prefix(a1 + seq![m], t1, t2);
}

/// A byte sequence of the shape `c`, separator, `t`, where the separator never
/// occurs early in `c` followed by the separator, determines `c` and `t`.
proof fn lemma_split_at_sep(c1: Seq<u8>, t1: Seq<u8>, c2: Seq<u8>, t2: Seq<u8>, s: Seq<u8>)
    requires
        c1 + s + t1 == c2 + s + t2,
        s.len() > 0,
        forall|k: int|
            0 <= k < c1.len() ==> #[trigger] (c1 + s).subrange(k, k + s.len() as int) != s,
        forall|k: int|
            0 <= k < c2.len() ==> #[trigger] (c2 + s).subrange(k, k + s.len() as int) != s,
    ensures
        c1 == c2,
        t1 == t2,
{
    if c1.len() < c2.len() {
        let k = c1.len() as int;
        assert((c2 + s).subrange(k, k + s.len() as int) =~= s) by {
            assert forall|j: int| 0 <= j < s.len() implies (c2 + s).subrange(
                k,
                k + s.len() as int,
            )[j] == s[j] by {
                assert((c2 + s).subrange(k, k + s.len() as int)[j] == (c2 + s)[k + j]);
                assert((c2 + s + t2)[k + j] == (c2 + s)[k + j]);
                assert((c1 + s + t1)[k + j] == s[j]);
            }
        }
        assert(false);
    }
    if c2.len() < c1.len() {
        let k = c2.len() as int;
        assert((c1 + s).subrange(k, k + s.len() as int) =~= s) by {
            assert forall|j: int| 0 <= j < s.len() implies (c1 + s).subrange(
                k,
                k + s.len() as int,
            )[j] == s[j] by {
                assert((c1 + s).subrange(k, k + s.len() as int)[j] == (c1 + s)[k + j]);
                assert((c1 + s + t1)[k + j] == (c1 + s)[k + j]);
                assert((c2 + s + t2)[k + j] == s[j]);
            }
        }
        assert(false);
    }
    assert(c1 =~= c2) by {
        assert forall|i: int| 0 <= i < c1.len() implies c1[i] == c2[i] by {
            assert((c1 + s + t1)[i] == c1[i]);
            assert((c2 + s + t2)[i] == c2[i]);
        }
    }
    assert(c1 + s + t1 =~= (c1 + s) + t1);
    assert(c2 + s + t2 =~= (c1 + s) + t2);
    lemma_peel_prefix(c1 + s, t1, t2);
}

/// A character below 128 that does not occur in a string does not occur, as a
/// byte, in the string's UTF-8 encoding: multi-byte encodings use bytes of 128
/// and above only.
proof fn lemma_ascii_absent(s: Seq<char>, c: char)
    requires
        (c as u32) < 0x80,
        !s.contains(c),
    ensures
        !encode_utf8(s).contains(((c as u32) as u8)),
    decreases s.len(),
{
    let m = (c as u32) as u8;
    if s.len() > 0 {
        let x = s[0] as u32;
        char_is_scalar(s[0]);
        assert(forall|a: u8, d: u8| #[trigger] (a | d) >= a) by (bit_vector);
        assert(m < 0x80);
        if has_width_1_encoding(x) {
            if leading_byte_width_1(x) == m {
                let cu = c as u32;
                assert(x == cu) by (bit_vector)
                    requires
                        x < 0x80,
                        cu < 0x80,
                        ((x & 0x7F) as u8) == ((cu) as u8),
                ;
                char_u32_cast(s[0], x);
                char_u32_cast(c, cu);
                assert(s.contains(c)) by {
                    assert(s[0] == c);
                }
                assert(false);
            }
            assert(!encode_scalar(x).contains(m)) by {
                assert(forall|i: int|
                    0 <= i < encode_scalar(x).len() ==> encode_scalar(x)[i] != m);
            }
        } else {
            assert(!encode_scalar(x).contains(m)) by {
                assert(forall|i: int|
                    0 <= i < encode_scalar(x).len() ==> encode_scalar(x)[i] >= 0x80);
            }
        }
        assert(!s.drop_first().contains(c)) by {
            assert forall|i: int| 0 <= i < s.drop_first().len() implies s.drop_first()[i] != c by {
                assert(s.drop_first()[i] == s[i + 1]);
                assert(!s.contains(c));
                assert(s[i + 1] != c);
            }
        }
        lemma_ascii_absent(s.drop_first(), c);
        assert(!encode_utf8(s).contains(m)) by {
            assert forall|i: int| 0 <= i < encode_utf8(s).len() implies encode_utf8(s)[i] != m by {
                let e0 = encode_scalar(x);
                let e1 = encode_utf8(s.drop_first());
                assert(encode_utf8(s) == e0 + e1);
                if i < e0.len() {
                    assert(e0[i] != m);
                } else {
                    assert(e1[i - e0.len()] != m);
                }
            }
        }
    }
}

/// The first byte of the UTF-8 encoding of a string that begins with a
/// character below 128 is that character's code.
proof fn lemma_utf8_first_byte(s: Seq<char>)
    requires
        s.len() > 0,
        (s[0] as u32) < 0x80,
    ensures
        encode_utf8(s).len() > 0,
        encode_utf8(s)[0] == ((s[0] as u32) as u8),
{
    let x = s[0] as u32;
    char_is_scalar(s[0]);
    assert(has_width_1_encoding(x));
    assert(((x & 0x7F) as u8) == (x as u8)) by (bit_vector)
        requires
            x < 0x80,
    ;
    assert(encode_utf8(s)[0] == encode_scalar(x)[0]);
}

/// UTF-8 encoding is injective: equal encodings come from equal strings.
proof fn lemma_utf8_injective(s1: Seq<char>, s2: Seq<char>)
    requires
        encode_utf8(s1) == encode_utf8(s2),
    ensures
        s1 == s2,
{
    encode_utf8_decode_utf8(s1);
    encode_utf8_decode_utf8(s2);
}

/// Every body, with or without parts, begins with `--` and the boundary.
proof fn lemma_body_starts(b: Seq<char>, parts: Seq<PartView>)
    ensures
        body_encoding(b, parts).len() > 2 + encode_utf8(b).len(),
        body_encoding(b, parts).take(2 + encode_utf8(b).len() as int) == dashes() + encode_utf8(b),
{
    let bb = encode_utf8(b);
    if parts.len() == 0 {
        assert(body_encoding(b, parts).take(2 + bb.len() as int) =~= dashes() + bb);
    } else {
        assert(body_encoding(b, parts).take(2 + bb.len() as int) =~= dashes() + bb);
    }
}

/// The optional `; filename="..."` piece of the disposition line.
spec fn filename_segment(p: PartView) -> Seq<u8> {
    match p.filename {
        Some(f) => encode_utf8("; filename=\""@) + encode_utf8(f) + quote(),
        None => Seq::<u8>::empty(),
    }
}

/// The bytes after the carriage return that ends the content-type text: the
/// rest of the blank line, the content, and the separator leading into the
/// next delimiter line, whose tail is `w`.
spec fn tail_after_ctype(b: Seq<char>, p: PartView, w: Seq<u8>) -> Seq<u8> {
    seq![10u8, 13u8, 10u8] + (p.content + sep(b) + w)
}

/// The bytes of one part's encoding from the end of the disposition line on.
spec fn tail_after_disposition(b: Seq<char>, p: PartView, w: Seq<u8>) -> Seq<u8> {
    crlf() + encode_utf8("Content-Type: "@) + (encode_utf8(p.content_type) + seq![13u8]
        + tail_after_ctype(b, p, w))
}

/// The bytes of one part's encoding after the field name's closing quote.
spec fn tail_after_name(b: Seq<char>, p: PartView, w: Seq<u8>) -> Seq<u8> {
    filename_segment(p) + tail_after_disposition(b, p, w)
}

/// One part's encoding followed by `--`, the boundary and `w`, regrouped
/// around the field name's closing quote.
#[verifier::rlimit(100)]
proof fn lemma_part_flat(b: Seq<char>, p: PartView, w: Seq<u8>)
    ensures
        part_encoding(b, p) + dashes() + encode_utf8(b) + w == (delimiter_line(b) + encode_utf8(
            "Content-Disposition: form-data; name=\""@,
        )) + (encode_utf8(p.name) + seq![34u8] + tail_after_name(b, p, w)),
{
    assert(part_encoding(b, p) + dashes() + encode_utf8(b) + w =~= (delimiter_line(b)
        + encode_utf8("Content-Disposition: form-data; name=\""@)) + (encode_utf8(p.name)
        + seq![34u8] + tail_after_name(b, p, w)));
}

/// After the field names agree, the file names agree: a part with a file name
/// and one without differ at the first byte after the quote, and two file
/// names are split off by their closing quotes.
proof fn lemma_peel_filename(b: Seq<char>, p1: PartView, w1: Seq<u8>, p2: PartView, w2: Seq<u8>)
    requires
        (p1.filename matches Some(f) ==> !f.contains('"')),
        (p2.filename matches Some(f) ==> !f.contains('"')),
        tail_after_name(b, p1, w1) == tail_after_name(b, p2, w2),
    ensures
        p1.filename == p2.filename,
        tail_after_disposition(b, p1, w1) == tail_after_disposition(b, p2, w2),
{
    let fp = encode_utf8("; filename=\""@);
    let t1 = tail_after_name(b, p1, w1);
    let t2 = tail_after_name(b, p2, w2);
    let d1 = tail_after_disposition(b, p1, w1);
    let d2 = tail_after_disposition(b, p2, w2);
    reveal_strlit("; filename=\"");
    assert(fp.len() > 0 && fp[0] == 59u8) by {
        lemma_utf8_first_byte("; filename=\""@);
        assert(("; filename=\""@)[0] == ';');
    }
    match (p1.filename, p2.filename) {
        (Some(f1), Some(f2)) => {
            assert(t1 =~= fp + (encode_utf8(f1) + seq![34u8] + d1));
            assert(t2 =~= fp + (encode_utf8(f2) + seq![34u8] + d2));
            lemma_peel_prefix(
                fp,
                encode_utf8(f1) + seq![34u8] + d1,
                encode_utf8(f2) + seq![34u8] + d2,
            );
            lemma_ascii_absent(f1, '"');
            lemma_ascii_absent(f2, '"');
            assert(('"' as u32) == 34);
            lemma_split_at_byte(encode_utf8(f1), d1, encode_utf8(f2), d2, 34u8);
            lemma_utf8_injective(f1, f2);
        },
        (Some(f1), None) => {
            assert(t1[0] == fp[0]);
            assert(t2[0] == 13u8);
            assert(false);
        },
        (None, Some(f2)) => {
            assert(t1[0] == 13u8);
            assert(t2[0] == fp[0]);
            assert(false);
        },
        (None, None) => {
            assert(t1 =~= d1);
            assert(t2 =~= d2);
        },
    }
}

/// After the header lines agree, the content types, the contents and the
/// tails agree: the content type ends at the first carriage return, and the
/// content ends at the separator pattern.
proof fn lemma_peel_tail(b: Seq<char>, p1: PartView, w1: Seq<u8>, p2: PartView, w2: Seq<u8>)
    requires
        !p1.content_type.contains('\r'),
        !p2.content_type.contains('\r'),
        delimiter_free(p1.content, b),
        delimiter_free(p2.content, b),
        tail_after_disposition(b, p1, w1) == tail_after_disposition(b, p2, w2),
    ensures
        p1.content_type == p2.content_type,
        p1.content == p2.content,
        w1 == w2,
{
    let cp = encode_utf8("Content-Type: "@);
    let ct1 = encode_utf8(p1.content_type);
    let ct2 = encode_utf8(p2.content_type);
    let u1 = tail_after_ctype(b, p1, w1);
    let u2 = tail_after_ctype(b, p2, w2);
    lemma_peel_prefix(crlf() + cp, ct1 + seq![13u8] + u1, ct2 + seq![13u8] + u2);
    lemma_ascii_absent(p1.content_type, '\r');
    lemma_ascii_absent(p2.content_type, '\r');
    assert(('\r' as u32) == 13);
    lemma_split_at_byte(ct1, u1, ct2, u2, 13u8);
    lemma_utf8_injective(p1.content_type, p2.content_type);
    lemma_peel_prefix(seq![10u8, 13u8, 10u8], p1.content + sep(b) + w1, p2.content + sep(b) + w2);
    lemma_split_at_sep(p1.content, w1, p2.content, w2, sep(b));
}

/// Removing one part's encoding from the front of two equal byte sequences:
/// if both sequences consist of a well-formed part's encoding followed by
/// `--`, the boundary, and a tail, then the parts agree and the tails agree.
proof fn lemma_part_peel(b: Seq<char>, p1: PartView, w1: Seq<u8>, p2: PartView, w2: Seq<u8>)
    requires
        unambiguous_part(b, p1),
        unambiguous_part(b, p2),
        part_encoding(b, p1) + dashes() + encode_utf8(b) + w1 == part_encoding(b, p2) + dashes()
            + encode_utf8(b) + w2,
    ensures
        p1 == p2,
        w1 == w2,
{
    lemma_part_flat(b, p1, w1);
    lemma_part_flat(b, p2, w2);
    let head = delimiter_line(b) + encode_utf8("Content-Disposition: form-data; name=\""@);
    lemma_peel_prefix(
        head,
        encode_utf8(p1.name) + seq![34u8] + tail_after_name(b, p1, w1),
        encode_utf8(p2.name) + seq![34u8] + tail_after_name(b, p2, w2),
    );
    lemma_ascii_absent(p1.name, '"');
    lemma_ascii_absent(p2.name, '"');
    assert(('"' as u32) == 34);
    lemma_split_at_byte(
        encode_utf8(p1.name),
        tail_after_name(b, p1, w1),
        encode_utf8(p2.name),
        tail_after_name(b, p2, w2),
        34u8,
    );
    lemma_utf8_injective(p1.name, p2.name);
    lemma_peel_filename(b, p1, w1, p2, w2);
    lemma_peel_tail(b, p1, w1, p2, w2);
    assert(p1 =~= p2);
}

/// Round trip: the encoded body determines the parts. Two part sequences that
/// encode, against one boundary, to the same body are the same sequence —
/// a conformant multipart parser therefore recovers from the body exactly the
/// ordered parts that were added, names, content types, file names and content
/// bytes alike. Holds for parts whose fields cannot collide with the framing:
/// see [`unambiguous_part`].
pub proof fn lemma_round_trip(boundary: Seq<char>, parts1: Seq<PartView>, parts2: Seq<PartView>)
    requires
        forall|i: int|
            0 <= i < parts1.len() ==> unambiguous_part(boundary, #[trigger] parts1[i]),
        forall|i: int|
            0 <= i < parts2.len() ==> unambiguous_part(boundary, #[trigger] parts2[i]),
        body_encoding(boundary, parts1) == body_encoding(boundary, parts2),
    ensures
        parts1 == parts2,
    decreases parts1.len(),
{
    let bb = encode_utf8(boundary);
    if parts1.len() == 0 && parts2.len() == 0 {
        assert(parts1 =~= parts2);
    } else if parts1.len() == 0 {
        assert(body_encoding(boundary, parts1)[2 + bb.len() as int] == 45u8);
        assert(delimiter_line(boundary)[2 + bb.len() as int] == 13u8);
        assert(body_encoding(boundary, parts2)[2 + bb.len() as int] == 13u8);
        assert(false);
    } else if parts2.len() == 0 {
        assert(body_encoding(boundary, parts2)[2 + bb.len() as int] == 45u8);
        assert(delimiter_line(boundary)[2 + bb.len() as int] == 13u8);
        assert(body_encoding(boundary, parts1)[2 + bb.len() as int] == 13u8);
        assert(false);
    } else {
        let r1 = parts1.drop_first();
        let r2 = parts2.drop_first();
        lemma_body_starts(boundary, r1);
        lemma_body_starts(boundary, r2);
        let w1 = body_encoding(boundary, r1).skip(2 + bb.len() as int);
        let w2 = body_encoding(boundary, r2).skip(2 + bb.len() as int);
        assert(body_encoding(boundary, r1) =~= (dashes() + bb) + w1);
        assert(body_encoding(boundary, r2) =~= (dashes() + bb) + w2);
        assert(body_encoding(boundary, parts1) =~= part_encoding(boundary, parts1[0]) + dashes()
            + bb + w1);
        assert(body_encoding(boundary, parts2) =~= part_encoding(boundary, parts2[0]) + dashes()
            + bb + w2);
        lemma_part_peel(boundary, parts1[0], w1, parts2[0], w2);
        assert(body_encoding(boundary, r1) =~= body_encoding(boundary, r2));
        assert forall|i: int|
            0 <= i < r1.len() implies unambiguous_part(boundary, #[trigger] r1[i]) by {
            assert(r1[i] == parts1[i + 1]);
        }
        assert forall|i: int|
            0 <= i < r2.len() implies unambiguous_part(boundary, #[trigger] r2[i]) by {
            assert(r2[i] == parts2[i + 1]);
        }
        lemma_round_trip(boundary, r1, r2);
        assert(parts1 =~= parts2) by {
            assert(parts1.len() == parts2.len());
            assert forall|i: int| 0 <= i < parts1.len() implies parts1[i] == parts2[i] by {
                if i == 0 {
                } else {
                    assert(r1[i - 1] == parts1[i]);
                    assert(r2[i - 1] == parts2[i]);
                }
            }
        }
    }
}

/// Empty collection: the body of a builder with no parts is the closing
/// delimiter alone — `--`, the boundary, `--`, CR LF — and nothing else.
pub proof fn lemma_empty_collection(boundary: Seq<char>)
    ensures
        body_encoding(boundary, Seq::<PartView>::empty()) == dashes() + encode_utf8(boundary)
            + dashes() + crlf(),
{
}

} // verus!
