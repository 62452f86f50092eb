//! The part collection and its encoder: an ordered, append-only sequence of
//! parts behind a fluent builder, and the `build` step that emits the
//! boundary-delimited wire bytes together with the matching `Content-Type`
//! header value.

use vstd::prelude::*;

verus! {

use vstd::string::StrSliceExecFns;
use vstd::string::StringExecFns;
use crate::encoding::PartView;
use crate::encoding::boundary_token;
use crate::encoding::body_encoding;
use crate::encoding::content_type_value;
use crate::encoding::parts_encoding;
use crate::encoding::part_encoding;
use crate::encoding::lemma_parts_in_order;
use crate::encoding::lemma_parts_encoding_push;
use crate::outside::fresh_boundary;
use crate::outside::json_encoding;
use crate::outside::serialize_json_value;

/// The error of a failed JSON serialization. Serializing a ready
/// `serde_json::Value` cannot fail, so `with_json` never returns it; a front
/// that first turns an arbitrary serializable value into a `Value` returns it
/// when that step fails, abandoning the build before any part is emitted.
#[derive(Debug, PartialEq, Eq, Structural)]
pub struct SerializationError;

/// One part of the multipart payload: the field name, the MIME type, the
/// optional file name, and the owned content bytes.
struct Part {
    name: String,
    content_type: String,
    filename: Option<String>,
    content: Vec<u8>,
}

impl View for Part {
    type V = PartView;

    closed spec fn view(&self) -> PartView {
        PartView {
            name: self.name@,
            content_type: self.content_type@,
            filename: self.filename.deep_view(),
            content: self.content@,
        }
    }
}

/// What a builder is, mathematically: its boundary token and the ordered
/// sequence of parts added so far.
pub struct BuilderView {
    pub boundary: Seq<char>,
    pub parts: Seq<PartView>,
}

/// A builder for `multipart/form-data` payloads. It owns a boundary token,
/// generated once at construction and never changed, and an ordered list of
/// parts; `build` consumes it and produces the wire bytes.
pub struct TestMultipartBuilder {
    boundary: String,
    parts: Vec<Part>,
}

impl View for TestMultipartBuilder {
    type V = BuilderView;

    closed spec fn view(&self) -> BuilderView {
        BuilderView {
            boundary: self.boundary@,
            parts: Seq::new(self.parts@.len(), |i: int| self.parts@[i]@),
        }
    }
}

/// Appends every byte of `src` to `out`, in order.
fn append_bytes(out: &mut Vec<u8>, src: &[u8])
    ensures
        final(out)@ == old(out)@ + src@,
{
    let mut i: usize = 0;
    while i < src.len()
        invariant
            i <= src.len(),
            out@ == old(out)@ + src@.take(i as int),
        decreases src.len() - i,
    {
        out.push(src[i]);
        proof {
            assert(src@.take(i + 1 as int) =~= src@.take(i as int).push(src@[i as int]));
        }
        i = i + 1;
    }
    proof {
        assert(old(out)@ + src@.take(src@.len() as int) =~= old(out)@ + src@);
    }
}

/// Appends the UTF-8 bytes of `s` to `out`.
fn append_str(out: &mut Vec<u8>, s: &str)
    ensures
        final(out)@ == old(out)@ + vstd::utf8::encode_utf8(s@),
{
    let mut piece = s.as_bytes_vec();
    out.append(&mut piece);
}

/// Appends a CR LF line ending to `out`.
fn append_crlf(out: &mut Vec<u8>)
    ensures
        final(out)@ == old(out)@ + crate::encoding::crlf(),
{
    out.push(13u8);
    out.push(10u8);
    proof {
        assert(out@ =~= old(out)@ + crate::encoding::crlf());
    }
}

/// Appends the two hyphen-minus bytes `--` to `out`.
fn append_dashes(out: &mut Vec<u8>)
    ensures
        final(out)@ == old(out)@ + crate::encoding::dashes(),
{
    out.push(45u8);
    out.push(45u8);
    proof {
        assert(out@ =~= old(out)@ + crate::encoding::dashes());
    }
}

/// Appends one ASCII double-quote byte to `out`.
fn append_quote(out: &mut Vec<u8>)
    ensures
        final(out)@ == old(out)@ + crate::encoding::quote(),
{
    out.push(34u8);
    proof {
        assert(out@ =~= old(out)@ + crate::encoding::quote());
    }
}

/// Appends the delimiter line that opens a part: `--`, the boundary, CR LF.
fn append_delimiter_line(out: &mut Vec<u8>, boundary: &str)
    ensures
        final(out)@ == old(out)@ + crate::encoding::delimiter_line(boundary@),
{
    append_dashes(out);
    append_str(out, boundary);
    append_crlf(out);
    proof {
        assert(out@ =~= old(out)@ + crate::encoding::delimiter_line(boundary@));
    }
}

/// Appends the `Content-Disposition` header line of the given part.
fn append_disposition_line(out: &mut Vec<u8>, part: &Part)
    ensures
        final(out)@ == old(out)@ + crate::encoding::disposition_line(part@),
{
    append_str(out, "Content-Disposition: form-data; name=\"");
    append_str(out, part.name.as_str());
    append_quote(out);
    match &part.filename {
        Some(f) => {
            append_str(out, "; filename=\"");
            append_str(out, f.as_str());
            append_quote(out);
        },
        None => {},
    }
    append_crlf(out);
    proof {
        assert(out@ =~= old(out)@ + crate::encoding::disposition_line(part@));
    }
}

/// Appends the `Content-Type` header line of the given part and the blank
/// line that ends the part's headers.
fn append_content_type_line(out: &mut Vec<u8>, part: &Part)
    ensures
        final(out)@ == old(out)@ + crate::encoding::content_type_line(part@),
{
    append_str(out, "Content-Type: ");
    append_str(out, part.content_type.as_str());
    append_crlf(out);
    append_crlf(out);
    proof {
        assert(out@ =~= old(out)@ + crate::encoding::content_type_line(part@));
    }
}

/// Appends the full encoding of one part.
fn append_part(out: &mut Vec<u8>, boundary: &str, part: &Part)
    ensures
        final(out)@ == old(out)@ + part_encoding(boundary@, part@),
{
    append_delimiter_line(out, boundary);
    append_disposition_line(out, part);
    append_content_type_line(out, part);
    append_bytes(out, part.content.as_slice());
    append_crlf(out);
    proof {
        assert(out@ =~= old(out)@ + part_encoding(boundary@, part@));
    }
}

/// Appends the closing delimiter: `--`, the boundary, `--`, CR LF.
fn append_closing_line(out: &mut Vec<u8>, boundary: &str)
    ensures
        final(out)@ == old(out)@ + crate::encoding::closing_line(boundary@),
{
    append_dashes(out);
    append_str(out, boundary);
    append_dashes(out);
    append_crlf(out);
    proof {
        assert(out@ =~= old(out)@ + crate::encoding::closing_line(boundary@));
    }
}

impl TestMultipartBuilder {
    /// Create a new builder with no parts and a freshly generated boundary.
    pub fn new() -> (r: Self)
        ensures
            r@.parts == Seq::<PartView>::empty(),
            boundary_token(r@.boundary),
            r@.boundary.len() == 36,
    {
        let r = TestMultipartBuilder { boundary: fresh_boundary(), parts: Vec::new() };
        proof {
            assert(r@.parts =~= Seq::<PartView>::empty());
        }
        r
    }

    /// The boundary token this builder was constructed with.
    pub fn boundary(&self) -> (r: &str)
        ensures
            r@ == self@.boundary,
    {
        self.boundary.as_str()
    }

    /// The generic add-part operation the other add operations delegate to:
    /// appends a fully specified part, verbatim, at the end of the sequence.
    pub fn with_part(
        self,
        name: String,
        content_type: String,
        filename: Option<String>,
        content: Vec<u8>,
    ) -> (r: Self)
        ensures
            r@.boundary == self@.boundary,
            r@.parts == self@.parts.push(
                PartView {
                    name: name@,
                    content_type: content_type@,
                    filename: filename.deep_view(),
                    content: content@,
                },
            ),
    {
        let ghost pv = PartView {
            name: name@,
            content_type: content_type@,
            filename: filename.deep_view(),
            content: content@,
        };
        let mut s = self;
        s.parts.push(Part { name, content_type, filename, content });
        proof {
            assert(s@.parts =~= self@.parts.push(pv));
        }
        s
    }

    /// Append a simple text part: content type `text/plain`, no file name,
    /// content the UTF-8 bytes of `text`.
    pub fn with_text(self, name: &str, text: &str) -> (r: Self)
        ensures
            r@.boundary == self@.boundary,
            r@.parts == self@.parts.push(
                PartView {
                    name: name@,
                    content_type: "text/plain"@,
                    filename: None,
                    content: vstd::utf8::encode_utf8(text@),
                },
            ),
    {
        self.with_part(name.to_owned(), "text/plain".to_owned(), None, text.as_bytes_vec())
    }

    /// Append a file-like part from in-memory bytes, with an explicit file
    /// name and content type.
    pub fn with_bytes(self, name: &str, filename: &str, content_type: &str, content: Vec<u8>) -> (r:
        Self)
        ensures
            r@.boundary == self@.boundary,
            r@.parts == self@.parts.push(
                PartView {
                    name: name@,
                    content_type: content_type@,
                    filename: Some(filename@),
                    content: content@,
                },
            ),
    {
        self.with_part(
            name.to_owned(),
            content_type.to_owned(),
            Some(filename.to_owned()),
            content,
        )
    }

    /// Append a JSON part: content type `application/json`, no file name,
    /// content the JSON text of `json_data`. A `serde_json::Value` always
    /// serializes, so the call always succeeds; the `Result` carries the
    /// serialization failure a caller-side serializer may hit on the way to a
    /// `Value`, which aborts the build before any part is emitted.
    pub fn with_json(self, name: &str, json_data: &serde_json::Value) -> (r: Result<
        Self,
        SerializationError,
    >)
        ensures
            r is Ok,
            r->Ok_0@.boundary == self@.boundary,
            r->Ok_0@.parts == self@.parts.push(
                PartView {
                    name: name@,
                    content_type: "application/json"@,
                    filename: None,
                    content: json_encoding(*json_data),
                },
            ),
    {
        match serialize_json_value(json_data) {
            Ok(content) => Ok(
                self.with_part(name.to_owned(), "application/json".to_owned(), None, content),
            ),
            Err(_) => Err(SerializationError),
        }
    }

    /// Consume the builder and encode the body. Returns the `Content-Type`
    /// header value, `multipart/form-data; boundary=<token>`, paired with the
    /// byte-exact multipart body: each part in insertion order, then the
    /// closing delimiter.
    pub fn build(self) -> (r: (String, Vec<u8>))
        ensures
            r.0@ == content_type_value(self@.boundary),
            r.1@ == body_encoding(self@.boundary, self@.parts),
    {
        let mut body: Vec<u8> = Vec::new();
        let n = self.parts.len();
        let ghost bnd = self@.boundary;
        let ghost pvs = self@.parts;
        proof {
            assert(body@ =~= parts_encoding(bnd, pvs.take(0)));
        }
        let mut i: usize = 0;
        while i < n
            invariant
                i <= n,
                n == self.parts@.len(),
                bnd == self@.boundary,
                pvs == self@.parts,
                body@ == parts_encoding(bnd, pvs.take(i as int)),
            decreases n - i,
        {
            let part = &self.parts[i];
            append_part(&mut body, self.boundary.as_str(), part);
            proof {
                assert(body@ =~= parts_encoding(bnd, pvs.take(i as int)) + part_encoding(
                    bnd,
                    pvs[i as int],
                ));
                lemma_parts_encoding_push(bnd, pvs.take(i as int), pvs[i as int]);
                assert(pvs.take(i + 1 as int) =~= pvs.take(i as int).push(pvs[i as int]));
            }
            i = i + 1;
        }
        proof {
            assert(pvs.take(n as int) =~= pvs);
        }
        append_closing_line(&mut body, self.boundary.as_str());
        proof {
            lemma_parts_in_order(bnd, pvs);
            assert(body@ =~= body_encoding(bnd, pvs));
        }
        let mut header = "multipart/form-data; boundary=".to_owned();
        header.append(self.boundary.as_str());
        (header, body)
    }
}

impl Default for TestMultipartBuilder {
    /// Same as `new`: an empty builder with a fresh boundary.
    fn default() -> (r: Self)
        ensures
            r@.parts == Seq::<PartView>::empty(),
            boundary_token(r@.boundary),
            r@.boundary.len() == 36,
    {
        Self::new()
    }
}

} // verus!
