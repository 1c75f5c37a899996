//! The upload request body: a hand-built `multipart/form-data` payload in
//! the exact shape browsers send, and the upload error type.
use vstd::prelude::*;
use vstd::string::StringSliceAdditionalSpecFns;

use crate::text::{decimal_ascii, push_decimal_ascii, push_str_bytes};
use crate::upload::queue::UploadMetadata;

verus! {

/// Errors of an upload attempt.
#[derive(Debug)]
pub enum UploadError {
    File(String),
    Http(String),
}

/// The text of an upload error.
pub open spec fn upload_error_text(e: UploadError) -> Seq<char> {
    match e {
        UploadError::File(m) => "File error: "@ + m@,
        UploadError::Http(m) => "HTTP error: "@ + m@,
    }
}

impl UploadError {
    /// The error's text: `File error: …` or `HTTP error: …`.
    pub fn message(&self) -> (r: String)
        ensures
            r@ == upload_error_text(*self),
    {
        match self {
            UploadError::File(m) => {
                let mut s = String::from_str("File error: ");
                s.append(m.as_str());
                s
            },
            UploadError::Http(m) => {
                let mut s = String::from_str("HTTP error: ");
                s.append(m.as_str());
                s
            },
        }
    }
}

/// One text part: boundary line, `Content-Disposition` with the field name,
/// a blank line, then the value.
pub open spec fn text_part(boundary: Seq<u8>, name: Seq<u8>, value: Seq<u8>) -> Seq<u8> {
    "--".spec_bytes() + boundary + "\r\n".spec_bytes() + "Content-Disposition: form-data; name=\"".spec_bytes()
        + name + "\"\r\n".spec_bytes() + "\r\n".spec_bytes() + value + "\r\n".spec_bytes()
}

/// The file part: boundary line, `Content-Disposition` with the file name,
/// `Content-Type: video/mp4`, a blank line, then the file's bytes.
pub open spec fn file_part(boundary: Seq<u8>, filename: Seq<u8>, file_bytes: Seq<u8>) -> Seq<u8> {
    "--".spec_bytes() + boundary + "\r\n".spec_bytes()
        + "Content-Disposition: form-data; name=\"file\"; filename=\"".spec_bytes() + filename
        + "\"\r\n".spec_bytes() + "Content-Type: video/mp4\r\n".spec_bytes() + "\r\n".spec_bytes()
        + file_bytes + "\r\n".spec_bytes()
}

/// The whole upload body: the file part, the metadata fields (title, game,
/// duration, width, height, codec, visibility `unlisted`), then the closing
/// boundary. `duration_text` is the clip duration as displayed.
pub open spec fn multipart_body(
    boundary: Seq<u8>,
    filename: Seq<u8>,
    file_bytes: Seq<u8>,
    m: UploadMetadata,
    duration_text: Seq<u8>,
) -> Seq<u8> {
    file_part(boundary, filename, file_bytes) + text_part(
        boundary,
        "title".spec_bytes(),
        vstd::utf8::encode_utf8(m.title@),
    ) + text_part(boundary, "game".spec_bytes(), vstd::utf8::encode_utf8(m.game@)) + text_part(
        boundary,
        "duration_secs".spec_bytes(),
        duration_text,
    ) + text_part(boundary, "width".spec_bytes(), decimal_ascii(m.width as nat)) + text_part(
        boundary,
        "height".spec_bytes(),
        decimal_ascii(m.height as nat),
    ) + text_part(boundary, "codec".spec_bytes(), vstd::utf8::encode_utf8(m.codec@)) + text_part(
        boundary,
        "visibility".spec_bytes(),
        "unlisted".spec_bytes(),
    ) + "--".spec_bytes() + boundary + "--\r\n".spec_bytes()
}

fn push_bytes(out: &mut Vec<u8>, b: &[u8])
    ensures
        final(out)@ == old(out)@ + b@,
{
    let mut i: usize = 0;
    while i < b.len()
        invariant
            i <= b@.len(),
            out@ == old(out)@ + b@.subrange(0, i as int),
        decreases b@.len() - i,
    {
        out.push(b[i]);
        i += 1;
        assert(out@ =~= old(out)@ + b@.subrange(0, i as int));
    }
    assert(b@.subrange(0, i as int) =~= b@);
}

fn push_text_part(out: &mut Vec<u8>, boundary: &str, name: &str, value: &[u8])
    ensures
        final(out)@ == old(out)@ + text_part(boundary.spec_bytes(), name.spec_bytes(), value@),
{
    push_str_bytes(out, "--");
    push_str_bytes(out, boundary);
    push_str_bytes(out, "\r\n");
    push_str_bytes(out, "Content-Disposition: form-data; name=\"");
    push_str_bytes(out, name);
    push_str_bytes(out, "\"\r\n");
    push_str_bytes(out, "\r\n");
    push_bytes(out, value);
    push_str_bytes(out, "\r\n");
    assert(final(out)@ =~= old(out)@ + text_part(boundary.spec_bytes(), name.spec_bytes(), value@));
}

/// Builds the `multipart/form-data` body of an upload request. The
/// duration field carries `duration_text`, the clip duration as displayed.
pub fn build_multipart_body(
    boundary: &str,
    filename: &str,
    file_bytes: &[u8],
    metadata: &UploadMetadata,
    duration_text: &str,
) -> (r: Vec<u8>)
    ensures
        r@ == multipart_body(
            boundary.spec_bytes(),
            filename.spec_bytes(),
            file_bytes@,
            *metadata,
            duration_text.spec_bytes(),
        ),
{
    let mut body: Vec<u8> = Vec::new();
    push_str_bytes(&mut body, "--");
    push_str_bytes(&mut body, boundary);
    push_str_bytes(&mut body, "\r\n");
    push_str_bytes(&mut body, "Content-Disposition: form-data; name=\"file\"; filename=\"");
    push_str_bytes(&mut body, filename);
    push_str_bytes(&mut body, "\"\r\n");
    push_str_bytes(&mut body, "Content-Type: video/mp4\r\n");
    push_str_bytes(&mut body, "\r\n");
    push_bytes(&mut body, file_bytes);
    push_str_bytes(&mut body, "\r\n");
    let ghost after_file = body@;
    assert(after_file =~= file_part(boundary.spec_bytes(), filename.spec_bytes(), file_bytes@));

    push_text_part(&mut body, boundary, "title", metadata.title.as_str().as_bytes());
    push_text_part(&mut body, boundary, "game", metadata.game.as_str().as_bytes());
    push_text_part(&mut body, boundary, "duration_secs", duration_text.as_bytes());
    let mut width: Vec<u8> = Vec::new();
    push_decimal_ascii(&mut width, metadata.width as u64);
    push_text_part(&mut body, boundary, "width", width.as_slice());
    let mut height: Vec<u8> = Vec::new();
    push_decimal_ascii(&mut height, metadata.height as u64);
    push_text_part(&mut body, boundary, "height", height.as_slice());
    push_text_part(&mut body, boundary, "codec", metadata.codec.as_str().as_bytes());
    push_text_part(&mut body, boundary, "visibility", "unlisted".as_bytes());

    push_str_bytes(&mut body, "--");
    push_str_bytes(&mut body, boundary);
    push_str_bytes(&mut body, "--\r\n");
    assert(width@ =~= decimal_ascii(metadata.width as nat));
    assert(height@ =~= decimal_ascii(metadata.height as nat));
    assert(body@ =~= multipart_body(
        boundary.spec_bytes(),
        filename.spec_bytes(),
        file_bytes@,
        *metadata,
        duration_text.spec_bytes(),
    ));
    body
}

} // verus!
