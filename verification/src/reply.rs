//! What the server answers to a request.
//!
//! A rendered frame is answered as a PNG picture. The encoding is the work
//! of the `image` crate; what is decided here is which answer goes out.

use vstd::prelude::*;

verus! {

/// Status of an answer that was found.
pub const STATUS_OK: u16 = 200;

/// Status of an answer to a request for no page.
pub const STATUS_NOT_FOUND: u16 = 404;

/// An answer: a status, a body, and whether the body is a PNG picture. A
/// picture goes out as `image/png` and is not to be cached.
#[derive(Debug)]
pub struct Reply {
    pub status: u16,
    pub picture: bool,
    pub body: Vec<u8>,
}

/// An answer as a plain value.
pub struct ReplyView {
    pub status: u16,
    pub picture: bool,
    pub body: Seq<u8>,
}

impl View for Reply {
    type V = ReplyView;

    open spec fn view(&self) -> ReplyView {
        ReplyView { status: self.status, picture: self.picture, body: self.body@ }
    }
}

/// The PNG file that the `image` crate writes for a frame of `width` by
/// `height` pixels of three bytes each, or `None` where it writes none.
pub uninterp spec fn png_encoding(width: u32, height: u32, data: Seq<u8>) -> Option<Seq<u8>>;

/// The bytes of `fail to render`.
pub open spec fn fail_text() -> Seq<u8> {
    seq![
        0x66u8, 0x61u8, 0x69u8, 0x6cu8, 0x20u8, 0x74u8, 0x6fu8, 0x20u8, 0x72u8, 0x65u8, 0x6eu8,
        0x64u8, 0x65u8, 0x72u8,
    ]
}

/// The bytes of `empty`.
pub open spec fn empty_text() -> Seq<u8> {
    seq![0x65u8, 0x6du8, 0x70u8, 0x74u8, 0x79u8]
}

/// The answer to a render request, given the encoded frame if there is one.
pub open spec fn picture_reply_of(png: Option<Seq<u8>>) -> ReplyView {
    match png {
        Some(bytes) => ReplyView { status: STATUS_OK, picture: true, body: bytes },
        None => ReplyView { status: STATUS_OK, picture: false, body: fail_text() },
    }
}

/// The bytes of an optional buffer.
pub open spec fn bytes_of(out: Option<Vec<u8>>) -> Option<Seq<u8>> {
    match out {
        Some(v) => Some(v@),
        None => None,
    }
}

/// Encodes a frame as a PNG file in memory: `image::ImageBuffer::from_raw`
/// takes the bytes as an RGB image of 8 bits a channel, and
/// `image::DynamicImage::write_to` writes it in the PNG format. The result
/// is what they give for these dimensions and bytes, `None` where either
/// refuses. `from_raw` returns nothing for a buffer shorter than the
/// dimensions ask and cuts a longer one to the length needed; a frame of
/// this library is exactly that long, and the contract speaks of such
/// frames only.
#[verifier::external_body]
fn encode_png(width: u32, height: u32, data: Vec<u8>) -> (out: Option<Vec<u8>>)
    requires
        data@.len() == 3 * width * height,
    ensures
        bytes_of(out) == png_encoding(width, height, data@),
{
    let frame = image::DynamicImage::ImageRgb8(image::ImageBuffer::from_raw(width, height, data)?);
    let mut file: Vec<u8> = Vec::new();
    match frame.write_to(&mut std::io::Cursor::new(&mut file), image::ImageOutputFormat::Png) {
        Ok(()) => Some(file),
        Err(_) => None,
    }
}

/// Answers a render request with the encoded frame, or says that rendering
/// failed where there is none.
pub fn picture_reply(png: Option<Vec<u8>>) -> (reply: Reply)
    ensures
        reply@ == picture_reply_of(bytes_of(png)),
{
    match png {
        Some(bytes) => Reply { status: STATUS_OK, picture: true, body: bytes },
        None => {
            let text: [u8; 14] = [
                0x66, 0x61, 0x69, 0x6c, 0x20, 0x74, 0x6f, 0x20, 0x72, 0x65, 0x6e, 0x64, 0x65, 0x72,
            ];
            let body: Vec<u8> = copy_of(text.as_slice());
            assert(body@ =~= fail_text());
            Reply { status: STATUS_OK, picture: false, body }
        },
    }
}

/// Answers a render request with the frame `data`, rows of `width` pixels
/// of three bytes each, encoded as a PNG file.
pub fn render_reply(width: u32, height: u32, data: Vec<u8>) -> (reply: Reply)
    requires
        data@.len() == 3 * width * height,
    ensures
        reply@ == picture_reply_of(png_encoding(width, height, data@)),
{
    picture_reply(encode_png(width, height, data))
}

/// Answers a request for no page.
pub fn not_found_reply() -> (reply: Reply)
    ensures
        reply@ == (ReplyView { status: STATUS_NOT_FOUND, picture: false, body: empty_text() }),
{
    let text: [u8; 5] = [0x65, 0x6d, 0x70, 0x74, 0x79];
    let body: Vec<u8> = copy_of(text.as_slice());
    assert(body@ =~= empty_text());
    Reply { status: STATUS_NOT_FOUND, picture: false, body }
}

/// A buffer with the bytes of `text`.
fn copy_of(text: &[u8]) -> (v: Vec<u8>)
    ensures
        v@ == text@,
{
    let mut v: Vec<u8> = Vec::new();
    let mut i: usize = 0;
    while i < text.len()
        invariant
            i <= text@.len(),
            v@ == text@.take(i as int),
        decreases text@.len() - i,
    {
        v.push(text[i]);
        assert(v@ =~= text@.take(i + 1));
        i = i + 1;
    }
    assert(text@.take(text@.len() as int) =~= text@);
    v
}

} // verus!
