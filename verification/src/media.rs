//! The descriptive part of a record (price, three texts and a blob) and its
//! byte layout, shared by stored records and by the create instruction.

use crate::error::ErrorKind;
use crate::wire::{
    append, le_bytes, le_value, lemma_le_bytes_len, lemma_le_bytes_of_value, lemma_le_value_bound,
    lemma_le_value_of_bytes, lemma_pow256_values, prefixed, push_le, read_le, MAX_FIELD_LEN,
};
use vstd::prelude::*;
use vstd::slice::{slice_subrange, slice_to_vec};
use vstd::utf8::{
    decode_utf8, decode_utf8_encode_utf8, encode_utf8, encode_utf8_decode_utf8,
    encode_utf8_valid_utf8, valid_utf8,
};

verus! {

/// Bytes of the price on the wire.
pub const PRICE_LEN: usize = 8;

/// The media fields as they are read from the wire.
pub(crate) struct Media {
    pub(crate) price: u64,
    pub(crate) url: String,
    pub(crate) name: String,
    pub(crate) description: String,
    pub(crate) blob: Vec<u8>,
}

/// The media fields of a record or of a create command, as mathematical values.
pub struct MediaView {
    pub price: u64,
    pub url: Seq<char>,
    pub name: Seq<char>,
    pub description: Seq<char>,
    pub blob: Seq<u8>,
}

impl Media {
    /// The fields as mathematical values.
    pub(crate) open spec fn view(&self) -> MediaView {
        MediaView {
            price: self.price,
            url: self.url@,
            name: self.name@,
            description: self.description@,
            blob: self.blob@,
        }
    }
}

impl MediaView {
    /// Every variable field is short enough for a 4-byte length prefix.
    pub open spec fn fits(self) -> bool {
        &&& encode_utf8(self.url).len() <= MAX_FIELD_LEN
        &&& encode_utf8(self.name).len() <= MAX_FIELD_LEN
        &&& encode_utf8(self.description).len() <= MAX_FIELD_LEN
        &&& self.blob.len() <= MAX_FIELD_LEN
    }

    /// The wire image: the price in eight little-endian bytes, then url, name,
    /// description and blob, each behind its length.
    pub open spec fn encoding(self) -> Seq<u8> {
        le_bytes(self.price as nat, 8) + prefixed(encode_utf8(self.url)) + prefixed(
            encode_utf8(self.name),
        ) + prefixed(encode_utf8(self.description)) + prefixed(self.blob)
    }
}

/// The length-prefixed field that starts at `at`, with the offset just behind it.
pub open spec fn field_at(bytes: Seq<u8>, at: int) -> Option<(Seq<u8>, int)> {
    if 0 <= at && at + 4 <= bytes.len() {
        let len = le_value(bytes.subrange(at, at + 4));
        if at + 4 + len <= bytes.len() {
            Some((bytes.subrange(at + 4, at + 4 + len), at + 4 + len))
        } else {
            None
        }
    } else {
        None
    }
}

/// The length-prefixed text that starts at `at`, with the offset just behind it.
pub open spec fn text_at(bytes: Seq<u8>, at: int) -> Option<(Seq<char>, int)> {
    match field_at(bytes, at) {
        Some((body, end)) => if valid_utf8(body) {
            Some((decode_utf8(body), end))
        } else {
            None
        },
        None => None,
    }
}

/// The media fields that start at `at`, with the offset just behind them.
pub open spec fn media_at(bytes: Seq<u8>, at: int) -> Option<(MediaView, int)> {
    if 0 <= at && at + 8 <= bytes.len() {
        match text_at(bytes, at + 8) {
            Some((url, after_url)) => match text_at(bytes, after_url) {
                Some((name, after_name)) => match text_at(bytes, after_name) {
                    Some((description, after_description)) => match field_at(
                        bytes,
                        after_description,
                    ) {
                        Some((blob, end)) => Some(
                            (
                                MediaView {
                                    price: le_value(bytes.subrange(at, at + 8)) as u64,
                                    url,
                                    name,
                                    description,
                                    blob,
                                },
                                end,
                            ),
                        ),
                        None => None,
                    },
                    None => None,
                },
                None => None,
            },
            None => None,
        }
    } else {
        None
    }
}

/// A field that was read is what its bytes spell: they are its prefixed image.
pub proof fn lemma_field_at_sound(bytes: Seq<u8>, at: int)
    requires
        field_at(bytes, at) is Some,
    ensures
        ({
            let (body, end) = field_at(bytes, at)->0;
            &&& body.len() <= MAX_FIELD_LEN
            &&& end == at + 4 + body.len()
            &&& 0 <= at
            &&& end <= bytes.len()
            &&& bytes.subrange(at, end) == prefixed(body)
        }),
{
    let (body, end) = field_at(bytes, at)->0;
    let head = bytes.subrange(at, at + 4);
    lemma_le_value_bound(head);
    lemma_pow256_values();
    lemma_le_bytes_of_value(head);
    assert(bytes.subrange(at, end) =~= head + body);
}

/// A field's image is read back as the field.
pub proof fn lemma_field_at_complete(bytes: Seq<u8>, at: int, body: Seq<u8>)
    requires
        0 <= at,
        body.len() <= MAX_FIELD_LEN,
        at + 4 + body.len() <= bytes.len(),
        bytes.subrange(at, at + 4 + body.len()) == prefixed(body),
    ensures
        field_at(bytes, at) == Some((body, at + 4 + body.len())),
{
    let image = bytes.subrange(at, at + 4 + body.len());
    let head = le_bytes(body.len(), 4);
    lemma_le_bytes_len(body.len(), 4);
    lemma_pow256_values();
    lemma_le_value_of_bytes(body.len(), 4);
    assert(bytes.subrange(at, at + 4) =~= image.subrange(0, 4));
    assert(image.subrange(0, 4) =~= head);
    assert(bytes.subrange(at + 4, at + 4 + body.len()) =~= image.subrange(
        4,
        4 + body.len() as int,
    ));
    assert(image.subrange(4, 4 + body.len() as int) =~= body);
}

/// A text that was read is what its bytes spell.
pub proof fn lemma_text_at_sound(bytes: Seq<u8>, at: int)
    requires
        text_at(bytes, at) is Some,
    ensures
        ({
            let (text, end) = text_at(bytes, at)->0;
            &&& encode_utf8(text).len() <= MAX_FIELD_LEN
            &&& end == at + 4 + encode_utf8(text).len()
            &&& 0 <= at
            &&& end <= bytes.len()
            &&& bytes.subrange(at, end) == prefixed(encode_utf8(text))
        }),
{
    lemma_field_at_sound(bytes, at);
    let (body, end) = field_at(bytes, at)->0;
    decode_utf8_encode_utf8(body);
}

/// A text's image is read back as the text.
pub proof fn lemma_text_at_complete(bytes: Seq<u8>, at: int, text: Seq<char>)
    requires
        0 <= at,
        encode_utf8(text).len() <= MAX_FIELD_LEN,
        at + 4 + encode_utf8(text).len() <= bytes.len(),
        bytes.subrange(at, at + 4 + encode_utf8(text).len()) == prefixed(encode_utf8(text)),
    ensures
        text_at(bytes, at) == Some((text, at + 4 + encode_utf8(text).len())),
{
    lemma_field_at_complete(bytes, at, encode_utf8(text));
    encode_utf8_valid_utf8(text);
    encode_utf8_decode_utf8(text);
}

/// The length of a media image, field by field.
pub proof fn lemma_media_encoding_len(m: MediaView)
    ensures
        m.encoding().len() == 24 + encode_utf8(m.url).len() + encode_utf8(m.name).len()
            + encode_utf8(m.description).len() + m.blob.len(),
{
    lemma_le_bytes_len(m.price as nat, 8);
    lemma_le_bytes_len(encode_utf8(m.url).len(), 4);
    lemma_le_bytes_len(encode_utf8(m.name).len(), 4);
    lemma_le_bytes_len(encode_utf8(m.description).len(), 4);
    lemma_le_bytes_len(m.blob.len(), 4);
}

/// Media fields that were read are what the bytes spell: the bytes read are
/// their image.
pub proof fn lemma_media_at_sound(bytes: Seq<u8>, at: int)
    requires
        media_at(bytes, at) is Some,
    ensures
        ({
            let (m, end) = media_at(bytes, at)->0;
            &&& m.fits()
            &&& end == at + m.encoding().len()
            &&& 0 <= at
            &&& end <= bytes.len()
            &&& bytes.subrange(at, end) == m.encoding()
        }),
{
    let (m, end) = media_at(bytes, at)->0;
    let after_price = at + 8;
    lemma_text_at_sound(bytes, after_price);
    let (_, after_url) = text_at(bytes, after_price)->0;
    lemma_text_at_sound(bytes, after_url);
    let (_, after_name) = text_at(bytes, after_url)->0;
    lemma_text_at_sound(bytes, after_name);
    let (_, after_description) = text_at(bytes, after_name)->0;
    lemma_field_at_sound(bytes, after_description);
    let price_bytes = bytes.subrange(at, after_price);
    lemma_le_value_bound(price_bytes);
    lemma_pow256_values();
    lemma_le_bytes_of_value(price_bytes);
    lemma_media_encoding_len(m);
    assert(bytes.subrange(at, end) =~= price_bytes + bytes.subrange(after_price, after_url)
        + bytes.subrange(after_url, after_name) + bytes.subrange(after_name, after_description)
        + bytes.subrange(after_description, end));
}

/// A media image is read back as the media fields, whatever follows it.
pub proof fn lemma_media_at_complete(bytes: Seq<u8>, at: int, m: MediaView)
    requires
        0 <= at,
        m.fits(),
        at + m.encoding().len() <= bytes.len(),
        bytes.subrange(at, at + m.encoding().len()) == m.encoding(),
    ensures
        media_at(bytes, at) == Some((m, at + m.encoding().len())),
{
    let image = m.encoding();
    let url = encode_utf8(m.url);
    let name = encode_utf8(m.name);
    let description = encode_utf8(m.description);
    lemma_media_encoding_len(m);
    lemma_le_bytes_len(m.price as nat, 8);
    lemma_le_bytes_len(url.len(), 4);
    lemma_le_bytes_len(name.len(), 4);
    lemma_le_bytes_len(description.len(), 4);
    lemma_le_bytes_len(m.blob.len(), 4);
    lemma_pow256_values();
    lemma_le_value_of_bytes(m.price as nat, 8);
    let after_price = at + 8;
    let after_url = after_price + 4 + url.len();
    let after_name = after_url + 4 + name.len();
    let after_description = after_name + 4 + description.len();
    let end = after_description + 4 + m.blob.len();
    assert(bytes.subrange(at, after_price) =~= image.subrange(0, 8));
    assert(image.subrange(0, 8) =~= le_bytes(m.price as nat, 8));
    assert(bytes.subrange(after_price, after_url) =~= image.subrange(8, after_url - at));
    assert(image.subrange(8, after_url - at) =~= prefixed(url));
    assert(bytes.subrange(after_url, after_name) =~= image.subrange(
        after_url - at,
        after_name - at,
    ));
    assert(image.subrange(after_url - at, after_name - at) =~= prefixed(name));
    assert(bytes.subrange(after_name, after_description) =~= image.subrange(
        after_name - at,
        after_description - at,
    ));
    assert(image.subrange(after_name - at, after_description - at) =~= prefixed(description));
    assert(bytes.subrange(after_description, end) =~= image.subrange(
        after_description - at,
        end - at,
    ));
    assert(image.subrange(after_description - at, end - at) =~= prefixed(m.blob));
    lemma_text_at_complete(bytes, after_price, m.url);
    lemma_text_at_complete(bytes, after_url, m.name);
    lemma_text_at_complete(bytes, after_name, m.description);
    lemma_field_at_complete(bytes, after_description, m.blob);
}

/// The error of `String::from_utf8`. Nothing is read from it.
#[verifier::external_type_specification]
#[verifier::external_body]
pub struct ExFromUtf8Error(std::string::FromUtf8Error);

/// `String::from_utf8` succeeds exactly on valid UTF-8, and the text it gives
/// is the one that the bytes encode.
pub assume_specification[ String::from_utf8 ](bytes: Vec<u8>) -> (text: Result<
    String,
    std::string::FromUtf8Error,
>)
    ensures
        text is Ok <==> valid_utf8(bytes@),
        text is Ok ==> text->Ok_0@ == decode_utf8(bytes@),
;

/// Appends `body` behind its length.
fn push_field(out: &mut Vec<u8>, body: &[u8])
    requires
        body@.len() <= MAX_FIELD_LEN,
    ensures
        final(out)@ == old(out)@ + prefixed(body@),
{
    let ghost before = out@;
    push_le(out, body.len() as u64, 4);
    append(out, body);
    assert(out@ =~= before + prefixed(body@));
}

/// Appends the image of the five media fields to `out`, or leaves `out` as it
/// is when one of them is too long for its length prefix.
pub(crate) fn encode_media(
    out: &mut Vec<u8>,
    price: u64,
    url: &str,
    name: &str,
    description: &str,
    blob: &[u8],
) -> (r: Result<(), ErrorKind>)
    ensures
        ({
            let m = MediaView {
                price,
                url: url@,
                name: name@,
                description: description@,
                blob: blob@,
            };
            match r {
                Ok(()) => m.fits() && final(out)@ == old(out)@ + m.encoding(),
                Err(e) => !m.fits() && e == ErrorKind::FieldTooLarge && final(out)@ == old(out)@,
            }
        }),
{
    let url_bytes = url.as_bytes();
    let name_bytes = name.as_bytes();
    let description_bytes = description.as_bytes();
    if url_bytes.len() as u64 > MAX_FIELD_LEN || name_bytes.len() as u64 > MAX_FIELD_LEN
        || description_bytes.len() as u64 > MAX_FIELD_LEN || blob.len() as u64 > MAX_FIELD_LEN {
        return Err(ErrorKind::FieldTooLarge);
    }
    let ghost before = out@;
    push_le(out, price, PRICE_LEN);
    push_field(out, url_bytes);
    push_field(out, name_bytes);
    push_field(out, description_bytes);
    push_field(out, blob);
    assert(out@ =~= before + (le_bytes(price as nat, 8) + prefixed(encode_utf8(url@)) + prefixed(
        encode_utf8(name@),
    ) + prefixed(encode_utf8(description@)) + prefixed(blob@)));
    Ok(())
}

/// Finds the length-prefixed field that starts at `at`: where its body starts
/// and where it ends.
fn decode_field(data: &[u8], at: usize) -> (r: Option<(usize, usize)>)
    ensures
        match r {
            Some((start, end)) => start == at + 4 && start <= end <= data.len() && field_at(
                data@,
                at as int,
            ) == Some((data@.subrange(start as int, end as int), end as int)),
            None => field_at(data@, at as int) is None,
        },
{
    let len = data.len();
    if at > len || len - at < 4 {
        return None;
    }
    let body_len = read_le(data, at, 4);
    let start = at + 4;
    if body_len > (len - start) as u64 {
        return None;
    }
    Some((start, start + body_len as usize))
}

/// Reads the length-prefixed text that starts at `at`.
fn decode_text(data: &[u8], at: usize) -> (r: Option<(String, usize)>)
    ensures
        match r {
            Some((text, end)) => end <= data.len() && text_at(data@, at as int) == Some(
                (text@, end as int),
            ),
            None => text_at(data@, at as int) is None,
        },
{
    match decode_field(data, at) {
        Some((start, end)) => {
            let body = slice_to_vec(slice_subrange(data, start, end));
            match String::from_utf8(body) {
                Ok(text) => Some((text, end)),
                Err(_) => None,
            }
        },
        None => None,
    }
}

/// Reads the media fields that start at `at`, with the offset just behind them.
pub(crate) fn decode_media(data: &[u8], at: usize) -> (r: Option<(Media, usize)>)
    ensures
        match r {
            Some((media, end)) => end <= data.len() && media_at(data@, at as int) == Some(
                (media@, end as int),
            ),
            None => media_at(data@, at as int) is None,
        },
{
    let len = data.len();
    if at > len || len - at < 8 {
        return None;
    }
    let price = read_le(data, at, PRICE_LEN);
    let (url, after_url) = match decode_text(data, at + 8) {
        Some(found) => found,
        None => { return None; },
    };
    let (name, after_name) = match decode_text(data, after_url) {
        Some(found) => found,
        None => { return None; },
    };
    let (description, after_description) = match decode_text(data, after_name) {
        Some(found) => found,
        None => { return None; },
    };
    let (start, end) = match decode_field(data, after_description) {
        Some(found) => found,
        None => { return None; },
    };
    let blob = slice_to_vec(slice_subrange(data, start, end));
    Some((Media { price, url, name, description, blob }, end))
}

} // verus!
