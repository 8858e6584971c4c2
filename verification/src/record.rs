//! The media record and its fixed byte layout.
//!
//! | field       | offset   | size  | encoding                     |
//! |-------------|----------|-------|------------------------------|
//! | owner       | 0        | 32    | raw identifier bytes         |
//! | initialized | 32       | 1     | 0 = false, 1 = true          |
//! | price       | 33       | 8     | little-endian unsigned       |
//! | url         | 41       | 4 + N | length prefix, then UTF-8    |
//! | name        | variable | 4 + N | length prefix, then UTF-8    |
//! | description | variable | 4 + N | length prefix, then UTF-8    |
//! | blob        | variable | 4 + N | length prefix, then raw bytes|

use crate::error::ErrorKind;
use crate::media::{
    decode_media, encode_media, lemma_media_at_complete, lemma_media_at_sound,
    lemma_media_encoding_len, media_at, Media, MediaView,
};
use crate::wire::{append, key_at, Pubkey};
use vstd::prelude::*;

verus! {

/// Offset of the initialization flag.
pub const FLAG_OFFSET: usize = 32;

/// Offset of the price, the first of the media fields.
pub const MEDIA_OFFSET: usize = 33;

/// One media record: who owns it, whether it has been created, and the media
/// fields.
#[derive(Clone, Debug, PartialEq, Eq)]
pub struct VideoNFT {
    pub owner: Pubkey,
    pub initialized: bool,
    pub price: u64,
    pub url: String,
    pub name: String,
    pub description: String,
    pub blob: Vec<u8>,
}

/// A [`VideoNFT`] as mathematical values.
pub struct VideoNFTView {
    pub owner: Seq<u8>,
    pub initialized: bool,
    pub price: u64,
    pub url: Seq<char>,
    pub name: Seq<char>,
    pub description: Seq<char>,
    pub blob: Seq<u8>,
}

impl View for VideoNFT {
    type V = VideoNFTView;

    open spec fn view(&self) -> VideoNFTView {
        VideoNFTView {
            owner: self.owner@,
            initialized: self.initialized,
            price: self.price,
            url: self.url@,
            name: self.name@,
            description: self.description@,
            blob: self.blob@,
        }
    }
}

/// The byte that stands for the initialization flag.
pub open spec fn flag_byte(initialized: bool) -> u8 {
    if initialized {
        1
    } else {
        0
    }
}

impl VideoNFTView {
    /// The media fields of the record.
    pub open spec fn media(self) -> MediaView {
        MediaView {
            price: self.price,
            url: self.url,
            name: self.name,
            description: self.description,
            blob: self.blob,
        }
    }

    /// The owner is a 32-byte identifier and every variable field is short
    /// enough for its length prefix.
    pub open spec fn well_formed(self) -> bool {
        self.owner.len() == 32 && self.media().fits()
    }

    /// The record's image: owner, flag, then the media fields.
    pub open spec fn encoding(self) -> Seq<u8> {
        self.owner + seq![flag_byte(self.initialized)] + self.media().encoding()
    }

    /// The record in another owner's hands.
    pub open spec fn with_owner(self, owner: Seq<u8>) -> VideoNFTView {
        VideoNFTView { owner, ..self }
    }

    /// The record once it has been created.
    pub open spec fn marked_initialized(self) -> VideoNFTView {
        VideoNFTView { initialized: true, ..self }
    }
}

/// `bytes` start with the image of the well-formed record `v`.
pub open spec fn holds(bytes: Seq<u8>, v: VideoNFTView) -> bool {
    v.well_formed() && v.encoding().is_prefix_of(bytes)
}

/// The record that `bytes` start with, if they start with one. What follows the
/// record's image is not part of it.
pub open spec fn stored_record(bytes: Seq<u8>) -> Option<VideoNFTView> {
    if exists|v: VideoNFTView| holds(bytes, v) {
        Some(choose|v: VideoNFTView| holds(bytes, v))
    } else {
        None
    }
}

/// The record read field by field from the start of `bytes`, with its length.
pub open spec fn record_at(bytes: Seq<u8>) -> Option<(VideoNFTView, int)> {
    if bytes.len() >= 33 && bytes[32] <= 1 {
        match media_at(bytes, 33) {
            Some((m, end)) => Some(
                (
                    VideoNFTView {
                        owner: bytes.subrange(0, 32),
                        initialized: bytes[32] == 1,
                        price: m.price,
                        url: m.url,
                        name: m.name,
                        description: m.description,
                        blob: m.blob,
                    },
                    end,
                ),
            ),
            None => None,
        }
    } else {
        None
    }
}

/// The length of a record's image, field by field.
pub proof fn lemma_encoding_len(v: VideoNFTView)
    requires
        v.owner.len() == 32,
    ensures
        v.encoding().len() == 33 + v.media().encoding().len(),
        v.encoding().len() >= 57,
        v.encoding()[32] == flag_byte(v.initialized),
        v.encoding().subrange(0, 32) == v.owner,
        v.encoding().subrange(33, v.encoding().len() as int) == v.media().encoding(),
{
    lemma_media_encoding_len(v.media());
    assert(v.encoding().subrange(0, 32) =~= v.owner);
    assert(v.encoding().subrange(33, v.encoding().len() as int) =~= v.media().encoding());
}

/// What was read field by field is a record that the bytes start with.
pub proof fn lemma_record_at_sound(bytes: Seq<u8>)
    requires
        record_at(bytes) is Some,
    ensures
        ({
            let (v, end) = record_at(bytes)->0;
            holds(bytes, v) && end == v.encoding().len()
        }),
{
    let (v, end) = record_at(bytes)->0;
    lemma_media_at_sound(bytes, 33);
    let (m, _) = media_at(bytes, 33)->0;
    assert(v.media() == m);
    lemma_encoding_len(v);
    assert(bytes.subrange(0, end) =~= bytes.subrange(0, 32) + seq![bytes[32]] + bytes.subrange(
        33,
        end,
    ));
}

/// A record that the bytes start with is read back field by field.
pub proof fn lemma_record_at_complete(bytes: Seq<u8>, v: VideoNFTView)
    requires
        holds(bytes, v),
    ensures
        record_at(bytes) == Some((v, v.encoding().len() as int)),
{
    let image = v.encoding();
    lemma_encoding_len(v);
    assert(bytes[32] == image[32]);
    assert(bytes.subrange(0, 32) =~= image.subrange(0, 32));
    assert(bytes.subrange(33, image.len() as int) =~= image.subrange(33, image.len() as int));
    lemma_media_at_complete(bytes, 33, v.media());
    let (found, _) = record_at(bytes)->0;
    assert(found.owner =~= v.owner);
    assert(found == v);
}

/// At most one record starts a byte string.
pub proof fn lemma_holds_unique(bytes: Seq<u8>, a: VideoNFTView, b: VideoNFTView)
    requires
        holds(bytes, a),
        holds(bytes, b),
    ensures
        a == b,
{
    lemma_record_at_complete(bytes, a);
    lemma_record_at_complete(bytes, b);
}

/// No two well-formed records have the same image.
pub proof fn lemma_encoding_injective(a: VideoNFTView, b: VideoNFTView)
    requires
        a.well_formed(),
        b.well_formed(),
        a.encoding() == b.encoding(),
    ensures
        a == b,
{
    let bytes = a.encoding();
    assert(bytes.subrange(0, bytes.len() as int) =~= bytes);
    lemma_holds_unique(bytes, a, b);
}

/// The stored record is the one read field by field.
pub proof fn lemma_stored_record(bytes: Seq<u8>)
    ensures
        stored_record(bytes) == match record_at(bytes) {
            Some((v, end)) => Some(v),
            None => None,
        },
        record_at(bytes) matches Some((v, end)) ==> holds(bytes, v) && end == v.encoding().len(),
{
    if record_at(bytes) is Some {
        lemma_record_at_sound(bytes);
        let (v, end) = record_at(bytes)->0;
        let chosen = choose|w: VideoNFTView| holds(bytes, w);
        lemma_holds_unique(bytes, v, chosen);
    } else {
        if exists|w: VideoNFTView| holds(bytes, w) {
            let w = choose|w: VideoNFTView| holds(bytes, w);
            lemma_record_at_complete(bytes, w);
        }
    }
}

/// Decoding inverts encoding: the image of a well-formed record, with anything
/// behind it, holds that record and no other.
pub proof fn lemma_decode_encode(v: VideoNFTView, tail: Seq<u8>)
    requires
        v.well_formed(),
    ensures
        stored_record(v.encoding() + tail) == Some(v),
        stored_record(v.encoding()) == Some(v),
{
    let bytes = v.encoding() + tail;
    assert(bytes.subrange(0, v.encoding().len() as int) =~= v.encoding());
    lemma_record_at_complete(bytes, v);
    lemma_stored_record(bytes);
    assert(v.encoding().subrange(0, v.encoding().len() as int) =~= v.encoding());
    lemma_record_at_complete(v.encoding(), v);
    lemma_stored_record(v.encoding());
}

/// Encoding inverts decoding: the record that a byte string holds has the
/// string's first bytes as its image.
pub proof fn lemma_encode_decode(bytes: Seq<u8>)
    requires
        stored_record(bytes) is Some,
    ensures
        ({
            let v = stored_record(bytes)->0;
            &&& v.well_formed()
            &&& v.encoding().len() <= bytes.len()
            &&& bytes.subrange(0, v.encoding().len() as int) == v.encoding()
        }),
{
    lemma_stored_record(bytes);
}

/// The record's image: owner (32 bytes), flag (1 byte), price (8 bytes,
/// little-endian), then url, name, description and blob, each behind a 4-byte
/// little-endian length. Fails with `FieldTooLarge` exactly when a variable
/// field is longer than its length prefix can say.
pub fn encode(video_nft: &VideoNFT) -> (r: Result<Vec<u8>, ErrorKind>)
    ensures
        match r {
            Ok(bytes) => video_nft@.well_formed() && bytes@ == video_nft@.encoding(),
            Err(e) => e == ErrorKind::FieldTooLarge && !video_nft@.well_formed(),
        },
{
    let mut out: Vec<u8> = Vec::new();
    append(&mut out, video_nft.owner.as_slice());
    out.push(if video_nft.initialized { 1u8 } else { 0u8 });
    assert(out@ =~= video_nft@.owner + seq![flag_byte(video_nft.initialized)]);
    match encode_media(
        &mut out,
        video_nft.price,
        video_nft.url.as_str(),
        video_nft.name.as_str(),
        video_nft.description.as_str(),
        video_nft.blob.as_slice(),
    ) {
        Ok(()) => Ok(out),
        Err(e) => Err(e),
    }
}

/// Reads the record that `bytes` start with and says how many bytes its image
/// takes. Fails with `MalformedRecord` exactly when `bytes` start with no
/// record: they are too short, the flag is neither 0 nor 1, a length prefix
/// reaches past the end, or a text is not UTF-8.
pub fn decode_prefix(bytes: &[u8]) -> (r: Result<(VideoNFT, usize), ErrorKind>)
    ensures
        match r {
            Ok((video_nft, len)) => stored_record(bytes@) == Some(video_nft@) && len
                == video_nft@.encoding().len() && len <= bytes.len(),
            Err(e) => e == ErrorKind::MalformedRecord && stored_record(bytes@) is None,
        },
{
    proof {
        lemma_stored_record(bytes@);
    }
    if bytes.len() < MEDIA_OFFSET {
        return Err(ErrorKind::MalformedRecord);
    }
    let flag = bytes[FLAG_OFFSET];
    if flag > 1 {
        return Err(ErrorKind::MalformedRecord);
    }
    match decode_media(bytes, MEDIA_OFFSET) {
        Some((media, end)) => {
            let Media { price, url, name, description, blob } = media;
            let video_nft = VideoNFT {
                owner: key_at(bytes, 0),
                initialized: flag == 1,
                price,
                url,
                name,
                description,
                blob,
            };
            proof {
                let (found, _) = record_at(bytes@)->0;
                assert(video_nft@ == found);
            }
            Ok((video_nft, end))
        },
        None => Err(ErrorKind::MalformedRecord),
    }
}

/// Reads the record whose image is exactly `bytes`. Fails with
/// `MalformedRecord` exactly when `bytes` are no record's image: they start
/// with no record, or bytes are left over behind it.
pub fn decode(bytes: &[u8]) -> (r: Result<VideoNFT, ErrorKind>)
    ensures
        match r {
            Ok(video_nft) => video_nft@.well_formed() && video_nft@.encoding() == bytes@,
            Err(e) => e == ErrorKind::MalformedRecord && forall|v: VideoNFTView|
                v.well_formed() ==> #[trigger] v.encoding() != bytes@,
        },
{
    proof {
        lemma_stored_record(bytes@);
    }
    match decode_prefix(bytes) {
        Ok((video_nft, len)) => {
            if len == bytes.len() {
                assert(bytes@.subrange(0, len as int) =~= bytes@);
                Ok(video_nft)
            } else {
                assert forall|v: VideoNFTView| v.well_formed() implies #[trigger] v.encoding()
                    != bytes@ by {
                    if v.encoding() == bytes@ {
                        assert(bytes@.subrange(0, bytes@.len() as int) =~= bytes@);
                        lemma_holds_unique(bytes@, v, video_nft@);
                    }
                }
                Err(ErrorKind::MalformedRecord)
            }
        },
        Err(e) => {
            assert forall|v: VideoNFTView| v.well_formed() implies #[trigger] v.encoding()
                != bytes@ by {
                if v.encoding() == bytes@ {
                    assert(bytes@.subrange(0, bytes@.len() as int) =~= bytes@);
                    assert(holds(bytes@, v));
                }
            }
            Err(e)
        },
    }
}

} // verus!
