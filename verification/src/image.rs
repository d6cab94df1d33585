//! Installation and template images.
//!
//! An image is a record naming a file that every node that may host a
//! referencing machine can read; the installer flag marks media that boot
//! the installer from a CD-ROM device.

use vstd::prelude::*;
use vstd::utf8::encode_utf8;
use crate::codec::{id_field, str_field, bool_field, take_id, take_str, take_bool,
    lemma_take_id, lemma_take_str, lemma_take_bool, lemma_take_str_len,
    enc_id, enc_str, enc_bool, dec_id, dec_str, dec_bool};
use crate::ids::fresh_id;
use crate::cluster::catalog::{Catalog, Kind, EntryV, find_value, spec_insert,
    spec_remove, ids_of};

verus! {

/// The specification-level value of an image record.
pub ghost struct ImageView {
    pub id: u128,
    pub installer: bool,
    pub filename: Seq<char>,
}

impl ImageView {
    /// Wire limits: the filename fits its length field.
    pub open spec fn wf(&self) -> bool {
        encode_utf8(self.filename).len() < 0x100000000
    }
}

/// An image record.
pub struct Image {
    id: u128,
    installer: bool,
    filename: String,
}

impl View for Image {
    type V = ImageView;

    closed spec fn view(&self) -> ImageView {
        ImageView {
            id: self.id,
            installer: self.installer,
            filename: self.filename@,
        }
    }
}

/// The version tag of the image record encoding.
pub const IMAGE_VERSION: u8 = 1;

/// The byte encoding of an image record: version, identifier, installer
/// flag, filename.
pub open spec fn image_bytes(v: ImageView) -> Seq<u8> {
    seq![IMAGE_VERSION] + id_field(v.id) + bool_field(v.installer)
        + str_field(v.filename)
}

/// Reads an image record from the front of `buf`.
pub open spec fn take_image(buf: Seq<u8>) -> Option<(ImageView, Seq<u8>)> {
    if buf.len() < 1 || buf[0] != IMAGE_VERSION {
        None
    } else {
        match take_id(buf.skip(1)) {
            Some((id, b1)) => match take_bool(b1) {
                Some((installer, b2)) => match take_str(b2) {
                    Some((filename, rest)) => Some((
                        ImageView { id, installer, filename },
                        rest,
                    )),
                    None => None,
                },
                None => None,
            },
            None => None,
        }
    }
}

/// The record denoted by a full buffer, which must hold nothing else.
pub open spec fn spec_decode_image(buf: Seq<u8>) -> Option<ImageView> {
    match take_image(buf) {
        Some((v, rest)) => if rest.len() == 0 {
            Some(v)
        } else {
            None
        },
        None => None,
    }
}

/// Reading the encoding of an image record yields the record back.
pub proof fn lemma_take_image(v: ImageView, rest: Seq<u8>)
    requires
        v.wf(),
    ensures
        take_image(image_bytes(v) + rest) == Some((v, rest)),
{
    let buf = image_bytes(v) + rest;
    let t2 = str_field(v.filename) + rest;
    let t1 = bool_field(v.installer) + t2;
    assert(buf[0] == IMAGE_VERSION);
    assert(buf.skip(1) =~= id_field(v.id) + t1);
    lemma_take_id(v.id, t1);
    lemma_take_bool(v.installer, t2);
    lemma_take_str(v.filename, rest);
}

/// Serialization round trip: decoding the encoding of an image record
/// yields an equal record.
pub proof fn lemma_image_round_trip(v: ImageView)
    requires
        v.wf(),
    ensures
        spec_decode_image(image_bytes(v)) == Some(v),
{
    lemma_take_image(v, Seq::empty());
    assert(image_bytes(v) + Seq::<u8>::empty() =~= image_bytes(v));
}

/// What an image read from the store denotes.
pub open spec fn spec_get_image(cat: Seq<EntryV>, id: u128) -> Option<ImageView> {
    match find_value(cat, Kind::Image, id) {
        Some(bytes) => spec_decode_image(bytes),
        None => None,
    }
}

impl Image {
    /// Records an image under a freshly drawn identifier.
    pub fn new(filename: String, installer: bool, store: &mut Catalog) -> (r: Image)
        requires
            encode_utf8(filename@).len() < 0x100000000,
        ensures
            r@.installer == installer,
            r@.filename == filename@,
            r@.wf(),
            final(store)@ == spec_insert(old(store)@, Kind::Image, r@.id,
                image_bytes(r@)),
    {
        let image = Image { id: fresh_id(), installer, filename };
        let bytes = image.encode();
        store.insert(Kind::Image, image.id, bytes);
        image
    }

    /// The image's identifier.
    pub fn get_id(&self) -> (r: u128)
        ensures
            r == self@.id,
    {
        self.id
    }

    /// The image file's path.
    pub fn get_filename(&self) -> (r: String)
        ensures
            r@ == self@.filename,
    {
        self.filename.clone()
    }

    /// Whether the image boots an installer.
    pub fn is_installer(&self) -> (r: bool)
        ensures
            r == self@.installer,
    {
        self.installer
    }

    /// Encodes the record for the store.
    pub fn encode(&self) -> (r: Vec<u8>)
        requires
            self@.wf(),
        ensures
            r@ == image_bytes(self@),
    {
        let mut out: Vec<u8> = Vec::new();
        out.push(IMAGE_VERSION);
        enc_id(&mut out, self.id);
        enc_bool(&mut out, self.installer);
        enc_str(&mut out, &self.filename);
        proof {
            assert(out@ =~= image_bytes(self@));
        }
        out
    }

    /// Decodes a record; returns `None` on any text that is not exactly
    /// the encoding of one image record.
    pub fn decode(buf: &Vec<u8>) -> (r: Option<Image>)
        ensures
            match r {
                Some(v) => spec_decode_image(buf@) == Some(v@) && v@.wf(),
                None => spec_decode_image(buf@) is None,
            },
    {
        if buf.len() < 1 {
            return None;
        }
        if buf[0] != IMAGE_VERSION {
            proof {
                assert(buf@[0] != IMAGE_VERSION);
            }
            return None;
        }
        let r1 = dec_id(buf, 1);
        let (id, p1) = match r1 {
            Some(x) => x,
            None => {
                return None;
            }
        };
        let r2 = dec_bool(buf, p1);
        let (installer, p2) = match r2 {
            Some(x) => x,
            None => {
                return None;
            }
        };
        let r3 = dec_str(buf, p2);
        let (filename, p3) = match r3 {
            Some(x) => x,
            None => {
                return None;
            }
        };
        if p3 != buf.len() {
            proof {
                assert(buf@.skip(p3 as int).len() > 0);
            }
            return None;
        }
        proof {
            assert(buf@.skip(p3 as int).len() == 0);
            lemma_take_str_len(buf@.skip(p2 as int));
        }
        Some(Image { id, installer, filename })
    }

    /// Reads one image record by identifier.
    pub fn get(id: u128, store: &Catalog) -> (r: Option<Image>)
        ensures
            match r {
                Some(v) => spec_get_image(store@, id) == Some(v@) && v@.wf(),
                None => spec_get_image(store@, id) is None,
            },
    {
        match store.get(Kind::Image, id) {
            Some(bytes) => Image::decode(bytes),
            None => None,
        }
    }

    /// Lists every image's identifier, in store order.
    pub fn list(store: &Catalog) -> (r: Vec<u128>)
        ensures
            r@ == ids_of(store@, Kind::Image),
    {
        store.list_ids(Kind::Image)
    }

    /// Deletes an image record; a missing record is not an error.
    pub fn delete_by_id(id: u128, store: &mut Catalog)
        ensures
            final(store)@ == spec_remove(old(store)@, Kind::Image, id),
    {
        store.remove(Kind::Image, id);
    }

    /// Deletes this image's record.
    pub fn delete(self, store: &mut Catalog)
        ensures
            final(store)@ == spec_remove(old(store)@, Kind::Image, self@.id),
    {
        store.remove(Kind::Image, self.id);
    }
}

} // verus!
