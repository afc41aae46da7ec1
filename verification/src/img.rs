//! A carrier image and the sub-image that is put into it or taken out of it.

use crate::error::{EmbedError, ExtractError};
use crate::header::{
    bytes_to_size, lemma_size_prefix, lemma_size_round_trip, size_bytes, size_to_bytes,
    size_value, ByteOrder,
};
use crate::lanes::{
    capacity, colours, lanes, lemma_capacity, lemma_overwritten_alpha, lemma_overwritten_lanes,
    lemma_opaque_no_slots, lemma_tiled_alpha, opaque, overwritten,
    pixel_count, same_alpha, slot_count, tiled,
};
use crate::scan::{count_slots, read_lanes, set_opaque, strip_alpha, tile_lanes, write_lanes};
use vstd::prelude::*;

verus! {

/// Width and height of an image, in pixels.
pub type Size = (u32, u32);

/// How the pixels of a sub-image are laid out in its byte buffer.
#[derive(Clone, Copy, Debug, PartialEq, Eq, Structural)]
pub enum PixelFormat {
    /// Red, green, blue: three bytes for each pixel.
    Rgb8,
    /// Red, green, blue, alpha: four bytes for each pixel.
    Rgba8,
}

impl PixelFormat {
    /// The number of bytes that one pixel takes.
    pub open spec fn channels(self) -> int {
        match self {
            PixelFormat::Rgb8 => 3,
            PixelFormat::Rgba8 => 4,
        }
    }

    /// The number of bytes that one pixel takes.
    pub fn bytes_per_pixel(self) -> (n: usize)
        ensures
            n == self.channels(),
    {
        match self {
            PixelFormat::Rgb8 => 3,
            PixelFormat::Rgba8 => 4,
        }
    }
}

/// What the caller asked for.
#[derive(Clone, Copy, Debug, PartialEq, Eq, Structural)]
pub struct Options {
    /// Repeat the sub-image over all slots, without a header, in place of
    /// embedding it once.
    pub fill: bool,
    /// Report how many slots the carrier has.
    pub report_capacity: bool,
    /// Write the carrier out without its alpha channel where the output
    /// format allows it.
    pub drop_alpha_on_output: bool,
    /// Make every pixel of the carrier opaque before it is written out.
    pub force_opaque: bool,
}

/// The byte stream that stands for a sub-image: its header, then its pixels.
pub open spec fn embed_stream(order: ByteOrder, size: Size, pixels: Seq<u8>) -> Seq<u8> {
    size_bytes(order, size.0, size.1) + pixels
}

/// The number of pixel bytes that a header with these dimensions announces.
pub open spec fn announced_len(size: Size, format: PixelFormat) -> int {
    size.0 * size.1 * format.channels()
}

/// What extraction finds in a carrier: the dimensions in the header and the
/// pixel bytes that follow it, or the reason why there is no sub-image.
///
/// The announced length must be more than the eight bytes of a header and
/// must fit in `usize`.
pub open spec fn extracted(order: ByteOrder, data: Seq<u8>, format: PixelFormat) -> Result<
    (Size, Seq<u8>),
    ExtractError,
> {
    let stream = lanes(data);
    let size = size_value(order, stream);
    let len = announced_len(size, format);
    if stream.len() < 8 {
        Err(ExtractError::TruncatedHeader)
    } else if len <= 8 || len > usize::MAX {
        Err(ExtractError::MalformedHeader)
    } else if stream.len() < 8 + len {
        Err(ExtractError::TruncatedPayload)
    } else {
        Ok((size, stream.subrange(8, 8 + len)))
    }
}

/// The number of pixel bytes that a header with these dimensions announces,
/// where that number fits in `usize`.
pub fn payload_len(width: u32, height: u32, format: PixelFormat) -> (len: Option<usize>)
    ensures
        len == if announced_len((width, height), format) <= usize::MAX {
            Some(announced_len((width, height), format) as usize)
        } else {
            None
        },
{
    let channels = format.bytes_per_pixel();
    assert(width * height <= 0xffff_ffff * 0xffff_ffff) by (nonlinear_arith)
        requires
            width <= 0xffff_ffff,
            height <= 0xffff_ffff,
    ;
    let area: u64 = (width as u64) * (height as u64);
    assert(area * channels <= 0xffff_ffff_ffff_ffff * 4) by (nonlinear_arith)
        requires
            area <= 0xffff_ffff_ffff_ffff,
            channels <= 4,
    ;
    let wide: u128 = (area as u128) * (channels as u128);
    if wide <= usize::MAX as u128 {
        Some(wide as usize)
    } else {
        None
    }
}

/// A carrier image with the sub-image that belongs to it.
#[derive(Debug)]
pub struct ImgInImg {
    basic_img_data: Vec<u8>,
    basic_img_size: Size,
    other_img_data: Vec<u8>,
    other_img_size: Size,
    byte_order: ByteOrder,
}

impl ImgInImg {
    /// The RGBA bytes of the carrier.
    pub closed spec fn carrier(&self) -> Seq<u8> {
        self.basic_img_data@
    }

    /// The dimensions of the carrier.
    pub closed spec fn carrier_size(&self) -> Size {
        self.basic_img_size
    }

    /// The pixel bytes of the sub-image.
    pub closed spec fn sub_image(&self) -> Seq<u8> {
        self.other_img_data@
    }

    /// The dimensions of the sub-image.
    pub closed spec fn sub_image_size(&self) -> Size {
        self.other_img_size
    }

    /// The byte order in which this value writes and reads headers.
    pub closed spec fn order(&self) -> ByteOrder {
        self.byte_order
    }

    /// The carrier holds four bytes for each of its pixels.
    pub open spec fn wf(&self) -> bool {
        self.carrier().len() == 4 * self.carrier_size().0 * self.carrier_size().1
    }

    /// Takes a decoded image as the carrier. The sub-image starts empty.
    ///
    /// An image without an alpha channel has no transparent pixels to offer
    /// and is refused.
    pub fn new(data: Vec<u8>, size: Size, has_alpha: bool, order: ByteOrder) -> (r: Result<
        ImgInImg,
        EmbedError,
    >)
        requires
            data@.len() == 4 * size.0 * size.1,
        ensures
            has_alpha ==> r is Ok,
            !has_alpha ==> r == Err::<ImgInImg, EmbedError>(EmbedError::UnsupportedCarrier),
            r matches Ok(img) ==> {
                &&& img.wf()
                &&& img.carrier() == data@
                &&& img.carrier_size() == size
                &&& img.sub_image() == Seq::<u8>::empty()
                &&& img.sub_image_size() == (0u32, 0u32)
                &&& img.order() == order
            },
    {
        if has_alpha {
            Ok(
                ImgInImg {
                    basic_img_data: data,
                    basic_img_size: size,
                    other_img_data: Vec::new(),
                    other_img_size: (0, 0),
                    byte_order: order,
                },
            )
        } else {
            Err(EmbedError::UnsupportedCarrier)
        }
    }

    /// The RGBA bytes of the carrier.
    pub fn basic_img_data(&self) -> (data: &Vec<u8>)
        ensures
            data@ == self.carrier(),
    {
        &self.basic_img_data
    }

    /// The dimensions of the carrier.
    pub fn basic_img_size(&self) -> (size: Size)
        ensures
            size == self.carrier_size(),
    {
        self.basic_img_size
    }

    /// The pixel bytes of the sub-image.
    pub fn other_img_data(&self) -> (data: &Vec<u8>)
        ensures
            data@ == self.sub_image(),
    {
        &self.other_img_data
    }

    /// The dimensions of the sub-image.
    pub fn other_img_size(&self) -> (size: Size)
        ensures
            size == self.sub_image_size(),
    {
        self.other_img_size
    }

    /// The byte order in which this value writes and reads headers.
    pub fn byte_order(&self) -> (order: ByteOrder)
        ensures
            order == self.order(),
    {
        self.byte_order
    }

    /// The header of the sub-image: its width and height as eight bytes.
    pub fn size_to_bytes(&self) -> (bytes: [u8; 8])
        ensures
            bytes@ == size_bytes(self.order(), self.sub_image_size().0, self.sub_image_size().1),
    {
        size_to_bytes(self.byte_order, self.other_img_size.0, self.other_img_size.1)
    }

    /// The colour bytes of the carrier, three for each pixel.
    pub fn rgba_to_rgb(&self) -> (rgb: Vec<u8>)
        ensures
            rgb@ == colours(self.carrier()),
    {
        strip_alpha(self.basic_img_data.as_slice())
    }

    /// The number of fully transparent pixels of the carrier, where the
    /// caller asked for it.
    pub fn available_pixels(&self, options: &Options) -> (count: Option<usize>)
        ensures
            options.report_capacity ==> count == Some(slot_count(self.carrier()) as usize),
            options.report_capacity ==> slot_count(self.carrier()) <= usize::MAX,
            !options.report_capacity ==> count.is_none(),
    {
        if options.report_capacity {
            Some(count_slots(self.basic_img_data.as_slice()))
        } else {
            None
        }
    }

    /// Takes a decoded image as the sub-image to embed.
    pub fn set_other_image(&mut self, data: Vec<u8>, size: Size)
        ensures
            final(self).sub_image() == data@,
            final(self).sub_image_size() == size,
            final(self).carrier() == old(self).carrier(),
            final(self).carrier_size() == old(self).carrier_size(),
            final(self).order() == old(self).order(),
    {
        self.other_img_data = data;
        self.other_img_size = size;
    }

    /// Writes the sub-image into the slots of the carrier.
    ///
    /// The header and the pixel bytes of the sub-image go, in this order,
    /// over the first lanes of the carrier. Where the slots offer too few
    /// bytes the call fails and the carrier is left as it was.
    ///
    /// With `options.fill` the pixel bytes alone are repeated over all lanes,
    /// which cannot fail.
    ///
    /// Alpha bytes are never written: the carrier has the same slots after
    /// the call as before.
    pub fn merge_img_datas(&mut self, options: &Options) -> (r: Result<(), EmbedError>)
        ensures
            final(self).carrier_size() == old(self).carrier_size(),
            final(self).sub_image() == old(self).sub_image(),
            final(self).sub_image_size() == old(self).sub_image_size(),
            final(self).order() == old(self).order(),
            old(self).wf() ==> final(self).wf(),
            same_alpha(old(self).carrier(), final(self).carrier()),
            slot_count(final(self).carrier()) == slot_count(old(self).carrier()),
            options.fill ==> r is Ok && final(self).carrier() == tiled(
                old(self).carrier(),
                old(self).sub_image(),
            ),
            !options.fill ==> {
                let stream = embed_stream(
                    old(self).order(),
                    old(self).sub_image_size(),
                    old(self).sub_image(),
                );
                if stream.len() <= capacity(old(self).carrier()) {
                    r is Ok && final(self).carrier() == overwritten(old(self).carrier(), stream)
                } else {
                    r == Err::<(), EmbedError>(EmbedError::InsufficientCapacity)
                        && final(self).carrier() == old(self).carrier()
                }
            },
    {
        let ghost before = self.basic_img_data@;
        if options.fill {
            tile_lanes(&mut self.basic_img_data, self.other_img_data.as_slice());
            proof {
                lemma_tiled_alpha(before, self.other_img_data@);
            }
            return Ok(());
        }
        let header = self.size_to_bytes();
        let count = count_slots(self.basic_img_data.as_slice());
        let room = 3 * count;
        if room < 8 || room - 8 < self.other_img_data.len() {
            return Err(EmbedError::InsufficientCapacity);
        }
        write_lanes(
            &mut self.basic_img_data,
            header.as_slice(),
            self.other_img_data.as_slice(),
        );
        proof {
            lemma_overwritten_alpha(before, header@ + self.other_img_data@);
        }
        Ok(())
    }

    /// Reads the sub-image back out of the slots of the carrier.
    ///
    /// The first eight lanes are the header. The pixel bytes follow it, as
    /// many as the dimensions in the header announce for `format`. The
    /// carrier is not changed. Once a header has been read its dimensions
    /// become the dimensions of the sub-image, also where the call then
    /// fails.
    pub fn detach_img_data(&mut self, format: PixelFormat) -> (r: Result<Vec<u8>, ExtractError>)
        ensures
            final(self).carrier() == old(self).carrier(),
            final(self).carrier_size() == old(self).carrier_size(),
            final(self).sub_image() == old(self).sub_image(),
            final(self).order() == old(self).order(),
            final(self).sub_image_size() == if lanes(old(self).carrier()).len() < 8 {
                old(self).sub_image_size()
            } else {
                size_value(old(self).order(), lanes(old(self).carrier()))
            },
            match extracted(old(self).order(), old(self).carrier(), format) {
                Ok((size, pixels)) => r is Ok && r.unwrap()@ == pixels,
                Err(e) => r == Err::<Vec<u8>, ExtractError>(e),
            },
    {
        let ghost stream = lanes(self.basic_img_data@);
        let head = read_lanes(self.basic_img_data.as_slice(), 8);
        let (width, height) = match bytes_to_size(self.byte_order, head.as_slice()) {
            Ok(size) => size,
            Err(e) => {
                return Err(e);
            },
        };
        proof {
            assert(head@ =~= stream.take(8));
            lemma_size_prefix(self.byte_order, stream, head@);
        }
        self.other_img_size = (width, height);
        let len = match payload_len(width, height, format) {
            Some(len) => len,
            None => {
                return Err(ExtractError::MalformedHeader);
            },
        };
        if len <= 8 {
            return Err(ExtractError::MalformedHeader);
        }
        let total = self.basic_img_data.len();
        if total < 8 || len > total - 8 {
            proof {
                lemma_capacity(self.basic_img_data@);
            }
            return Err(ExtractError::TruncatedPayload);
        }
        let mut all = read_lanes(self.basic_img_data.as_slice(), 8 + len);
        if all.len() < 8 + len {
            return Err(ExtractError::TruncatedPayload);
        }
        let pixels = all.split_off(8);
        assert(pixels@ =~= stream.subrange(8, 8 + len));
        Ok(pixels)
    }

    /// Makes every pixel of the carrier opaque. No slot is left after this.
    pub fn force_opaque(&mut self)
        ensures
            final(self).carrier() == opaque(old(self).carrier()),
            slot_count(final(self).carrier()) == 0,
            final(self).carrier_size() == old(self).carrier_size(),
            final(self).sub_image() == old(self).sub_image(),
            final(self).sub_image_size() == old(self).sub_image_size(),
            final(self).order() == old(self).order(),
            old(self).wf() ==> final(self).wf(),
    {
        proof {
            lemma_opaque_no_slots(self.basic_img_data@, pixel_count(self.basic_img_data@));
        }
        set_opaque(&mut self.basic_img_data);
    }
}

/// A sub-image that was embedded is extracted unchanged.
///
/// Take any carrier and any sub-image whose buffer has the length that its
/// dimensions give for `format`, more than the eight bytes of a header and
/// no more than `usize` can count, and which fits, header included, in the
/// slots of the carrier. Writing its stream over the
/// lanes and then extracting, with the same byte order and format, gives
/// back the same dimensions and the same pixel bytes.
pub proof fn lemma_embed_then_extract(
    order: ByteOrder,
    data: Seq<u8>,
    size: Size,
    pixels: Seq<u8>,
    format: PixelFormat,
)
    requires
        pixels.len() == announced_len(size, format),
        8 < pixels.len() <= usize::MAX,
        embed_stream(order, size, pixels).len() <= capacity(data),
    ensures
        extracted(order, overwritten(data, embed_stream(order, size, pixels)), format) == Ok::<
            (Size, Seq<u8>),
            ExtractError,
        >((size, pixels)),
{
    let header = size_bytes(order, size.0, size.1);
    let stream = header + pixels;
    let after = overwritten(data, stream);
    lemma_capacity(data);
    lemma_size_round_trip(order, size.0, size.1);
    lemma_overwritten_lanes(data, stream);
    let found = lanes(after);
    assert(found.len() == lanes(data).len());
    assert(found.take(8) =~= header);
    lemma_size_prefix(order, found, header);
    assert(found.subrange(8, 8 + pixels.len() as int) =~= pixels);
}

/// Embedding changes no alpha byte: the carrier offers as many slots after
/// it as before, whatever was written.
pub proof fn lemma_embed_keeps_slots(data: Seq<u8>, stream: Seq<u8>)
    ensures
        slot_count(overwritten(data, stream)) == slot_count(data),
        capacity(overwritten(data, stream)) == capacity(data),
{
    lemma_overwritten_alpha(data, stream);
}

} // verus!
