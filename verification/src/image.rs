use vstd::prelude::*;

use crate::arrow::builder::ArrowDataBuilder;
use crate::arrow::consumer::ArrowDataConsumer;
use crate::arrow::viewer::ArrowDataViewer;
use crate::arrow::{ArrowData, ColumnModel, ColumnType, FieldModel, spec_field, spec_has_field};
use crate::buffer::Buffer;
use crate::error::Error;
use vstd::string::StringExecFns;

verus! {

/// The pixel layout an image's flat byte buffer uses.
#[derive(Debug, Clone, Copy, PartialEq, Eq, Structural)]
pub enum Encoding {
    RGB8,
    BGR8,
    GRAY8,
}

impl Encoding {
    /// The canonical tag string written into a wire record.
    pub open spec fn spec_name(&self) -> Seq<char> {
        match self {
            Encoding::RGB8 => "RGB8"@,
            Encoding::BGR8 => "BGR8"@,
            Encoding::GRAY8 => "GRAY8"@,
        }
    }

    /// The number of bytes one pixel occupies.
    pub open spec fn spec_channels(&self) -> int {
        match self {
            Encoding::RGB8 => 3,
            Encoding::BGR8 => 3,
            Encoding::GRAY8 => 1,
        }
    }

    /// Exec counterpart of [`Self::spec_name`].
    pub fn as_str(&self) -> (r: &'static str)
        ensures
            r@ == self.spec_name(),
    {
        match self {
            Encoding::RGB8 => "RGB8",
            Encoding::BGR8 => "BGR8",
            Encoding::GRAY8 => "GRAY8",
        }
    }

    /// Exec counterpart of [`Self::spec_channels`].
    pub fn channels(&self) -> (r: u32)
        ensures
            r as int == self.spec_channels(),
    {
        match self {
            Encoding::RGB8 => 3,
            Encoding::BGR8 => 3,
            Encoding::GRAY8 => 1,
        }
    }

    /// Parses a decode-time tag. Succeeds exactly on the three
    /// canonical tag strings; any other tag leaves the record
    /// malformed.
    pub fn from_string(encoding: String) -> (r: Result<Encoding, Error>)
        ensures
            r matches Ok(_) <==> (encoding@ == "RGB8"@ || encoding@ == "BGR8"@ || encoding@
                == "GRAY8"@),
            r matches Ok(e) ==> e.spec_name() == encoding@,
            r matches Err(e) ==> e == Error::MalformedRecord,
    {
        let rgb8 = String::from_str("RGB8");
        let bgr8 = String::from_str("BGR8");
        let gray8 = String::from_str("GRAY8");
        if encoding == rgb8 {
            Ok(Encoding::RGB8)
        } else if encoding == bgr8 {
            Ok(Encoding::BGR8)
        } else if encoding == gray8 {
            Ok(Encoding::GRAY8)
        } else {
            Err(Error::MalformedRecord)
        }
    }
}

/// The mathematical content of an image.
pub struct ImageModel {
    pub data: Seq<u8>,
    pub width: u32,
    pub height: u32,
    pub encoding: Encoding,
    pub name: Option<Seq<char>>,
}

impl ImageModel {
    /// Structural validity: the pixel buffer holds exactly
    /// `width * height * channels` bytes.
    pub open spec fn wf(&self) -> bool {
        self.data.len() == self.width * self.height * self.encoding.spec_channels()
    }
}

/// An image: a flat pixel buffer, its shape, its pixel encoding and an
/// optional name. The buffer is owned or a zero-copy view of a wire
/// record; the first mutation of a view pays for one copy.
#[derive(Debug)]
pub struct Image {
    pub data: Buffer<u8>,
    pub width: u32,
    pub height: u32,
    pub encoding: Encoding,
    pub name: Option<String>,
}

impl View for Image {
    type V = ImageModel;

    open spec fn view(&self) -> ImageModel {
        ImageModel {
            data: self.data@,
            width: self.width,
            height: self.height,
            encoding: self.encoding,
            name: match self.name {
                Some(s) => Some(s@),
                None => None,
            },
        }
    }
}

/// The pixel byte sequence with the first and third byte of every
/// triple exchanged.
pub open spec fn spec_swap_rb(s: Seq<u8>) -> Seq<u8> {
    Seq::new(
        s.len(),
        |i: int|
            if i % 3 == 0 && i + 2 < s.len() {
                s[i + 2]
            } else if i % 3 == 2 {
                s[i - 2]
            } else {
                s[i]
            },
    )
}

/// Exchanging the first and third byte of every triple twice is the
/// identity, for any byte sequence whose length is a multiple of
/// three.
pub proof fn lemma_swap_rb_involution(s: Seq<u8>)
    requires
        s.len() % 3 == 0,
    ensures
        spec_swap_rb(spec_swap_rb(s)) == s,
{
    assert forall|i: int| 0 <= i < s.len() implies spec_swap_rb(spec_swap_rb(s))[i] == s[i] by {
        if i % 3 == 0 {
            assert((i + 2) % 3 == 2);
        } else if i % 3 == 2 {
            assert((i - 2) % 3 == 0);
        }
    }
    assert(spec_swap_rb(spec_swap_rb(s)) =~= s);
}

/// What converting to RGB8 does: a BGR8 image has every byte triple's
/// ends exchanged, an RGB8 image is returned unchanged, and a GRAY8
/// image has no valid conversion.
pub open spec fn spec_into_rgb8(m: ImageModel) -> Result<ImageModel, Error> {
    match m.encoding {
        Encoding::BGR8 => Ok(
            ImageModel {
                data: spec_swap_rb(m.data),
                width: m.width,
                height: m.height,
                encoding: Encoding::RGB8,
                name: m.name,
            },
        ),
        Encoding::RGB8 => Ok(m),
        Encoding::GRAY8 => Err(Error::UnsupportedConversion),
    }
}

/// What converting to BGR8 does, symmetrically.
pub open spec fn spec_into_bgr8(m: ImageModel) -> Result<ImageModel, Error> {
    match m.encoding {
        Encoding::RGB8 => Ok(
            ImageModel {
                data: spec_swap_rb(m.data),
                width: m.width,
                height: m.height,
                encoding: Encoding::BGR8,
                name: m.name,
            },
        ),
        Encoding::BGR8 => Ok(m),
        Encoding::GRAY8 => Err(Error::UnsupportedConversion),
    }
}

/// Converting to RGB8 twice changes nothing beyond the first
/// conversion, and the first conversion preserves validity.
pub proof fn lemma_into_rgb8_idempotent(m: ImageModel)
    requires
        m.wf(),
    ensures
        spec_into_rgb8(m) matches Ok(m2) ==> m2.wf() && spec_into_rgb8(m2) == Ok::<
            ImageModel,
            Error,
        >(m2),
        spec_into_bgr8(m) matches Ok(m3) ==> m3.wf() && spec_into_bgr8(m3) == Ok::<
            ImageModel,
            Error,
        >(m3),
{
}

/// A round trip between the two color orders is the identity on the
/// pixel bytes: BGR8 to RGB8 and back restores the original image.
pub proof fn lemma_bgr8_rgb8_round_trip(m: ImageModel)
    requires
        m.wf(),
        m.encoding == Encoding::BGR8,
    ensures
        spec_into_rgb8(m) matches Ok(m2) && spec_into_bgr8(m2) == Ok::<ImageModel, Error>(m),
{
    assert(m.data.len() % 3 == 0) by {
        assert(m.data.len() == m.width * m.height * 3);
        assert((m.width * m.height * 3) % 3 == 0) by (nonlinear_arith);
    }
    lemma_swap_rb_involution(m.data);
    assert(spec_into_rgb8(m) matches Ok(m2) && spec_into_bgr8(m2) matches Ok(m3) && m3 =~= m);
}

/// Exchanges the ends of every byte triple in place.
fn swap_rb(data: Vec<u8>) -> (r: Vec<u8>)
    requires
        data@.len() % 3 == 0,
    ensures
        r@ == spec_swap_rb(data@),
{
    let ghost orig = data@;
    let mut data = data;
    let n = data.len();
    let mut i: usize = 0;
    while i < n
        invariant
            n == data@.len() == orig.len(),
            n % 3 == 0,
            i % 3 == 0,
            i <= n,
            forall|j: int| 0 <= j < i ==> data@[j] == spec_swap_rb(orig)[j],
            forall|j: int| i <= j < n ==> data@[j] == orig[j],
        decreases n - i,
    {
        proof {
            assert((n - i) % 3 == 0) by (nonlinear_arith)
                requires
                    n % 3 == 0,
                    i % 3 == 0,
                    i <= n,
            ;
            assert(i + 2 < n);
        }
        let a = data[i];
        let b = data[i + 2];
        data[i] = b;
        data[i + 2] = a;
        i = i + 3;
    }
    proof {
        assert(data@ =~= spec_swap_rb(orig));
    }
    data
}

impl Image {
    /// Validates the pixel buffer's length against the declared shape
    /// and encoding, then takes ownership of the buffer without
    /// copying it.
    fn new_with_encoding(
        data: Vec<u8>,
        width: u32,
        height: u32,
        encoding: Encoding,
        name: Option<&str>,
    ) -> (r: Result<Image, Error>)
        ensures
            r matches Ok(_) <==> data@.len() == width * height * encoding.spec_channels(),
            match r {
                Ok(img) => {
                    &&& img@ == (ImageModel {
                        data: data@,
                        width,
                        height,
                        encoding,
                        name: match name {
                            Some(s) => Some(s@),
                            None => None,
                        },
                    })
                    &&& img@.wf()
                    &&& img.data.is_owned()
                },
                Err(e) => e == Error::LengthMismatch,
            },
    {
        let c = encoding.channels();
        proof {
            assert((width as int) * (height as int) * (c as int) <= 0xffff_ffff * 0xffff_ffff
                * 3) by (nonlinear_arith)
                requires
                    0 <= width as int <= 0xffff_ffff,
                    0 <= height as int <= 0xffff_ffff,
                    0 <= c as int <= 3,
            ;
        }
        let expected: u128 = (width as u128) * (height as u128) * (c as u128);
        if (data.len() as u128) != expected {
            return Err(Error::LengthMismatch);
        }
        let name = match name {
            Some(s) => Some(String::from_str(s)),
            None => None,
        };
        Ok(Image { data: Buffer::from_vec(data), width, height, encoding, name })
    }

    /// Creates a new BGR8 image. The pixel data length must equal
    /// `width * height * 3`; otherwise the lengths mismatch.
    pub fn new_bgr8(data: Vec<u8>, width: u32, height: u32, name: Option<&str>) -> (r: Result<
        Image,
        Error,
    >)
        ensures
            r matches Ok(_) <==> data@.len() == width * height * 3,
            match r {
                Ok(img) => {
                    &&& img@ == (ImageModel {
                        data: data@,
                        width,
                        height,
                        encoding: Encoding::BGR8,
                        name: match name {
                            Some(s) => Some(s@),
                            None => None,
                        },
                    })
                    &&& img@.wf()
                    &&& img.data.is_owned()
                },
                Err(e) => e == Error::LengthMismatch,
            },
    {
        Self::new_with_encoding(data, width, height, Encoding::BGR8, name)
    }

    /// Creates a new RGB8 image. The pixel data length must equal
    /// `width * height * 3`; otherwise the lengths mismatch.
    pub fn new_rgb8(data: Vec<u8>, width: u32, height: u32, name: Option<&str>) -> (r: Result<
        Image,
        Error,
    >)
        ensures
            r matches Ok(_) <==> data@.len() == width * height * 3,
            match r {
                Ok(img) => {
                    &&& img@ == (ImageModel {
                        data: data@,
                        width,
                        height,
                        encoding: Encoding::RGB8,
                        name: match name {
                            Some(s) => Some(s@),
                            None => None,
                        },
                    })
                    &&& img@.wf()
                    &&& img.data.is_owned()
                },
                Err(e) => e == Error::LengthMismatch,
            },
    {
        Self::new_with_encoding(data, width, height, Encoding::RGB8, name)
    }

    /// Creates a new GRAY8 image. The pixel data length must equal
    /// `width * height`; otherwise the lengths mismatch.
    pub fn new_gray8(data: Vec<u8>, width: u32, height: u32, name: Option<&str>) -> (r: Result<
        Image,
        Error,
    >)
        ensures
            r matches Ok(_) <==> data@.len() == width * height,
            match r {
                Ok(img) => {
                    &&& img@ == (ImageModel {
                        data: data@,
                        width,
                        height,
                        encoding: Encoding::GRAY8,
                        name: match name {
                            Some(s) => Some(s@),
                            None => None,
                        },
                    })
                    &&& img@.wf()
                    &&& img.data.is_owned()
                },
                Err(e) => e == Error::LengthMismatch,
            },
    {
        Self::new_with_encoding(data, width, height, Encoding::GRAY8, name)
    }

    /// Converts the image to RGB8. A BGR8 image has every byte
    /// triple's ends exchanged, copying the buffer only when it is
    /// still shared; an RGB8 image is returned unchanged, buffer
    /// state included; a GRAY8 image has no valid conversion.
    pub fn into_rgb8(self) -> (r: Result<Image, Error>)
        requires
            self@.wf(),
        ensures
            match r {
                Ok(img) => spec_into_rgb8(self@) == Ok::<ImageModel, Error>(img@),
                Err(e) => spec_into_rgb8(self@) == Err::<ImageModel, Error>(e),
            },
            self@.encoding == Encoding::RGB8 ==> (r matches Ok(img) && img == self),
            self@.encoding == Encoding::BGR8 ==> (r matches Ok(img) && img.data.is_owned()),
    {
        match self.encoding {
            Encoding::BGR8 => {
                proof {
                    assert(self@.data.len() % 3 == 0) by {
                        assert(self@.data.len() == self@.width * self@.height * 3);
                        assert((self@.width * self@.height * 3) % 3 == 0) by (nonlinear_arith);
                    }
                }
                let data = self.data.into_owned_vec();
                let data = swap_rb(data);
                Ok(
                    Image {
                        data: Buffer::from_vec(data),
                        width: self.width,
                        height: self.height,
                        encoding: Encoding::RGB8,
                        name: self.name,
                    },
                )
            },
            Encoding::RGB8 => Ok(self),
            Encoding::GRAY8 => Err(Error::UnsupportedConversion),
        }
    }

    /// Converts the image to BGR8, symmetrically to
    /// [`Self::into_rgb8`].
    pub fn into_bgr8(self) -> (r: Result<Image, Error>)
        requires
            self@.wf(),
        ensures
            match r {
                Ok(img) => spec_into_bgr8(self@) == Ok::<ImageModel, Error>(img@),
                Err(e) => spec_into_bgr8(self@) == Err::<ImageModel, Error>(e),
            },
            self@.encoding == Encoding::BGR8 ==> (r matches Ok(img) && img == self),
            self@.encoding == Encoding::RGB8 ==> (r matches Ok(img) && img.data.is_owned()),
    {
        match self.encoding {
            Encoding::RGB8 => {
                proof {
                    assert(self@.data.len() % 3 == 0) by {
                        assert(self@.data.len() == self@.width * self@.height * 3);
                        assert((self@.width * self@.height * 3) % 3 == 0) by (nonlinear_arith);
                    }
                }
                let data = self.data.into_owned_vec();
                let data = swap_rb(data);
                Ok(
                    Image {
                        data: Buffer::from_vec(data),
                        width: self.width,
                        height: self.height,
                        encoding: Encoding::BGR8,
                        name: self.name,
                    },
                )
            },
            Encoding::BGR8 => Ok(self),
            Encoding::GRAY8 => Err(Error::UnsupportedConversion),
        }
    }
}

/// The wire record an image encodes to: its five named fields in
/// schema order.
pub open spec fn spec_image_record(m: ImageModel) -> Seq<FieldModel> {
    seq![
        FieldModel { name: "data"@, column: ColumnModel::U8(m.data) },
        FieldModel { name: "width"@, column: ColumnModel::U32(seq![m.width]) },
        FieldModel { name: "height"@, column: ColumnModel::U32(seq![m.height]) },
        FieldModel { name: "encoding"@, column: ColumnModel::Utf8(seq![m.encoding.spec_name()]) },
        FieldModel {
            name: "name"@,
            column: ColumnModel::Utf8(
                seq![
                    match m.name {
                        Some(s) => s,
                        None => Seq::empty(),
                    },
                ],
            ),
        },
    ]
}

impl Image {
    /// Serializes the image into a wire record holding its pixel
    /// buffer, shape, encoding tag and name (an absent name is
    /// written as the empty string). The pixel buffer moves into the
    /// record without being copied; assembly itself cannot fail.
    pub fn into_arrow(self) -> (r: Result<ArrowData, Error>)
        ensures
            r matches Ok(rec) && rec@ == spec_image_record(self@) && rec.wf(),
    {
        proof {
            reveal_strlit("data");
            reveal_strlit("width");
            reveal_strlit("height");
            reveal_strlit("encoding");
            reveal_strlit("name");
        }
        let name = match self.name {
            Some(s) => s,
            None => String::new(),
        };
        let builder = ArrowDataBuilder::new()
            .push_primitive_array::<u8>("data", self.data.into_owned_vec())
            .push_primitive_singleton::<u32>("width", self.width)
            .push_primitive_singleton::<u32>("height", self.height)
            .push_utf8_singleton("encoding", String::from_str(self.encoding.as_str()))
            .push_utf8_singleton("name", name);
        let ghost bm = builder@;
        proof {
            assert(bm =~= spec_image_record(self@));
            assert(crate::arrow::spec_names_unique(bm)) by {
                reveal_strlit("data");
                reveal_strlit("width");
                reveal_strlit("height");
                reveal_strlit("encoding");
                reveal_strlit("name");
                assert(bm.len() == 5);
                assert(bm[0].name == "data"@);
                assert(bm[1].name == "width"@);
                assert(bm[2].name == "height"@);
                assert(bm[3].name == "encoding"@);
                assert(bm[4].name == "name"@);
                assert("data"@[0] != "name"@[0]);
                crate::arrow::lemma_names_unique_5(bm);
            }
        }
        match builder.build() {
            Ok(rec) => Ok(rec),
            Err(_) => {
                proof {
                    assert(false);
                }
                Err(Error::BuildFailed)
            },
        }
    }
}

/// Round trip: any wire record that carries exactly what encoding a
/// valid image produces decodes back to that image, field by field.
/// (A name that is present but empty is identified with an absent
/// name on the wire, so it is left out here.)
pub proof fn lemma_image_round_trip(m: ImageModel, rec: ArrowData)
    requires
        m.wf(),
        m.name matches Some(s) ==> s.len() > 0,
        rec@ == spec_image_record(m),
        rec.wf(),
    ensures
        spec_image_rec_ok(&rec),
        spec_image_of(&rec) == m,
{
    reveal_strlit("data");
    reveal_strlit("width");
    reveal_strlit("height");
    reveal_strlit("encoding");
    reveal_strlit("name");
    reveal_strlit("RGB8");
    reveal_strlit("BGR8");
    reveal_strlit("GRAY8");
    assert("data"@[0] != "name"@[0]);
    assert("RGB8"@[0] != "BGR8"@[0]);
    let fields = rec@;
    crate::arrow::lemma_field_index_at(fields, 0, "data"@);
    crate::arrow::lemma_field_index_at(fields, 1, "width"@);
    crate::arrow::lemma_field_index_at(fields, 2, "height"@);
    crate::arrow::lemma_field_index_at(fields, 3, "encoding"@);
    crate::arrow::lemma_field_index_at(fields, 4, "name"@);
    assert(crate::arrow::spec_names_unique(fields)) by {
        crate::arrow::lemma_names_unique_5(fields);
    }
    assert(rec.fields@.len() == 5);
    let enc_col = rec.col("encoding"@);
    assert(enc_col@ == fields[3].column);
    assert(enc_col@ matches ColumnModel::Utf8(strs) && strs.len() == 1);
    assert(enc_col.spec_utf8_count() == 1);
    crate::arrow::lemma_utf8_first_of_wf(enc_col);
    assert(spec_image_tag(&rec) == m.encoding.spec_name());
    assert(spec_image_encoding(&rec) == m.encoding);
    let name_col = rec.col("name"@);
    assert(name_col@ == fields[4].column);
    assert(name_col@ matches ColumnModel::Utf8(strs) && strs.len() == 1);
    assert(name_col.spec_utf8_count() == 1);
    crate::arrow::lemma_utf8_first_of_wf(name_col);
    assert(spec_image_name(&rec) == (match m.name {
        Some(s) => s,
        None => Seq::<char>::empty(),
    }));
    assert(spec_image_width(&rec) == m.width);
    assert(spec_image_height(&rec) == m.height);
    assert(spec_image_rec_ok(&rec));
    match m.name {
        Some(s) => {
            assert(s.len() > 0);
            assert(spec_image_name(&rec) != Seq::<char>::empty());
        },
        None => {
            assert(spec_image_name(&rec) == Seq::<char>::empty());
        },
    }
    assert(spec_image_of(&rec) == m);
}

/// The width singleton a record carries.
pub open spec fn spec_image_width(rec: &ArrowData) -> u32 {
    <u32 as crate::arrow::Element>::seq_of(spec_field(rec@, "width"@))[0]
}

/// The height singleton a record carries.
pub open spec fn spec_image_height(rec: &ArrowData) -> u32 {
    <u32 as crate::arrow::Element>::seq_of(spec_field(rec@, "height"@))[0]
}

/// The encoding tag string a record carries.
pub open spec fn spec_image_tag(rec: &ArrowData) -> Seq<char> {
    vstd::utf8::decode_utf8(rec.col("encoding"@).utf8_first_slice())
}

/// The encoding a record's tag names.
pub open spec fn spec_image_encoding(rec: &ArrowData) -> Encoding {
    if spec_image_tag(rec) == "RGB8"@ {
        Encoding::RGB8
    } else if spec_image_tag(rec) == "BGR8"@ {
        Encoding::BGR8
    } else {
        Encoding::GRAY8
    }
}

/// The name singleton a record carries.
pub open spec fn spec_image_name(rec: &ArrowData) -> Seq<char> {
    vstd::utf8::decode_utf8(rec.col("name"@).utf8_first_slice())
}

/// When decoding a record as an image succeeds, aliasing of the pixel
/// buffer aside: the five schema fields are present with the right
/// column types, the tag names one of the three encodings, and the
/// pixel buffer's length agrees with the shape.
pub open spec fn spec_image_rec_ok(rec: &ArrowData) -> bool {
    &&& crate::arrow::spec_names_unique(rec@)
    &&& spec_has_field(rec@, "width"@)
    &&& spec_field(rec@, "width"@) matches ColumnModel::U32(ws) && ws.len() >= 1
    &&& spec_has_field(rec@, "height"@)
    &&& spec_field(rec@, "height"@) matches ColumnModel::U32(hs) && hs.len() >= 1
    &&& spec_has_field(rec@, "encoding"@)
    &&& rec.col("encoding"@).utf8_first_delimited()
    &&& vstd::utf8::valid_utf8(rec.col("encoding"@).utf8_first_slice())
    &&& (spec_image_tag(rec) == "RGB8"@ || spec_image_tag(rec) == "BGR8"@ || spec_image_tag(rec)
        == "GRAY8"@)
    &&& spec_has_field(rec@, "name"@)
    &&& rec.col("name"@).utf8_first_delimited()
    &&& vstd::utf8::valid_utf8(rec.col("name"@).utf8_first_slice())
    &&& spec_has_field(rec@, "data"@)
    &&& spec_field(rec@, "data"@) matches ColumnModel::U8(ds) && ds.len() == spec_image_width(rec)
        * spec_image_height(rec) * spec_image_encoding(rec).spec_channels()
}

/// The image a decodable record denotes. An empty name string stands
/// for an absent name.
pub open spec fn spec_image_of(rec: &ArrowData) -> ImageModel {
    ImageModel {
        data: <u8 as crate::arrow::Element>::seq_of(spec_field(rec@, "data"@)),
        width: spec_image_width(rec),
        height: spec_image_height(rec),
        encoding: spec_image_encoding(rec),
        name: if spec_image_name(rec) == Seq::<char>::empty() {
            None
        } else {
            Some(spec_image_name(rec))
        },
    }
}

impl Image {
    /// Decodes a wire record into an owned image, reclaiming the pixel
    /// buffer without copying it. On any record that carries a valid
    /// image this succeeds, unless another holder still aliases the
    /// pixel buffer: then the buffer stays shared and the caller may
    /// fall back to the zero-copy view path. On any other record it
    /// reports what is wrong.
    pub fn from_arrow(data: ArrowData) -> (r: Result<Image, Error>)
        ensures
            r matches Ok(img) ==> spec_image_rec_ok(&data) && img@ == spec_image_of(&data)
                && img.data.is_owned() && img@.wf(),
            r matches Err(e) ==> ((spec_image_rec_ok(&data) && (e matches Error::BufferShared(n)
                && n@ == "data"@)) || !spec_image_rec_ok(&data)),
            r matches Err(e) ==> match e {
                Error::MalformedRecord => {
                    ||| !crate::arrow::spec_names_unique(data@)
                    ||| (spec_field(data@, "width"@) matches ColumnModel::U32(ws) && ws.len()
                        == 0)
                    ||| (spec_field(data@, "height"@) matches ColumnModel::U32(hs) && hs.len()
                        == 0)
                    ||| (vstd::utf8::valid_utf8(data.col("encoding"@).utf8_first_slice())
                        && spec_image_tag(&data) != "RGB8"@ && spec_image_tag(&data) != "BGR8"@
                        && spec_image_tag(&data) != "GRAY8"@)
                },
                Error::FieldMissing(n) => !spec_has_field(data@, n@),
                Error::TypeMismatch { field, expected, actual } => {
                    &&& spec_has_field(data@, field@)
                    &&& actual == spec_field(data@, field@).col_type()
                    &&& actual != expected
                },
                Error::MalformedOffsets(n) => {
                    &&& spec_has_field(data@, n@)
                    &&& data.col(n@).spec_col_type() == ColumnType::Utf8
                    &&& !data.col(n@).utf8_first_delimited()
                },
                Error::InvalidUtf8(n) => {
                    &&& data.col(n@).utf8_first_delimited()
                    &&& !vstd::utf8::valid_utf8(data.col(n@).utf8_first_slice())
                },
                Error::BufferShared(n) => {
                    &&& n@ == "data"@
                    &&& spec_has_field(data@, "data"@)
                    &&& spec_field(data@, "data"@).col_type() == ColumnType::U8
                },
                Error::LengthMismatch => spec_field(data@, "data"@) matches ColumnModel::U8(ds)
                    && ds.len() != spec_image_width(&data) * spec_image_height(&data)
                    * spec_image_encoding(&data).spec_channels(),
                _ => false,
            },
    {
        let ghost gdata = data;
        let consumer = match ArrowDataConsumer::new(data) {
            Ok(c) => c,
            Err(e) => {
                return Err(e);
            },
        };
        let ghost c0 = consumer;
        let width = match consumer.primitive_singleton::<u32>("width") {
            Ok(w) => w,
            Err(e) => {
                return Err(e);
            },
        };
        let height = match consumer.primitive_singleton::<u32>("height") {
            Ok(h) => h,
            Err(e) => {
                return Err(e);
            },
        };
        let encoding_s = match consumer.utf8_singleton("encoding") {
            Ok(s) => s,
            Err(e) => {
                proof {
                    crate::arrow::lemma_field_index_bounds(gdata@, "encoding"@);
                    assert(c0.spec_col("encoding"@) == gdata.col("encoding"@));
                    crate::arrow::lemma_col_type_view(gdata.col("encoding"@));
                    if spec_has_field(gdata@, "encoding"@) {
                        assert(gdata.col("encoding"@)@ == spec_field(gdata@, "encoding"@));
                    }
                }
                return Err(e);
            },
        };
        let encoding = match Encoding::from_string(encoding_s) {
            Ok(e) => e,
            Err(e) => {
                proof {
                    assert(c0.spec_col("encoding"@) == gdata.col("encoding"@));
                }
                return Err(e);
            },
        };
        let name_s = match consumer.utf8_singleton("name") {
            Ok(s) => s,
            Err(e) => {
                proof {
                    crate::arrow::lemma_field_index_bounds(gdata@, "name"@);
                    assert(c0.spec_col("name"@) == gdata.col("name"@));
                    crate::arrow::lemma_col_type_view(gdata.col("name"@));
                    if spec_has_field(gdata@, "name"@) {
                        assert(gdata.col("name"@)@ == spec_field(gdata@, "name"@));
                    }
                }
                return Err(e);
            },
        };
        let name = if name_s.as_str().is_empty() {
            None
        } else {
            Some(name_s)
        };
        let mut consumer = consumer;
        let data_v = match consumer.primitive_array::<u8>("data") {
            Ok(v) => v,
            Err(e) => {
                return Err(e);
            },
        };
        let c = encoding.channels();
        proof {
            reveal_strlit("RGB8");
            reveal_strlit("BGR8");
            reveal_strlit("GRAY8");
            assert(c0@ == gdata@);
            assert(c0.spec_col("encoding"@) == gdata.col("encoding"@));
            assert(c0.spec_col("name"@) == gdata.col("name"@));
            assert(encoding_s@ == spec_image_tag(&gdata));
            assert("RGB8"@[0] != "BGR8"@[0]);
            assert(encoding == spec_image_encoding(&gdata));
            assert(width == spec_image_width(&gdata));
            assert(height == spec_image_height(&gdata));
            assert(name_s@ == spec_image_name(&gdata));
            if name_s@.len() == 0 {
                assert(name_s@ =~= Seq::<char>::empty());
            }
            assert((width as int) * (height as int) * (c as int) <= 0xffff_ffff * 0xffff_ffff
                * 3) by (nonlinear_arith)
                requires
                    0 <= width as int <= 0xffff_ffff,
                    0 <= height as int <= 0xffff_ffff,
                    0 <= c as int <= 3,
            ;
        }
        let expected: u128 = (width as u128) * (height as u128) * (c as u128);
        if (data_v.len() as u128) != expected {
            return Err(Error::LengthMismatch);
        }
        Ok(Image { data: Buffer::from_vec(data_v), width, height, encoding, name })
    }

    /// Decomposes a record for zero-copy viewing, registering the
    /// pixel buffer for borrowed access. Succeeds exactly when the
    /// record's names are unique and it holds a byte column named for
    /// the pixel buffer; that column moves into the viewer's loaded
    /// set.
    pub fn viewer(data: ArrowData) -> (r: Result<ArrowDataViewer, Error>)
        ensures
            r matches Ok(_) <==> (crate::arrow::spec_names_unique(data@) && spec_has_field(
                data@,
                "data"@,
            ) && spec_field(data@, "data"@).col_type() == ColumnType::U8),
            r matches Ok(v) ==> {
                &&& v.loaded() == Seq::<FieldModel>::empty().push(
                    FieldModel { name: "data"@, column: spec_field(data@, "data"@) },
                )
                &&& v.unloaded() == data@.remove(crate::arrow::spec_field_index(data@, "data"@))
                &&& spec_field(v.loaded(), "data"@) == spec_field(data@, "data"@)
            },
    {
        let v = match ArrowDataViewer::new(data) {
            Ok(v) => v,
            Err(e) => {
                return Err(e);
            },
        };
        let ghost w = v;
        match v.load_primitive::<u8>("data") {
            Ok(v2) => {
                proof {
                    assert(w.load_ok("data"@, ColumnType::U8, &v2));
                    assert(!spec_has_field(w.loaded(), "data"@));
                }
                Ok(v2)
            },
            Err(e) => Err(e),
        }
    }

}

/// The tag string a viewer's unloaded fields carry.
pub open spec fn spec_image_view_tag(v: &ArrowDataViewer) -> Seq<char> {
    vstd::utf8::decode_utf8(v.spec_col("encoding"@).utf8_first_slice())
}

/// The encoding a viewer's tag names.
pub open spec fn spec_image_view_encoding(v: &ArrowDataViewer) -> Encoding {
    if spec_image_view_tag(v) == "RGB8"@ {
        Encoding::RGB8
    } else if spec_image_view_tag(v) == "BGR8"@ {
        Encoding::BGR8
    } else {
        Encoding::GRAY8
    }
}

/// The width singleton a viewer's unloaded fields carry.
pub open spec fn spec_image_view_width(v: &ArrowDataViewer) -> u32 {
    <u32 as crate::arrow::Element>::seq_of(spec_field(v.unloaded(), "width"@))[0]
}

/// The height singleton a viewer's unloaded fields carry.
pub open spec fn spec_image_view_height(v: &ArrowDataViewer) -> u32 {
    <u32 as crate::arrow::Element>::seq_of(spec_field(v.unloaded(), "height"@))[0]
}

/// The name singleton a viewer's unloaded fields carry.
pub open spec fn spec_image_view_name(v: &ArrowDataViewer) -> Seq<char> {
    vstd::utf8::decode_utf8(v.spec_col("name"@).utf8_first_slice())
}

/// When reading an image out of a viewer succeeds: the pixel buffer
/// stands loaded as a byte column, the shape, tag and name singletons
/// stand unloaded with the right column types, the tag names one of
/// the three encodings, and the pixel buffer's length agrees with the
/// shape.
pub open spec fn spec_image_view_ok(v: &ArrowDataViewer) -> bool {
    &&& spec_has_field(v.unloaded(), "width"@)
    &&& spec_field(v.unloaded(), "width"@) matches ColumnModel::U32(ws) && ws.len() >= 1
    &&& spec_has_field(v.unloaded(), "height"@)
    &&& spec_field(v.unloaded(), "height"@) matches ColumnModel::U32(hs) && hs.len() >= 1
    &&& spec_has_field(v.unloaded(), "encoding"@)
    &&& v.spec_col("encoding"@).utf8_first_delimited()
    &&& vstd::utf8::valid_utf8(v.spec_col("encoding"@).utf8_first_slice())
    &&& (spec_image_view_tag(v) == "RGB8"@ || spec_image_view_tag(v) == "BGR8"@
        || spec_image_view_tag(v) == "GRAY8"@)
    &&& spec_has_field(v.unloaded(), "name"@)
    &&& v.spec_col("name"@).utf8_first_delimited()
    &&& vstd::utf8::valid_utf8(v.spec_col("name"@).utf8_first_slice())
    &&& spec_has_field(v.loaded(), "data"@)
    &&& spec_field(v.loaded(), "data"@) matches ColumnModel::U8(ds) && ds.len()
        == spec_image_view_width(v) * spec_image_view_height(v) * spec_image_view_encoding(
        v,
    ).spec_channels()
}

/// The image a decodable viewer denotes. An empty name string stands
/// for an absent name.
pub open spec fn spec_image_view_of(v: &ArrowDataViewer) -> ImageModel {
    ImageModel {
        data: <u8 as crate::arrow::Element>::seq_of(spec_field(v.loaded(), "data"@)),
        width: spec_image_view_width(v),
        height: spec_image_view_height(v),
        encoding: spec_image_view_encoding(v),
        name: if spec_image_view_name(v) == Seq::<char>::empty() {
            None
        } else {
            Some(spec_image_view_name(v))
        },
    }
}

impl Image {
    /// Decodes an image from a viewer without claiming ownership: the
    /// pixel buffer comes back as a zero-copy shared view, and sharing
    /// can never make the decode fail. The shape fields, tag and name
    /// are copied out as plain values.
    pub fn view_arrow(viewer: &ArrowDataViewer) -> (r: Result<Image, Error>)
        ensures
            r matches Ok(_) <==> spec_image_view_ok(viewer),
            r matches Ok(img) ==> img@ == spec_image_view_of(viewer) && !img.data.is_owned()
                && img@.wf(),
            r matches Err(e) ==> match e {
                Error::MalformedRecord => {
                    ||| (spec_field(viewer.unloaded(), "width"@) matches ColumnModel::U32(ws)
                        && ws.len() == 0)
                    ||| (spec_field(viewer.unloaded(), "height"@) matches ColumnModel::U32(hs)
                        && hs.len() == 0)
                    ||| (vstd::utf8::valid_utf8(viewer.spec_col("encoding"@).utf8_first_slice())
                        && spec_image_view_tag(viewer) != "RGB8"@ && spec_image_view_tag(viewer)
                        != "BGR8"@ && spec_image_view_tag(viewer) != "GRAY8"@)
                },
                Error::FieldMissing(n) => ((n@ == "data"@ && !spec_has_field(
                    viewer.loaded(),
                    n@,
                )) || (n@ != "data"@ && !spec_has_field(viewer.unloaded(), n@))),
                Error::TypeMismatch { field, expected, actual } => {
                    &&& ((field@ == "data"@ && spec_has_field(viewer.loaded(), field@)
                        && actual == spec_field(viewer.loaded(), field@).col_type()) || (field@
                        != "data"@ && spec_has_field(viewer.unloaded(), field@) && actual
                        == spec_field(viewer.unloaded(), field@).col_type()))
                    &&& actual != expected
                },
                Error::MalformedOffsets(n) => {
                    &&& (n@ == "encoding"@ || n@ == "name"@)
                    &&& spec_has_field(viewer.unloaded(), n@)
                    &&& viewer.spec_col(n@).spec_col_type() == ColumnType::Utf8
                    &&& !viewer.spec_col(n@).utf8_first_delimited()
                },
                Error::InvalidUtf8(n) => {
                    &&& (n@ == "encoding"@ || n@ == "name"@)
                    &&& viewer.spec_col(n@).utf8_first_delimited()
                    &&& !vstd::utf8::valid_utf8(viewer.spec_col(n@).utf8_first_slice())
                },
                Error::LengthMismatch => spec_field(viewer.loaded(), "data"@)
                    matches ColumnModel::U8(ds) && ds.len() != spec_image_view_width(viewer)
                    * spec_image_view_height(viewer) * spec_image_view_encoding(
                    viewer,
                ).spec_channels(),
                _ => false,
            },
    {
        proof {
            reveal_strlit("RGB8");
            reveal_strlit("BGR8");
            reveal_strlit("GRAY8");
            reveal_strlit("data");
            reveal_strlit("width");
            reveal_strlit("height");
            reveal_strlit("encoding");
            reveal_strlit("name");
            assert("RGB8"@[0] != "BGR8"@[0]);
            assert("RGB8"@.len() == 4 && "BGR8"@.len() == 4 && "GRAY8"@.len() == 5);
            assert("data"@[0] != "name"@[0]);
            assert("data"@.len() == 4 && "width"@.len() == 5 && "height"@.len() == 6
                && "encoding"@.len() == 8 && "name"@.len() == 4);
        }
        let width = match viewer.primitive_singleton::<u32>("width") {
            Ok(w) => w,
            Err(e) => {
                return Err(e);
            },
        };
        let height = match viewer.primitive_singleton::<u32>("height") {
            Ok(h) => h,
            Err(e) => {
                return Err(e);
            },
        };
        let encoding_s = match viewer.utf8_singleton("encoding") {
            Ok(s) => s,
            Err(e) => {
                proof {
                    if spec_has_field(viewer.unloaded(), "encoding"@) {
                        crate::arrow::viewer::lemma_unloaded_col_view(viewer, "encoding"@);
                    }
                }
                return Err(e);
            },
        };
        let encoding = match Encoding::from_string(encoding_s) {
            Ok(e) => e,
            Err(e) => {
                return Err(e);
            },
        };
        let name_s = match viewer.utf8_singleton("name") {
            Ok(s) => s,
            Err(e) => {
                proof {
                    if spec_has_field(viewer.unloaded(), "name"@) {
                        crate::arrow::viewer::lemma_unloaded_col_view(viewer, "name"@);
                    }
                }
                return Err(e);
            },
        };
        let name = if name_s.as_str().is_empty() {
            None
        } else {
            Some(name_s)
        };
        let data = match viewer.primitive_array::<u8>("data") {
            Ok(b) => b,
            Err(e) => {
                return Err(e);
            },
        };
        let c = encoding.channels();
        proof {
            assert((width as int) * (height as int) * (c as int) <= 0xffff_ffff * 0xffff_ffff
                * 3) by (nonlinear_arith)
                requires
                    0 <= width as int <= 0xffff_ffff,
                    0 <= height as int <= 0xffff_ffff,
                    0 <= c as int <= 3,
            ;
        }
        let expected: u128 = (width as u128) * (height as u128) * (c as u128);
        if (data.len() as u128) != expected {
            return Err(Error::LengthMismatch);
        }
        proof {
            assert(encoding_s@ == spec_image_view_tag(viewer));
            assert(encoding == spec_image_view_encoding(viewer));
            assert(width == spec_image_view_width(viewer));
            assert(height == spec_image_view_height(viewer));
            assert(name_s@ == spec_image_view_name(viewer));
            if name_s@.len() == 0 {
                assert(name_s@ =~= Seq::<char>::empty());
            }
        }
        Ok(Image { data, width, height, encoding, name })
    }
}

impl crate::arrow::IntoArrow for Image {
    fn into_arrow(self) -> Result<ArrowData, Error> {
        Image::into_arrow(self)
    }

    fn from_arrow(array_data: ArrowData) -> Result<Image, Error> {
        Image::from_arrow(array_data)
    }
}

impl crate::arrow::ViewArrow for Image {
    fn viewer(array_data: ArrowData) -> Result<ArrowDataViewer, Error> {
        Image::viewer(array_data)
    }

    fn view_arrow(viewer: &ArrowDataViewer) -> Result<Image, Error> {
        Image::view_arrow(viewer)
    }
}


} // verus!
