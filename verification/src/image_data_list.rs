use vstd::prelude::*;

verus! {

/// What decoding the header of an image blob yields: its pixel width and
/// height, or nothing when the bytes are not a supported raster image.
///
/// Decoding is a pure function of the bytes, so the result can be given this
/// name and every use of the decoder below is tied to it.
pub uninterp spec fn image_dims(bytes: Seq<u8>) -> Option<(u32, u32)>;

/// Relies on `image::ImageReader`: `new` over an in-memory cursor,
/// `with_guessed_format` (format detection from the leading bytes, infallible
/// over a cursor), and `into_dimensions`, which decodes only as far as the
/// header and returns the image's width and height. The outcome depends on
/// the bytes alone.
#[verifier::external_body]
pub(crate) fn decode_dimensions(bytes: &Vec<u8>) -> (r: Option<(u32, u32)>)
    ensures
        r == image_dims(bytes@),
{
    match image::ImageReader::new(std::io::Cursor::new(bytes.as_slice())).with_guessed_format() {
        Ok(reader) => reader.into_dimensions().ok(),
        Err(_) => None,
    }
}

/// Whether one blob is a usable image: it decodes, and both of its sides are
/// at least one pixel.
pub open spec fn blob_ok(bytes: Seq<u8>) -> bool {
    &&& image_dims(bytes) is Some
    &&& image_dims(bytes).unwrap().0 >= 1
    &&& image_dims(bytes).unwrap().1 >= 1
}

/// Whether every blob of the list is a usable image.
pub open spec fn all_images_ok(data: Seq<Seq<u8>>) -> bool {
    forall|i: int| 0 <= i < data.len() ==> blob_ok(#[trigger] data[i])
}

/// The position of the first blob that is not a usable image.
pub open spec fn first_bad_index(data: Seq<Seq<u8>>) -> int
    decreases data.len(),
{
    if data.len() == 0 {
        0
    } else if !blob_ok(data[0]) {
        0
    } else {
        1 + first_bad_index(data.drop_first())
    }
}

pub proof fn lemma_first_bad_index(data: Seq<Seq<u8>>, i: int)
    requires
        0 <= i < data.len(),
        forall|j: int| 0 <= j < i ==> blob_ok(#[trigger] data[j]),
        !blob_ok(data[i]),
    ensures
        first_bad_index(data) == i,
    decreases i,
{
    if i == 0 {
    } else {
        let t = data.drop_first();
        assert(forall|j: int| 0 <= j < i - 1 ==> #[trigger] t[j] == data[j + 1]);
        assert(t[i - 1] == data[i]);
        lemma_first_bad_index(t, i - 1);
    }
}

/// The width of a decodable image blob.
pub open spec fn width_of(bytes: Seq<u8>) -> u32 {
    image_dims(bytes).unwrap().0
}

/// The height of a decodable image blob.
pub open spec fn height_of(bytes: Seq<u8>) -> u32 {
    image_dims(bytes).unwrap().1
}

/// The running maximum of the widths of the blobs, starting from zero.
pub open spec fn max_width_of(data: Seq<Seq<u8>>) -> u32
    decreases data.len(),
{
    if data.len() == 0 {
        0
    } else {
        let prev = max_width_of(data.drop_last());
        if width_of(data.last()) > prev {
            width_of(data.last())
        } else {
            prev
        }
    }
}

/// The running maximum of the heights of the blobs, starting from zero.
pub open spec fn max_height_of(data: Seq<Seq<u8>>) -> u32
    decreases data.len(),
{
    if data.len() == 0 {
        0
    } else {
        let prev = max_height_of(data.drop_last());
        if height_of(data.last()) > prev {
            height_of(data.last())
        } else {
            prev
        }
    }
}

/// The aggregate maximum width is an upper bound of every width and, for a
/// non-empty list, is attained by some element.
pub proof fn lemma_max_width_is_max(data: Seq<Seq<u8>>)
    ensures
        forall|i: int| 0 <= i < data.len() ==> width_of(#[trigger] data[i]) <= max_width_of(data),
        data.len() > 0 ==> exists|i: int|
            0 <= i < data.len() && width_of(#[trigger] data[i]) == max_width_of(data),
    decreases data.len(),
{
    if data.len() > 0 {
        let t = data.drop_last();
        lemma_max_width_is_max(t);
        assert forall|i: int| 0 <= i < data.len() implies width_of(#[trigger] data[i])
            <= max_width_of(data) by {
            if i < t.len() {
                assert(t[i] == data[i]);
                assert(width_of(t[i]) <= max_width_of(t));
            }
        }
        if data.len() > 1 && max_width_of(data) == max_width_of(t) {
            let i = choose|i: int| 0 <= i < t.len() && width_of(#[trigger] t[i]) == max_width_of(t);
            assert(data[i] == t[i]);
            assert(width_of(data[i]) == max_width_of(data));
        }
    }
}

/// The aggregate maximum height is an upper bound of every height and, for a
/// non-empty list, is attained by some element.
pub proof fn lemma_max_height_is_max(data: Seq<Seq<u8>>)
    ensures
        forall|i: int| 0 <= i < data.len() ==> height_of(#[trigger] data[i]) <= max_height_of(data),
        data.len() > 0 ==> exists|i: int|
            0 <= i < data.len() && height_of(#[trigger] data[i]) == max_height_of(data),
    decreases data.len(),
{
    if data.len() > 0 {
        let t = data.drop_last();
        lemma_max_height_is_max(t);
        assert forall|i: int| 0 <= i < data.len() implies height_of(#[trigger] data[i])
            <= max_height_of(data) by {
            if i < t.len() {
                assert(t[i] == data[i]);
                assert(height_of(t[i]) <= max_height_of(t));
            }
        }
        if data.len() > 1 && max_height_of(data) == max_height_of(t) {
            let i = choose|i: int|
                0 <= i < t.len() && height_of(#[trigger] t[i]) == max_height_of(t);
            assert(data[i] == t[i]);
            assert(height_of(data[i]) == max_height_of(data));
        }
    }
}

/// Why a list of blobs was rejected: it was empty, or the blob at the given
/// position (an index into the original input list) is not a decodable image.
#[derive(Debug, PartialEq, Eq)]
pub enum ImageValidationError {
    EmptyData,
    NotAnImage { index: usize },
}

/// A validated, named, non-empty list of image blobs.
///
/// Instances exist only through [`ImageDataList::new`], which checks that
/// every blob decodes as an image and records the maximum width and height
/// over the whole list.
#[derive(Debug, PartialEq)]
pub struct ImageDataList {
    images: Vec<Vec<u8>>,
    data_name: String,
    max_height: u32,
    max_width: u32,
}

impl ImageDataList {
    /// The blobs held, as mathematical sequences of bytes.
    pub closed spec fn spec_images(self) -> Seq<Seq<u8>> {
        self.images.deep_view()
    }

    /// The display name held.
    pub closed spec fn spec_name(self) -> Seq<char> {
        self.data_name@
    }

    pub closed spec fn spec_max_width(self) -> u32 {
        self.max_width
    }

    pub closed spec fn spec_max_height(self) -> u32 {
        self.max_height
    }

    /// The invariant every constructed list satisfies: at least one blob,
    /// every blob decodes, and the aggregates are the true maxima.
    pub open spec fn wf(self) -> bool {
        &&& self.spec_images().len() >= 1
        &&& all_images_ok(self.spec_images())
        &&& self.spec_max_width() == max_width_of(self.spec_images())
        &&& self.spec_max_height() == max_height_of(self.spec_images())
    }

    /// Validates a list of blobs under a name.
    ///
    /// An empty list is rejected outright; otherwise each blob is decoded in
    /// order and the first one that is not an image aborts the construction,
    /// reporting its position in the input. On success the result holds the
    /// input blobs unchanged, the name, and the exact maxima of the decoded
    /// widths and heights — a pure function of the input.
    pub fn new(data: Vec<Vec<u8>>, data_name: String) -> (r: Result<
        ImageDataList,
        ImageValidationError,
    >)
        ensures
            data@.len() == 0 ==> r == Err::<ImageDataList, ImageValidationError>(
                ImageValidationError::EmptyData,
            ),
            data@.len() > 0 && all_images_ok(data.deep_view()) ==> (r matches Ok(list) && {
                &&& list.spec_images() == data.deep_view()
                &&& list.spec_name() == data_name@
                &&& list.spec_max_width() == max_width_of(data.deep_view())
                &&& list.spec_max_height() == max_height_of(data.deep_view())
                &&& list.wf()
            }),
            data@.len() > 0 && !all_images_ok(data.deep_view()) ==> r == Err::<
                ImageDataList,
                ImageValidationError,
            >(
                ImageValidationError::NotAnImage {
                    index: first_bad_index(data.deep_view()) as usize,
                },
            ),
    {
        if data.len() == 0 {
            return Err(ImageValidationError::EmptyData);
        }

        let mut max_width: u32 = 0;
        let mut max_height: u32 = 0;
        let n: usize = data.len();
        let mut i: usize = 0;
        while i < n
            invariant
                0 <= i <= n,
                n == data@.len(),
                forall|j: int| 0 <= j < i ==> blob_ok(#[trigger] data.deep_view()[j]),
                max_width == max_width_of(data.deep_view().take(i as int)),
                max_height == max_height_of(data.deep_view().take(i as int)),
            decreases n - i,
        {
            let ghost prefix: Seq<Seq<u8>> = data.deep_view().take(i as int);
            proof {
                assert(data.deep_view()[i as int] == data@[i as int]@);
                assert(data.deep_view().take(i as int + 1).drop_last() =~= prefix);
                assert(data.deep_view().take(i as int + 1).last() == data.deep_view()[i as int]);
            }
            match decode_dimensions(&data[i]) {
                Some((w, h)) if w >= 1 && h >= 1 => {
                    if w > max_width {
                        max_width = w;
                    }
                    if h > max_height {
                        max_height = h;
                    }
                },
                _ => {
                    proof {
                        lemma_first_bad_index(data.deep_view(), i as int);
                    }
                    return Err(ImageValidationError::NotAnImage { index: i });
                },
            }
            i += 1;
        }
        proof {
            assert(data.deep_view().take(n as int) =~= data.deep_view());
        }
        Ok(ImageDataList { images: data, data_name, max_height, max_width })
    }

    /// The number of images held.
    pub fn len(&self) -> (r: usize)
        ensures
            r == self.spec_images().len(),
    {
        self.images.len()
    }

    /// Whether no images are held; always false for a constructed list.
    pub fn is_empty(&self) -> (r: bool)
        ensures
            r == (self.spec_images().len() == 0),
            self.wf() ==> r == false,
    {
        self.images.len() == 0
    }

    /// The aggregate maxima as a `(width, height)` pair.
    pub fn dimensions(&self) -> (r: (u32, u32))
        ensures
            r.0 == self.spec_max_width(),
            r.1 == self.spec_max_height(),
    {
        (self.max_width, self.max_height)
    }

    /// The image blobs, in page order.
    pub fn images(&self) -> (r: &Vec<Vec<u8>>)
        ensures
            r.deep_view() == self.spec_images(),
    {
        &self.images
    }

    /// The display name of the collection.
    pub fn data_name(&self) -> (r: &str)
        ensures
            r@ == self.spec_name(),
    {
        self.data_name.as_str()
    }

    pub fn max_height(&self) -> (r: u32)
        ensures
            r == self.spec_max_height(),
    {
        self.max_height
    }

    pub fn max_width(&self) -> (r: u32)
        ensures
            r == self.spec_max_width(),
    {
        self.max_width
    }
}

} // verus!

verus! {

/// Validation is idempotent: the observable content of a validated
/// collection — its records, its name, and its aggregate maxima — is
/// determined by the input records and name alone, so validating identical
/// inputs twice yields collections with identical content.
pub proof fn lemma_validation_deterministic(
    data: Seq<Seq<u8>>,
    name: Seq<char>,
    l1: ImageDataList,
    l2: ImageDataList,
)
    requires
        l1.spec_images() == data && l1.spec_name() == name && l1.wf(),
        l2.spec_images() == data && l2.spec_name() == name && l2.wf(),
    ensures
        l1.spec_images() == l2.spec_images(),
        l1.spec_name() == l2.spec_name(),
        l1.spec_max_width() == l2.spec_max_width(),
        l1.spec_max_height() == l2.spec_max_height(),
{
}

} // verus!

verus! {

/// A validated collection's aggregates are the true maxima over its records:
/// each is an upper bound of the respective side of every record, and each
/// is attained by some record.
pub proof fn lemma_aggregates_are_true_maxima(list: ImageDataList)
    requires
        list.wf(),
    ensures
        forall|i: int|
            0 <= i < list.spec_images().len() ==> width_of(#[trigger] list.spec_images()[i])
                <= list.spec_max_width(),
        forall|i: int|
            0 <= i < list.spec_images().len() ==> height_of(#[trigger] list.spec_images()[i])
                <= list.spec_max_height(),
        exists|i: int|
            0 <= i < list.spec_images().len() && width_of(#[trigger] list.spec_images()[i])
                == list.spec_max_width(),
        exists|i: int|
            0 <= i < list.spec_images().len() && height_of(#[trigger] list.spec_images()[i])
                == list.spec_max_height(),
{
    lemma_max_width_is_max(list.spec_images());
    lemma_max_height_is_max(list.spec_images());
}

} // verus!
