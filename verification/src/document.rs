use vstd::prelude::*;
use vstd::string::*;

use crate::image_data_list::{
    all_images_ok, blob_ok, first_bad_index, height_of, width_of, ImageDataList,
};
use crate::layout::{
    default_layout_spec, plan_page_layout_default, PageLayoutDecision, A4_HEIGHT_MM, A4_WIDTH_MM,
    DEFAULT_DPI, DEFAULT_MARGIN_MM,
};

verus! {

/// Why assembling a document failed. Positions are one-based, as shown to
/// users.
#[derive(Debug, PartialEq, Eq)]
pub enum PdfError {
    /// The image that was to become the page at this position does not
    /// decode.
    ImageDecode { index: usize },
    /// The image at this position decodes but could not be turned into a
    /// renderable page element.
    ImageToElement { index: usize, message: String },
    /// Rendering the finished document to bytes failed.
    Render(String),
    /// Writing the rendered bytes to this path failed.
    Save { path: String, message: String },
}

/// The plan for one page: which image it shows, the image's pixel size, the
/// placement decision, and whether a page break follows it.
#[derive(Clone, Copy, Debug, PartialEq, Eq, Structural)]
pub struct PagePlan {
    pub index: usize,
    pub width_px: u32,
    pub height_px: u32,
    pub decision: PageLayoutDecision,
    pub break_after: bool,
}

/// The plan for a whole document: its title, the fixed page geometry and
/// density, and one page per image in collection order.
#[derive(Debug, PartialEq, Eq)]
pub struct DocumentPlan {
    pub title: String,
    pub page_width_mm: u32,
    pub page_height_mm: u32,
    pub margin_mm: u32,
    pub dpi: u32,
    pub pages: Vec<PagePlan>,
}

/// What the page at position `i` of a plan over `images` must say: the
/// image's own decoded size, the fit-maximising decision for that size
/// against the default page geometry, and a break after every page but the
/// last.
pub open spec fn page_matches(images: Seq<Seq<u8>>, i: int, p: PagePlan) -> bool {
    &&& p.index == i
    &&& blob_ok(images[i])
    &&& p.width_px == width_of(images[i])
    &&& p.height_px == height_of(images[i])
    &&& p.decision == default_layout_spec(p.width_px, p.height_px)
    &&& p.break_after == (i + 1 < images.len())
}

/// What a document plan over `images` with the given title must say: the
/// fixed geometry, one page per image, each page as `page_matches` demands.
pub open spec fn plan_matches(images: Seq<Seq<u8>>, title: Seq<char>, plan: DocumentPlan) -> bool {
    &&& plan.title@ == title
    &&& plan.page_width_mm == A4_WIDTH_MM
    &&& plan.page_height_mm == A4_HEIGHT_MM
    &&& plan.margin_mm == DEFAULT_MARGIN_MM
    &&& plan.dpi == DEFAULT_DPI
    &&& plan.pages@.len() == images.len()
    &&& forall|i: int| 0 <= i < images.len() ==> page_matches(images, i, #[trigger] plan.pages@[i])
}

impl DocumentPlan {
    /// Plans a whole document from a validated collection: one page per
    /// image in collection order, each scaled and rotated to best fill the
    /// default page, with page breaks between pages and none after the last.
    ///
    /// A validated collection always yields a plan; the failure case exists
    /// because the function re-reads each image's header and reports, with a
    /// one-based position, any image that no longer decodes.
    pub fn plan_document(list: &ImageDataList) -> (r: Result<DocumentPlan, PdfError>)
        ensures
            all_images_ok(list.spec_images()) ==> (r matches Ok(plan) && plan_matches(
                list.spec_images(),
                list.spec_name(),
                plan,
            )),
            !all_images_ok(list.spec_images()) ==> r == Err::<DocumentPlan, PdfError>(
                PdfError::ImageDecode {
                    index: (first_bad_index(list.spec_images()) + 1) as usize,
                },
            ),
            list.wf() ==> r is Ok,
    {
        let images: &Vec<Vec<u8>> = list.images();
        let n: usize = images.len();
        let mut pages: Vec<PagePlan> = Vec::new();
        let mut i: usize = 0;
        while i < n
            invariant
                0 <= i <= n,
                n == images@.len(),
                images.deep_view() == list.spec_images(),
                pages@.len() == i,
                forall|j: int| 0 <= j < i ==> blob_ok(#[trigger] list.spec_images()[j]),
                forall|j: int|
                    0 <= j < i ==> page_matches(list.spec_images(), j, #[trigger] pages@[j]),
            decreases n - i,
        {
            proof {
                assert(images.deep_view()[i as int] == images@[i as int]@);
            }
            match crate::image_data_list::decode_dimensions(&images[i]) {
                Some((w, h)) if w >= 1 && h >= 1 => {
                    let decision: PageLayoutDecision = plan_page_layout_default(w, h);
                    let break_after: bool = i + 1 < n;
                    pages.push(
                        PagePlan { index: i, width_px: w, height_px: h, decision, break_after },
                    );
                },
                _ => {
                    proof {
                        crate::image_data_list::lemma_first_bad_index(
                            list.spec_images(),
                            i as int,
                        );
                    }
                    return Err(PdfError::ImageDecode { index: i + 1 });
                },
            }
            i += 1;
        }
        let title: String = String::from_str(list.data_name());
        Ok(
            DocumentPlan {
                title,
                page_width_mm: A4_WIDTH_MM,
                page_height_mm: A4_HEIGHT_MM,
                margin_mm: DEFAULT_MARGIN_MM,
                dpi: DEFAULT_DPI,
                pages,
            },
        )
    }
}

} // verus!
