use vstd::prelude::*;
use vstd::string::*;

use crate::archive::{list_zip_entries, read_zip_entry, zip_entry_bytes, zip_entry_names};
use crate::document::{plan_matches, DocumentPlan};
use crate::error::AppError;
use crate::file_names::{select_image_entries, selected_names};
use crate::image_data_list::{
    all_images_ok, first_bad_index, max_height_of, max_width_of, ImageDataList,
    ImageValidationError,
};

verus! {

/// Validates a list of blobs under a name and plans its document.
///
/// Rejection mirrors validation exactly: an empty list, or the first blob
/// that is not a usable image, reported with its position in the input. A
/// list of usable images always yields the collection (holding the blobs
/// unchanged, with the true maxima) together with its page plan.
pub fn prepare_document(data: Vec<Vec<u8>>, data_name: String) -> (r: Result<
    (ImageDataList, DocumentPlan),
    AppError,
>)
    ensures
        data@.len() == 0 ==> r == Err::<(ImageDataList, DocumentPlan), AppError>(
            AppError::ImageValidation(ImageValidationError::EmptyData),
        ),
        data@.len() > 0 && !all_images_ok(data.deep_view()) ==> r == Err::<
            (ImageDataList, DocumentPlan),
            AppError,
        >(
            AppError::ImageValidation(
                ImageValidationError::NotAnImage {
                    index: first_bad_index(data.deep_view()) as usize,
                },
            ),
        ),
        data@.len() > 0 && all_images_ok(data.deep_view()) ==> (r matches Ok((list, plan)) && {
            &&& list.spec_images() == data.deep_view()
            &&& list.spec_name() == data_name@
            &&& list.spec_max_width() == max_width_of(data.deep_view())
            &&& list.spec_max_height() == max_height_of(data.deep_view())
            &&& list.wf()
            &&& plan_matches(data.deep_view(), data_name@, plan)
        }),
{
    let list: ImageDataList = match ImageDataList::new(data, data_name) {
        Ok(list) => list,
        Err(e) => {
            return Err(AppError::ImageValidation(e));
        },
    };
    match DocumentPlan::plan_document(&list) {
        Ok(plan) => Ok((list, plan)),
        Err(e) => Err(AppError::Pdf(e)),
    }
}

/// The image entries of a zip archive: its stored names filtered to
/// recognised image names and sorted, for a deterministic page order.
pub open spec fn zip_image_names(data: Seq<u8>) -> Seq<Seq<char>> {
    selected_names(zip_entry_names(data).unwrap())
}

/// Whether every selected image entry of the archive can be read.
pub open spec fn zip_images_readable(data: Seq<u8>) -> bool {
    forall|i: int|
        0 <= i < zip_image_names(data).len() ==> zip_entry_bytes(
            data,
            #[trigger] zip_image_names(data)[i],
        ) is Some
}

/// The blobs of the selected image entries, in sorted-name order.
pub open spec fn zip_image_blobs(data: Seq<u8>) -> Seq<Seq<u8>> {
    zip_image_names(data).map(|i: int, n: Seq<char>| zip_entry_bytes(data, n).unwrap())
}

/// Converts one in-memory zip archive into a validated collection and its
/// document plan.
///
/// The archive's entry names are filtered to recognised image names and
/// sorted; an archive with no image entries is skipped (no document, no
/// error). Otherwise every selected entry is read, the blobs are validated
/// as a collection named `data_name`, and its document is planned.
pub fn process_zip_data(data: &Vec<u8>, data_name: String) -> (r: Result<
    Option<(ImageDataList, DocumentPlan)>,
    AppError,
>)
    ensures
        zip_entry_names(data@) is None ==> r matches Err(AppError::Io(_)),
        zip_entry_names(data@) is Some && zip_image_names(data@).len() == 0 ==> (r matches Ok(o)
            && o is None),
        zip_entry_names(data@) is Some && zip_image_names(data@).len() > 0
            && !zip_images_readable(data@) ==> r matches Err(AppError::Io(_)),
        zip_entry_names(data@) is Some && zip_image_names(data@).len() > 0
            && zip_images_readable(data@) && !all_images_ok(zip_image_blobs(data@)) ==> r == Err::<
            Option<(ImageDataList, DocumentPlan)>,
            AppError,
        >(
            AppError::ImageValidation(
                ImageValidationError::NotAnImage {
                    index: first_bad_index(zip_image_blobs(data@)) as usize,
                },
            ),
        ),
        zip_entry_names(data@) is Some && zip_image_names(data@).len() > 0
            && zip_images_readable(data@) && all_images_ok(zip_image_blobs(data@)) ==> (
        r matches Ok(o) && o matches Some((list, plan)) && {
            &&& list.spec_images() == zip_image_blobs(data@)
            &&& list.spec_name() == data_name@
            &&& list.wf()
            &&& plan_matches(zip_image_blobs(data@), data_name@, plan)
        }),
{
    let names: Vec<String> = match list_zip_entries(data) {
        Ok(v) => v,
        Err(m) => {
            return Err(AppError::Io(m));
        },
    };
    let sel: Vec<String> = select_image_entries(&names);
    proof {
        assert(sel.deep_view() == zip_image_names(data@));
    }
    if sel.len() == 0 {
        return Ok(None);
    }
    let n: usize = sel.len();
    let mut blobs: Vec<Vec<u8>> = Vec::new();
    let mut i: usize = 0;
    while i < n
        invariant
            0 <= i <= n,
            n == sel@.len(),
            sel.deep_view() == zip_image_names(data@),
            blobs@.len() == i,
            forall|j: int|
                0 <= j < i ==> zip_entry_bytes(data@, #[trigger] zip_image_names(data@)[j])
                    is Some,
            forall|j: int|
                0 <= j < i ==> #[trigger] blobs.deep_view()[j] == zip_entry_bytes(
                    data@,
                    zip_image_names(data@)[j],
                ).unwrap(),
        decreases n - i,
    {
        proof {
            assert(sel.deep_view()[i as int] == sel@[i as int]@);
        }
        match read_zip_entry(data, sel[i].as_str()) {
            Ok(b) => {
                let ghost before: Seq<Vec<u8>> = blobs@;
                let ghost before_deep: Seq<Seq<u8>> = blobs.deep_view();
                let ghost bv: Seq<u8> = b@;
                blobs.push(b);
                proof {
                    assert forall|j: int| 0 <= j <= i implies #[trigger] blobs.deep_view()[j] == (
                    if j < i {
                        before_deep[j]
                    } else {
                        bv
                    }) by {
                        assert(blobs.deep_view()[j] == blobs@[j]@);
                        if j < i {
                            assert(blobs@[j] == before[j]);
                            assert(before_deep[j] == before[j]@);
                        }
                    }
                }
            },
            Err(m) => {
                assert(!zip_images_readable(data@));
                return Err(AppError::Io(m));
            },
        }
        i += 1;
    }
    proof {
        assert(blobs.deep_view() =~= zip_image_blobs(data@));
    }
    match prepare_document(blobs, data_name) {
        Ok(p) => Ok(Some(p)),
        Err(e) => Err(e),
    }
}

/// The verdict of a whole run over many sources: it succeeds exactly when at
/// least one source was fully processed; otherwise it reports the directory
/// that held nothing to process.
pub fn finish_run(processed_count: usize, input_dir: &str) -> (r: Result<(), AppError>)
    ensures
        processed_count == 0 ==> (r matches Err(AppError::NoItemsProcessed(d)) && d@
            == input_dir@),
        processed_count > 0 ==> r is Ok,
{
    if processed_count == 0 {
        Err(AppError::NoItemsProcessed(String::from_str(input_dir)))
    } else {
        Ok(())
    }
}

} // verus!
