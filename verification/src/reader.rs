use vstd::prelude::*;

use crate::detector::{decoded_gray, detect_from_image, outcome_of, reads_image};
use crate::error::Error;
use crate::event::{shown, Action, ActionView};

verus! {

/// A file of this media type is an image.
pub open spec fn is_image(file_type: Seq<char>) -> bool {
    "image/"@.is_prefix_of(file_type)
}

/// What becomes of a selection with the given media type, or of an empty
/// selection: it is accepted if it is an image.
pub open spec fn selection_verdict(file_type: Option<Seq<char>>) -> Result<(), Error> {
    match file_type {
        None => Err(Error::NoFileSelected),
        Some(file_type) => if is_image(file_type) {
            Ok(())
        } else {
            Err(Error::InvalidMime)
        },
    }
}

/// What the page is told at the end of a scan of one picture that ends with
/// `outcome`: what was found, and that the scan is over.
pub open spec fn image_scan_report(outcome: Result<Seq<char>, Error>) -> Seq<ActionView> {
    seq![ActionView::NotifyDetect(outcome), ActionView::NotifyStop]
}

/// Whether a file of this media type is an image.
pub fn is_image_type(file_type: &str) -> (yes: bool)
    ensures
        yes == is_image(file_type@),
{
    let prefix = "image/";
    proof {
        reveal_strlit("image/");
    }
    if file_type.unicode_len() < 6 {
        return false;
    }
    let mut i: usize = 0;
    while i < 6
        invariant
            i <= 6,
            prefix@ == "image/"@,
            prefix@.len() == 6,
            file_type@.len() >= 6,
            forall|j: int| 0 <= j < i ==> file_type@[j] == prefix@[j],
        decreases 6 - i,
    {
        if file_type.get_char(i) != prefix.get_char(i) {
            assert(file_type@.subrange(0, 6)[i as int] != prefix@[i as int]);
            return false;
        }
        i += 1;
    }
    assert(prefix@ =~= file_type@.subrange(0, 6));
    true
}

/// Checks what the user has selected before anything is read: there must be
/// a file, and it must be an image.
pub fn check_selection(file_type: Option<&str>) -> (checked: Result<(), Error>)
    ensures
        checked == selection_verdict(type_text(file_type)),
{
    match file_type {
        None => Err(Error::NoFileSelected),
        Some(file_type) => if is_image_type(file_type) {
            Ok(())
        } else {
            Err(Error::InvalidMime)
        },
    }
}

/// What the page is told of a refused selection: the failure, and nothing
/// else. No scan has started, so the page is told of no start and of no
/// stop.
pub open spec fn refusal_report(error: Error) -> Seq<ActionView> {
    seq![ActionView::NotifyDetect(Err(error))]
}

/// The actions that follow from the verdict on a selection: the page is told
/// that a scan starts where the selection is accepted, and of the failure
/// alone where it is refused.
pub open spec fn selection_report(verdict: Result<(), Error>) -> Seq<ActionView> {
    match verdict {
        Ok(_) => seq![ActionView::NotifyStart],
        Err(error) => refusal_report(error),
    }
}

/// The verdict on what the host found when the user had made a choice: where
/// the host cannot get at its file input, that is an internal failure; any
/// other selection is judged by its file.
pub open spec fn admission_verdict(input_found: bool, file_type: Option<Seq<char>>) -> Result<
    (),
    Error,
> {
    if !input_found {
        Err(Error::Internal)
    } else {
        selection_verdict(file_type)
    }
}

/// The media type of a selection, as a sequence of characters.
pub open spec fn type_text(file_type: Option<&str>) -> Option<Seq<char>> {
    match file_type {
        Some(file_type) => Some(file_type@),
        None => None,
    }
}

/// Reports a selection that is refused: the page is told of the failure and
/// of nothing else.
pub fn refuse_selection(error: Error) -> (actions: Vec<Action>)
    ensures
        shown(actions@) == refusal_report(error),
{
    let mut actions: Vec<Action> = Vec::new();
    actions.push(Action::NotifyDetect(Err(error)));
    assert(shown(actions@) =~= refusal_report(error));
    actions
}

/// Tells the page that the scan of one picture starts.
pub fn announce_image_scan() -> (actions: Vec<Action>)
    ensures
        shown(actions@) == seq![ActionView::NotifyStart],
{
    let mut actions: Vec<Action> = Vec::new();
    actions.push(Action::NotifyStart);
    assert(shown(actions@) =~= seq![ActionView::NotifyStart]);
    actions
}

/// Decides what becomes of what the user has selected, before anything is
/// read. An image is admitted and the scan of one picture begins: the page
/// is told of the start at once, and the host then reads the file and hands
/// its bytes to `finish_image_scan`. Anything else is refused with what the
/// page is to be told: the failure alone, with no start before it, and no
/// file is read.
pub fn admit_selection(input_found: bool, file_type: Option<&str>) -> (admitted: Result<
    Vec<Action>,
    Vec<Action>,
>)
    ensures
        admitted is Ok <==> admission_verdict(input_found, type_text(file_type)) is Ok,
        admitted matches Ok(actions) ==> shown(actions@) == selection_report(
            admission_verdict(input_found, type_text(file_type)),
        ),
        admitted matches Err(actions) ==> shown(actions@) == selection_report(
            admission_verdict(input_found, type_text(file_type)),
        ),
{
    if !input_found {
        return Err(refuse_selection(Error::Internal));
    }
    match check_selection(file_type) {
        Ok(()) => Ok(announce_image_scan()),
        Err(error) => Err(refuse_selection(error)),
    }
}

/// What the page is told at the end of a scan of one picture that ends with
/// `result`: what was found, and that the scan is over. Whatever the result,
/// the stop is the last thing the page is told.
pub fn report_image_scan(result: Result<String, Error>) -> (actions: Vec<Action>)
    ensures
        shown(actions@) == image_scan_report(outcome_of(result)),
{
    let mut actions: Vec<Action> = Vec::new();
    actions.push(Action::NotifyDetect(result));
    actions.push(Action::NotifyStop);
    assert(shown(actions@) =~= image_scan_report(outcome_of(result)));
    actions
}

/// Ends the scan of one picture that `admit_selection` has begun: the bytes
/// of the selected file are decoded and searched, and the page is told what
/// was found and that the scan is over. Where the host could not read the
/// file there are no bytes, and the page is told of an internal failure
/// instead.
pub fn finish_image_scan(bytes: Option<&Vec<u8>>) -> (actions: Vec<Action>)
    ensures
        bytes is None ==> shown(actions@) == image_scan_report(Err(Error::Internal)),
        bytes matches Some(given) ==> exists|outcome: Result<Seq<char>, Error>|
            reads_image(given@, outcome) && shown(actions@) == #[trigger] image_scan_report(
                outcome,
            ),
        bytes matches Some(given) ==> (decoded_gray(given@) is None <==> shown(actions@)
            == image_scan_report(Err(Error::DecodeFailed))),
{
    let result = match bytes {
        Some(bytes) => detect_from_image(bytes),
        None => Err(Error::Internal),
    };
    report_image_scan(result)
}

} // verus!
