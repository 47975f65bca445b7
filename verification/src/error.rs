use vstd::prelude::*;

verus! {

/// Every failure the scanner can report to its host.
#[derive(Debug, Clone, Copy, PartialEq, Eq, Structural)]
pub enum Error {
    /// The host has no window.
    WindowNotFound,
    /// The host window has no document, or the scanner was never given one.
    DocumentNotFound,
    /// The file dialog was closed without a file.
    NoFileSelected,
    /// The chosen file is not an image.
    InvalidMime,
    /// The identifier does not name a video surface.
    InvalidVideoElementId,
    /// No camera can be reached.
    NoMedia,
    /// The user or the host refused access to the camera.
    NoPermission,
    /// The picture was searched and no code was found in it.
    NotDetected,
    /// The host failed in a way the scanner cannot name.
    Internal,
    /// The picture has a side shorter than the least that is searched.
    ImageTooSmall,
    /// The image codec could not decode the bytes of the picture.
    DecodeFailed,
}

/// All failures, in the order in which `error_codes` lists them.
pub open spec fn all_errors() -> Seq<Error> {
    seq![
        Error::WindowNotFound,
        Error::DocumentNotFound,
        Error::NoFileSelected,
        Error::InvalidMime,
        Error::InvalidVideoElementId,
        Error::NoMedia,
        Error::NoPermission,
        Error::NotDetected,
        Error::Internal,
        Error::ImageTooSmall,
        Error::DecodeFailed,
    ]
}

impl Error {
    /// The stable code that the host sees for this failure.
    pub open spec fn code_text(self) -> Seq<char> {
        match self {
            Error::WindowNotFound => "ERR_NO_WINDOW"@,
            Error::DocumentNotFound => "ERR_NO_DOCUMENT"@,
            Error::NoFileSelected => "ERR_NO_FILE_SELECTED"@,
            Error::InvalidMime => "ERR_INVALID_MIME"@,
            Error::InvalidVideoElementId => "ERR_INVALID_VIDEO_ELEMENT_ID"@,
            Error::NoMedia => "ERR_NO_MEDIA"@,
            Error::NoPermission => "ERR_NO_PERMISSION"@,
            Error::NotDetected => "ERR_NOT_DETECTED"@,
            Error::Internal => "ERR_INTERNAL"@,
            Error::ImageTooSmall => "ERR_IMAGE_TOO_SMALL"@,
            Error::DecodeFailed => "ERR_DECODE_FAILED"@,
        }
    }

    /// The name under which the host finds this failure's code.
    pub open spec fn name_text(self) -> Seq<char> {
        match self {
            Error::WindowNotFound => "WindowNotFound"@,
            Error::DocumentNotFound => "DocumentNotFound"@,
            Error::NoFileSelected => "NoFileSelected"@,
            Error::InvalidMime => "InvalidMime"@,
            Error::InvalidVideoElementId => "InvalidVideoElementId"@,
            Error::NoMedia => "NoMedia"@,
            Error::NoPermission => "NoPermission"@,
            Error::NotDetected => "NotDetected"@,
            Error::Internal => "Internal"@,
            Error::ImageTooSmall => "ImageTooSmall"@,
            Error::DecodeFailed => "DecodeFailed"@,
        }
    }

    /// The stable code of this failure.
    pub fn code(&self) -> (code: &'static str)
        ensures
            code@ == self.code_text(),
    {
        match self {
            Error::WindowNotFound => "ERR_NO_WINDOW",
            Error::DocumentNotFound => "ERR_NO_DOCUMENT",
            Error::NoFileSelected => "ERR_NO_FILE_SELECTED",
            Error::InvalidMime => "ERR_INVALID_MIME",
            Error::InvalidVideoElementId => "ERR_INVALID_VIDEO_ELEMENT_ID",
            Error::NoMedia => "ERR_NO_MEDIA",
            Error::NoPermission => "ERR_NO_PERMISSION",
            Error::NotDetected => "ERR_NOT_DETECTED",
            Error::Internal => "ERR_INTERNAL",
            Error::ImageTooSmall => "ERR_IMAGE_TOO_SMALL",
            Error::DecodeFailed => "ERR_DECODE_FAILED",
        }
    }

    /// The name of this failure in the table of codes.
    pub fn name(&self) -> (name: &'static str)
        ensures
            name@ == self.name_text(),
    {
        match self {
            Error::WindowNotFound => "WindowNotFound",
            Error::DocumentNotFound => "DocumentNotFound",
            Error::NoFileSelected => "NoFileSelected",
            Error::InvalidMime => "InvalidMime",
            Error::InvalidVideoElementId => "InvalidVideoElementId",
            Error::NoMedia => "NoMedia",
            Error::NoPermission => "NoPermission",
            Error::NotDetected => "NotDetected",
            Error::Internal => "Internal",
            Error::ImageTooSmall => "ImageTooSmall",
            Error::DecodeFailed => "DecodeFailed",
        }
    }
}

/// What a host that lacks a window or a document is told when the scanner is
/// set up in it: the window is missed first.
pub open spec fn host_verdict(has_window: bool, has_document: bool) -> Result<(), Error> {
    if !has_window {
        Err(Error::WindowNotFound)
    } else if !has_document {
        Err(Error::DocumentNotFound)
    } else {
        Ok(())
    }
}

/// Checks that the host has what the scanner is set up in: a window, and a
/// document in it.
pub fn check_host(has_window: bool, has_document: bool) -> (checked: Result<(), Error>)
    ensures
        checked == host_verdict(has_window, has_document),
{
    if !has_window {
        Err(Error::WindowNotFound)
    } else if !has_document {
        Err(Error::DocumentNotFound)
    } else {
        Ok(())
    }
}

/// The table of codes that the host can look failures up in: one row per
/// failure, its name first and its code second, in the order of `all_errors`.
pub fn error_codes() -> (table: Vec<(&'static str, &'static str)>)
    ensures
        table@.len() == all_errors().len(),
        forall|i: int|
            0 <= i < table@.len() ==> (#[trigger] table@[i]).0@ == all_errors()[i].name_text()
                && table@[i].1@ == all_errors()[i].code_text(),
{
    let errors = [
        Error::WindowNotFound,
        Error::DocumentNotFound,
        Error::NoFileSelected,
        Error::InvalidMime,
        Error::InvalidVideoElementId,
        Error::NoMedia,
        Error::NoPermission,
        Error::NotDetected,
        Error::Internal,
        Error::ImageTooSmall,
        Error::DecodeFailed,
    ];
    let mut table: Vec<(&'static str, &'static str)> = Vec::new();
    let mut i: usize = 0;
    while i < 11
        invariant
            i <= 11,
            errors@ == all_errors(),
            table@.len() == i,
            forall|k: int|
                0 <= k < i ==> (#[trigger] table@[k]).0@ == all_errors()[k].name_text()
                    && table@[k].1@ == all_errors()[k].code_text(),
        decreases 11 - i,
    {
        let error = errors[i];
        table.push((error.name(), error.code()));
        i += 1;
    }
    table
}

/// No two failures share a code, so the host can tell them apart by code alone.
pub proof fn lemma_codes_are_distinct(a: Error, b: Error)
    requires
        a != b,
    ensures
        a.code_text() != b.code_text(),
{
    reveal_strlit("ERR_NO_WINDOW");
    reveal_strlit("ERR_NO_DOCUMENT");
    reveal_strlit("ERR_NO_FILE_SELECTED");
    reveal_strlit("ERR_INVALID_MIME");
    reveal_strlit("ERR_INVALID_VIDEO_ELEMENT_ID");
    reveal_strlit("ERR_NO_MEDIA");
    reveal_strlit("ERR_NO_PERMISSION");
    reveal_strlit("ERR_NOT_DETECTED");
    reveal_strlit("ERR_INTERNAL");
    reveal_strlit("ERR_IMAGE_TOO_SMALL");
    reveal_strlit("ERR_DECODE_FAILED");
    if a.code_text().len() == b.code_text().len() {
        assert(a.code_text()[4] != b.code_text()[4]);
    }
}

} // verus!
