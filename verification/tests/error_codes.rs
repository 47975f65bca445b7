use wascan::error::{check_host, error_codes, Error};

fn every_error() -> Vec<Error> {
    vec![
        Error::WindowNotFound,
        Error::DocumentNotFound,
        Error::NoFileSelected,
        Error::InvalidMime,
        Error::InvalidVideoElementId,
        Error::NoMedia,
        Error::NoPermission,
        Error::NotDetected,
        Error::Internal,
        Error::ImageTooSmall,
        Error::DecodeFailed,
    ]
}

#[test]
fn each_error_has_its_code() {
    assert_eq!(Error::WindowNotFound.code(), "ERR_NO_WINDOW");
    assert_eq!(Error::DocumentNotFound.code(), "ERR_NO_DOCUMENT");
    assert_eq!(Error::NoFileSelected.code(), "ERR_NO_FILE_SELECTED");
    assert_eq!(Error::InvalidMime.code(), "ERR_INVALID_MIME");
    assert_eq!(Error::InvalidVideoElementId.code(), "ERR_INVALID_VIDEO_ELEMENT_ID");
    assert_eq!(Error::NoMedia.code(), "ERR_NO_MEDIA");
    assert_eq!(Error::NoPermission.code(), "ERR_NO_PERMISSION");
    assert_eq!(Error::NotDetected.code(), "ERR_NOT_DETECTED");
    assert_eq!(Error::Internal.code(), "ERR_INTERNAL");
    assert_eq!(Error::ImageTooSmall.code(), "ERR_IMAGE_TOO_SMALL");
    assert_eq!(Error::DecodeFailed.code(), "ERR_DECODE_FAILED");
}

#[test]
fn each_error_has_its_name() {
    assert_eq!(Error::WindowNotFound.name(), "WindowNotFound");
    assert_eq!(Error::DocumentNotFound.name(), "DocumentNotFound");
    assert_eq!(Error::NoFileSelected.name(), "NoFileSelected");
    assert_eq!(Error::InvalidMime.name(), "InvalidMime");
    assert_eq!(Error::InvalidVideoElementId.name(), "InvalidVideoElementId");
    assert_eq!(Error::NoMedia.name(), "NoMedia");
    assert_eq!(Error::NoPermission.name(), "NoPermission");
    assert_eq!(Error::NotDetected.name(), "NotDetected");
    assert_eq!(Error::Internal.name(), "Internal");
    assert_eq!(Error::ImageTooSmall.name(), "ImageTooSmall");
    assert_eq!(Error::DecodeFailed.name(), "DecodeFailed");
}

#[test]
fn codes_are_distinct() {
    let all = every_error();
    for (i, a) in all.iter().enumerate() {
        for (j, b) in all.iter().enumerate() {
            assert_eq!(a.code() == b.code(), i == j);
        }
    }
}

#[test]
fn table_lists_every_error_in_order() {
    let table = error_codes();
    let all = every_error();
    assert_eq!(table.len(), 11);
    assert_eq!(all.len(), 11);
    for (row, error) in table.iter().zip(all.iter()) {
        assert_eq!(row.0, error.name());
        assert_eq!(row.1, error.code());
    }
    assert_eq!(table[0], ("WindowNotFound", "ERR_NO_WINDOW"));
    assert_eq!(table[8], ("Internal", "ERR_INTERNAL"));
    assert_eq!(table[9], ("ImageTooSmall", "ERR_IMAGE_TOO_SMALL"));
    assert_eq!(table[10], ("DecodeFailed", "ERR_DECODE_FAILED"));
}

#[test]
fn a_host_needs_a_window_and_a_document() {
    assert_eq!(check_host(true, true), Ok(()));
    assert_eq!(check_host(true, false), Err(Error::DocumentNotFound));
    assert_eq!(check_host(false, true), Err(Error::WindowNotFound));
    assert_eq!(check_host(false, false), Err(Error::WindowNotFound));
}

#[test]
fn errors_can_be_copied_and_compared() {
    let error = Error::NoMedia;
    let copy = error;
    assert_eq!(error, copy);
    assert_ne!(error, Error::NoPermission);
}
