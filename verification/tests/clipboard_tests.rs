use shmooz::clipboard::{
    offers_mime_type, selection_result, text_mime_types, wl_copy_invocation, PNG_MIME_TYPE,
    TEXT_WL_COPY_MIME_TYPE, WL_COPY_BINARY,
};
use shmooz::error::AppError;

#[test]
fn wl_copy_invocation_uses_explicit_png_mime_type() {
    let invocation = wl_copy_invocation(PNG_MIME_TYPE);

    assert_eq!(invocation.binary, WL_COPY_BINARY);
    assert_eq!(invocation.args, ["--type", "image/png"]);
}

#[test]
fn wl_copy_invocation_uses_plain_text_for_text_copy() {
    let invocation = wl_copy_invocation(TEXT_WL_COPY_MIME_TYPE);

    assert_eq!(invocation.binary, WL_COPY_BINARY);
    assert_eq!(invocation.args, ["--type", "text/plain"]);
}

#[test]
fn text_selection_offers_utf8_then_plain_text() {
    let types = text_mime_types();
    assert_eq!(types, vec!["text/plain;charset=utf-8", "text/plain"]);
    assert!(offers_mime_type(&types, "text/plain"));
    assert!(!offers_mime_type(&types, "image/png"));
}

#[test]
fn selection_succeeds_when_any_way_worked() {
    assert_eq!(selection_result(true, false, None), Ok(()));
    assert_eq!(selection_result(false, true, Some(Err(AppError::NoOutputs))), Ok(()));
    assert_eq!(selection_result(false, false, Some(Ok(()))), Ok(()));
}

#[test]
fn selection_reports_wl_copy_error_or_missing_clipboard() {
    assert_eq!(
        selection_result(false, false, Some(Err(AppError::NoOutputs))),
        Err(AppError::NoOutputs)
    );
    assert_eq!(
        selection_result(false, false, None),
        Err(AppError::RuntimeState {
            message: "clipboard data device is not available and wl-copy is not installed".to_owned()
        })
    );
}
