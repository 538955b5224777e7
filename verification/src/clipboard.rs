use vstd::prelude::*;

use crate::error::AppError;
use crate::text::str_equals;

verus! {

/// MIME type of a copied screenshot.
pub const PNG_MIME_TYPE: &'static str = "image/png";
/// MIME type `wl-copy` is told for copied text.
pub const TEXT_WL_COPY_MIME_TYPE: &'static str = "text/plain";
/// MIME types offered for copied text, preferred first.
pub const TEXT_MIME_TYPE_UTF8: &'static str = "text/plain;charset=utf-8";
/// The program that copies to the clipboard when the compositor offers no data device.
pub const WL_COPY_BINARY: &'static str = "wl-copy";

/// The MIME types offered for copied text.
pub fn text_mime_types() -> (types: Vec<&'static str>)
    ensures
        types@.len() == 2,
        types@[0]@ == TEXT_MIME_TYPE_UTF8@,
        types@[1]@ == TEXT_WL_COPY_MIME_TYPE@,
{
    let mut types: Vec<&'static str> = Vec::new();
    types.push(TEXT_MIME_TYPE_UTF8);
    types.push(TEXT_WL_COPY_MIME_TYPE);
    types
}

/// How `wl-copy` is run: the program and its arguments.
#[derive(Debug, PartialEq, Eq)]
pub struct WlCopyInvocation<'a> {
    pub binary: &'static str,
    pub args: [&'a str; 2],
}

/// Runs `wl-copy` with the MIME type given explicitly.
pub fn wl_copy_invocation<'a>(mime_type: &'a str) -> (invocation: WlCopyInvocation<'a>)
    ensures
        invocation.binary@ == WL_COPY_BINARY@,
        invocation.args@[0]@ == "--type"@,
        invocation.args@[1]@ == mime_type@,
{
    WlCopyInvocation { binary: WL_COPY_BINARY, args: ["--type", mime_type] }
}

/// The clipboard can be used: through the data device, the primary selection, or `wl-copy`.
pub fn is_available(native_clipboard: bool, native_primary: bool, wl_copy: bool) -> (available: bool)
    ensures
        available == (native_clipboard || native_primary || wl_copy),
{
    native_clipboard || native_primary || wl_copy
}

/// Message of the error when no way to copy exists.
pub open spec fn no_clipboard_message() -> Seq<char> {
    "clipboard data device is not available and wl-copy is not installed"@
}

/// Message of the error when a native selection is needed but the queue handle is missing.
pub open spec fn no_queue_message() -> Seq<char> {
    "Wayland queue handle is not available"@
}

/// Before setting a native selection: it needs the Wayland queue handle.
pub fn check_queue_handle(native_needed: bool, has_queue_handle: bool) -> (checked: Result<(), AppError>)
    ensures
        !native_needed || has_queue_handle ==> checked is Ok,
        native_needed && !has_queue_handle ==> (checked matches Err(AppError::RuntimeState { message }) && message@ == no_queue_message()),
{
    if native_needed && !has_queue_handle {
        proof {
            reveal_strlit("Wayland queue handle is not available");
        }
        Err(AppError::runtime(String::from_str("Wayland queue handle is not available")))
    } else {
        Ok(())
    }
}

/// Outcome of a copy: success when the clipboard or the primary selection was set
/// natively or `wl-copy` started (`wl_copy` is `None` when it is not installed);
/// otherwise the error `wl-copy` gave, or the error that no way to copy exists.
pub fn selection_result(clipboard_set: bool, primary_set: bool, wl_copy: Option<Result<(), AppError>>) -> (result: Result<(), AppError>)
    ensures
        clipboard_set || primary_set || wl_copy == Some(Ok::<(), AppError>(())) ==> result is Ok,
        !(clipboard_set || primary_set) ==> (wl_copy matches Some(Err(e)) ==> result == Err::<(), AppError>(e)),
        !(clipboard_set || primary_set) && wl_copy is None ==> (result matches Err(AppError::RuntimeState { message })
            && message@ == no_clipboard_message()),
{
    let wl_copy_error = match wl_copy {
        Some(Ok(())) => {
            return Ok(());
        },
        Some(Err(e)) => Some(e),
        None => None,
    };
    if clipboard_set || primary_set {
        Ok(())
    } else {
        match wl_copy_error {
            Some(e) => Err(e),
            None => {
                proof {
                    reveal_strlit("clipboard data device is not available and wl-copy is not installed");
                }
                Err(AppError::runtime(String::from_str("clipboard data device is not available and wl-copy is not installed")))
            },
        }
    }
}

/// Whether a selection offered with `mime_types` is served for `mime_type`.
pub fn offers_mime_type(mime_types: &Vec<&'static str>, mime_type: &str) -> (offered: bool)
    ensures
        offered == exists|i: int| 0 <= i < mime_types@.len() && (#[trigger] mime_types@[i])@ == mime_type@,
{
    let n = mime_types.len();
    let mut i: usize = 0;
    while i < n
        invariant
            n == mime_types@.len(),
            i <= n,
            forall|j: int| 0 <= j < i ==> (#[trigger] mime_types@[j])@ != mime_type@,
        decreases n - i,
    {
        if str_equals(mime_types[i], mime_type) {
            return true;
        }
        i = i + 1;
    }
    false
}

} // verus!
