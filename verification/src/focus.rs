use vstd::prelude::*;

verus! {

/// The window keyboard and pointer actions go to: the focused one, or the only window.
pub fn active_window_id(focused: Option<u32>, window_ids: &Vec<u32>) -> (active: Option<u32>)
    ensures
        focused is Some ==> active == focused,
        focused is None && window_ids@.len() == 1 ==> active == Some(window_ids@[0]),
        focused is None && window_ids@.len() != 1 ==> active is None,
{
    match focused {
        Some(id) => Some(id),
        None => if window_ids.len() == 1 { Some(window_ids[0]) } else { None },
    }
}

/// The window whose text entry takes typed keys: the focused window when it has one
/// open, otherwise the only window with an open text entry.
pub fn active_text_output_id(focused: Option<u32>, focused_has_text: bool, with_text: &Vec<u32>) -> (target: Option<u32>)
    ensures
        focused is Some && focused_has_text ==> target == focused,
        !(focused is Some && focused_has_text) ==> target == (if with_text@.len() == 1 { Some(with_text@[0]) } else { None::<u32> }),
{
    match focused {
        Some(id) => if focused_has_text {
            return Some(id);
        },
        None => {},
    }
    if with_text.len() == 1 {
        Some(with_text[0])
    } else {
        None
    }
}

} // verus!
