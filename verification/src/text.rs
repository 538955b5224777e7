use vstd::prelude::*;

verus! {

/// Character-wise comparison of two string slices.
pub fn str_equals(a: &str, b: &str) -> (equal: bool)
    ensures
        equal == (a@ == b@),
{
    let n = a.unicode_len();
    let m = b.unicode_len();
    if n != m {
        return false;
    }
    let mut i: usize = 0;
    while i < n
        invariant
            n == a@.len(),
            m == b@.len(),
            n == m,
            i <= n,
            forall|j: int| 0 <= j < i ==> a@[j] == b@[j],
        decreases n - i,
    {
        if a.get_char(i) != b.get_char(i) {
            return false;
        }
        i = i + 1;
    }
    assert(a@ =~= b@);
    true
}

/// Unicode control characters (general category Cc).
pub open spec fn is_control_char(c: char) -> bool {
    (c as u32) <= 0x1F || (0x7F <= (c as u32) && (c as u32) <= 0x9F)
}

pub open spec fn is_text_char(c: char) -> bool {
    !is_control_char(c)
}

/// The characters of `s` that are not control characters.
pub open spec fn sanitized(s: Seq<char>) -> Seq<char> {
    s.filter(|c: char| is_text_char(c))
}

/// Drops control characters from typed input; nothing is left when no character remains.
pub fn sanitize_text_input(input: Option<String>) -> (text: Option<String>)
    ensures
        input is None ==> text is None,
        input matches Some(s) ==> (if sanitized(s@).len() == 0 {
            text is None
        } else {
            text matches Some(t) && t@ == sanitized(s@)
        }),
{
    let input = match input {
        Some(s) => s,
        None => return None,
    };
    let s = input.as_str();
    let n = s.unicode_len();
    let mut out = String::new();
    let mut i: usize = 0;
    while i < n
        invariant
            n == s@.len(),
            s@ == input@,
            i <= n,
            out@ == sanitized(s@.take(i as int)),
        decreases n - i,
    {
        let c = s.get_char(i);
        proof {
            reveal_with_fuel(Seq::filter, 1);
            assert(s@.take(i + 1).drop_last() =~= s@.take(i as int));
        }
        let code = c as u32;
        if !(code <= 0x1F || (0x7F <= code && code <= 0x9F)) {
            let piece = s.substring_char(i, i + 1);
            assert(piece@ =~= seq![c]);
            out.append(piece);
        }
        i = i + 1;
    }
    assert(s@.take(n as int) =~= s@);
    if out.unicode_len() == 0 {
        None
    } else {
        Some(out)
    }
}

/// The last `max_chars` characters of `text`; all of it when it is not longer,
/// and also all of it when `max_chars` is zero.
pub open spec fn tail_chars_spec(text: Seq<char>, max_chars: nat) -> Seq<char> {
    let skip = if text.len() > max_chars { text.len() - max_chars } else { 0 };
    if skip < text.len() {
        text.subrange(skip as int, text.len() as int)
    } else {
        text
    }
}

pub fn tail_chars(text: &str, max_chars: usize) -> (tail: &str)
    ensures
        tail@ == tail_chars_spec(text@, max_chars as nat),
{
    let n = text.unicode_len();
    let skip = n.saturating_sub(max_chars);
    if skip < n {
        text.substring_char(skip, n)
    } else {
        text
    }
}

/// Longest toast text in characters.
pub const SCREENSHOT_TOAST_MAX_CHARS: usize = 72;

/// The toast shown after saving: the path, shortened from the left with "..." to fit.
pub open spec fn screenshot_toast_spec(path: Seq<char>) -> Seq<char> {
    let prefix = "File saved to "@;
    let max_path = (SCREENSHOT_TOAST_MAX_CHARS - prefix.len()) as nat;
    if path.len() <= max_path {
        prefix + path
    } else {
        prefix + "..."@ + tail_chars_spec(path, (max_path - 3) as nat)
    }
}

pub fn screenshot_toast_message(path: &str) -> (message: String)
    ensures
        message@ == screenshot_toast_spec(path@),
{
    proof {
        reveal_strlit("File saved to ");
    }
    let prefix = "File saved to ";
    let max_path_chars = SCREENSHOT_TOAST_MAX_CHARS.saturating_sub(prefix.unicode_len());
    let mut message = prefix.to_owned();
    if path.unicode_len() <= max_path_chars {
        message.append(path);
    } else {
        message.append("...");
        message.append(tail_chars(path, max_path_chars.saturating_sub(3)));
    }
    message
}

/// The tail is the end of the text: its last `max_chars` characters, or all of it when
/// the text is not longer (a limit of zero keeps all of it).
pub proof fn lemma_tail_is_a_suffix(text: Seq<char>, max_chars: nat)
    ensures
        ({
            let tail = tail_chars_spec(text, max_chars);
            &&& tail.len() == if max_chars > 0 && text.len() > max_chars { max_chars as int } else { text.len() as int }
            &&& tail == text.subrange(text.len() - tail.len(), text.len() as int)
        }),
{
    let tail = tail_chars_spec(text, max_chars);
    assert(tail =~= text.subrange(text.len() - tail.len(), text.len() as int));
}

/// The saved-screenshot toast starts with "File saved to ", is at most 72 characters
/// long, and shows the path whole when it fits, or else "..." and the path's last
/// characters.
pub proof fn lemma_toast_message_shape(path: Seq<char>)
    ensures
        ({
            let m = screenshot_toast_spec(path);
            &&& m.len() <= SCREENSHOT_TOAST_MAX_CHARS
            &&& m.take(14) == "File saved to "@
            &&& path.len() <= 58 ==> m == "File saved to "@ + path
            &&& path.len() > 58 ==> m.subrange(14, 17) == "..."@ && m.skip(17) == path.skip(path.len() - 55)
        }),
{
    reveal_strlit("File saved to ");
    reveal_strlit("...");
    let m = screenshot_toast_spec(path);
    let prefix = "File saved to "@;
    assert(prefix.len() == 14);
    assert((prefix + path).take(14) =~= prefix);
    if path.len() > 58 {
        lemma_tail_is_a_suffix(path, 55);
        assert(m =~= prefix + "..."@ + path.subrange(path.len() - 55, path.len() as int));
        assert(m.take(14) =~= prefix);
        assert(m.subrange(14, 17) =~= "..."@);
        assert(m.skip(17) =~= path.skip(path.len() - 55));
    }
}

/// Typed input keeps no control character (code points up to 0x1F and 0x7F to 0x9F),
/// and input without any is kept whole.
pub proof fn lemma_sanitized_drops_only_controls(s: Seq<char>)
    ensures
        forall|i: int| 0 <= i < sanitized(s).len() ==> {
            let c = #[trigger] sanitized(s)[i] as u32;
            c > 0x1F && !(0x7F <= c && c <= 0x9F)
        },
        (forall|i: int| 0 <= i < s.len() ==> {
            let c = #[trigger] s[i] as u32;
            c > 0x1F && !(0x7F <= c && c <= 0x9F)
        }) ==> sanitized(s) == s,
    decreases s.len(),
{
    assert forall|i: int| 0 <= i < sanitized(s).len() implies {
        let c = #[trigger] sanitized(s)[i] as u32;
        c > 0x1F && !(0x7F <= c && c <= 0x9F)
    } by {
        s.lemma_filter_pred(|c: char| is_text_char(c), i);
    }
    if s.len() > 0 {
        lemma_sanitized_drops_only_controls(s.drop_last());
        reveal_with_fuel(Seq::filter, 1);
        if forall|i: int| 0 <= i < s.len() ==> {
            let c = #[trigger] s[i] as u32;
            c > 0x1F && !(0x7F <= c && c <= 0x9F)
        } {
            assert forall|i: int| 0 <= i < s.drop_last().len() implies {
                let c = #[trigger] s.drop_last()[i] as u32;
                c > 0x1F && !(0x7F <= c && c <= 0x9F)
            } by {
                assert(s.drop_last()[i] == s[i]);
            }
            let c = s[s.len() - 1] as u32;
            assert(c > 0x1F && !(0x7F <= c && c <= 0x9F));
            assert(sanitized(s) =~= sanitized(s.drop_last()).push(s.last()));
            assert(s =~= s.drop_last().push(s.last()));
        }
    } else {
        reveal_with_fuel(Seq::filter, 1);
        assert(sanitized(s) =~= s);
    }
}

} // verus!
