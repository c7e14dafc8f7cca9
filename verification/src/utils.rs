use crate::text::opt_text;
use vstd::prelude::*;

verus! {

/// A line without its line ending: one trailing `\n` is dropped, and one `\r`
/// before it. A line that does not end in `\n` is left as it is.
pub open spec fn trimmed(line: Seq<char>) -> Seq<char> {
    if line.len() > 0 && line.last() == '\n' {
        let cut = line.drop_last();
        if cut.len() > 0 && cut.last() == '\r' {
            cut.drop_last()
        } else {
            cut
        }
    } else {
        line
    }
}

/// What a line of input counts for: its trimmed text, unless the field is
/// required and the text is empty, in which case the question is put again.
pub open spec fn accepted_input(line: Seq<char>, is_required: bool) -> Option<Seq<char>> {
    let answer = trimmed(line);
    if answer.len() > 0 || !is_required {
        Some(answer)
    } else {
        None
    }
}

/// The word that tells the user whether a field may be left empty.
pub open spec fn field_type(is_required: bool) -> Seq<char> {
    if is_required {
        "REQUIRED"@
    } else {
        "OPTIONAL"@
    }
}

/// The text that asks for a field: an empty line, the field's kind, the
/// request and a line feed.
pub open spec fn prompt_text(request_msg: Seq<char>, is_required: bool) -> Seq<char> {
    "\r\n"@ + field_type(is_required) + ": "@ + request_msg + "\n"@
}

/// Trims any \r and \n characters from the end of `s`.
pub fn trim_newline_characters(s: &mut String)
    ensures
        final(s)@ == trimmed(old(s)@),
{
    let n: usize = s.as_str().unicode_len();
    if n > 0 && s.as_str().get_char(n - 1) == '\n' {
        let keep: usize = if n > 1 && s.as_str().get_char(n - 2) == '\r' {
            n - 2
        } else {
            n - 1
        };
        let kept: String = String::from_str(s.as_str().substring_char(0, keep));
        assert(kept@ =~= trimmed(s@));
        *s = kept;
    }
}

/// The line to write before a field is read.
pub fn prompt(request_msg: &str, is_required: bool) -> (text: String)
    ensures
        text@ == prompt_text(request_msg@, is_required),
{
    let mut text: String = String::from_str("\r\n");
    text.append(if is_required {
        "REQUIRED"
    } else {
        "OPTIONAL"
    });
    text.append(": ");
    text.append(request_msg);
    text.append("\n");
    text
}

/// Takes the line that was read in answer to a prompt and gives the user's
/// input: the line without its ending. `None` asks for the prompt to be put
/// again, which happens when the input is empty and `is_required` is true.
pub fn get_user_input(line: String, is_required: bool) -> (input: Option<String>)
    ensures
        opt_text(input) == accepted_input(line@, is_required),
{
    let mut buf: String = line;
    trim_newline_characters(&mut buf);
    if !buf.as_str().is_empty() || !is_required {
        Some(buf)
    } else {
        None
    }
}

} // verus!
