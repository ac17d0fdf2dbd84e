//! Names of files and directories.

use vstd::prelude::*;

use crate::header::AwipsId;
use crate::text;

verus! {

/// Whether a character stands in file names as it is.
pub open spec fn is_name_char(c: char) -> bool {
    text::is_alnum(c) || c == '-' || c == '_' || c == '.'
}

fn name_char(c: char) -> (r: bool)
    ensures
        r == is_name_char(c),
{
    text::alnum(c) || c == '-' || c == '_' || c == '.'
}

/// A text with every other character replaced by an underscore.
pub open spec fn replaced(raw: Seq<char>) -> Seq<char> {
    raw.map_values(
        |c: char|
            if is_name_char(c) {
                c
            } else {
                '_'
            },
    )
}

/// A path component for a text: `UNKNOWN` where it is empty.
pub open spec fn component(raw: Seq<char>) -> Seq<char> {
    if raw.len() == 0 {
        "UNKNOWN"@
    } else {
        replaced(raw)
    }
}

/// Path components are never empty and hold no character that separates
/// directories or is special in a file name.
pub proof fn component_is_safe(raw: Seq<char>)
    ensures
        component(raw).len() > 0,
        forall|i: int| 0 <= i < component(raw).len() ==> is_name_char(#[trigger] component(raw)[i]),
{
    reveal_strlit("UNKNOWN");
}

/// A path component is a path component for itself.
pub proof fn component_is_stable(raw: Seq<char>)
    ensures
        component(component(raw)) == component(raw),
{
    component_is_safe(raw);
    assert(component(component(raw)) =~= component(raw));
}

fn replace_chars(raw: &str) -> (r: Vec<char>)
    ensures
        r@ == replaced(raw@),
{
    let chars = text::to_chars(raw);
    let mut out: Vec<char> = Vec::new();
    let mut i: usize = 0;
    while i < chars.len()
        invariant
            i <= chars@.len(),
            chars@ == raw@,
            out@ == replaced(raw@).take(i as int),
        decreases chars.len() - i,
    {
        if name_char(chars[i]) {
            out.push(chars[i]);
        } else {
            out.push('_');
        }
        i += 1;
        assert(out@ =~= replaced(raw@).take(i as int));
    }
    assert(replaced(raw@).take(i as int) =~= replaced(raw@));
    out
}

/// Makes a path component of a text.
pub fn sanitize_component(raw: &str) -> (r: String)
    ensures
        r@ == component(raw@),
{
    let v = replace_chars(raw);
    if v.len() == 0 {
        "UNKNOWN".to_owned()
    } else {
        text::to_text(v.as_slice())
    }
}

/// Makes a directory name of a text.
pub fn sanitize_path_segment(value: &str) -> (r: String)
    ensures
        r@ == replaced(value@),
{
    let v = replace_chars(value);
    text::to_text(v.as_slice())
}

/// The AWIPS identifier, or what stands for none.
pub open spec fn awips_or_none(id: Option<Seq<char>>) -> Seq<char> {
    match id {
        Some(s) => s,
        None => "NO-AWIPS"@,
    }
}

/// The path component of an AWIPS identifier.
pub fn awips_component(id: &Option<AwipsId>) -> (r: String)
    ensures
        r@ == component(awips_or_none(id.deep_view())),
{
    match id {
        Some(a) => sanitize_component(a.raw()),
        None => sanitize_component("NO-AWIPS"),
    }
}

/// A field of a table line: tabs and line ends become spaces.
pub open spec fn table_field(raw: Seq<char>) -> Seq<char> {
    raw.map_values(
        |c: char|
            if c == '\t' || c == '\r' || c == '\n' {
                ' '
            } else {
                c
            },
    )
}

/// Makes a field of a table line of a text.
pub fn sanitize_tsv_field(raw: &str) -> (r: String)
    ensures
        r@ == table_field(raw@),
{
    let chars = text::to_chars(raw);
    let mut out: Vec<char> = Vec::new();
    let mut i: usize = 0;
    while i < chars.len()
        invariant
            i <= chars@.len(),
            chars@ == raw@,
            out@ == table_field(raw@).take(i as int),
        decreases chars.len() - i,
    {
        let c: char = chars[i];
        if c == '\t' || c == '\r' || c == '\n' {
            out.push(' ');
        } else {
            out.push(c);
        }
        i += 1;
        assert(out@ =~= table_field(raw@).take(i as int));
    }
    assert(table_field(raw@).take(i as int) =~= table_field(raw@));
    text::to_text(out.as_slice())
}

} // verus!
