//! Fixed-width column formatting for the rendered tables.

use vstd::prelude::*;
use vstd::string::StrSliceExecFns;
use vstd::string::StringExecFns;

verus! {

/// What a text looks like in a column of the given width, counting
/// characters:
/// - at the exact width, the text is unchanged;
/// - shorter, it is right-padded with spaces;
/// - longer, it is truncated to the width, the last three characters being
///   the ellipsis marker `...`; widths of three or fewer degenerate to that
///   many literal dots with no input-dependent content.
pub open spec fn column_text(text: Seq<char>, width: nat) -> Seq<char> {
    if text.len() == width {
        text
    } else if text.len() < width {
        text + Seq::new((width - text.len()) as nat, |i: int| ' ')
    } else if width <= 3 {
        Seq::new(width, |i: int| '.')
    } else {
        text.take(width - 3) + seq!['.', '.', '.']
    }
}

/// Format `text` into a column of `width` characters, as [`column_text`]
/// describes.
pub fn get_column_string(text: &str, width: usize) -> (r: String)
    ensures
        r@ == column_text(text@, width as nat),
{
    let len = text.unicode_len();
    if len == width {
        text.to_owned()
    } else if len < width {
        let mut column_string = text.to_owned();
        let pad = width - len;
        proof {
            reveal_strlit(" ");
            assert(column_string@ =~= text@ + Seq::new(0, |i: int| ' '));
        }
        for k in 0..pad
            invariant
                column_string@ == text@ + Seq::new(k as nat, |i: int| ' '),
        {
            column_string.append(" ");
            proof {
                reveal_strlit(" ");
                assert(column_string@ =~= text@ + Seq::new((k + 1) as nat, |i: int| ' '));
            }
        }
        column_string
    } else if width == 0 {
        let r = String::new();
        proof {
            assert(r@ =~= Seq::new(0, |i: int| '.'));
        }
        r
    } else if width <= 3 {
        let mut dots = String::new();
        proof {
            reveal_strlit(".");
            assert(dots@ =~= Seq::new(0, |i: int| '.'));
        }
        for k in 0..width
            invariant
                dots@ == Seq::new(k as nat, |i: int| '.'),
        {
            dots.append(".");
            proof {
                reveal_strlit(".");
                assert(dots@ =~= Seq::new((k + 1) as nat, |i: int| '.'));
            }
        }
        dots
    } else {
        let mut truncated = text.substring_char(0, width - 3).to_owned();
        truncated.append("...");
        proof {
            reveal_strlit("...");
            assert(truncated@ =~= text@.take(width - 3) + seq!['.', '.', '.']);
        }
        truncated
    }
}

} // verus!
