use vstd::prelude::*;

use crate::text::{dec_spec, fmt_u64, parse_usize, parse_usize_spec, push_char};
use crate::youtube::{entry_seq_view, EntryView, SearchError, YouTubeSearchEntry};

verus! {

/// The selection line with one trailing newline removed.
pub open spec fn selection_body(line: Seq<char>) -> Seq<char> {
    if line.len() > 0 && line.last() == '\n' {
        line.drop_last()
    } else {
        line
    }
}

/// The index a selection line picks out of `count` results: the line with
/// its trailing newline removed, read as a decimal index below `count`.
pub open spec fn select_spec(line: Seq<char>, count: int) -> Option<usize> {
    match parse_usize_spec(selection_body(line)) {
        Some(i) => if i < count {
            Some(i)
        } else {
            None
        },
        None => None,
    }
}

/// Reads a selection line against a result count; `InputError` exactly where
/// the line is not a number or the index is out of range.
pub fn select_index(line: &str, count: usize) -> (r: Result<usize, SearchError>)
    ensures
        select_spec(line@, count as int) is Some ==> r is Ok && r->Ok_0 == select_spec(
            line@,
            count as int,
        )->Some_0,
        select_spec(line@, count as int) is None ==> r is Err && r->Err_0
            == SearchError::InputError,
{
    let n = line.unicode_len();
    let end = if n > 0 && line.get_char(n - 1) == '\n' {
        n - 1
    } else {
        n
    };
    let body = line.substring_char(0, end);
    proof {
        assert(body@ =~= selection_body(line@));
    }
    match parse_usize(body) {
        Some(i) => {
            if i < count {
                Ok(i)
            } else {
                Err(SearchError::InputError)
            }
        },
        None => Err(SearchError::InputError),
    }
}

/// The width of the longest title in a batch of results.
pub open spec fn max_width_spec(s: Seq<EntryView>) -> int
    decreases s.len(),
{
    if s.len() == 0 {
        0
    } else {
        let rest = max_width_spec(s.drop_last());
        if s.last().title.len() > rest {
            s.last().title.len() as int
        } else {
            rest
        }
    }
}

/// Finds the width of the longest title, the width the listing pads to.
pub fn max_title_width(results: &Vec<YouTubeSearchEntry>) -> (r: usize)
    ensures
        r == max_width_spec(entry_seq_view(results@)),
{
    let mut width: usize = 0;
    let n = results.len();
    let mut i: usize = 0;
    proof {
        assert(entry_seq_view(results@.take(0)) =~= Seq::<EntryView>::empty());
    }
    while i < n
        invariant
            n == results@.len(),
            i <= n,
            width == max_width_spec(entry_seq_view(results@.take(i as int))),
        decreases n - i,
    {
        let len = results[i].title.as_str().unicode_len();
        if len > width {
            width = len;
        }
        proof {
            assert(entry_seq_view(results@.take(i + 1)).drop_last() =~= entry_seq_view(
                results@.take(i as int),
            ));
            assert(entry_seq_view(results@.take(i + 1)).last() == results@[i as int]@);
        }
        i = i + 1;
    }
    proof {
        assert(results@.take(n as int) =~= results@);
    }
    width
}

/// A string padded on the right with spaces up to a width; a string already
/// that wide is left alone.
pub open spec fn pad_spec(s: Seq<char>, width: int) -> Seq<char> {
    if s.len() >= width {
        s
    } else {
        s + Seq::new((width - s.len()) as nat, |j: int| ' ')
    }
}

/// Pads a string on the right with spaces up to a width.
pub fn pad_right(s: &str, width: usize) -> (r: String)
    ensures
        r@ == pad_spec(s@, width as int),
{
    let mut out = String::from_str(s);
    let n = s.unicode_len();
    let mut k = n;
    while k < width
        invariant
            n == s@.len(),
            n <= k,
            k <= width || k == n,
            out@ == s@ + Seq::new((k - n) as nat, |j: int| ' '),
        decreases width - k,
    {
        push_char(&mut out, ' ');
        proof {
            assert(s@ + Seq::new((k + 1 - n) as nat, |j: int| ' ') =~= (s@ + Seq::new(
                (k - n) as nat,
                |j: int| ' ',
            )).push(' '));
        }
        k = k + 1;
    }
    proof {
        assert(out@ =~= pad_spec(s@, width as int));
    }
    out
}

/// One listing line: the index in decimal, a dot, the title padded to the
/// batch width, a space, then the uploader.
pub open spec fn line_spec(i: nat, title: Seq<char>, uploader: Seq<char>, width: int) -> Seq<char> {
    dec_spec(i) + ". "@ + pad_spec(title, width) + " "@ + uploader
}

/// Renders one numbered listing line.
pub fn format_result_line(i: usize, title: &str, uploader: &str, width: usize) -> (r: String)
    ensures
        r@ == line_spec(i as nat, title@, uploader@, width as int),
{
    let mut s = fmt_u64(i as u64);
    s.append(". ");
    s.append(pad_right(title, width).as_str());
    s.append(" ");
    s.append(uploader);
    proof {
        assert(s@ =~= line_spec(i as nat, title@, uploader@, width as int));
    }
    s
}

/// A string with every newline flattened to a dot, the one-line rendering of
/// a description.
pub open spec fn flatten_spec(s: Seq<char>) -> Seq<char> {
    s.map_values(
        |c: char|
            if c == '\n' {
                '.'
            } else {
                c
            },
    )
}

/// Flattens internal newlines to dots.
pub fn flatten_newlines(s: &str) -> (r: String)
    ensures
        r@ == flatten_spec(s@),
{
    let n = s.unicode_len();
    let mut out = String::new();
    let mut i: usize = 0;
    proof {
        assert(flatten_spec(s@.take(0)) =~= Seq::<char>::empty());
    }
    while i < n
        invariant
            n == s@.len(),
            i <= n,
            out@ == flatten_spec(s@.take(i as int)),
        decreases n - i,
    {
        let c = s.get_char(i);
        if c == '\n' {
            push_char(&mut out, '.');
        } else {
            push_char(&mut out, c);
        }
        proof {
            assert(flatten_spec(s@.take(i + 1)) =~= flatten_spec(s@.take(i as int)).push(
                if s@[i as int] == '\n' {
                    '.'
                } else {
                    s@[i as int]
                },
            ));
        }
        i = i + 1;
    }
    proof {
        assert(s@.take(n as int) =~= s@);
    }
    out
}

} // verus!
