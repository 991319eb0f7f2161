//! Text taken apart at a separator.

use vstd::prelude::*;
use vstd::string::StrSliceExecFns;
use crate::name_map::name_views;
use crate::packages::chars_of;

verus! {

/// The pieces of `text` between the occurrences of `separator`. There is
/// one piece more than there are separators; a piece may be empty.
pub open spec fn split(text: Seq<char>, separator: char) -> Seq<Seq<char>>
    decreases text.len(),
{
    if text.len() == 0 {
        seq![Seq::<char>::empty()]
    } else {
        let before = split(text.drop_last(), separator);
        if text.last() == separator {
            before.push(Seq::<char>::empty())
        } else {
            before.update(before.len() - 1, before.last().push(text.last()))
        }
    }
}

/// Takes `text` apart at each occurrence of `separator`.
pub fn split_text(text: &str, separator: char) -> (pieces: Vec<String>)
    ensures
        name_views(pieces@) == split(text@, separator),
        pieces@.len() >= 1,
{
    let chars = chars_of(text);
    let n = chars.len();
    let mut pieces: Vec<String> = Vec::new();
    let mut start: usize = 0;
    let mut i: usize = 0;
    proof {
        assert(text@.subrange(0, 0) =~= Seq::<char>::empty());
        assert(name_views(pieces@).push(text@.subrange(0, 0)) =~= seq![Seq::<char>::empty()]);
    }
    while i < n
        invariant
            start <= i <= n,
            n == text@.len(),
            chars@ == text@,
            name_views(pieces@).push(text@.subrange(start as int, i as int)) == split(
                text@.subrange(0, i as int),
                separator,
            ),
        decreases n - i,
    {
        let ghost done = name_views(pieces@);
        let ghost current = text@.subrange(start as int, i as int);
        proof {
            let longer = text@.subrange(0, i as int + 1);
            assert(longer.drop_last() =~= text@.subrange(0, i as int));
            assert(longer.last() == text@[i as int]);
        }
        if chars[i] == separator {
            let piece = text.substring_char(start, i).to_owned();
            pieces.push(piece);
            start = i + 1;
            proof {
                assert(name_views(pieces@) =~= done.push(current));
                assert(text@.subrange(start as int, i as int + 1) =~= Seq::<char>::empty());
            }
        } else {
            proof {
                assert(text@.subrange(start as int, i as int + 1) =~= current.push(
                    text@[i as int],
                ));
                assert(done.push(current).update(
                    done.len() as int,
                    current.push(text@[i as int]),
                ) =~= done.push(current.push(text@[i as int])));
            }
        }
        i += 1;
    }
    let ghost done = name_views(pieces@);
    let piece = text.substring_char(start, n).to_owned();
    pieces.push(piece);
    proof {
        assert(text@.subrange(0, n as int) =~= text@);
        assert(name_views(pieces@) =~= done.push(text@.subrange(start as int, n as int)));
    }
    pieces
}

} // verus!
