//! The shell command that types dictated text.

use vstd::prelude::*;
use vstd::string::*;

verus! {

/// `s` with each single quote written as `'\''`, so that it can stand inside
/// a single-quoted shell word.
pub open spec fn quote_escaped(s: Seq<char>) -> Seq<char>
    decreases s.len(),
{
    if s.len() == 0 {
        Seq::empty()
    } else {
        let c = s.last();
        quote_escaped(s.drop_last()) + if c == '\'' {
            seq!['\'', '\\', '\'', '\'']
        } else {
            seq![c]
        }
    }
}

/// The characters of `xdotool type '`.
pub open spec fn type_prefix() -> Seq<char> {
    seq!['x', 'd', 'o', 't', 'o', 'o', 'l', ' ', 't', 'y', 'p', 'e', ' ', '\'']
}

/// The shell command line that types `text` literally.
pub fn type_command(text: &str) -> (r: String)
    ensures
        r@ == type_prefix() + quote_escaped(text@) + seq!['\''],
{
    let mut out = String::from_str("xdotool type '");
    proof {
        reveal_strlit("xdotool type '");
        reveal_strlit("'\\''");
        reveal_strlit("'");
    }
    assert(out@ =~= type_prefix());
    let n = text.unicode_len();
    let mut i: usize = 0;
    while i < n
        invariant
            n == text@.len(),
            i <= n,
            out@ == type_prefix() + quote_escaped(text@.subrange(0, i as int)),
        decreases n - i,
    {
        let c = text.get_char(i);
        let ghost before = text@.subrange(0, i as int);
        let ghost after = text@.subrange(0, i + 1);
        assert(after.drop_last() =~= before);
        assert(after.last() == c);
        if c == '\'' {
            let q = "'\\''";
            proof {
                reveal_strlit("'\\''");
            }
            assert(q@ =~= seq!['\'', '\\', '\'', '\'']);
            out.append(q);
        } else {
            let one = text.substring_char(i, i + 1);
            assert(one@ =~= seq![c]);
            out.append(one);
        }
        assert(out@ =~= type_prefix() + quote_escaped(text@.subrange(0, i + 1)));
        i += 1;
    }
    assert(text@.subrange(0, n as int) =~= text@);
    out.append("'");
    assert(out@ =~= type_prefix() + quote_escaped(text@) + seq!['\'']);
    out
}

} // verus!
