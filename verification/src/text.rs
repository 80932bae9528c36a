//! Whitespace tokenization of mapping-table lines, and rejoining of path
//! fields that contain spaces.

use vstd::prelude::*;
use vstd::string::*;

verus! {

/// The field separators of the mapping table: space and horizontal tab.
pub open spec fn is_blank(c: char) -> bool {
    c == ' ' || c == '\t'
}

/// A left-to-right scan of the text: the fields completed so far, and the
/// partial field the scan stands in (empty right after a separator).
pub open spec fn field_scan(s: Seq<char>) -> (Seq<Seq<char>>, Seq<char>)
    decreases s.len(),
{
    if s.len() == 0 {
        (Seq::empty(), Seq::empty())
    } else {
        let (done, cur) = field_scan(s.drop_last());
        let c = s.last();
        if is_blank(c) {
            if cur.len() == 0 {
                (done, Seq::empty())
            } else {
                (done.push(cur), Seq::empty())
            }
        } else {
            (done, cur.push(c))
        }
    }
}

/// The whitespace-separated fields of the text: the maximal runs of
/// non-separator characters, in order; runs of separators yield nothing.
pub open spec fn fields_of(s: Seq<char>) -> Seq<Seq<char>> {
    let (done, cur) = field_scan(s);
    if cur.len() == 0 {
        done
    } else {
        done.push(cur)
    }
}

/// The given parts joined with a single space between consecutive parts.
pub open spec fn join_with_spaces(parts: Seq<Seq<char>>) -> Seq<char>
    decreases parts.len(),
{
    if parts.len() == 0 {
        Seq::empty()
    } else if parts.len() == 1 {
        parts[0]
    } else {
        join_with_spaces(parts.drop_last()) + seq![' '] + parts.last()
    }
}

/// Whether the character is a field separator.
fn is_blank_char(c: char) -> (r: bool)
    ensures
        r == is_blank(c),
{
    c == ' ' || c == '\t'
}

/// Splits the text into its whitespace-separated fields, in order.
/// Consecutive separators produce no empty fields, and separators at
/// either end are dropped, exactly as `fields_of` states.
pub fn split_fields(s: &str) -> (r: Vec<String>)
    ensures
        r.deep_view() == fields_of(s@),
{
    let n: usize = s.unicode_len();
    let mut done: Vec<String> = Vec::new();
    let mut start: usize = 0;
    let mut i: usize = 0;
    proof {
        assert(done.deep_view() =~= Seq::<Seq<char>>::empty());
        assert(s@.subrange(0, 0) =~= Seq::<char>::empty());
    }
    while i < n
        invariant
            s@.len() == n as nat,
            start <= i <= n,
            field_scan(s@.take(i as int)).0 == done.deep_view(),
            field_scan(s@.take(i as int)).1 == s@.subrange(start as int, i as int),
        decreases n - i,
    {
        let c = s.get_char(i);
        proof {
            assert(s@.take(i as int + 1).drop_last() =~= s@.take(i as int));
            assert(s@.take(i as int + 1).last() == s@[i as int]);
        }
        if is_blank_char(c) {
            if start < i {
                let field = s.substring_char(start, i);
                let ghost old_done = done.deep_view();
                done.push(field.to_owned());
                proof {
                    assert(done.deep_view() =~= old_done.push(field@));
                }
            }
            start = i + 1;
            proof {
                assert(s@.subrange(start as int, i as int + 1) =~= Seq::<char>::empty());
            }
        } else {
            proof {
                assert(s@.subrange(start as int, i as int + 1)
                    =~= s@.subrange(start as int, i as int).push(s@[i as int]));
            }
        }
        i = i + 1;
    }
    proof {
        assert(s@.take(n as int) =~= s@);
    }
    if start < n {
        let field = s.substring_char(start, n);
        let ghost old_done = done.deep_view();
        done.push(field.to_owned());
        proof {
            assert(done.deep_view() =~= old_done.push(field@));
        }
    }
    done
}

} // verus!
