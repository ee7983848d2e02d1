//! Plain string helpers: equality, prefix tests, splitting on spaces,
//! trimming, and decimal rendering of counters.

use vstd::prelude::*;

verus! {

/// Character-for-character equality of two string slices.
pub fn str_eq(a: &str, b: &str) -> (r: bool)
    ensures
        r == (a@ == b@),
{
    let x: String = a.to_owned();
    let y: String = b.to_owned();
    x == y
}

/// Whether a character sequence begins with `http`.
pub open spec fn spec_starts_http(s: Seq<char>) -> bool {
    s.len() >= 4 && s[0] == 'h' && s[1] == 't' && s[2] == 't' && s[3] == 'p'
}

/// Whether a URL string begins with the `http` scheme prefix; citation
/// URLs without it are treated as relative and ignored by the analyzer.
pub fn starts_with_http(s: &str) -> (r: bool)
    ensures
        r == spec_starts_http(s@),
{
    let n = s.unicode_len();
    if n < 4 {
        return false;
    }
    s.get_char(0) == 'h' && s.get_char(1) == 't' && s.get_char(2) == 't' && s.get_char(3) == 'p'
}

/// The decimal digit character for `d`.
pub open spec fn digit_ch(d: int) -> char {
    if d == 0 {
        '0'
    } else if d == 1 {
        '1'
    } else if d == 2 {
        '2'
    } else if d == 3 {
        '3'
    } else if d == 4 {
        '4'
    } else if d == 5 {
        '5'
    } else if d == 6 {
        '6'
    } else if d == 7 {
        '7'
    } else if d == 8 {
        '8'
    } else {
        '9'
    }
}

/// The decimal digits of a non-negative integer, most significant first.
pub open spec fn spec_dec(n: int) -> Seq<char>
    decreases n,
{
    if n < 10 {
        seq![digit_ch(if n < 0 { 0 } else { n })]
    } else {
        spec_dec(n / 10).push(digit_ch(n % 10))
    }
}

/// Index of the first space character of `s`, or `-1` if there is none.
pub open spec fn first_sp(s: Seq<char>) -> int
    decreases s.len(),
{
    if s.len() == 0 {
        -1
    } else if s[0] == ' ' {
        0
    } else {
        let r = first_sp(s.skip(1));
        if r < 0 {
            -1
        } else {
            r + 1
        }
    }
}

/// `first_sp` finds exactly the first space: it is in range, holds a
/// space, and nothing before it is a space; a negative answer means no
/// space at all.
pub proof fn lemma_first_sp(s: Seq<char>)
    ensures
        first_sp(s) >= 0 ==> {
            &&& first_sp(s) < s.len()
            &&& s[first_sp(s)] == ' '
            &&& forall|j: int| 0 <= j < first_sp(s) ==> s[j] != ' '
        },
        first_sp(s) < 0 ==> forall|j: int| 0 <= j < s.len() ==> s[j] != ' ',
    decreases s.len(),
{
    if s.len() == 0 {
    } else if s[0] == ' ' {
    } else {
        lemma_first_sp(s.skip(1));
        assert forall|j: int| 0 <= j < first_sp(s) implies s[j] != ' ' by {
            if j > 0 {
                assert(s.skip(1)[j - 1] == s[j]);
            }
        }
        if first_sp(s) < 0 {
            assert forall|j: int| 0 <= j < s.len() implies s[j] != ' ' by {
                if j > 0 {
                    assert(s.skip(1)[j - 1] == s[j]);
                }
            }
        }
    }
}

/// The pieces of `s` between its space characters, in order.  A string
/// without spaces is one piece; every space adds a piece, so the empty
/// string still yields one empty piece.
pub open spec fn spec_split_sp(s: Seq<char>) -> Seq<Seq<char>>
    decreases s.len(),
{
    let i = first_sp(s);
    if i < 0 || i >= s.len() {
        seq![s]
    } else {
        seq![s.take(i)] + spec_split_sp(s.skip(i + 1))
    }
}

/// Splits `s` on the space character, exactly as `spec_split_sp` says.
pub fn split_spaces(s: &str) -> (r: Vec<String>)
    ensures
        r@.map_values(|t: String| t@) == spec_split_sp(s@),
{
    let n = s.unicode_len();
    let mut out: Vec<String> = Vec::new();
    let mut start: usize = 0;
    let mut i: usize = 0;
    proof {
        lemma_first_sp(s@);
        assert(s@.skip(0) =~= s@);
        assert(out@.map_values(|t: String| t@) =~= Seq::<Seq<char>>::empty());
        assert(Seq::<Seq<char>>::empty() + spec_split_sp(s@) =~= spec_split_sp(s@));
    }
    while i < n
        invariant
            0 <= start <= i <= n,
            n == s@.len(),
            forall|j: int| start <= j < i ==> s@[j] != ' ',
            spec_split_sp(s@) == out@.map_values(|t: String| t@) + spec_split_sp(s@.skip(start as int)),
        decreases n - i,
    {
        if s.get_char(i) == ' ' {
            let piece = s.substring_char(start, i);
            let owned: String = piece.to_owned();
            proof {
                let rest = s@.skip(start as int);
                lemma_first_sp(rest);
                assert(rest[i - start] == s@[i as int]);
                assert forall|j: int| 0 <= j < i - start implies rest[j] != ' ' by {
                    assert(rest[j] == s@[j + start]);
                }
                if first_sp(rest) < i - start {
                    assert(rest[first_sp(rest)] == s@[first_sp(rest) + start]);
                }
                assert(first_sp(rest) == i - start);
                assert(rest.take(i - start) =~= s@.subrange(start as int, i as int));
                assert(rest.skip(i - start + 1) =~= s@.skip(i + 1));
                assert((out@ + seq![owned]).map_values(|t: String| t@) =~= out@.map_values(
                    |t: String| t@,
                ) + seq![owned@]);
            }
            out.push(owned);
            start = i + 1;
        }
        i = i + 1;
    }
    let piece = s.substring_char(start, n);
    let owned: String = piece.to_owned();
    proof {
        let rest = s@.skip(start as int);
        lemma_first_sp(rest);
        assert forall|j: int| 0 <= j < rest.len() implies rest[j] != ' ' by {
            assert(rest[j] == s@[j + start]);
        }
        assert(first_sp(rest) < 0);
        assert(rest =~= s@.subrange(start as int, n as int));
        assert((out@ + seq![owned]).map_values(|t: String| t@) =~= out@.map_values(|t: String| t@)
            + seq![owned@]);
    }
    out.push(owned);
    out
}

} // verus!
