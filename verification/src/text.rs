//! Character and string primitives shared by the name and path rules.

use vstd::prelude::*;
use vstd::std_specs::iter::IteratorSpec;

verus! {

/// The code points that carry the Unicode `White_Space` property.
pub open spec fn is_whitespace(c: char) -> bool {
    let u: u32 = c as u32;
    ||| 0x09 <= u <= 0x0D
    ||| u == 0x20
    ||| u == 0x85
    ||| u == 0xA0
    ||| u == 0x1680
    ||| 0x2000 <= u <= 0x200A
    ||| u == 0x2028
    ||| u == 0x2029
    ||| u == 0x202F
    ||| u == 0x205F
    ||| u == 0x3000
}

/// The code point of `c`, with the ASCII upper-case letters folded onto
/// their lower-case counterparts.
pub open spec fn fold_ascii_case(c: char) -> u32 {
    let u: u32 = c as u32;
    if 0x41 <= u <= 0x5A {
        (u + 0x20) as u32
    } else {
        u
    }
}

/// Two texts are equal up to the case of their ASCII letters.
pub open spec fn eq_ignore_case(a: Seq<char>, b: Seq<char>) -> bool {
    &&& a.len() == b.len()
    &&& forall|i: int|
        #![auto]
        0 <= i < a.len() ==> fold_ascii_case(a[i]) == fold_ascii_case(b[i])
}

/// `s` without its leading whitespace.
pub open spec fn trim_start(s: Seq<char>) -> Seq<char>
    decreases s.len(),
{
    if s.len() > 0 && is_whitespace(s[0]) {
        trim_start(s.drop_first())
    } else {
        s
    }
}

/// `s` without its trailing whitespace.
pub open spec fn trim_end(s: Seq<char>) -> Seq<char>
    decreases s.len(),
{
    if s.len() > 0 && is_whitespace(s.last()) {
        trim_end(s.drop_last())
    } else {
        s
    }
}

/// `s` without its leading and trailing whitespace.
pub open spec fn trimmed(s: Seq<char>) -> Seq<char> {
    trim_end(trim_start(s))
}

/// The position of the first `sep` in `s`, or the length of `s` where
/// there is none.
pub open spec fn first_index_of(s: Seq<char>, sep: char) -> int
    decreases s.len(),
{
    if s.len() == 0 || s[0] == sep {
        0
    } else {
        1 + first_index_of(s.drop_first(), sep)
    }
}

/// The items of a comma-separated list: the pieces between the commas,
/// each trimmed, in order, without the pieces that trimming leaves empty.
pub open spec fn list_items(s: Seq<char>) -> Seq<Seq<char>>
    decreases s.len(),
{
    let i = first_index_of(s, ',');
    let head = trimmed(s.take(i));
    let first = if head.len() > 0 {
        seq![head]
    } else {
        Seq::empty()
    };
    if 0 <= i < s.len() {
        first + list_items(s.skip(i + 1))
    } else {
        first
    }
}

/// `s` with every backslash replaced by a forward slash.
pub open spec fn unify_separators(s: Seq<char>) -> Seq<char> {
    s.map_values(
        |c: char|
            if c == '\\' {
                '/'
            } else {
                c
            },
    )
}

proof fn lemma_trim_start(s: Seq<char>, k: int)
    requires
        0 <= k <= s.len(),
        forall|j: int| 0 <= j < k ==> is_whitespace(#[trigger] s[j]),
        k == s.len() || !is_whitespace(s[k]),
    ensures
        trim_start(s) == s.skip(k),
    decreases k,
{
    if k == 0 {
        assert(s.skip(0) =~= s);
    } else {
        let rest = s.drop_first();
        assert forall|j: int| 0 <= j < k - 1 implies is_whitespace(#[trigger] rest[j]) by {
            assert(rest[j] == s[j + 1]);
        }
        lemma_trim_start(rest, k - 1);
        assert(rest.skip(k - 1) =~= s.skip(k));
    }
}

proof fn lemma_trim_end(s: Seq<char>, k: int)
    requires
        0 <= k <= s.len(),
        forall|j: int| k <= j < s.len() ==> is_whitespace(#[trigger] s[j]),
        k == 0 || !is_whitespace(s[k - 1]),
    ensures
        trim_end(s) == s.take(k),
    decreases s.len() - k,
{
    if k == s.len() {
        assert(s.take(k) =~= s);
    } else {
        let rest = s.drop_last();
        lemma_trim_end(rest, k);
        assert(rest.take(k) =~= s.take(k));
    }
}

proof fn lemma_first_index_of(s: Seq<char>, sep: char, k: int)
    requires
        0 <= k <= s.len(),
        forall|j: int| 0 <= j < k ==> #[trigger] s[j] != sep,
        k == s.len() || s[k] == sep,
    ensures
        first_index_of(s, sep) == k,
    decreases k,
{
    if k > 0 {
        let rest = s.drop_first();
        assert forall|j: int| 0 <= j < k - 1 implies #[trigger] rest[j] != sep by {
            assert(rest[j] == s[j + 1]);
        }
        lemma_first_index_of(rest, sep, k - 1);
    }
}

/// Tells whether `c` is a whitespace character.
pub fn char_is_whitespace(c: char) -> (b: bool)
    ensures
        b == is_whitespace(c),
{
    let u: u32 = c as u32;
    (0x09 <= u && u <= 0x0D) || u == 0x20 || u == 0x85 || u == 0xA0 || u == 0x1680 || (0x2000 <= u
        && u <= 0x200A) || u == 0x2028 || u == 0x2029 || u == 0x202F || u == 0x205F || u == 0x3000
}

/// Computes [`fold_ascii_case`].
pub fn ascii_case_folded(c: char) -> (u: u32)
    ensures
        u == fold_ascii_case(c),
{
    let u: u32 = c as u32;
    if 0x41 <= u && u <= 0x5A {
        u + 0x20
    } else {
        u
    }
}

/// Collects the characters of `s`.
pub fn chars_of(s: &str) -> (v: Vec<char>)
    ensures
        v@ == s@,
{
    let mut v: Vec<char> = Vec::new();
    let mut it = s.chars();
    loop
        invariant
            v@ + it.remaining() == s@,
        ensures
            it.remaining().len() == 0,
        decreases s@.len() - v@.len(),
    {
        match it.next() {
            Some(c) => {
                v.push(c);
            },
            None => {
                break ;
            },
        }
    }
    v
}

/// Compares two texts without regard to the case of their ASCII letters.
pub fn eq_ignore_ascii_case(a: &str, b: &str) -> (r: bool)
    ensures
        r == eq_ignore_case(a@, b@),
{
    let mut left = a.chars();
    let mut right = b.chars();
    let ghost mut k: int = 0;
    loop
        invariant
            0 <= k <= a@.len(),
            k <= b@.len(),
            left.remaining() == a@.skip(k),
            right.remaining() == b@.skip(k),
            forall|j: int|
                #![auto]
                0 <= j < k ==> fold_ascii_case(a@[j]) == fold_ascii_case(b@[j]),
        decreases a@.len() - k,
    {
        match (left.next(), right.next()) {
            (Some(x), Some(y)) => {
                assert(x == a@[k] && y == b@[k]);
                if ascii_case_folded(x) != ascii_case_folded(y) {
                    return false;
                }
                proof {
                    assert(a@.skip(k).drop_first() =~= a@.skip(k + 1));
                    assert(b@.skip(k).drop_first() =~= b@.skip(k + 1));
                    k = k + 1;
                }
            },
            (None, None) => {
                return true;
            },
            _ => {
                return false;
            },
        }
    }
}

/// Tells whether two texts hold the same characters.
pub fn same_text(a: &str, b: &str) -> (r: bool)
    ensures
        r == (a@ == b@),
{
    let mut left = a.chars();
    let mut right = b.chars();
    let ghost mut k: int = 0;
    loop
        invariant
            0 <= k <= a@.len(),
            k <= b@.len(),
            left.remaining() == a@.skip(k),
            right.remaining() == b@.skip(k),
            a@.take(k) == b@.take(k),
        decreases a@.len() - k,
    {
        match (left.next(), right.next()) {
            (Some(x), Some(y)) => {
                assert(x == a@[k] && y == b@[k]);
                if x != y {
                    return false;
                }
                proof {
                    assert(a@.skip(k).drop_first() =~= a@.skip(k + 1));
                    assert(b@.skip(k).drop_first() =~= b@.skip(k + 1));
                    assert(a@.take(k + 1) =~= a@.take(k).push(x));
                    assert(b@.take(k + 1) =~= b@.take(k).push(y));
                    k = k + 1;
                }
            },
            (None, None) => {
                assert(a@.take(k) =~= a@);
                assert(b@.take(k) =~= b@);
                return true;
            },
            _ => {
                return false;
            },
        }
    }
}

/// Tells whether `s` begins with `prefix`.
pub fn starts_with(s: &str, prefix: &str) -> (r: bool)
    ensures
        r == prefix@.is_prefix_of(s@),
{
    let mut text = s.chars();
    let mut head = prefix.chars();
    let ghost mut k: int = 0;
    loop
        invariant
            0 <= k <= prefix@.len(),
            k <= s@.len(),
            text.remaining() == s@.skip(k),
            head.remaining() == prefix@.skip(k),
            s@.take(k) == prefix@.take(k),
        decreases prefix@.len() - k,
    {
        match head.next() {
            None => {
                assert(prefix@.take(k) =~= prefix@);
                assert(s@.take(k) =~= s@.subrange(0, k));
                return true;
            },
            Some(y) => {
                assert(y == prefix@[k]);
                match text.next() {
                    None => {
                        return false;
                    },
                    Some(x) => {
                        assert(x == s@[k]);
                        if x != y {
                            assert(!prefix@.is_prefix_of(s@)) by {
                                if prefix@.is_prefix_of(s@) {
                                    assert(s@.subrange(0, prefix@.len() as int)[k] == prefix@[k]);
                                }
                            }
                            return false;
                        }
                        proof {
                            assert(s@.skip(k).drop_first() =~= s@.skip(k + 1));
                            assert(prefix@.skip(k).drop_first() =~= prefix@.skip(k + 1));
                            assert(s@.take(k + 1) =~= s@.take(k).push(x));
                            assert(prefix@.take(k + 1) =~= prefix@.take(k).push(y));
                            k = k + 1;
                        }
                    },
                }
            },
        }
    }
}

/// The bounds of the piece `chars[lo..hi]` once its leading and trailing
/// whitespace is left out.
fn trim_bounds(chars: &Vec<char>, lo: usize, hi: usize) -> (bounds: (usize, usize))
    requires
        lo <= hi <= chars@.len(),
    ensures
        lo <= bounds.0 <= bounds.1 <= hi,
        chars@.subrange(bounds.0 as int, bounds.1 as int) == trimmed(
            chars@.subrange(lo as int, hi as int),
        ),
{
    let mut a: usize = lo;
    while a < hi && char_is_whitespace(chars[a])
        invariant
            lo <= a <= hi <= chars@.len(),
            forall|j: int| lo <= j < a ==> is_whitespace(#[trigger] chars@[j]),
        decreases hi - a,
    {
        a += 1;
    }
    let mut b: usize = hi;
    while b > a && char_is_whitespace(chars[b - 1])
        invariant
            a <= b <= hi <= chars@.len(),
            forall|j: int| b <= j < hi ==> is_whitespace(#[trigger] chars@[j]),
        decreases b - a,
    {
        b -= 1;
    }
    proof {
        let piece = chars@.subrange(lo as int, hi as int);
        assert forall|j: int| 0 <= j < a - lo implies is_whitespace(#[trigger] piece[j]) by {
            assert(piece[j] == chars@[lo + j]);
        }
        lemma_trim_start(piece, a - lo);
        let tail = piece.skip(a - lo);
        assert(tail =~= chars@.subrange(a as int, hi as int));
        assert forall|j: int| b - a <= j < tail.len() implies is_whitespace(#[trigger] tail[j]) by {
            assert(tail[j] == chars@[a + j]);
        }
        lemma_trim_end(tail, b - a);
        assert(tail.take(b - a) =~= chars@.subrange(a as int, b as int));
    }
    (a, b)
}

/// Reads a comma-separated list: see [`list_items`].
pub fn parse_list(s: &str) -> (items: Vec<String>)
    ensures
        items.deep_view() == list_items(s@),
{
    let chars = chars_of(s);
    let n = chars.len();
    let mut items: Vec<String> = Vec::new();
    let mut start: usize = 0;
    proof {
        assert(s@.skip(0) =~= s@);
        assert(items.deep_view() + list_items(s@) =~= list_items(s@));
    }
    loop
        invariant_except_break
            start <= n,
            n == s@.len(),
            chars@ == s@,
            items.deep_view() + list_items(s@.skip(start as int)) == list_items(s@),
        ensures
            items.deep_view() == list_items(s@),
        decreases n - start,
    {
        let mut end: usize = start;
        while end < n && chars[end] != ','
            invariant
                start <= end <= n,
                n == chars@.len(),
                forall|j: int| start <= j < end ==> #[trigger] chars@[j] != ',',
            decreases n - end,
        {
            end += 1;
        }
        let bounds = trim_bounds(&chars, start, end);
        let ghost before = items.deep_view();
        let ghost rest = s@.skip(start as int);
        proof {
            assert forall|j: int| 0 <= j < end - start implies #[trigger] rest[j] != ',' by {
                assert(rest[j] == chars@[start + j]);
            }
            lemma_first_index_of(rest, ',', end - start);
            assert(rest.take(end - start) =~= s@.subrange(start as int, end as int));
        }
        if bounds.0 < bounds.1 {
            let item = s.substring_char(bounds.0, bounds.1).to_owned();
            items.push(item);
            assert(items.deep_view() =~= before.push(s@.subrange(bounds.0 as int, bounds.1 as int)));
        }
        if end == n {
            assert(items.deep_view() =~= before + list_items(rest));
            break ;
        }
        proof {
            assert(rest.skip(end - start + 1) =~= s@.skip(end + 1));
            assert(items.deep_view() + list_items(s@.skip(end + 1)) =~= before + list_items(rest));
        }
        start = end + 1;
    }
    items
}

/// Replaces every backslash of `s` by a forward slash, so that a path
/// reads the same whichever separator the platform wrote it with.
pub fn normalize_separators(s: &str) -> (out: String)
    ensures
        out@ == unify_separators(s@),
{
    let chars = chars_of(s);
    let n = chars.len();
    let mut out = String::new();
    let mut run: usize = 0;
    let mut i: usize = 0;
    while i < n
        invariant
            run <= i <= n,
            n == s@.len(),
            chars@ == s@,
            out@ == unify_separators(s@.take(run as int)),
            forall|j: int| run <= j < i ==> #[trigger] s@[j] != '\\',
        decreases n - i,
    {
        if chars[i] == '\\' {
            out.append(s.substring_char(run, i));
            out.append("/");
            proof {
                reveal_strlit("/");
                assert(out@ =~= unify_separators(s@.take(i + 1)));
            }
            run = i + 1;
        }
        i += 1;
    }
    out.append(s.substring_char(run, n));
    assert(out@ =~= unify_separators(s@));
    out
}

} // verus!
