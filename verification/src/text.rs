//! Character-level text utilities shared by the configuration parser:
//! searching, splitting, line separation and decimal parsing, each with a
//! specification-level definition and a verified executable counterpart.

use vstd::prelude::*;

verus! {

// ---------------------------------------------------------------------------
// Searching
// ---------------------------------------------------------------------------
/// Index of the first occurrence of `c` in `s`.
pub open spec fn spec_find(s: Seq<char>, c: char) -> Option<int>
    decreases s.len(),
{
    if s.len() == 0 {
        None
    } else if s[0] == c {
        Some(0int)
    } else {
        match spec_find(s.drop_first(), c) {
            Some(i) => Some(i + 1),
            None => None,
        }
    }
}

/// Index of the first occurrence of the two-character pattern `c1 c2`.
pub open spec fn spec_find2(s: Seq<char>, c1: char, c2: char) -> Option<int>
    decreases s.len(),
{
    if s.len() < 2 {
        None
    } else if s[0] == c1 && s[1] == c2 {
        Some(0int)
    } else {
        match spec_find2(s.drop_first(), c1, c2) {
            Some(i) => Some(i + 1),
            None => None,
        }
    }
}

pub proof fn lemma_find_props(s: Seq<char>, c: char)
    ensures
        match spec_find(s, c) {
            Some(i) => 0 <= i < s.len() && s[i] == c && (forall|j: int|
                0 <= j < i ==> s[j] != c),
            None => forall|j: int| 0 <= j < s.len() ==> s[j] != c,
        },
    decreases s.len(),
{
    if s.len() > 0 && s[0] != c {
        let t = s.drop_first();
        lemma_find_props(t, c);
        match spec_find(s, c) {
            Some(i) => {
                assert forall|j: int| 0 <= j < i implies s[j] != c by {
                    if j > 0 {
                        assert(t[j - 1] != c);
                    }
                }
            }
            None => {
                assert forall|j: int| 0 <= j < s.len() implies s[j] != c by {
                    if j > 0 {
                        assert(t[j - 1] != c);
                    }
                }
            }
        }
    }
}

/// The first-occurrence characterisation picks out `spec_find` uniquely.
pub proof fn lemma_find_unique(s: Seq<char>, c: char, i: int)
    requires
        0 <= i < s.len(),
        s[i] == c,
        forall|j: int| 0 <= j < i ==> s[j] != c,
    ensures
        spec_find(s, c) == Some(i),
    decreases i,
{
    if i > 0 {
        lemma_find_unique(s.drop_first(), c, i - 1);
    }
}

pub proof fn lemma_find_none(s: Seq<char>, c: char)
    requires
        forall|j: int| 0 <= j < s.len() ==> s[j] != c,
    ensures
        spec_find(s, c) is None,
    decreases s.len(),
{
    if s.len() > 0 {
        lemma_find_none(s.drop_first(), c);
    }
}

pub proof fn lemma_find2_unique(s: Seq<char>, c1: char, c2: char, i: int)
    requires
        0 <= i <= s.len() - 2,
        s[i] == c1 && s[i + 1] == c2,
        forall|j: int| 0 <= j < i ==> !((#[trigger] s[j]) == c1 && s[j + 1] == c2),
    ensures
        spec_find2(s, c1, c2) == Some(i),
    decreases i,
{
    if i > 0 {
        let t = s.drop_first();
        assert forall|j: int| 0 <= j < i - 1 implies !(t[j] == c1 && #[trigger] t[j + 1] == c2) by {
            assert(!(s[j + 1] == c1 && s[j + 2] == c2));
        }
        lemma_find2_unique(t, c1, c2, i - 1);
    }
}

pub proof fn lemma_find2_none(s: Seq<char>, c1: char, c2: char)
    requires
        forall|j: int| 0 <= j <= s.len() - 2 ==> !((#[trigger] s[j]) == c1 && s[j + 1] == c2),
    ensures
        spec_find2(s, c1, c2) is None,
    decreases s.len(),
{
    if s.len() >= 2 {
        let t = s.drop_first();
        assert forall|j: int| 0 <= j <= t.len() - 2 implies !(t[j] == c1 && #[trigger] t[j + 1]
            == c2) by {
            assert(!(s[j + 1] == c1 && s[j + 2] == c2));
        }
        lemma_find2_none(t, c1, c2);
    }
}

// ---------------------------------------------------------------------------
// Splitting
// ---------------------------------------------------------------------------
/// Split at the first occurrence of `c`, which is dropped; `None` when `c`
/// does not occur.
pub open spec fn spec_split_once(s: Seq<char>, c: char) -> Option<(Seq<char>, Seq<char>)> {
    match spec_find(s, c) {
        Some(i) => Some((s.take(i), s.skip(i + 1))),
        None => None,
    }
}

/// Split at the first occurrence of the two-character separator `c1 c2`.
pub open spec fn spec_split_once2(s: Seq<char>, c1: char, c2: char) -> Option<
    (Seq<char>, Seq<char>),
> {
    match spec_find2(s, c1, c2) {
        Some(i) => Some((s.take(i), s.skip(i + 2))),
        None => None,
    }
}

/// Does `s` end in `suffix`?
pub open spec fn spec_ends_with(s: Seq<char>, suffix: Seq<char>) -> bool {
    s.len() >= suffix.len() && s.skip(s.len() - suffix.len()) == suffix
}

// ---------------------------------------------------------------------------
// Views of a vector of strings
// ---------------------------------------------------------------------------
/// The character sequences of a sequence of strings.
pub open spec fn str_views(v: Seq<String>) -> Seq<Seq<char>> {
    v.map_values(|x: String| x@)
}

pub proof fn lemma_str_views_push(v: Seq<String>, s: String)
    ensures
        str_views(v.push(s)) == str_views(v).push(s@),
{
    assert(str_views(v.push(s)) =~= str_views(v).push(s@));
}

// ---------------------------------------------------------------------------
// Line separation
// ---------------------------------------------------------------------------
/// Drop a single trailing carriage return, as the line splitter does for
/// lines ended by `\r\n`.
pub open spec fn spec_strip_cr(s: Seq<char>) -> Seq<char> {
    if s.len() > 0 && s.last() == '\r' {
        s.drop_last()
    } else {
        s
    }
}

/// Accumulating line splitter: `cur` is the segment read so far.  A final
/// segment is a line only when it is nonempty, so a trailing newline does
/// not yield a final empty line.
pub open spec fn spec_lines_rec(s: Seq<char>, cur: Seq<char>) -> Seq<Seq<char>>
    decreases s.len(),
{
    if s.len() == 0 {
        if cur.len() == 0 {
            Seq::<Seq<char>>::empty()
        } else {
            seq![cur]
        }
    } else if s[0] == '\n' {
        seq![spec_strip_cr(cur)] + spec_lines_rec(s.drop_first(), Seq::<char>::empty())
    } else {
        spec_lines_rec(s.drop_first(), cur.push(s[0]))
    }
}

/// The lines of `s`: separated by `\n`, each line stripped of one trailing
/// `\r`, with no final empty line after a terminating newline.
pub open spec fn spec_lines(s: Seq<char>) -> Seq<Seq<char>> {
    spec_lines_rec(s, Seq::<char>::empty())
}

// ---------------------------------------------------------------------------
// Byte-order mark
// ---------------------------------------------------------------------------
/// Strip every leading byte-order-mark character.
pub open spec fn spec_strip_bom(s: Seq<char>) -> Seq<char>
    decreases s.len(),
{
    if s.len() > 0 && s[0] == '\u{feff}' {
        spec_strip_bom(s.drop_first())
    } else {
        s
    }
}

proof fn lemma_strip_bom_skip(s: Seq<char>, i: int)
    requires
        0 <= i <= s.len(),
        forall|j: int| 0 <= j < i ==> s[j] == '\u{feff}',
        i == s.len() || s[i] != '\u{feff}',
    ensures
        spec_strip_bom(s) == s.skip(i),
    decreases i,
{
    if i == 0 {
        assert(s.skip(0) =~= s);
    } else {
        let t = s.drop_first();
        lemma_strip_bom_skip(t, i - 1);
        assert(t.skip(i - 1) =~= s.skip(i));
    }
}

// ---------------------------------------------------------------------------
// Decimal numbers
// ---------------------------------------------------------------------------
pub open spec fn spec_is_digit(c: char) -> bool {
    48 <= c as u32 <= 57
}

pub open spec fn spec_digit_val(c: char) -> int {
    c as u32 - 48
}

pub open spec fn spec_all_digits(s: Seq<char>) -> bool {
    forall|i: int| 0 <= i < s.len() ==> spec_is_digit(#[trigger] s[i])
}

/// Value of a string of decimal digits.
pub open spec fn spec_dec_val(s: Seq<char>) -> int
    decreases s.len(),
{
    if s.len() == 0 {
        0
    } else {
        spec_dec_val(s.drop_last()) * 10 + spec_digit_val(s.last())
    }
}

/// The accepted unsigned decimal numbers: nonempty, digits only, within
/// `u32` range.
pub open spec fn spec_parse_u32(s: Seq<char>) -> Option<u32> {
    if s.len() > 0 && spec_all_digits(s) && spec_dec_val(s) <= u32::MAX {
        Some(spec_dec_val(s) as u32)
    } else {
        None
    }
}

proof fn lemma_dec_val_nonneg(s: Seq<char>)
    requires
        spec_all_digits(s),
    ensures
        spec_dec_val(s) >= 0,
    decreases s.len(),
{
    if s.len() > 0 {
        lemma_dec_val_nonneg(s.drop_last());
    }
}

/// Appending further digits can only increase the value.
proof fn lemma_dec_val_extend_ge(s: Seq<char>, k: int)
    requires
        spec_all_digits(s),
        0 <= k <= s.len(),
    ensures
        spec_dec_val(s) >= spec_dec_val(s.take(k)),
    decreases s.len() - k,
{
    if k < s.len() {
        lemma_dec_val_extend_ge(s, k + 1);
        let t = s.take(k + 1);
        assert(t.drop_last() =~= s.take(k));
        lemma_dec_val_nonneg(s.take(k));
    } else {
        assert(s.take(k) =~= s);
    }
}

// ---------------------------------------------------------------------------
// Executable counterparts
// ---------------------------------------------------------------------------
/// Character-wise string equality.
pub fn str_eq(a: &str, b: &str) -> (r: bool)
    ensures
        r == (a@ == b@),
{
    let an = a.unicode_len();
    let bn = b.unicode_len();
    if an != bn {
        return false;
    }
    let mut i: usize = 0;
    while i < an
        invariant
            0 <= i <= an,
            an == a@.len() && an == b@.len(),
            forall|j: int| 0 <= j < i ==> a@[j] == b@[j],
        decreases an - i,
    {
        if a.get_char(i) != b.get_char(i) {
            return false;
        }
        i = i + 1;
    }
    proof {
        assert(a@ =~= b@);
    }
    true
}

/// First occurrence of `c` in `s`.
pub fn find_char(s: &str, c: char) -> (r: Option<usize>)
    ensures
        r matches Some(i) ==> spec_find(s@, c) == Some(i as int),
        r is None ==> spec_find(s@, c) is None,
{
    let n = s.unicode_len();
    let mut i: usize = 0;
    while i < n
        invariant
            0 <= i <= n == s@.len(),
            forall|j: int| 0 <= j < i ==> s@[j] != c,
        decreases n - i,
    {
        if s.get_char(i) == c {
            proof {
                lemma_find_unique(s@, c, i as int);
            }
            return Some(i);
        }
        i = i + 1;
    }
    proof {
        lemma_find_none(s@, c);
    }
    None
}

/// First occurrence of the pattern `c1 c2` in `s`.
pub fn find_char2(s: &str, c1: char, c2: char) -> (r: Option<usize>)
    ensures
        r matches Some(i) ==> spec_find2(s@, c1, c2) == Some(i as int),
        r is None ==> spec_find2(s@, c1, c2) is None,
{
    let n = s.unicode_len();
    if n < 2 {
        proof {
            lemma_find2_none(s@, c1, c2);
        }
        return None;
    }
    let mut i: usize = 0;
    while i < n - 1
        invariant
            0 <= i <= n - 1,
            n == s@.len() && n >= 2,
            forall|j: int| 0 <= j < i ==> !((#[trigger] s@[j]) == c1 && s@[j + 1] == c2),
        decreases n - i,
    {
        if s.get_char(i) == c1 && s.get_char(i + 1) == c2 {
            proof {
                lemma_find2_unique(s@, c1, c2, i as int);
            }
            return Some(i);
        }
        i = i + 1;
    }
    proof {
        lemma_find2_none(s@, c1, c2);
    }
    None
}

/// Split at the first occurrence of `c`.
pub fn split_once(s: &str, c: char) -> (r: Option<(String, String)>)
    ensures
        r matches Some(p) ==> spec_split_once(s@, c) == Some((p.0@, p.1@)),
        r is None ==> spec_split_once(s@, c) is None,
{
    let n = s.unicode_len();
    match find_char(s, c) {
        Some(i) => {
            proof {
                lemma_find_props(s@, c);
            }
            let head = s.substring_char(0, i).to_owned();
            let tail = s.substring_char(i + 1, n).to_owned();
            proof {
                assert(head@ =~= s@.take(i as int));
                assert(tail@ =~= s@.skip(i as int + 1));
            }
            Some((head, tail))
        }
        None => None,
    }
}

/// Split at the first occurrence of the two-character separator `c1 c2`.
pub fn split_once2(s: &str, c1: char, c2: char) -> (r: Option<(String, String)>)
    ensures
        r matches Some(p) ==> spec_split_once2(s@, c1, c2) == Some((p.0@, p.1@)),
        r is None ==> spec_split_once2(s@, c1, c2) is None,
{
    let n = s.unicode_len();
    match find_char2(s, c1, c2) {
        Some(i) => {
            proof {
                lemma_find2_props(s@, c1, c2);
            }
            let head = s.substring_char(0, i).to_owned();
            let tail = s.substring_char(i + 2, n).to_owned();
            proof {
                assert(head@ =~= s@.take(i as int));
                assert(tail@ =~= s@.skip(i as int + 2));
            }
            Some((head, tail))
        }
        None => None,
    }
}

proof fn lemma_find2_props(s: Seq<char>, c1: char, c2: char)
    ensures
        spec_find2(s, c1, c2) matches Some(i) ==> 0 <= i <= s.len() - 2,
    decreases s.len(),
{
    if s.len() >= 2 && !(s[0] == c1 && s[1] == c2) {
        lemma_find2_props(s.drop_first(), c1, c2);
    }
}

/// Does `s` end in `suffix`?
pub fn ends_with(s: &str, suffix: &str) -> (r: bool)
    ensures
        r == spec_ends_with(s@, suffix@),
{
    let n = s.unicode_len();
    let m = suffix.unicode_len();
    if n < m {
        return false;
    }
    let tail = s.substring_char(n - m, n);
    let r = str_eq(tail, suffix);
    proof {
        assert(tail@ =~= s@.skip(s@.len() - suffix@.len()));
    }
    r
}

/// Strip every leading byte-order-mark character.
pub fn strip_bom(s: &str) -> (r: String)
    ensures
        r@ == spec_strip_bom(s@),
{
    let n = s.unicode_len();
    let mut i: usize = 0;
    while i < n
        invariant
            0 <= i <= n == s@.len(),
            forall|j: int| 0 <= j < i ==> s@[j] == '\u{feff}',
        decreases n - i,
    {
        if s.get_char(i) != '\u{feff}' {
            let r = s.substring_char(i, n).to_owned();
            proof {
                lemma_strip_bom_skip(s@, i as int);
                assert(r@ =~= s@.skip(i as int));
            }
            return r;
        }
        i = i + 1;
    }
    let r = s.substring_char(n, n).to_owned();
    proof {
        lemma_strip_bom_skip(s@, n as int);
        assert(r@ =~= s@.skip(n as int));
    }
    r
}

/// Split into lines: separators are `\n`, a single `\r` before each `\n`
/// is stripped, and a terminating newline yields no final empty line.
pub fn split_lines(s: &str) -> (r: Vec<String>)
    ensures
        str_views(r@) == spec_lines(s@),
{
    let n = s.unicode_len();
    let mut out: Vec<String> = Vec::new();
    let mut start: usize = 0;
    let mut i: usize = 0;
    proof {
        assert(str_views(out@) =~= Seq::<Seq<char>>::empty());
        assert(s@.subrange(0, 0) =~= Seq::<char>::empty());
        assert(s@.skip(0) =~= s@);
        assert(Seq::<Seq<char>>::empty() + spec_lines_rec(s@, Seq::<char>::empty())
            =~= spec_lines_rec(s@, Seq::<char>::empty()));
    }
    while i < n
        invariant
            0 <= start <= i <= n == s@.len(),
            spec_lines(s@) == str_views(out@) + spec_lines_rec(
                s@.skip(i as int),
                s@.subrange(start as int, i as int),
            ),
        decreases n - i,
    {
        let ghost rest = s@.skip(i as int);
        let ghost cur = s@.subrange(start as int, i as int);
        let ch = s.get_char(i);
        proof {
            assert(rest[0] == ch);
            assert(rest.drop_first() =~= s@.skip(i as int + 1));
        }
        if ch == '\n' {
            let end = if i > start && s.get_char(i - 1) == '\r' {
                i - 1
            } else {
                i
            };
            let piece = s.substring_char(start, end).to_owned();
            proof {
                if i > start && s@[i as int - 1] == '\r' {
                    assert(cur.len() > 0 && cur.last() == '\r');
                    assert(spec_strip_cr(cur) =~= s@.subrange(start as int, i as int - 1));
                } else {
                    if cur.len() > 0 {
                        assert(cur.last() == s@[i as int - 1]);
                    }
                    assert(spec_strip_cr(cur) =~= cur);
                }
                assert(piece@ =~= spec_strip_cr(cur));
                lemma_str_views_push(out@, piece);
                assert(s@.subrange(i as int + 1, i as int + 1) =~= Seq::<char>::empty());
                assert(str_views(out@.push(piece)) + spec_lines_rec(
                    s@.skip(i as int + 1),
                    Seq::<char>::empty(),
                ) =~= str_views(out@) + (seq![spec_strip_cr(cur)] + spec_lines_rec(
                    s@.skip(i as int + 1),
                    Seq::<char>::empty(),
                )));
            }
            out.push(piece);
            i = i + 1;
            start = i;
        } else {
            proof {
                assert(cur.push(ch) =~= s@.subrange(start as int, i as int + 1));
            }
            i = i + 1;
        }
    }
    proof {
        assert(s@.skip(n as int) =~= Seq::<char>::empty());
    }
    if start < n {
        let piece = s.substring_char(start, n).to_owned();
        proof {
            assert(piece@ =~= s@.subrange(start as int, n as int));
            lemma_str_views_push(out@, piece);
            assert(str_views(out@.push(piece)) =~= str_views(out@) + seq![piece@]);
        }
        out.push(piece);
    } else {
        proof {
            assert(s@.subrange(start as int, n as int).len() == 0);
            assert(str_views(out@) + Seq::<Seq<char>>::empty() =~= str_views(out@));
        }
    }
    out
}

/// Parse a nonempty all-digit decimal string as a `u32`.
pub fn parse_u32(s: &str) -> (r: Option<u32>)
    ensures
        r == spec_parse_u32(s@),
{
    let n = s.unicode_len();
    if n == 0 {
        return None;
    }
    let mut acc: u32 = 0;
    let mut i: usize = 0;
    proof {
        assert(s@.take(0) =~= Seq::<char>::empty());
    }
    while i < n
        invariant
            0 <= i <= n == s@.len(),
            n > 0,
            forall|j: int| 0 <= j < i ==> spec_is_digit(#[trigger] s@[j]),
            acc == spec_dec_val(s@.take(i as int)),
            0 <= spec_dec_val(s@.take(i as int)) <= u32::MAX,
        decreases n - i,
    {
        let c = s.get_char(i);
        let cv = c as u32;
        if cv < 48 || cv > 57 {
            return None;
        }
        let d = cv - 48;
        let wide: u64 = acc as u64 * 10 + d as u64;
        proof {
            let t = s@.take(i as int + 1);
            assert(t.drop_last() =~= s@.take(i as int));
            assert(t.last() == s@[i as int]);
            assert(spec_dec_val(t) == acc * 10 + d);
        }
        if wide > u32::MAX as u64 {
            proof {
                if spec_all_digits(s@) {
                    lemma_dec_val_extend_ge(s@, i as int + 1);
                }
            }
            return None;
        }
        acc = wide as u32;
        i = i + 1;
    }
    proof {
        assert(s@.take(n as int) =~= s@);
    }
    Some(acc)
}

} // verus!

