//! Character-level text helpers with their specifications.
//!
//! Every function here works on sequences of `char`, the view of `str` and
//! `String`, and states its result as a spec function over `Seq<char>`.
use vstd::prelude::*;
use vstd::utf8::is_ascii_chars;

verus! {

/// The Unicode `White_Space` property, which `char::is_whitespace` tests.
pub open spec fn is_ws(c: char) -> bool {
    let n = c as u32;
    ||| 9 <= n <= 13
    ||| n == 32
    ||| n == 0x85
    ||| n == 0xA0
    ||| n == 0x1680
    ||| 0x2000 <= n <= 0x200A
    ||| n == 0x2028
    ||| n == 0x2029
    ||| n == 0x202F
    ||| n == 0x205F
    ||| n == 0x3000
}

/// Whether `c` is white space (Unicode `White_Space`).
pub fn is_whitespace(c: char) -> (r: bool)
    ensures
        r == is_ws(c),
{
    let n = c as u32;
    (9 <= n && n <= 13) || n == 32 || n == 0x85 || n == 0xA0 || n == 0x1680 || (0x2000 <= n
        && n <= 0x200A) || n == 0x2028 || n == 0x2029 || n == 0x202F || n == 0x205F || n == 0x3000
}

/// ASCII upper-case letters map to lower case; every other char is kept.
pub open spec fn ascii_lower(c: char) -> char {
    if 'A' <= c <= 'Z' {
        ((c as u32) + 32) as char
    } else {
        c
    }
}

/// ASCII lower-case letters map to upper case; every other char is kept.
pub open spec fn ascii_upper(c: char) -> char {
    if 'a' <= c <= 'z' {
        ((c as u32) - 32) as char
    } else {
        c
    }
}

/// The Unicode lower-case mapping of a whole string, as `str::to_lowercase` computes it.
pub uninterp spec fn lowercase(s: Seq<char>) -> Seq<char>;

/// Calls `str::to_lowercase`. Its result is the Unicode lower-case mapping of the
/// argument; on ASCII input that mapping turns `A`..`Z` into `a`..`z` and keeps
/// every other char. Nothing is claimed of non-ASCII input beyond the name.
#[verifier::external_body]
pub(crate) fn to_lowercase(s: &str) -> (r: String)
    ensures
        r@ == lowercase(s@),
        is_ascii_chars(s@) ==> r@ == s@.map_values(|c: char| ascii_lower(c)),
{
    s.to_lowercase()
}

/// Calls `String::push`, which appends one char.
#[verifier::external_body]
pub(crate) fn push_char(s: &mut String, c: char)
    ensures
        final(s)@ == old(s)@.push(c),
{
    s.push(c)
}

/// The chars of a string, in order.
pub fn chars_of(s: &str) -> (v: Vec<char>)
    ensures
        v@ == s@,
{
    let mut v: Vec<char> = Vec::new();
    for c in it: s.chars()
        invariant
            v@ == it.seq().take(it.index() as int),
            it.seq() == s@,
    {
        v.push(c);
        proof {
            assert(it.seq().take(it.index() + 1) == it.seq().take(it.index() as int).push(c));
        }
    }
    v
}

/// A string holding the given chars.
pub fn string_of(v: &[char]) -> (s: String)
    ensures
        s@ == v@,
{
    let mut s = String::new();
    let mut i: usize = 0;
    while i < v.len()
        invariant
            i <= v.len(),
            s@ == v@.take(i as int),
        decreases v.len() - i,
    {
        push_char(&mut s, v[i]);
        proof {
            assert(v@.take(i + 1) == v@.take(i as int).push(v@[i as int]));
        }
        i = i + 1;
    }
    proof {
        assert(v@.take(v@.len() as int) == v@);
    }
    s
}


/// `pat` occurs in `s` starting at index `k`.
pub open spec fn matches_at(s: Seq<char>, pat: Seq<char>, k: int) -> bool {
    &&& 0 <= k
    &&& k + pat.len() <= s.len()
    &&& forall|j: int| 0 <= j < pat.len() ==> s[k + j] == pat[j]
}

/// `pat` occurs somewhere in `s` (what `str::contains` tests for a string pattern).
pub open spec fn has_sub(s: Seq<char>, pat: Seq<char>) -> bool {
    exists|k: int| matches_at(s, pat, k)
}

/// `s` begins with `pat`.
pub open spec fn begins_with(s: Seq<char>, pat: Seq<char>) -> bool {
    matches_at(s, pat, 0)
}

/// `s` ends with `pat`.
pub open spec fn finishes_with(s: Seq<char>, pat: Seq<char>) -> bool {
    pat.len() <= s.len() && matches_at(s, pat, s.len() - pat.len())
}

/// Whether `pat` occurs in `s` at index `k`.
pub fn match_at(s: &Vec<char>, pat: &Vec<char>, k: usize) -> (r: bool)
    ensures
        r == matches_at(s@, pat@, k as int),
{
    if k > s.len() || pat.len() > s.len() - k {
        return false;
    }
    let mut j: usize = 0;
    while j < pat.len()
        invariant
            j <= pat.len(),
            k + pat.len() <= s.len(),
            forall|t: int| 0 <= t < j ==> s@[k + t] == pat@[t],
        decreases pat.len() - j,
    {
        if s[k + j] != pat[j] {
            return false;
        }
        j = j + 1;
    }
    true
}

/// Whether `pat` occurs anywhere in `s`.
pub fn contains_seq(s: &Vec<char>, pat: &Vec<char>) -> (r: bool)
    ensures
        r == has_sub(s@, pat@),
{
    if pat.len() > s.len() {
        assert(forall|k: int| !matches_at(s@, pat@, k));
        return false;
    }
    let last = s.len() - pat.len();
    let mut k: usize = 0;
    while k <= last
        invariant
            last == s.len() - pat.len(),
            forall|t: int| 0 <= t < k ==> !matches_at(s@, pat@, t),
        decreases last + 1 - k,
    {
        if match_at(s, pat, k) {
            return true;
        }
        if k == last {
            assert(forall|t: int| !matches_at(s@, pat@, t)) by {
                assert(forall|t: int| t > last ==> !matches_at(s@, pat@, t));
            }
            return false;
        }
        k = k + 1;
    }
    false
}

/// Whether `s` contains the chars of `pat`.
pub fn contains_str(s: &Vec<char>, pat: &str) -> (r: bool)
    ensures
        r == has_sub(s@, pat@),
{
    let p = chars_of(pat);
    contains_seq(s, &p)
}

/// Whether `s` begins with the chars of `pat`.
pub fn starts_with_str(s: &Vec<char>, pat: &str) -> (r: bool)
    ensures
        r == begins_with(s@, pat@),
{
    let p = chars_of(pat);
    match_at(s, &p, 0)
}

/// Whether `s` ends with the chars of `pat`.
pub fn ends_with_str(s: &Vec<char>, pat: &str) -> (r: bool)
    ensures
        r == finishes_with(s@, pat@),
{
    let p = chars_of(pat);
    if p.len() > s.len() {
        false
    } else {
        match_at(s, &p, s.len() - p.len())
    }
}

/// `s` with leading white space removed.
pub open spec fn trim_start(s: Seq<char>) -> Seq<char>
    decreases s.len(),
{
    if s.len() > 0 && is_ws(s[0]) {
        trim_start(s.drop_first())
    } else {
        s
    }
}

/// `s` with trailing white space removed.
pub open spec fn trim_end(s: Seq<char>) -> Seq<char>
    decreases s.len(),
{
    if s.len() > 0 && is_ws(s.last()) {
        trim_end(s.drop_last())
    } else {
        s
    }
}

/// `s` with white space removed at both ends, as `str::trim` does.
pub open spec fn trim(s: Seq<char>) -> Seq<char> {
    trim_end(trim_start(s))
}

/// `s` with white space removed at both ends.
pub fn trimmed(s: &Vec<char>) -> (r: Vec<char>)
    ensures
        r@ == trim(s@),
{
    let n = s.len();
    let mut i: usize = 0;
    assert(s@.skip(0) == s@);
    while i < n && is_whitespace(s[i])
        invariant
            i <= n,
            n == s.len(),
            trim_start(s@) == trim_start(s@.skip(i as int)),
        decreases n - i,
    {
        assert(s@.skip(i as int).drop_first() == s@.skip(i + 1));
        i = i + 1;
    }
    let mut j: usize = n;
    assert(s@.skip(i as int) == s@.subrange(i as int, n as int));
    while j > i && is_whitespace(s[j - 1])
        invariant
            i <= j <= n,
            n == s.len(),
            trim_start(s@) == s@.subrange(i as int, n as int),
            trim(s@) == trim_end(s@.subrange(i as int, j as int)),
        decreases j,
    {
        assert(s@.subrange(i as int, j as int).drop_last() == s@.subrange(i as int, j - 1));
        j = j - 1;
    }
    let mut r: Vec<char> = Vec::new();
    let mut k: usize = i;
    while k < j
        invariant
            i <= k <= j <= n,
            n == s.len(),
            r@ == s@.subrange(i as int, k as int),
        decreases j - k,
    {
        r.push(s[k]);
        assert(s@.subrange(i as int, k + 1) == s@.subrange(i as int, k as int).push(s@[k as int]));
        k = k + 1;
    }
    r
}


/// `i` is the first index of `c` in `s`.
pub open spec fn first_at(s: Seq<char>, c: char, i: int) -> bool {
    &&& 0 <= i < s.len()
    &&& s[i] == c
    &&& forall|j: int| 0 <= j < i ==> s[j] != c
}

/// The part of `s` before the first `c`, or all of `s` when `c` does not occur
/// (the first item of `str::split(c)`).
pub open spec fn before_char(s: Seq<char>, c: char) -> Seq<char> {
    if exists|i: int| first_at(s, c, i) {
        s.take(choose|i: int| first_at(s, c, i))
    } else {
        s
    }
}

/// The second item of `str::split(c)`: the part between the first and the second
/// `c`, or up to the end; `None` when `c` does not occur.
pub open spec fn field_after(s: Seq<char>, c: char) -> Option<Seq<char>> {
    if exists|i: int| first_at(s, c, i) {
        Some(before_char(s.skip((choose|i: int| first_at(s, c, i)) + 1), c))
    } else {
        None
    }
}

/// The index of the first `c` in `s`.
pub fn find_char(s: &Vec<char>, c: char) -> (r: Option<usize>)
    ensures
        match r {
            Some(i) => first_at(s@, c, i as int),
            None => forall|j: int| 0 <= j < s@.len() ==> s@[j] != c,
        },
{
    let mut i: usize = 0;
    while i < s.len()
        invariant
            i <= s.len(),
            forall|j: int| 0 <= j < i ==> s@[j] != c,
        decreases s.len() - i,
    {
        if s[i] == c {
            return Some(i);
        }
        i = i + 1;
    }
    None
}

proof fn lemma_first_at_unique(s: Seq<char>, c: char, i: int)
    requires
        first_at(s, c, i),
    ensures
        (choose|k: int| first_at(s, c, k)) == i,
{
    let k = choose|k: int| first_at(s, c, k);
    assert(first_at(s, c, k));
    if k < i {
        assert(s[k] != c);
    } else if k > i {
        assert(s[i] != c);
    }
}

/// The chars from `from` (inclusive) to `to` (exclusive).
pub fn slice_chars(s: &Vec<char>, from: usize, to: usize) -> (r: Vec<char>)
    requires
        from <= to <= s.len(),
    ensures
        r@ == s@.subrange(from as int, to as int),
{
    let mut r: Vec<char> = Vec::new();
    let mut k: usize = from;
    while k < to
        invariant
            from <= k <= to <= s.len(),
            r@ == s@.subrange(from as int, k as int),
        decreases to - k,
    {
        r.push(s[k]);
        assert(s@.subrange(from as int, k + 1) == s@.subrange(from as int, k as int).push(
            s@[k as int],
        ));
        k = k + 1;
    }
    r
}

/// The part of `s` before the first `c`.
pub fn before_first(s: &Vec<char>, c: char) -> (r: Vec<char>)
    ensures
        r@ == before_char(s@, c),
{
    match find_char(s, c) {
        Some(i) => {
            proof {
                lemma_first_at_unique(s@, c, i as int);
            }
            slice_chars(s, 0, i)
        },
        None => {
            assert(s@.subrange(0, s@.len() as int) == s@);
            slice_chars(s, 0, s.len())
        },
    }
}

/// The second item of `s.split(c)`.
pub fn second_field(s: &Vec<char>, c: char) -> (r: Option<Vec<char>>)
    ensures
        match r {
            Some(f) => field_after(s@, c) == Some(f@),
            None => field_after(s@, c) is None,
        },
{
    match find_char(s, c) {
        Some(i) => {
            proof {
                lemma_first_at_unique(s@, c, i as int);
            }
            assert(i < s.len());
            let rest = slice_chars(s, i + 1, s.len());
            assert(rest@ == s@.skip(i + 1));
            Some(before_first(&rest, c))
        },
        None => None,
    }
}

/// All occurrences of `c` removed from the end of `s` (`str::trim_end_matches`).
pub open spec fn strip_trailing(s: Seq<char>, c: char) -> Seq<char>
    decreases s.len(),
{
    if s.len() > 0 && s.last() == c {
        strip_trailing(s.drop_last(), c)
    } else {
        s
    }
}

/// `s` with every trailing `c` removed.
pub fn strip_trailing_char(s: &Vec<char>, c: char) -> (r: Vec<char>)
    ensures
        r@ == strip_trailing(s@, c),
{
    let mut j: usize = s.len();
    assert(s@.subrange(0, j as int) == s@);
    while j > 0 && s[j - 1] == c
        invariant
            j <= s.len(),
            strip_trailing(s@, c) == strip_trailing(s@.subrange(0, j as int), c),
        decreases j,
    {
        assert(s@.subrange(0, j as int).drop_last() == s@.subrange(0, j - 1));
        j = j - 1;
    }
    slice_chars(s, 0, j)
}

/// The value of a string of decimal digits.
pub open spec fn digits_value(s: Seq<char>) -> nat
    decreases s.len(),
{
    if s.len() == 0 {
        0
    } else {
        digits_value(s.drop_last()) * 10 + ((s.last() as u32) - ('0' as u32)) as nat
    }
}

/// Every char of `s` is an ASCII digit.
pub open spec fn all_digits(s: Seq<char>) -> bool {
    forall|i: int| 0 <= i < s.len() ==> '0' <= #[trigger] s[i] <= '9'
}

/// `s` without one leading `+`.
pub open spec fn unsigned_body(s: Seq<char>) -> Seq<char> {
    if s.len() > 0 && s[0] == '+' {
        s.drop_first()
    } else {
        s
    }
}

/// The value of a non-empty run of digits that fits in `u64`.
pub open spec fn digits_u64(d: Seq<char>) -> Option<u64> {
    if d.len() > 0 && all_digits(d) && digits_value(d) <= u64::MAX {
        Some(digits_value(d) as u64)
    } else {
        None
    }
}

/// What `str::parse::<u64>` accepts: an optional `+`, then one or more ASCII
/// digits whose value fits in `u64`.
pub open spec fn parse_u64(s: Seq<char>) -> Option<u64> {
    digits_u64(unsigned_body(s))
}

proof fn lemma_digits_value_prefix(s: Seq<char>, i: int)
    requires
        0 <= i <= s.len(),
        all_digits(s),
    ensures
        digits_value(s.take(i)) <= digits_value(s),
    decreases s.len() - i,
{
    if i < s.len() {
        lemma_digits_value_prefix(s, i + 1);
        assert(s.take(i + 1).drop_last() == s.take(i));
    } else {
        assert(s.take(i) == s);
    }
}

/// Parses `s` as `str::parse::<u64>` does.
pub fn parse_u64_chars(s: &Vec<char>) -> (r: Option<u64>)
    ensures
        r == parse_u64(s@),
{
    let start: usize = if s.len() > 0 && s[0] == '+' {
        1
    } else {
        0
    };
    let ghost d = unsigned_body(s@);
    assert(d == s@.skip(start as int));
    if start >= s.len() {
        return None;
    }
    let mut acc: u64 = 0;
    let mut i: usize = start;
    while i < s.len()
        invariant
            start <= i <= s.len(),
            d == s@.skip(start as int),
            d == unsigned_body(s@),
            all_digits(d.take(i - start)),
            acc as nat == digits_value(d.take(i - start)),
        decreases s.len() - i,
    {
        let ch = s[i];
        assert(d.take(i + 1 - start).drop_last() == d.take(i - start));
        if ch < '0' || ch > '9' {
            assert(d[i - start] == ch);
            assert(!all_digits(d));
            return None;
        }
        let digit = (ch as u32 - '0' as u32) as u64;
        if acc > (u64::MAX - digit) / 10 {
            proof {
                let dt = d.take(i + 1 - start);
                assert(dt.last() == ch);
                assert(digits_value(dt) == digits_value(d.take(i - start)) * 10 + digit);
                assert(acc * 10 + digit > u64::MAX) by (nonlinear_arith)
                    requires
                        acc > (u64::MAX - digit) / 10,
                        digit <= 9,
                ;
                if all_digits(d) {
                    lemma_digits_value_prefix(d, i + 1 - start);
                }
            }
            return None;
        }
        acc = acc * 10 + digit;
        i = i + 1;
    }
    assert(d.take(s.len() - start) == d);
    Some(acc)
}

/// The view of each vector in a sequence of char vectors.
pub open spec fn views(v: Seq<Vec<char>>) -> Seq<Seq<char>> {
    v.map_values(|x: Vec<char>| x@)
}

/// The items of `str::split(c)`: the pieces between the occurrences of `c`.
pub open spec fn pieces(s: Seq<char>, c: char) -> Seq<Seq<char>>
    decreases s.len(),
{
    if s.len() == 0 {
        seq![Seq::<char>::empty()]
    } else {
        let p = pieces(s.drop_last(), c);
        if s.last() == c {
            p.push(Seq::<char>::empty())
        } else {
            p.update(p.len() - 1, p.last().push(s.last()))
        }
    }
}

proof fn lemma_pieces_len(s: Seq<char>, c: char)
    ensures
        pieces(s, c).len() >= 1,
    decreases s.len(),
{
    if s.len() > 0 {
        lemma_pieces_len(s.drop_last(), c);
    }
}

/// Splits `s` at every `c`.
pub fn split_char(s: &Vec<char>, c: char) -> (r: Vec<Vec<char>>)
    ensures
        views(r@) == pieces(s@, c),
{
    let mut done: Vec<Vec<char>> = Vec::new();
    let mut cur: Vec<char> = Vec::new();
    let mut i: usize = 0;
    assert(s@.take(0) == Seq::<char>::empty());
    while i < s.len()
        invariant
            i <= s.len(),
            views(done@).push(cur@) == pieces(s@.take(i as int), c),
        decreases s.len() - i,
    {
        let ch = s[i];
        assert(s@.take(i + 1).drop_last() == s@.take(i as int));
        proof {
            lemma_pieces_len(s@.take(i as int), c);
        }
        if ch == c {
            let ghost dv = views(done@);
            let ghost cv = cur@;
            done.push(cur);
            assert(views(done@) =~= dv.push(cv));
            cur = Vec::new();
            assert(views(done@).push(cur@) =~= pieces(s@.take(i + 1), c));
        } else {
            let ghost dv = views(done@);
            cur.push(ch);
            assert(views(done@).push(cur@) =~= pieces(s@.take(i + 1), c));
        }
        i = i + 1;
    }
    assert(s@.take(s@.len() as int) == s@);
    let ghost dv = views(done@);
    let ghost cv = cur@;
    done.push(cur);
    assert(views(done@) =~= dv.push(cv));
    done
}


/// The items of `str::split_whitespace`: the maximal runs of non-white-space chars.
pub open spec fn words(s: Seq<char>) -> Seq<Seq<char>>
    decreases s.len(),
{
    if s.len() == 0 {
        Seq::<Seq<char>>::empty()
    } else if is_ws(s.last()) {
        words(s.drop_last())
    } else if s.len() >= 2 && !is_ws(s[s.len() - 2]) {
        let w = words(s.drop_last());
        w.update(w.len() - 1, w.last().push(s.last()))
    } else {
        words(s.drop_last()).push(seq![s.last()])
    }
}

proof fn lemma_words_nonempty(s: Seq<char>)
    requires
        s.len() > 0,
        !is_ws(s.last()),
    ensures
        words(s).len() > 0,
    decreases s.len(),
{
    if s.len() >= 2 && !is_ws(s[s.len() - 2]) {
        assert(s.drop_last().last() == s[s.len() - 2]);
        lemma_words_nonempty(s.drop_last());
    }
}

/// Splits `s` into its white-space separated words.
pub fn split_words(s: &Vec<char>) -> (r: Vec<Vec<char>>)
    ensures
        views(r@) == words(s@),
{
    let mut out: Vec<Vec<char>> = Vec::new();
    let mut i: usize = 0;
    assert(s@.take(0) == Seq::<char>::empty());
    assert(views(out@) =~= Seq::<Seq<char>>::empty());
    while i < s.len()
        invariant
            i <= s.len(),
            views(out@) == words(s@.take(i as int)),
        decreases s.len() - i,
    {
        let ch = s[i];
        let ghost t = s@.take(i + 1);
        assert(t.drop_last() == s@.take(i as int));
        assert(t.last() == ch);
        if is_whitespace(ch) {
        } else if i >= 1 && !is_whitespace(s[i - 1]) {
            assert(t[t.len() - 2] == s@[i - 1]);
            proof {
                assert(s@.take(i as int).last() == s@[i - 1]);
                lemma_words_nonempty(s@.take(i as int));
            }
            let ghost ov = views(out@);
            let mut w = out.pop().unwrap();
            assert(ov == views(out@).push(w@));
            w.push(ch);
            out.push(w);
            assert(views(out@) =~= ov.update(ov.len() - 1, ov.last().push(ch)));
        } else {
            let ghost ov = views(out@);
            let mut w: Vec<char> = Vec::new();
            w.push(ch);
            out.push(w);
            assert(views(out@) =~= ov.push(seq![ch]));
        }
        i = i + 1;
    }
    assert(s@.take(s@.len() as int) == s@);
    out
}

/// `l` without one trailing carriage return.
pub open spec fn strip_cr(l: Seq<char>) -> Seq<char> {
    if l.len() > 0 && l.last() == '\r' {
        l.drop_last()
    } else {
        l
    }
}

/// The items of `str::lines`: the string split at `\n`, each line that a `\n`
/// ended losing one trailing `\r`, and no final empty line.
pub open spec fn lines(s: Seq<char>) -> Seq<Seq<char>> {
    let p = pieces(s, '\n');
    let ended = p.drop_last().map_values(|l: Seq<char>| strip_cr(l));
    if p.last().len() == 0 {
        ended
    } else {
        ended.push(p.last())
    }
}

/// `l` without one trailing carriage return.
pub fn without_cr(l: &Vec<char>) -> (r: Vec<char>)
    ensures
        r@ == strip_cr(l@),
{
    if l.len() > 0 && l[l.len() - 1] == '\r' {
        slice_chars(l, 0, l.len() - 1)
    } else {
        assert(l@.subrange(0, l@.len() as int) == l@);
        slice_chars(l, 0, l.len())
    }
}

/// Splits `s` into lines.
pub fn split_lines(s: &Vec<char>) -> (r: Vec<Vec<char>>)
    ensures
        views(r@) == lines(s@),
{
    let p = split_char(s, '\n');
    proof {
        lemma_pieces_len(s@, '\n');
    }
    let ghost pv = pieces(s@, '\n');
    let n = p.len();
    let mut out: Vec<Vec<char>> = Vec::new();
    let mut i: usize = 0;
    while i + 1 < n
        invariant
            n == p.len(),
            n >= 1,
            i + 1 <= n,
            views(p@) == pv,
            views(out@) == pv.drop_last().take(i as int).map_values(|l: Seq<char>| strip_cr(l)),
        decreases n - i,
    {
        let ghost ov = views(out@);
        let l = without_cr(&p[i]);
        let ghost lv = l@;
        out.push(l);
        assert(views(out@) =~= ov.push(lv));
        assert(pv[i as int] == p@[i as int]@);
        assert(pv.drop_last().take(i + 1) =~= pv.drop_last().take(i as int).push(pv[i as int]));
        assert(views(out@) =~= pv.drop_last().take(i + 1).map_values(
            |l: Seq<char>| strip_cr(l),
        ));
        i = i + 1;
    }
    assert(pv.drop_last().take(i as int) == pv.drop_last());
    let last = &p[n - 1];
    assert(pv.last() == last@);
    if last.len() == 0 {
        out
    } else {
        let ghost ov = views(out@);
        out.push(slice_chars(last, 0, last.len()));
        assert(last@.subrange(0, last@.len() as int) == last@);
        assert(views(out@) =~= ov.push(last@));
        out
    }
}


/// Whether two char vectors hold the same chars.
pub fn same_chars(a: &Vec<char>, b: &Vec<char>) -> (r: bool)
    ensures
        r == (a@ == b@),
{
    if a.len() != b.len() {
        return false;
    }
    let mut i: usize = 0;
    while i < a.len()
        invariant
            i <= a.len(),
            a.len() == b.len(),
            forall|j: int| 0 <= j < i ==> a@[j] == b@[j],
        decreases a.len() - i,
    {
        if a[i] != b[i] {
            return false;
        }
        i = i + 1;
    }
    assert(a@ =~= b@);
    true
}

/// Whether two strings hold the same chars.
pub fn same_str(a: &str, b: &str) -> (r: bool)
    ensures
        r == (a@ == b@),
{
    let x = chars_of(a);
    let y = chars_of(b);
    same_chars(&x, &y)
}


/// The Unicode lower-case mapping of some chars.
pub fn lower_chars(v: &Vec<char>) -> (r: Vec<char>)
    ensures
        r@ == lowercase(v@),
{
    let s = string_of(v.as_slice());
    let l = to_lowercase(s.as_str());
    chars_of(l.as_str())
}

/// `i` is the last index of `c` in `s`.
pub open spec fn last_at(s: Seq<char>, c: char, i: int) -> bool {
    &&& 0 <= i < s.len()
    &&& s[i] == c
    &&& forall|j: int| i < j < s.len() ==> s[j] != c
}

/// The part of `s` after the last `c`, or all of `s` when `c` does not occur
/// (the first item of `str::rsplit(c)`).
pub open spec fn after_last_char(s: Seq<char>, c: char) -> Seq<char> {
    if exists|i: int| last_at(s, c, i) {
        s.skip((choose|i: int| last_at(s, c, i)) + 1)
    } else {
        s
    }
}

/// The part of `s` after the last `c`.
pub fn after_last(s: &Vec<char>, c: char) -> (r: Vec<char>)
    ensures
        r@ == after_last_char(s@, c),
{
    let mut j: usize = s.len();
    while j > 0 && s[j - 1] != c
        invariant
            j <= s.len(),
            forall|t: int| j <= t < s.len() ==> s@[t] != c,
        decreases j,
    {
        j = j - 1;
    }
    if j == 0 {
        assert(forall|i: int| !last_at(s@, c, i));
        assert(s@.subrange(0, s@.len() as int) == s@);
        slice_chars(s, 0, s.len())
    } else {
        let ghost i = j - 1;
        assert(last_at(s@, c, i));
        let ghost k = choose|k: int| last_at(s@, c, k);
        assert(k == i) by {
            if k < i {
                assert(s@[i] != c);
            } else if k > i {
                assert(s@[k] != c);
            }
        }
        slice_chars(s, j, s.len())
    }
}


/// The chars of `a` followed by those of `b`.
pub fn concat_chars(a: &Vec<char>, b: &Vec<char>) -> (r: Vec<char>)
    ensures
        r@ == a@ + b@,
{
    let mut r = slice_chars(a, 0, a.len());
    assert(a@.subrange(0, a@.len() as int) == a@);
    let mut i: usize = 0;
    while i < b.len()
        invariant
            i <= b.len(),
            r@ == a@ + b@.take(i as int),
        decreases b.len() - i,
    {
        r.push(b[i]);
        assert(b@.take(i + 1) == b@.take(i as int).push(b@[i as int]));
        assert(a@ + b@.take(i + 1) =~= (a@ + b@.take(i as int)).push(b@[i as int]));
        i = i + 1;
    }
    assert(b@.take(b@.len() as int) == b@);
    r
}

/// The chars of an optional string.
pub open spec fn opt_chars(o: Option<&str>) -> Option<Seq<char>> {
    match o {
        Some(t) => Some(t@),
        None => None,
    }
}

/// The trimmed text of a value read from a file, when it is not empty.
pub open spec fn nonempty_trimmed(o: Option<Seq<char>>) -> Option<Seq<char>> {
    match o {
        Some(t) => if trim(t).len() > 0 {
            Some(trim(t))
        } else {
            None
        },
        None => None,
    }
}

/// The number in a value read from a file, surrounding white space ignored.
pub open spec fn trimmed_u64(o: Option<Seq<char>>) -> Option<u64> {
    match o {
        Some(t) => parse_u64(trim(t)),
        None => None,
    }
}

/// The trimmed contents of a file read into `contents`, when they are not empty.
pub fn text_value(contents: Option<&str>) -> (r: Option<Vec<char>>)
    ensures
        match r {
            Some(v) => nonempty_trimmed(opt_chars(contents)) == Some(v@),
            None => nonempty_trimmed(opt_chars(contents)) is None,
        },
{
    match contents {
        Some(t) => {
            let c = chars_of(t);
            let tr = trimmed(&c);
            if tr.len() > 0 {
                Some(tr)
            } else {
                None
            }
        },
        None => None,
    }
}

/// The number held by the contents of a file, surrounding white space ignored.
pub fn u64_value(contents: Option<&str>) -> (r: Option<u64>)
    ensures
        r == trimmed_u64(opt_chars(contents)),
{
    match contents {
        Some(t) => {
            let c = chars_of(t);
            let tr = trimmed(&c);
            parse_u64_chars(&tr)
        },
        None => None,
    }
}


/// The chars of an optional owned string.
pub open spec fn opt_string(o: Option<String>) -> Option<Seq<char>> {
    match o {
        Some(t) => Some(t@),
        None => None,
    }
}

/// A copy of a string.
pub fn copy_string(s: &String) -> (r: String)
    ensures
        r@ == s@,
{
    s.clone()
}

/// A copy of an optional string.
pub fn copy_opt_string(o: &Option<String>) -> (r: Option<String>)
    ensures
        opt_string(r) == opt_string(*o),
{
    match o {
        Some(t) => Some(t.clone()),
        None => None,
    }
}

/// The thousandths in the first three digits after a decimal point.
pub open spec fn frac_millis(f: Seq<char>) -> nat {
    if f.len() >= 3 {
        digits_value(f.take(3))
    } else if f.len() == 2 {
        digits_value(f) * 10
    } else if f.len() == 1 {
        digits_value(f) * 100
    } else {
        0
    }
}

/// A plain decimal number — an optional `+`, digits, optionally a point and
/// more digits, at least one digit in all — in thousandths, rounded down.
pub open spec fn decimal_millis(s: Seq<char>) -> Option<nat> {
    let b = unsigned_body(s);
    if exists|i: int| first_at(b, '.', i) {
        let i = choose|i: int| first_at(b, '.', i);
        let ip = b.take(i);
        let fp = b.skip(i + 1);
        if ip.len() + fp.len() > 0 && all_digits(ip) && all_digits(fp) {
            Some(digits_value(ip) * 1000 + frac_millis(fp))
        } else {
            None
        }
    } else if b.len() > 0 && all_digits(b) {
        Some(digits_value(b) * 1000)
    } else {
        None
    }
}

/// The number of a plain decimal in thousandths, when that fits in `u64`.
/// This is the syntax of a size: a leading `-`, an exponent, `inf` and `NaN`,
/// which `f64` parsing also takes, give `None`, since a size in unsigned
/// thousandths has no negative, infinite or undefined value, and exponents
/// are not read.
pub open spec fn parse_millis(s: Seq<char>) -> Option<u64> {
    match decimal_millis(s) {
        Some(v) => if v <= u64::MAX {
            Some(v as u64)
        } else {
            None
        },
        None => None,
    }
}

proof fn lemma_all_digits_parts(s: Seq<char>, i: int)
    requires
        0 <= i <= s.len(),
    ensures
        all_digits(s) ==> all_digits(s.take(i)) && all_digits(s.skip(i)),
{
    if all_digits(s) {
        assert forall|k: int| 0 <= k < s.take(i).len() implies '0' <= #[trigger] s.take(i)[k] <= '9' by {
            assert(s.take(i)[k] == s[k]);
        }
        assert forall|k: int| 0 <= k < s.skip(i).len() implies '0' <= #[trigger] s.skip(i)[k] <= '9' by {
            assert(s.skip(i)[k] == s[k + i]);
        }
    }
}

proof fn lemma_small_digits(s: Seq<char>)
    requires
        all_digits(s),
    ensures
        s.len() == 1 ==> digits_value(s) <= 9,
        s.len() == 2 ==> digits_value(s) <= 99,
{
    if s.len() == 1 {
        assert(s.drop_last().len() == 0);
        assert(digits_value(s.drop_last()) == 0);
        assert('0' <= s[0] <= '9');
        assert((s[0] as u32) <= 57 && (s[0] as u32) >= 48);
        assert(digits_value(s) == ((s.last() as u32) - ('0' as u32)) as nat);
    } else if s.len() == 2 {
        let d = s.drop_last();
        assert(d.drop_last().len() == 0);
        assert(digits_value(d.drop_last()) == 0);
        assert(d.last() == s[0]);
        assert('0' <= s[0] <= '9');
        assert('0' <= s[1] <= '9');
        assert((s[0] as u32) <= 57 && (s[0] as u32) >= 48);
        assert((s[1] as u32) <= 57 && (s[1] as u32) >= 48);
        assert(digits_value(d) == ((s[0] as u32) - ('0' as u32)) as nat);
        assert(digits_value(s) == digits_value(d) * 10 + ((s[1] as u32) - ('0' as u32)) as nat);
    }
}

/// Whether every char is an ASCII digit.
pub fn digits_only(v: &Vec<char>) -> (r: bool)
    ensures
        r == all_digits(v@),
{
    let mut i: usize = 0;
    while i < v.len()
        invariant
            i <= v.len(),
            forall|k: int| 0 <= k < i ==> '0' <= #[trigger] v@[k] <= '9',
        decreases v.len() - i,
    {
        if v[i] < '0' || v[i] > '9' {
            assert(!('0' <= v@[i as int] <= '9'));
            return false;
        }
        i = i + 1;
    }
    true
}

/// The value of a run of digits (empty: zero), when it fits in `u64`.
fn digits_u64_or_zero(v: &Vec<char>) -> (r: Option<u64>)
    requires
        all_digits(v@),
    ensures
        match r {
            Some(x) => x == digits_value(v@),
            None => digits_value(v@) > u64::MAX,
        },
{
    if v.len() == 0 {
        return Some(0);
    }
    assert(v@[0] != '+');
    assert(unsigned_body(v@) == v@);
    parse_u64_chars(v)
}

/// Reads a plain decimal number into thousandths.
pub fn parse_millis_chars(s: &Vec<char>) -> (r: Option<u64>)
    ensures
        r == parse_millis(s@),
{
    let start: usize = if s.len() > 0 && s[0] == '+' {
        1
    } else {
        0
    };
    let b = slice_chars(s, start, s.len());
    assert(b@ == unsigned_body(s@));
    match find_char(&b, '.') {
        Some(i) => {
            proof {
                lemma_first_at_unique(b@, '.', i as int);
            }
            let ip = slice_chars(&b, 0, i);
            let fp = slice_chars(&b, i + 1, b.len());
            assert(ip@ == b@.take(i as int));
            assert(fp@ == b@.skip(i + 1));
            if ip.len() + fp.len() == 0 || !digits_only(&ip) || !digits_only(&fp) {
                return None;
            }
            let iv = match digits_u64_or_zero(&ip) {
                Some(x) => x,
                None => {
                    return None;
                },
            };
            let f3 = if fp.len() >= 3 {
                slice_chars(&fp, 0, 3)
            } else {
                slice_chars(&fp, 0, fp.len())
            };
            assert(fp.len() >= 3 ==> f3@ == fp@.take(3));
            assert(fp.len() < 3 ==> f3@ == fp@);
            proof {
                lemma_all_digits_parts(fp@, if fp.len() >= 3 {
                    3
                } else {
                    fp.len() as int
                });
                if fp.len() < 3 {
                    assert(fp@.take(fp.len() as int) == fp@);
                }
            }
            let fv = match digits_u64_or_zero(&f3) {
                Some(x) => x,
                None => {
                    return None;
                },
            };
            proof {
                lemma_small_digits(f3@);
            }
            let scaled: u64 = if fp.len() >= 3 {
                fv
            } else if fp.len() == 2 {
                if fv > 99 { return None; }
                fv * 10
            } else if fp.len() == 1 {
                if fv > 9 { return None; }
                fv * 100
            } else {
                0
            };
            if iv > (u64::MAX - scaled) / 1000 {
                assert(iv * 1000 + scaled > u64::MAX) by (nonlinear_arith)
                    requires
                        iv > (u64::MAX - scaled) / 1000,
                ;
                return None;
            }
            Some(iv * 1000 + scaled)
        },
        None => {
            if b.len() == 0 || !digits_only(&b) {
                return None;
            }
            let iv = match digits_u64_or_zero(&b) {
                Some(x) => x,
                None => {
                    return None;
                },
            };
            if iv > u64::MAX / 1000 {
                return None;
            }
            Some(iv * 1000)
        },
    }
}


/// The first `Some` that `f` gives along `s`.
pub open spec fn first_some<A, B>(s: Seq<A>, f: spec_fn(A) -> Option<B>) -> Option<B>
    decreases s.len(),
{
    if s.len() == 0 {
        None
    } else {
        match first_some(s.drop_last(), f) {
            Some(v) => Some(v),
            None => f(s.last()),
        }
    }
}

/// Once a prefix gives a value, the whole sequence gives the same one.
pub proof fn lemma_first_some_prefix<A, B>(s: Seq<A>, f: spec_fn(A) -> Option<B>, k: int)
    requires
        0 <= k <= s.len(),
        first_some(s.take(k), f) is Some,
    ensures
        first_some(s, f) == first_some(s.take(k), f),
    decreases s.len() - k,
{
    if k < s.len() {
        assert(s.take(k + 1).drop_last() == s.take(k));
        lemma_first_some_prefix(s, f, k + 1);
    } else {
        assert(s.take(k) == s);
    }
}

/// ASCII decimal digit.
pub open spec fn is_digit(c: char) -> bool {
    '0' <= c <= '9'
}

/// Index `i` of a model id separates words: `-`, `_` and spaces always do; a
/// `.` does unless it stands between two digits (the point of a size such as
/// `1.5b`).
pub open spec fn id_sep_at(s: Seq<char>, i: int) -> bool {
    let c = s[i];
    ||| c == '-'
    ||| c == '_'
    ||| c == ' '
    ||| (c == '.' && !(0 < i && i + 1 < s.len() && is_digit(s[i - 1]) && is_digit(s[i + 1])))
}

/// The words of the first `k` chars of `s`, split as `id_sep_at` says.
pub open spec fn id_pieces_upto(s: Seq<char>, k: int) -> Seq<Seq<char>>
    decreases k,
{
    if k <= 0 {
        seq![Seq::<char>::empty()]
    } else {
        let p = id_pieces_upto(s, k - 1);
        if id_sep_at(s, k - 1) {
            p.push(Seq::<char>::empty())
        } else {
            p.update(p.len() - 1, p.last().push(s[k - 1]))
        }
    }
}

/// The words of a model id (see `id_sep_at`), empty ones included.
pub open spec fn id_words(s: Seq<char>) -> Seq<Seq<char>> {
    id_pieces_upto(s, s.len() as int)
}

proof fn lemma_id_pieces_len(s: Seq<char>, k: int)
    ensures
        id_pieces_upto(s, k).len() >= 1,
    decreases k,
{
    if k > 0 {
        lemma_id_pieces_len(s, k - 1);
    }
}

/// Splits a model id into its words (see `id_sep_at`).
pub fn split_id_words(s: &Vec<char>) -> (r: Vec<Vec<char>>)
    ensures
        views(r@) == id_words(s@),
{
    let mut done: Vec<Vec<char>> = Vec::new();
    let mut cur: Vec<char> = Vec::new();
    let mut i: usize = 0;
    while i < s.len()
        invariant
            i <= s.len(),
            views(done@).push(cur@) == id_pieces_upto(s@, i as int),
        decreases s.len() - i,
    {
        let ch = s[i];
        proof {
            lemma_id_pieces_len(s@, i as int);
        }
        let point_in_number = ch == '.' && 0 < i && i + 1 < s.len() && '0' <= s[i - 1] && s[i - 1]
            <= '9' && '0' <= s[i + 1] && s[i + 1] <= '9';
        let sep = ch == '-' || ch == '_' || ch == ' ' || (ch == '.' && !point_in_number);
        assert(sep == id_sep_at(s@, i as int));
        if sep {
            let ghost dv = views(done@);
            let ghost cv = cur@;
            done.push(cur);
            assert(views(done@) =~= dv.push(cv));
            cur = Vec::new();
            assert(views(done@).push(cur@) =~= id_pieces_upto(s@, i + 1));
        } else {
            cur.push(ch);
            assert(views(done@).push(cur@) =~= id_pieces_upto(s@, i + 1));
        }
        i = i + 1;
    }
    let ghost dv = views(done@);
    let ghost cv = cur@;
    done.push(cur);
    assert(views(done@) =~= dv.push(cv));
    done
}

} // verus!
