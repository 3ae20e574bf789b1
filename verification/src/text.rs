//! Character-level helpers shared by the viewer: decimal rendering of
//! integers, substring search, lexicographic comparison and the pieces of
//! `String` that the views build text with.
use vstd::prelude::*;

verus! {

/// `String::push` appends one character; stated is that the text grows by
/// exactly that character at its end.
pub assume_specification[ String::push ](s: &mut String, ch: char)
    ensures
        final(s)@ == old(s)@.push(ch),
;

/// The characters of `s`, in order.
pub fn chars_of(s: &str) -> (v: Vec<char>)
    ensures
        v@ == s@,
{
    let mut v: Vec<char> = Vec::new();
    for c in it: s.chars()
        invariant
            v@ == it.seq().take(it.index()),
            it.seq() == s@,
    {
        v.push(c);
    }
    v
}

} // verus!

verus! {

/// The ASCII digit for `d` (meant for `d < 10`).
pub open spec fn digit_char(d: nat) -> char {
    ((48 + d) as u8) as char
}

/// The decimal representation of `n`, without sign or leading zeros.
pub open spec fn decimal(n: nat) -> Seq<char>
    decreases n,
{
    if n < 10 {
        seq![digit_char(n)]
    } else {
        decimal(n / 10).push(digit_char(n % 10))
    }
}

pub proof fn lemma_decimal_len_pos(n: nat)
    ensures
        decimal(n).len() >= 1,
    decreases n,
{
    if n >= 10 {
        lemma_decimal_len_pos(n / 10);
    }
}

fn digit_to_char(d: u64) -> (c: char)
    requires
        d < 10,
    ensures
        c == digit_char(d as nat),
{
    let b: u8 = (48 + d) as u8;
    b as char
}

/// Appends the decimal representation of `n` to `s`.
pub fn push_decimal(s: &mut String, n: u64)
    ensures
        final(s)@ == old(s)@ + decimal(n as nat),
    decreases n,
{
    if n < 10 {
        s.push(digit_to_char(n));
    } else {
        push_decimal(s, n / 10);
        s.push(digit_to_char(n % 10));
    }
}

} // verus!

verus! {

/// Lexicographic order on character sequences, comparing code points.
/// UTF-8 encoding preserves this order, so it is the order in which
/// `String`'s `Ord` ranks the same texts.
pub open spec fn text_less(a: Seq<char>, b: Seq<char>) -> bool
    decreases a.len(),
{
    if a.len() == 0 {
        b.len() > 0
    } else if b.len() == 0 {
        false
    } else if a[0] != b[0] {
        a[0] < b[0]
    } else {
        text_less(a.drop_first(), b.drop_first())
    }
}

proof fn lemma_text_less_irreflexive(a: Seq<char>)
    ensures
        !text_less(a, a),
    decreases a.len(),
{
    if a.len() > 0 {
        lemma_text_less_irreflexive(a.drop_first());
    }
}

proof fn lemma_text_less_total(a: Seq<char>, b: Seq<char>)
    ensures
        a != b ==> (text_less(a, b) || text_less(b, a)),
    decreases a.len(),
{
    if a.len() > 0 && b.len() > 0 {
        lemma_text_less_total(a.drop_first(), b.drop_first());
        if a[0] == b[0] && a.drop_first() == b.drop_first() {
            assert(a =~= seq![a[0]] + a.drop_first());
            assert(b =~= seq![b[0]] + b.drop_first());
        }
    } else if a.len() == 0 && b.len() == 0 {
        assert(a =~= b);
    }
}

proof fn lemma_text_less_trans(a: Seq<char>, b: Seq<char>, c: Seq<char>)
    ensures
        text_less(a, b) && text_less(b, c) ==> text_less(a, c),
    decreases a.len(),
{
    if a.len() > 0 && b.len() > 0 && c.len() > 0 {
        lemma_text_less_trans(a.drop_first(), b.drop_first(), c.drop_first());
    }
}

pub proof fn lemma_text_less_strict_total(a: Seq<char>, b: Seq<char>, c: Seq<char>)
    ensures
        !text_less(a, a),
        a != b ==> (text_less(a, b) || text_less(b, a)),
        text_less(a, b) ==> !text_less(b, a),
        text_less(a, b) && text_less(b, c) ==> text_less(a, c),
{
    lemma_text_less_irreflexive(a);
    lemma_text_less_total(a, b);
    lemma_text_less_trans(a, b, c);
    lemma_text_less_trans(a, b, a);
}

/// `text_less(a, b)`, computed.
pub fn text_lt(a: &Vec<char>, b: &Vec<char>) -> (r: bool)
    ensures
        r == text_less(a@, b@),
{
    let mut i: usize = 0;
    assert(a@.skip(0) =~= a@ && b@.skip(0) =~= b@);
    while i < a.len() && i < b.len()
        invariant
            i <= a.len(),
            i <= b.len(),
            a@.take(i as int) == b@.take(i as int),
            text_less(a@, b@) == text_less(a@.skip(i as int), b@.skip(i as int)),
        decreases a.len() - i,
    {
        let ca = a[i];
        let cb = b[i];
        if ca != cb {
            proof {
                assert(a@.skip(i as int)[0] == ca);
                assert(b@.skip(i as int)[0] == cb);
            }
            return ca < cb;
        }
        proof {
            assert(a@.skip(i as int).drop_first() =~= a@.skip(i + 1));
            assert(b@.skip(i as int).drop_first() =~= b@.skip(i + 1));
            assert(a@.take(i + 1) =~= a@.take(i as int).push(ca));
            assert(b@.take(i + 1) =~= b@.take(i as int).push(cb));
        }
        i = i + 1;
    }
    i < b.len()
}

/// Whether two character sequences are equal, computed.
pub fn chars_eq(a: &Vec<char>, b: &Vec<char>) -> (r: bool)
    ensures
        r == (a@ == b@),
{
    if a.len() != b.len() {
        return false;
    }
    let mut i: usize = 0;
    while i < a.len()
        invariant
            a.len() == b.len(),
            i <= a.len(),
            forall|k: int| 0 <= k < i ==> a@[k] == b@[k],
        decreases a.len() - i,
    {
        if a[i] != b[i] {
            return false;
        }
        i = i + 1;
    }
    assert(a@ =~= b@);
    true
}

} // verus!

verus! {

/// `needle` occurs in `hay` as a contiguous run of characters.
pub open spec fn has_substring(hay: Seq<char>, needle: Seq<char>) -> bool {
    exists|i: int|
        0 <= i && i + needle.len() <= hay.len() && #[trigger] hay.subrange(i, i + needle.len()) == needle
}

fn occurs_at(hay: &Vec<char>, needle: &Vec<char>, i: usize) -> (r: bool)
    requires
        i + needle.len() <= hay.len(),
    ensures
        r == (hay@.subrange(i as int, i + needle.len()) == needle@),
{
    let mut k: usize = 0;
    while k < needle.len()
        invariant
            i + needle.len() <= hay.len(),
            k <= needle.len(),
            forall|p: int| 0 <= p < k ==> hay@[i + p] == needle@[p],
        decreases needle.len() - k,
    {
        if hay[i + k] != needle[k] {
            assert(hay@.subrange(i as int, i + needle.len())[k as int] != needle@[k as int]);
            return false;
        }
        k = k + 1;
    }
    assert(hay@.subrange(i as int, i + needle.len()) =~= needle@);
    true
}

/// Whether `needle` occurs in `hay` (the behaviour of `str::contains`
/// with a string pattern: UTF-8 is self-synchronising, so byte and
/// character occurrences coincide).
pub fn contains_text(hay: &Vec<char>, needle: &Vec<char>) -> (r: bool)
    ensures
        r == has_substring(hay@, needle@),
{
    if needle.len() > hay.len() {
        return false;
    }
    let last = hay.len() - needle.len();
    let mut i: usize = 0;
    while i < last
        invariant
            i <= last,
            last + needle.len() == hay.len(),
            forall|j: int| 0 <= j < i ==> #[trigger] hay@.subrange(j, j + needle.len()) != needle@,
        decreases last - i,
    {
        if occurs_at(hay, needle, i) {
            return true;
        }
        i = i + 1;
    }
    if occurs_at(hay, needle, last) {
        return true;
    }
    assert forall|j: int| 0 <= j && j + needle.len() <= hay.len() implies #[trigger] hay@.subrange(j, j + needle.len()) != needle@ by {
        assert(j <= last);
    }
    false
}

/// The lower-case form of a text, as `str::to_lowercase` produces it.
pub uninterp spec fn lowercase(s: Seq<char>) -> Seq<char>;

/// `str::to_lowercase` applies the Unicode lower-case mapping. Its result
/// depends on the text alone; the mapping itself is left to `lowercase`.
pub assume_specification[ str::to_lowercase ](s: &str) -> (res: String)
    ensures
        res@ == lowercase(s@),
;

/// The characters of the lower-case form of `s`.
pub fn lowercase_chars(s: &str) -> (v: Vec<char>)
    ensures
        v@ == lowercase(s@),
{
    let low = s.to_lowercase();
    chars_of(low.as_str())
}

} // verus!

verus! {

/// A `String` holding exactly the characters of `v`.
pub fn string_from_chars(v: &Vec<char>) -> (s: String)
    ensures
        s@ == v@,
{
    let mut s = String::new();
    for i in 0..v.len()
        invariant
            s@ == v@.take(i as int),
    {
        s.push(v[i]);
        assert(v@.take(i + 1) =~= v@.take(i as int).push(v@[i as int]));
    }
    assert(v@.take(v.len() as int) =~= v@);
    s
}

/// Appends the characters of `v` to `s`.
pub fn push_chars(s: &mut String, v: &Vec<char>)
    ensures
        final(s)@ == old(s)@ + v@,
{
    let ghost start = s@;
    for i in 0..v.len()
        invariant
            s@ == start + v@.take(i as int),
    {
        s.push(v[i]);
        assert(v@.take(i + 1) =~= v@.take(i as int).push(v@[i as int]));
    }
    assert(v@.take(v.len() as int) =~= v@);
}

/// Appends the characters of `t` to `s`.
pub fn push_str_chars(s: &mut String, t: &str)
    ensures
        final(s)@ == old(s)@ + t@,
{
    let v = chars_of(t);
    push_chars(s, &v);
}

/// The pieces of `s` between occurrences of `sep`, as `str::split` with a
/// character pattern yields them (always at least one piece).
pub open spec fn split_on(s: Seq<char>, sep: char) -> Seq<Seq<char>>
    decreases s.len(),
{
    if s.len() == 0 {
        seq![Seq::<char>::empty()]
    } else {
        let r = split_on(s.drop_last(), sep);
        if s.last() == sep {
            r.push(Seq::<char>::empty())
        } else {
            r.update(r.len() - 1, r.last().push(s.last()))
        }
    }
}

pub proof fn lemma_split_on_nonempty(s: Seq<char>, sep: char)
    ensures
        split_on(s, sep).len() >= 1,
    decreases s.len(),
{
    if s.len() > 0 {
        lemma_split_on_nonempty(s.drop_last(), sep);
    }
}

pub open spec fn views_of(v: Seq<Vec<char>>) -> Seq<Seq<char>> {
    v.map_values(|p: Vec<char>| p@)
}

/// Splits `s` at every `sep`.
pub fn split_chars(s: &Vec<char>, sep: char) -> (parts: Vec<Vec<char>>)
    ensures
        views_of(parts@) == split_on(s@, sep),
{
    let mut parts: Vec<Vec<char>> = Vec::new();
    let mut cur: Vec<char> = Vec::new();
    for i in 0..s.len()
        invariant
            views_of(parts@).push(cur@) == split_on(s@.take(i as int), sep),
    {
        let c = s[i];
        let ghost pre = s@.take(i as int);
        proof {
            assert(s@.take(i + 1).drop_last() =~= pre);
            assert(s@.take(i + 1).last() == c);
            lemma_split_on_nonempty(pre, sep);
        }
        if c == sep {
            let done = cur;
            parts.push(done);
            cur = Vec::new();
            assert(views_of(parts@).push(cur@) =~= split_on(pre, sep).push(Seq::<char>::empty()));
        } else {
            let ghost before = views_of(parts@);
            cur.push(c);
            assert(views_of(parts@).push(cur@) =~= split_on(pre, sep).update(
                split_on(pre, sep).len() - 1,
                split_on(pre, sep).last().push(c),
            ));
        }
    }
    assert(s@.take(s.len() as int) =~= s@);
    parts.push(cur);
    parts
}

} // verus!

verus! {

/// The number of bytes UTF-8 uses for `c`.
pub open spec fn char_width(c: char) -> nat {
    if (c as u32) < 0x80 {
        1
    } else if (c as u32) < 0x800 {
        2
    } else if (c as u32) < 0x10000 {
        3
    } else {
        4
    }
}

/// The UTF-8 length in bytes of a character sequence (what `str::len`
/// reports for the same text).
pub open spec fn byte_len(s: Seq<char>) -> nat
    decreases s.len(),
{
    if s.len() == 0 {
        0
    } else {
        byte_len(s.drop_last()) + char_width(s.last())
    }
}

pub proof fn lemma_byte_len_take_step(s: Seq<char>, i: int)
    requires
        0 <= i < s.len(),
    ensures
        byte_len(s.take(i + 1)) == byte_len(s.take(i)) + char_width(s[i]),
{
    assert(s.take(i + 1).drop_last() =~= s.take(i));
}

pub proof fn lemma_byte_len_take_mono(s: Seq<char>, i: int, j: int)
    requires
        0 <= i <= j <= s.len(),
    ensures
        byte_len(s.take(i)) + (j - i) <= byte_len(s.take(j)),
    decreases j - i,
{
    if i < j {
        lemma_byte_len_take_mono(s, i, j - 1);
        lemma_byte_len_take_step(s, j - 1);
    }
}

/// `k` is a character boundary of the UTF-8 encoding of `s`.
pub open spec fn is_boundary(s: Seq<char>, k: int) -> bool {
    exists|i: int| 0 <= i <= s.len() && #[trigger] byte_len(s.take(i)) == k
}

/// The character index at which the UTF-8 byte offset `k` falls.
pub open spec fn boundary_index(s: Seq<char>, k: int) -> int {
    choose|i: int| 0 <= i <= s.len() && #[trigger] byte_len(s.take(i)) == k
}

pub proof fn lemma_boundary_index_unique(s: Seq<char>, i: int, k: int)
    requires
        0 <= i <= s.len(),
        byte_len(s.take(i)) == k,
    ensures
        is_boundary(s, k),
        boundary_index(s, k) == i,
{
    let j = boundary_index(s, k);
    if j < i {
        lemma_byte_len_take_mono(s, j, i);
    } else if i < j {
        lemma_byte_len_take_mono(s, i, j);
    }
}

/// The characters whose UTF-8 bytes lie in `[from, to)`.
pub open spec fn byte_slice(s: Seq<char>, from: int, to: int) -> Seq<char> {
    s.subrange(boundary_index(s, from), boundary_index(s, to))
}

pub(crate) fn char_width_exec(c: char) -> (w: usize)
    ensures
        w == char_width(c),
{
    if (c as u32) < 0x80 {
        1
    } else if (c as u32) < 0x800 {
        2
    } else if (c as u32) < 0x10000 {
        3
    } else {
        4
    }
}

/// The UTF-8 length of `s`, and the character index of byte offset `k`
/// when `k` is a boundary.
pub fn byte_offset_index(s: &Vec<char>, k: usize) -> (r: Option<usize>)
    ensures
        r is Some <==> is_boundary(s@, k as int),
        r matches Some(i) ==> i <= s.len() && byte_len(s@.take(i as int)) == k && boundary_index(s@, k as int) == i,
{
    let mut i: usize = 0;
    let mut w: usize = 0;
    assert(s@.take(0) =~= Seq::<char>::empty());
    while i < s.len() && w < k
        invariant
            i <= s.len(),
            w == byte_len(s@.take(i as int)),
            w <= k || i == 0,
            forall|j: int| 0 <= j < i ==> #[trigger] byte_len(s@.take(j)) < k,
        decreases s.len() - i,
    {
        proof {
            lemma_byte_len_take_step(s@, i as int);
        }
        let cw = char_width_exec(s[i]);
        if cw > k - w {
            proof {
                let i = i + 1;
                assert forall|j: int| 0 <= j <= s.len() implies #[trigger] byte_len(s@.take(j)) != k by {
                    if j >= i {
                        lemma_byte_len_take_mono(s@, i as int, j);
                    }
                }
            }
            return None;
        }
        w = w + cw;
        i = i + 1;
    }
    if w == k {
        proof {
            lemma_boundary_index_unique(s@, i as int, k as int);
        }
        Some(i)
    } else {
        proof {
            assert forall|j: int| 0 <= j <= s.len() implies #[trigger] byte_len(s@.take(j)) != k by {
                if j == i {
                } else if j > i {
                    lemma_byte_len_take_mono(s@, i as int, j);
                }
            }
        }
        None
    }
}

} // verus!

verus! {

/// Appends the decimal representation of `n` to `s`.
pub fn push_decimal_wide(s: &mut String, n: u128)
    ensures
        final(s)@ == old(s)@ + decimal(n as nat),
    decreases n,
{
    if n < 10 {
        let d: u8 = (48 + n) as u8;
        s.push(d as char);
    } else {
        push_decimal_wide(s, n / 10);
        let d: u8 = (48 + n % 10) as u8;
        s.push(d as char);
    }
}

} // verus!

verus! {

/// `String::pop` removes and returns the last character, or returns `None`
/// for an empty text; stated is exactly that.
pub assume_specification[ String::pop ](s: &mut String) -> (r: Option<char>)
    ensures
        old(s)@.len() > 0 ==> r == Some(old(s)@.last()) && final(s)@ == old(s)@.drop_last(),
        old(s)@.len() == 0 ==> r is None && final(s)@ == old(s)@,
;

} // verus!

verus! {

pub open spec fn starts_with(s: Seq<char>, prefix: Seq<char>) -> bool {
    prefix.len() <= s.len() && s.take(prefix.len() as int) == prefix
}

pub open spec fn ends_with(s: Seq<char>, suffix: Seq<char>) -> bool {
    suffix.len() <= s.len() && s.skip(s.len() - suffix.len()) == suffix
}

/// Whether `s` begins with `prefix`.
pub fn has_prefix(s: &Vec<char>, prefix: &Vec<char>) -> (r: bool)
    ensures
        r == starts_with(s@, prefix@),
{
    if prefix.len() > s.len() {
        return false;
    }
    for k in 0..prefix.len()
        invariant
            prefix.len() <= s.len(),
            forall|j: int| 0 <= j < k ==> s@[j] == prefix@[j],
    {
        if s[k] != prefix[k] {
            assert(s@.take(prefix.len() as int)[k as int] != prefix@[k as int]);
            return false;
        }
    }
    assert(s@.take(prefix.len() as int) =~= prefix@);
    true
}

/// Whether `s` ends with `suffix`.
pub fn has_suffix(s: &Vec<char>, suffix: &Vec<char>) -> (r: bool)
    ensures
        r == ends_with(s@, suffix@),
{
    if suffix.len() > s.len() {
        return false;
    }
    let off = s.len() - suffix.len();
    for k in 0..suffix.len()
        invariant
            off + suffix.len() == s.len(),
            forall|j: int| 0 <= j < k ==> s@[off + j] == suffix@[j],
    {
        if s[off + k] != suffix[k] {
            assert(s@.skip(off as int)[k as int] != suffix@[k as int]);
            return false;
        }
    }
    assert(s@.skip(off as int) =~= suffix@);
    true
}

/// `s[from..to]`.
pub fn chars_between(s: &Vec<char>, from: usize, to: usize) -> (r: Vec<char>)
    requires
        from <= to <= s.len(),
    ensures
        r@ == s@.subrange(from as int, to as int),
{
    let mut r: Vec<char> = Vec::new();
    for i in from..to
        invariant
            from <= to <= s.len(),
            r@ == s@.subrange(from as int, i as int),
    {
        r.push(s[i]);
        assert(s@.subrange(from as int, i + 1) =~= s@.subrange(from as int, i as int).push(s@[i as int]));
    }
    r
}

} // verus!

verus! {

/// The texts joined with single spaces between them.
pub open spec fn joined_with_spaces(parts: Seq<Seq<char>>) -> Seq<char>
    decreases parts.len(),
{
    if parts.len() == 0 {
        Seq::empty()
    } else if parts.len() == 1 {
        parts[0]
    } else {
        joined_with_spaces(parts.drop_last()) + seq![' '] + parts.last()
    }
}

/// The texts joined with single spaces, as `join(" ")` does.
pub fn join_spaces(parts: &Vec<&str>) -> (r: String)
    ensures
        r@ == joined_with_spaces(parts@.map_values(|p: &str| p@)),
{
    let ghost views = parts@.map_values(|p: &str| p@);
    let mut s = String::new();
    for i in 0..parts.len()
        invariant
            views == parts@.map_values(|p: &str| p@),
            s@ == joined_with_spaces(views.take(i as int)),
    {
        assert(views.take(i + 1).drop_last() =~= views.take(i as int));
        if i > 0 {
            s.push(' ');
        }
        push_str_chars(&mut s, parts[i]);
        assert(views.take(i + 1).last() == parts@[i as int]@);
    }
    assert(views.take(parts.len() as int) =~= views);
    s
}

/// The title of a panel and its status symbols: ` title`, and
/// ` ~ symbols ~` when there are any.
pub open spec fn title_texts(title: Seq<char>, indicators: Seq<Seq<char>>) -> (Seq<char>, Seq<char>) {
    (
        seq![' '] + title,
        if indicators.len() == 0 {
            Seq::empty()
        } else {
            " ~ "@ + joined_with_spaces(indicators) + " ~"@
        },
    )
}

/// Builds the title texts (see `title_texts`).
pub fn build_title_texts(title: &str, indicators: &Vec<&str>) -> (r: (String, String))
    ensures
        (r.0@, r.1@) == title_texts(title@, indicators@.map_values(|p: &str| p@)),
{
    let mut head = String::new();
    head.push(' ');
    push_str_chars(&mut head, title);
    let mut status = String::new();
    if indicators.len() > 0 {
        push_str_chars(&mut status, " ~ ");
        let joined = join_spaces(indicators);
        push_str_chars(&mut status, joined.as_str());
        push_str_chars(&mut status, " ~");
    }
    assert(head@ =~= seq![' '] + title@);
    (head, status)
}

} // verus!

verus! {

/// Whether the UTF-8 encoding of the characters is longer than `n` bytes.
pub fn byte_len_exceeds(chars: &Vec<char>, n: usize) -> (r: bool)
    ensures
        r == (byte_len(chars@) > n),
{
    let mut w: usize = 0;
    let mut i: usize = 0;
    while i < chars.len()
        invariant
            i <= chars.len(),
            w == byte_len(chars@.take(i as int)),
            w <= n,
        decreases chars.len() - i,
    {
        proof {
            lemma_byte_len_take_step(chars@, i as int);
        }
        let cw = char_width_exec(chars[i]);
        if cw > n - w {
            proof {
                lemma_byte_len_take_mono(chars@, i + 1, chars.len() as int);
                assert(chars@.take(chars.len() as int) =~= chars@);
            }
            return true;
        }
        w = w + cw;
        i = i + 1;
    }
    assert(chars@.take(chars.len() as int) =~= chars@);
    false
}

/// The text as a table cell shows it: when its UTF-8 encoding is longer
/// than `limit` bytes, its first `keep` bytes followed by `...`.
pub open spec fn clipped(s: Seq<char>, limit: nat, keep: nat) -> Seq<char> {
    if byte_len(s) > limit {
        byte_slice(s, 0, keep as int) + seq!['.', '.', '.']
    } else {
        s
    }
}

/// Appends `clipped(t, limit, keep)` to `s` when `clip` holds, `t` itself
/// otherwise. Cutting must not split a character.
pub fn push_clipped(s: &mut String, t: &str, clip: bool, limit: usize, keep: usize)
    requires
        clip && byte_len(t@) > limit ==> is_boundary(t@, keep as int),
    ensures
        final(s)@ == old(s)@ + (if clip {
            clipped(t@, limit as nat, keep as nat)
        } else {
            t@
        }),
{
    let chars = chars_of(t);
    if clip && byte_len_exceeds(&chars, limit) {
        let k = byte_offset_index(&chars, keep).unwrap();
        let head = chars_between(&chars, 0, k);
        proof {
            assert(chars@.take(0) =~= Seq::<char>::empty());
            lemma_boundary_index_unique(chars@, 0, 0);
        }
        push_chars(s, &head);
        s.push('.');
        s.push('.');
        s.push('.');
        assert(s@ =~= old(s)@ + clipped(t@, limit as nat, keep as nat));
    } else {
        push_chars(s, &chars);
    }
}

} // verus!
