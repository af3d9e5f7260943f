//! Strings as sequences of characters: the operations the rest of the crate is
//! specified with, each next to the function that computes it.

use vstd::prelude::*;
use vstd::utf8::*;

verus! {

/// `String::push` puts one character at the end of the string and leaves the
/// characters before it as they are.
pub assume_specification[ String::push ](s: &mut String, c: char)
    ensures
        final(s)@ == old(s)@.push(c),
;

/// What `String::from_utf8_lossy` makes of bytes.
pub uninterp spec fn utf8_lossy(bytes: Seq<u8>) -> Seq<char>;

/// `String::from_utf8_lossy`: the text that the bytes hold where they are valid
/// UTF-8; invalid sequences are replaced, in a way that depends on the bytes alone.
#[verifier::external_body]
pub(crate) fn from_utf8_lossy(bytes: &[u8]) -> (r: String)
    ensures
        r@ == utf8_lossy(bytes@),
        valid_utf8(bytes@) ==> r@ == decode_utf8(bytes@),
{
    String::from_utf8_lossy(bytes).into_owned()
}

/// What `str::to_lowercase` makes of a text.
pub uninterp spec fn lowercase_of(s: Seq<char>) -> Seq<char>;

/// `str::to_lowercase`: the text in lower case by the Unicode tables, which depends
/// on the text alone; of an ASCII text only the letters change.
#[verifier::external_body]
pub(crate) fn to_lowercase(s: &str) -> (r: String)
    ensures
        r@ == lowercase_of(s@),
        all_ascii(s@) ==> r@ == ascii_lowered(s@),
{
    s.to_lowercase()
}

// ── Views ────────────────────────────────────────────────────────────────────

/// The characters of every string of a list.
pub open spec fn views(v: Seq<String>) -> Seq<Seq<char>> {
    v.map_values(|s: String| s@)
}

/// The characters of an optional string.
pub open spec fn view_opt(o: Option<String>) -> Option<Seq<char>> {
    match o {
        Some(s) => Some(s@),
        None => None,
    }
}

/// The characters of a string, as a vector.
pub fn to_chars(s: &str) -> (r: Vec<char>)
    ensures
        r@ == s@,
{
    let mut out: Vec<char> = Vec::new();
    for c in it: s.chars()
        invariant
            out@ == it.seq().take(it.index() as int),
            it.seq() == s@,
    {
        out.push(c);
        proof {
            assert(it.seq().take(it.index() + 1) =~= it.seq().take(it.index() as int).push(c));
        }
    }
    proof {
        assert(s@.take(s@.len() as int) =~= s@);
    }
    out
}

/// The string made of the characters from `from` up to, and without, `to`.
pub fn from_range(chars: &[char], from: usize, to: usize) -> (r: String)
    requires
        from <= to <= chars@.len(),
    ensures
        r@ == chars@.subrange(from as int, to as int),
{
    let mut out = String::new();
    let mut i: usize = from;
    while i < to
        invariant
            from <= i <= to <= chars@.len(),
            out@ == chars@.subrange(from as int, i as int),
        decreases to - i,
    {
        out.push(chars[i]);
        i += 1;
        proof {
            assert(chars@.subrange(from as int, i as int) =~= chars@.subrange(from as int, i - 1).push(chars@[i - 1]));
        }
    }
    out
}

/// The string made of all the given characters.
pub fn from_chars(chars: &[char]) -> (r: String)
    ensures
        r@ == chars@,
{
    proof {
        assert(chars@.subrange(0, chars@.len() as int) =~= chars@);
    }
    from_range(chars, 0, chars.len())
}

/// Whether two strings hold the same characters.
pub fn same(a: &str, b: &str) -> (r: bool)
    ensures
        r == (a@ == b@),
{
    a.to_owned() == b.to_owned()
}

/// Two strings, one after the other.
pub fn cat2(a: &str, b: &str) -> (r: String)
    ensures
        r@ == a@ + b@,
{
    let mut out = a.to_owned();
    out.append(b);
    out
}

/// Three strings, one after the other.
pub fn cat3(a: &str, b: &str, c: &str) -> (r: String)
    ensures
        r@ == a@ + b@ + c@,
{
    let mut out = a.to_owned();
    out.append(b);
    out.append(c);
    out
}

/// Four strings, one after the other.
pub fn cat4(a: &str, b: &str, c: &str, d: &str) -> (r: String)
    ensures
        r@ == a@ + b@ + c@ + d@,
{
    let mut out = a.to_owned();
    out.append(b);
    out.append(c);
    out.append(d);
    out
}

/// Five strings, one after the other.
pub fn cat5(a: &str, b: &str, c: &str, d: &str, e: &str) -> (r: String)
    ensures
        r@ == a@ + b@ + c@ + d@ + e@,
{
    let mut out = a.to_owned();
    out.append(b);
    out.append(c);
    out.append(d);
    out.append(e);
    out
}

/// Six strings, one after the other.
pub fn cat6(a: &str, b: &str, c: &str, d: &str, e: &str, f: &str) -> (r: String)
    ensures
        r@ == a@ + b@ + c@ + d@ + e@ + f@,
{
    let mut out = cat5(a, b, c, d, e);
    out.append(f);
    out
}

/// Eight strings, one after the other.
pub fn cat8(a: &str, b: &str, c: &str, d: &str, e: &str, f: &str, g: &str, h: &str) -> (r: String)
    ensures
        r@ == a@ + b@ + c@ + d@ + e@ + f@ + g@ + h@,
{
    let mut out = cat6(a, b, c, d, e, f);
    out.append(g);
    out.append(h);
    out
}

// ── Whitespace ───────────────────────────────────────────────────────────────

/// The characters with Unicode's `White_Space` property.
pub open spec fn is_white(c: char) -> bool {
    let n = c as u32;
    ||| 0x09 <= n <= 0x0D
    ||| n == 0x20
    ||| n == 0x85
    ||| n == 0xA0
    ||| n == 0x1680
    ||| 0x2000 <= n <= 0x200A
    ||| n == 0x2028
    ||| n == 0x2029
    ||| n == 0x202F
    ||| n == 0x205F
    ||| n == 0x3000
}

/// Whether a character has Unicode's `White_Space` property.
pub fn white(c: char) -> (r: bool)
    ensures
        r == is_white(c),
{
    let n: u32 = c as u32;
    (0x09 <= n && n <= 0x0D) || n == 0x20 || n == 0x85 || n == 0xA0 || n == 0x1680 || (0x2000 <= n && n <= 0x200A)
        || n == 0x2028 || n == 0x2029 || n == 0x202F || n == 0x205F || n == 0x3000
}

/// The text without the whitespace it starts with.
pub open spec fn trimmed_start(s: Seq<char>) -> Seq<char>
    decreases s.len(),
{
    if s.len() > 0 && is_white(s[0]) {
        trimmed_start(s.skip(1))
    } else {
        s
    }
}

/// The text without the whitespace it ends with.
pub open spec fn trimmed_end(s: Seq<char>) -> Seq<char>
    decreases s.len(),
{
    if s.len() > 0 && is_white(s.last()) {
        trimmed_end(s.drop_last())
    } else {
        s
    }
}

/// The text without the whitespace at its two ends.
pub open spec fn trimmed(s: Seq<char>) -> Seq<char> {
    trimmed_end(trimmed_start(s))
}

/// Removes the whitespace at the two ends of a text.
pub fn trim(s: &str) -> (r: String)
    ensures
        r@ == trimmed(s@),
{
    let chars = to_chars(s);
    let n: usize = chars.len();
    let mut i: usize = 0;
    proof {
        assert(chars@.skip(0) =~= chars@);
    }
    while i < n && white(chars[i])
        invariant
            n == chars@.len(),
            i <= n,
            trimmed_start(chars@) == trimmed_start(chars@.skip(i as int)),
        decreases n - i,
    {
        proof {
            assert(chars@.skip(i as int).skip(1) =~= chars@.skip(i + 1));
        }
        i += 1;
    }
    let mut j: usize = n;
    proof {
        assert(chars@.skip(i as int) =~= chars@.subrange(i as int, j as int));
    }
    while j > i && white(chars[j - 1])
        invariant
            n == chars@.len(),
            i <= j <= n,
            trimmed(chars@) == trimmed_end(chars@.subrange(i as int, j as int)),
        decreases j,
    {
        proof {
            assert(chars@.subrange(i as int, j as int).drop_last() =~= chars@.subrange(i as int, j - 1));
        }
        j -= 1;
    }
    from_range(&chars, i, j)
}

// ── Letter case ──────────────────────────────────────────────────────────────

/// The lower-case form of an ASCII letter; any other character itself.
pub open spec fn ascii_lower(c: char) -> char {
    if 'A' <= c <= 'Z' {
        (c as u32 + 32) as char
    } else {
        c
    }
}

/// The text with its ASCII letters in lower case.
pub open spec fn ascii_lowered(s: Seq<char>) -> Seq<char> {
    s.map_values(|c: char| ascii_lower(c))
}

/// The lower-case form of an ASCII letter; any other character itself.
pub fn lower_char(c: char) -> (r: char)
    ensures
        r == ascii_lower(c),
{
    if 'A' <= c && c <= 'Z' {
        (c as u8 + 32) as char
    } else {
        c
    }
}

/// Puts the ASCII letters of a text in lower case.
pub fn to_ascii_lower(s: &str) -> (r: String)
    ensures
        r@ == ascii_lowered(s@),
{
    let chars = to_chars(s);
    let mut out = String::new();
    let mut i: usize = 0;
    while i < chars.len()
        invariant
            i <= chars@.len(),
            out@ == ascii_lowered(chars@.take(i as int)),
        decreases chars@.len() - i,
    {
        out.push(lower_char(chars[i]));
        i += 1;
        proof {
            assert(out@ =~= ascii_lowered(chars@.take(i as int)));
        }
    }
    proof {
        assert(chars@.take(i as int) =~= chars@);
    }
    out
}

/// Whether a text has no characters.
pub fn is_empty(s: &str) -> (r: bool)
    ensures
        r == (s@.len() == 0),
{
    to_chars(s).len() == 0
}

// ── Searching ────────────────────────────────────────────────────────────────

/// Whether `p` stands in `s` at place `i`.
pub open spec fn occurs_at(s: Seq<char>, p: Seq<char>, i: int) -> bool {
    0 <= i && i + p.len() <= s.len() && s.subrange(i, i + p.len()) == p
}

/// Whether `s` begins with `p`.
pub open spec fn begins_with(s: Seq<char>, p: Seq<char>) -> bool {
    occurs_at(s, p, 0)
}

/// Whether `p` stands somewhere in `s`.
pub open spec fn occurs_in(s: Seq<char>, p: Seq<char>) -> bool {
    exists|i: int| occurs_at(s, p, i)
}

/// Whether `p` stands in `s` at place `i`.
pub fn matches_at(s: &[char], p: &[char], i: usize) -> (r: bool)
    ensures
        r == occurs_at(s@, p@, i as int),
{
    if i > s.len() || p.len() > s.len() - i {
        return false;
    }
    let n: usize = s.len();
    let mut k: usize = 0;
    while k < p.len()
        invariant
            i + p@.len() <= n == s@.len(),
            k <= p@.len(),
            forall|j: int| 0 <= j < k ==> s@[i + j] == p@[j],
        decreases p@.len() - k,
    {
        if s[i + k] != p[k] {
            proof {
                assert(s@.subrange(i as int, i + p@.len())[k as int] != p@[k as int]);
            }
            return false;
        }
        k += 1;
    }
    proof {
        assert(s@.subrange(i as int, i + p@.len()) =~= p@);
    }
    true
}

/// Whether a text begins with another.
pub fn starts_with(s: &str, p: &str) -> (r: bool)
    ensures
        r == begins_with(s@, p@),
{
    matches_at(&to_chars(s), &to_chars(p), 0)
}

/// Whether a text holds another.
pub fn contains(s: &str, p: &str) -> (r: bool)
    ensures
        r == occurs_in(s@, p@),
{
    let sc = to_chars(s);
    let pc = to_chars(p);
    let mut i: usize = 0;
    while i < sc.len()
        invariant
            sc@ == s@,
            pc@ == p@,
            i <= sc@.len(),
            forall|k: int| 0 <= k < i ==> !occurs_at(s@, p@, k),
        decreases sc@.len() - i,
    {
        if matches_at(&sc, &pc, i) {
            return true;
        }
        i += 1;
    }
    matches_at(&sc, &pc, i)
}

/// The first place of `c` in `s` at or after `from`; the length of `s` where there is none.
pub open spec fn place_from(s: Seq<char>, c: char, from: int) -> int
    decreases s.len() - from,
{
    if from >= s.len() {
        s.len() as int
    } else if s[from] == c {
        from
    } else {
        place_from(s, c, from + 1)
    }
}

/// The first place of `c` in `s` at or after `from`; the length of `s` where there is none.
pub fn find_from(s: &[char], c: char, from: usize) -> (r: usize)
    requires
        from <= s@.len(),
    ensures
        r == place_from(s@, c, from as int),
        from <= r <= s@.len(),
        r < s@.len() ==> s@[r as int] == c,
        forall|k: int| from <= k < r ==> s@[k] != c,
{
    let mut i: usize = from;
    while i < s.len() && s[i] != c
        invariant
            from <= i <= s@.len(),
            place_from(s@, c, from as int) == place_from(s@, c, i as int),
            forall|k: int| from <= k < i ==> s@[k] != c,
        decreases s@.len() - i,
    {
        i += 1;
    }
    i
}

/// The first place of `p` in `s` at or after `from`; nothing where there is none.
pub open spec fn first_place(s: Seq<char>, p: Seq<char>, from: int) -> Option<int>
    decreases s.len() - from,
{
    if occurs_at(s, p, from) {
        Some(from)
    } else if from >= s.len() {
        None
    } else {
        first_place(s, p, from + 1)
    }
}

/// What stands before the first occurrence of `p` in `s`.
pub open spec fn before_first(s: Seq<char>, p: Seq<char>) -> Option<Seq<char>> {
    match first_place(s, p, 0) {
        Some(i) => Some(s.take(i)),
        None => None,
    }
}

/// The first place of `p` in `s` at or after `from`.
pub fn find_text(s: &[char], p: &[char], from: usize) -> (r: Option<usize>)
    requires
        from <= s@.len(),
    ensures
        match r {
            Some(i) => first_place(s@, p@, from as int) == Some(i as int) && from <= i && i + p@.len() <= s@.len(),
            None => first_place(s@, p@, from as int) is None,
        },
{
    let n: usize = s.len();
    let mut i: usize = from;
    while i < n
        invariant
            n == s@.len(),
            from <= i <= n,
            first_place(s@, p@, from as int) == first_place(s@, p@, i as int),
        decreases n - i,
    {
        if matches_at(s, p, i) {
            return Some(i);
        }
        i += 1;
    }
    if matches_at(s, p, i) {
        Some(i)
    } else {
        None
    }
}

/// What stands before the first occurrence of a text in another.
pub fn split_before(s: &str, p: &str) -> (r: Option<String>)
    ensures
        view_opt(r) == before_first(s@, p@),
{
    let sc = to_chars(s);
    let pc = to_chars(p);
    match find_text(&sc, &pc, 0) {
        Some(i) => {
            proof {
                assert(sc@.subrange(0, i as int) =~= s@.take(i as int));
            }
            Some(from_range(&sc, 0, i))
        },
        None => None,
    }
}

// ── Taking apart and putting together ────────────────────────────────────────

/// The pieces of a text between the occurrences of a separator.
pub open spec fn split_on(s: Seq<char>, sep: char) -> Seq<Seq<char>>
    decreases s.len(),
{
    if s.len() == 0 {
        seq![Seq::<char>::empty()]
    } else {
        let before = split_on(s.drop_last(), sep);
        if s.last() == sep {
            before.push(Seq::<char>::empty())
        } else {
            before.update(before.len() - 1, before.last().push(s.last()))
        }
    }
}

/// There is always at least one piece.
pub proof fn lemma_split_nonempty(s: Seq<char>, sep: char)
    ensures
        split_on(s, sep).len() >= 1,
    decreases s.len(),
{
    if s.len() > 0 {
        lemma_split_nonempty(s.drop_last(), sep);
    }
}

/// Takes a text apart at each occurrence of a separator.
pub fn split(s: &str, sep: char) -> (r: Vec<String>)
    ensures
        views(r@) == split_on(s@, sep),
{
    let chars = to_chars(s);
    let mut out: Vec<String> = Vec::new();
    let mut piece = String::new();
    let mut i: usize = 0;
    proof {
        assert(views(out@).push(piece@) =~= split_on(chars@.take(0), sep));
    }
    while i < chars.len()
        invariant
            i <= chars@.len(),
            views(out@).push(piece@) == split_on(chars@.take(i as int), sep),
        decreases chars@.len() - i,
    {
        let c = chars[i];
        proof {
            assert(chars@.take(i + 1).drop_last() =~= chars@.take(i as int));
            assert(chars@.take(i + 1).last() == c);
        }
        let ghost before = views(out@).push(piece@);
        if c == sep {
            out.push(piece);
            piece = String::new();
            proof {
                assert(views(out@) =~= before);
            }
        } else {
            piece.push(c);
            proof {
                assert(views(out@).push(piece@) =~= before.update(before.len() - 1, before.last().push(c)));
            }
        }
        i += 1;
    }
    proof {
        assert(chars@.take(i as int) =~= chars@);
    }
    let ghost before = views(out@).push(piece@);
    out.push(piece);
    proof {
        assert(views(out@) =~= before);
    }
    out
}

/// A line without the carriage return that ends it.
pub open spec fn without_cr(s: Seq<char>) -> Seq<char> {
    if s.len() > 0 && s.last() == '\r' {
        s.drop_last()
    } else {
        s
    }
}

/// The lines of a text: a line ends in a line feed, with or without a carriage
/// return before it; what follows the last line feed is a line unless it is empty.
pub open spec fn lines_of(s: Seq<char>) -> Seq<Seq<char>> {
    let parts = split_on(s, '\n');
    let whole = parts.drop_last().map_values(|p: Seq<char>| without_cr(p));
    if parts.last().len() == 0 {
        whole
    } else {
        whole.push(parts.last())
    }
}

/// Removes one carriage return from the end of a text.
fn strip_cr(s: &str) -> (r: String)
    ensures
        r@ == without_cr(s@),
{
    let chars = to_chars(s);
    let n: usize = chars.len();
    if n > 0 && chars[n - 1] == '\r' {
        proof {
            assert(chars@.subrange(0, n - 1) =~= s@.drop_last());
        }
        from_range(&chars, 0, n - 1)
    } else {
        s.to_owned()
    }
}

/// Takes a text apart into lines.
pub fn lines(s: &str) -> (r: Vec<String>)
    ensures
        views(r@) == lines_of(s@),
{
    let parts = split(s, '\n');
    let ghost pv = views(parts@);
    proof {
        lemma_split_nonempty(s@, '\n');
    }
    let n: usize = parts.len();
    let mut out: Vec<String> = Vec::new();
    let mut i: usize = 0;
    while i + 1 < n
        invariant
            n == parts@.len(),
            n >= 1,
            i + 1 <= n,
            pv == views(parts@),
            out@.len() == i,
            forall|k: int| 0 <= k < i ==> out@[k]@ == without_cr(#[trigger] pv[k]),
        decreases n - i,
    {
        out.push(strip_cr(parts[i].as_str()));
        i += 1;
    }
    let ghost whole = pv.drop_last().map_values(|p: Seq<char>| without_cr(p));
    proof {
        assert forall|k: int| 0 <= k < whole.len() implies views(out@)[k] == whole[k] by {
            assert(whole[k] == without_cr(pv[k]));
        }
        assert(views(out@) =~= whole);
        assert(parts@[n - 1]@ == pv.last());
    }
    let last = to_chars(parts[n - 1].as_str());
    if last.len() > 0 {
        out.push(parts[n - 1].clone());
        proof {
            assert(views(out@) =~= whole.push(pv.last()));
        }
    }
    out
}

/// The pieces one after the other, with a separator between neighbours.
pub open spec fn joined(parts: Seq<Seq<char>>, sep: Seq<char>) -> Seq<char>
    decreases parts.len(),
{
    if parts.len() == 0 {
        Seq::<char>::empty()
    } else if parts.len() == 1 {
        parts[0]
    } else {
        joined(parts.drop_last(), sep) + sep + parts.last()
    }
}

/// Puts pieces together with a separator between neighbours.
pub fn join(parts: &[String], sep: &str) -> (r: String)
    ensures
        r@ == joined(views(parts@), sep@),
{
    let mut out = String::new();
    let mut i: usize = 0;
    while i < parts.len()
        invariant
            i <= parts@.len(),
            out@ == joined(views(parts@.take(i as int)), sep@),
        decreases parts@.len() - i,
    {
        proof {
            let now = views(parts@.take(i + 1));
            assert(now.drop_last() =~= views(parts@.take(i as int)));
            assert(now.last() == parts@[i as int]@);
        }
        if i > 0 {
            out.append(sep);
        }
        out.append(parts[i].as_str());
        proof {
            if i == 0 {
                assert(out@ =~= parts@[0]@);
            }
        }
        i += 1;
    }
    proof {
        assert(parts@.take(i as int) =~= parts@);
    }
    out
}

/// Whether a list of texts holds a given one.
pub fn list_contains(list: &[String], s: &str) -> (r: bool)
    ensures
        r == views(list@).contains(s@),
{
    let mut i: usize = 0;
    while i < list.len()
        invariant
            i <= list@.len(),
            forall|k: int| 0 <= k < i ==> views(list@)[k] != s@,
        decreases list@.len() - i,
    {
        if same(list[i].as_str(), s) {
            proof {
                assert(views(list@)[i as int] == s@);
            }
            return true;
        }
        i += 1;
    }
    false
}

/// The list without the texts that stand earlier in it too.
pub open spec fn deduped(list: Seq<Seq<char>>) -> Seq<Seq<char>>
    decreases list.len(),
{
    if list.len() == 0 {
        list
    } else {
        let before = deduped(list.drop_last());
        if before.contains(list.last()) {
            before
        } else {
            before.push(list.last())
        }
    }
}

/// Leaves out the texts that stand earlier in the list too.
pub fn dedup(list: Vec<String>) -> (r: Vec<String>)
    ensures
        views(r@) == deduped(views(list@)),
{
    let mut out: Vec<String> = Vec::new();
    let mut i: usize = 0;
    proof {
        assert(views(out@) =~= deduped(views(list@.take(0))));
    }
    while i < list.len()
        invariant
            i <= list@.len(),
            views(out@) == deduped(views(list@.take(i as int))),
        decreases list@.len() - i,
    {
        let ghost before = views(out@);
        proof {
            let now = views(list@.take(i + 1));
            assert(now.drop_last() =~= views(list@.take(i as int)));
            assert(now.last() == list@[i as int]@);
        }
        if !list_contains(&out, list[i].as_str()) {
            out.push(list[i].clone());
            proof {
                assert(views(out@) =~= before.push(list@[i as int]@));
            }
        }
        i += 1;
    }
    proof {
        assert(list@.take(i as int) =~= list@);
    }
    out
}

/// What is left of a list has no text twice, and holds the texts of the list.
pub proof fn lemma_deduped(list: Seq<Seq<char>>)
    ensures
        deduped(list).no_duplicates(),
        forall|s: Seq<char>| deduped(list).contains(s) <==> list.contains(s),
        list.len() > 0 ==> deduped(list).len() > 0 && deduped(list)[0] == list[0],
    decreases list.len(),
{
    if list.len() > 0 {
        lemma_deduped(list.drop_last());
        let before = deduped(list.drop_last());
        let now = deduped(list);
        assert(list =~= list.drop_last().push(list.last()));
        assert forall|s: Seq<char>| now.contains(s) <==> list.contains(s) by {
            if list.contains(s) {
                let k = choose|k: int| 0 <= k < list.len() && list[k] == s;
                if k < list.len() - 1 {
                    assert(list.drop_last()[k] == s);
                    assert(list.drop_last().contains(s));
                    assert(before.contains(s));
                    let j = choose|j: int| 0 <= j < before.len() && before[j] == s;
                    assert(now[j] == s);
                } else if !before.contains(s) {
                    assert(now[now.len() - 1] == s);
                }
            }
            if now.contains(s) {
                let j = choose|j: int| 0 <= j < now.len() && now[j] == s;
                if j < before.len() {
                    assert(before[j] == s);
                    assert(before.contains(s));
                    assert(list.drop_last().contains(s));
                    let k = choose|k: int| 0 <= k < list.drop_last().len() && list.drop_last()[k] == s;
                    assert(list[k] == s);
                } else {
                    assert(list[list.len() - 1] == s);
                }
            }
        }
        if list.len() == 1 {
            assert(before.len() == 0) by {
                assert(list.drop_last().len() == 0);
            }
        } else {
            assert(list.drop_last()[0] == list[0]);
        }
    }
}

/// The number of bytes of a text in UTF-8.
pub open spec fn byte_len(s: Seq<char>) -> nat {
    encode_utf8(s).len()
}

/// Whether every character is an ASCII character.
pub open spec fn all_ascii(s: Seq<char>) -> bool {
    forall|i: int| 0 <= i < s.len() ==> (#[trigger] s[i] as u32) < 128
}

/// An ASCII text has one byte for each of its characters.
pub proof fn lemma_ascii_byte_len(s: Seq<char>)
    requires
        all_ascii(s),
    ensures
        byte_len(s) == s.len(),
    decreases s.len(),
{
    if s.len() > 0 {
        lemma_ascii_byte_len(s.drop_first());
        assert((s[0] as u32) < 128);
    }
}

/// The number of bytes of a text in UTF-8.
pub fn utf8_len(s: &str) -> (r: usize)
    ensures
        r == byte_len(s@),
{
    s.as_bytes().len()
}

/// The number of bytes of a character in UTF-8.
pub open spec fn char_bytes(c: char) -> nat {
    if (c as u32) < 0x80 {
        1
    } else if (c as u32) < 0x800 {
        2
    } else if (c as u32) < 0x10000 {
        3
    } else {
        4
    }
}

/// The characters that make up the first bytes of a text, if these end between two
/// characters.
pub open spec fn byte_prefix(s: Seq<char>, n: int) -> Option<Seq<char>>
    decreases s.len(),
{
    if n == 0 {
        Some(Seq::empty())
    } else if s.len() == 0 || char_bytes(s[0]) > n {
        None
    } else {
        match byte_prefix(s.drop_first(), n - char_bytes(s[0])) {
            Some(rest) => Some(seq![s[0]] + rest),
            None => None,
        }
    }
}

/// The characters that make up the first bytes of a text, if these end between two
/// characters.
pub fn take_bytes(s: &str, n: usize) -> (r: Option<String>)
    ensures
        view_opt(r) == byte_prefix(s@, n as int),
{
    let chars = to_chars(s);
    let len: usize = chars.len();
    let mut i: usize = 0;
    let mut left: usize = n;
    proof {
        assert(s@.skip(0) =~= s@);
        if let Some(rest) = byte_prefix(s@, n as int) {
            assert(s@.take(0) + rest =~= rest);
        }
    }
    while i < len && left > 0
        invariant
            len == chars@.len(),
            i <= len,
            left <= n,
            chars@ == s@,
            byte_prefix(s@, n as int) == match byte_prefix(s@.skip(i as int), left as int) {
                Some(rest) => Some(s@.take(i as int) + rest),
                None => None,
            },
        decreases len - i,
    {
        let c = chars[i];
        let code: u32 = c as u32;
        let size: usize = if code < 0x80 {
            1
        } else if code < 0x800 {
            2
        } else if code < 0x10000 {
            3
        } else {
            4
        };
        let ghost here = s@.skip(i as int);
        proof {
            assert(here[0] == c);
            assert(here.drop_first() =~= s@.skip(i + 1));
        }
        if size > left {
            return None;
        }
        proof {
            if let Some(rest) = byte_prefix(s@.skip(i + 1), left - size) {
                assert(s@.take(i as int) + (seq![c] + rest) =~= s@.take(i + 1) + rest);
            }
        }
        left = left - size;
        i += 1;
    }
    if left > 0 {
        return None;
    }
    let out = from_range(chars.as_slice(), 0, i);
    proof {
        assert(out@ =~= s@.take(i as int) + Seq::<char>::empty());
    }
    Some(out)
}

/// Trimming leaves a text alone that neither starts nor ends with white space.
pub proof fn lemma_trim_plain(s: Seq<char>)
    requires
        s.len() > 0,
        !is_white(s[0]),
        !is_white(s.last()),
    ensures
        trimmed(s) == s,
{
    assert(trimmed_start(s) == s);
    assert(trimmed_end(s) == s);
}

/// Splitting a text that ends in a piece without separators leaves that piece together.
proof fn lemma_split_tail(s: Seq<char>, tail: Seq<char>, sep: char)
    requires
        !tail.contains(sep),
    ensures
        split_on(s + tail, sep) == split_on(s, sep).update(
            split_on(s, sep).len() - 1,
            split_on(s, sep).last() + tail,
        ),
    decreases tail.len(),
{
    lemma_split_nonempty(s, sep);
    let base = split_on(s, sep);
    if tail.len() == 0 {
        assert(s + tail =~= s);
        assert(base.last() + tail =~= base.last());
        assert(base.update(base.len() - 1, base.last()) =~= base);
    } else {
        let front = tail.drop_last();
        assert forall|c: char| front.contains(c) implies tail.contains(c) by {
            let i = choose|i: int| 0 <= i < front.len() && front[i] == c;
            assert(tail[i] == c);
        }
        lemma_split_tail(s, front, sep);
        assert((s + tail).drop_last() =~= s + front);
        assert(tail[tail.len() - 1] != sep) by {
            assert(tail.contains(tail[tail.len() - 1]));
        }
        let before = split_on(s + front, sep);
        assert(before.last() == base.last() + front);
        assert((base.last() + front).push(tail.last()) =~= base.last() + tail);
        assert(before.update(before.len() - 1, base.last() + tail) =~= base.update(
            base.len() - 1,
            base.last() + tail,
        ));
    }
}

/// Pieces without separators come apart again as they were put together.
pub proof fn lemma_split_joined(parts: Seq<Seq<char>>, sep: char)
    requires
        parts.len() > 0,
        forall|i: int| 0 <= i < parts.len() ==> !(#[trigger] parts[i]).contains(sep),
    ensures
        split_on(joined(parts, seq![sep]), sep) == parts,
    decreases parts.len(),
{
    let last = parts.last();
    assert(!parts[parts.len() - 1].contains(sep));
    if parts.len() == 1 {
        let none = Seq::<char>::empty();
        lemma_split_tail(none, last, sep);
        assert(none + last =~= last);
        assert(split_on(none, sep) =~= seq![none]);
        assert(seq![none].update(0, none + last) =~= parts);
    } else {
        let front = parts.drop_last();
        assert forall|i: int| 0 <= i < front.len() implies !(#[trigger] front[i]).contains(sep) by {
            assert(!parts[i].contains(sep));
        }
        lemma_split_joined(front, sep);
        let head = joined(front, seq![sep]);
        let cut = head + seq![sep];
        assert(cut.drop_last() =~= head);
        assert(split_on(cut, sep) == front.push(Seq::<char>::empty()));
        lemma_split_tail(cut, last, sep);
        assert(Seq::<char>::empty() + last =~= last);
        assert(front.push(Seq::<char>::empty()).update(front.len() as int, last) =~= parts);
    }
}

/// Lines that neither hold a line feed nor end in white space, and are not empty, come
/// apart again as they were put together.
pub proof fn lemma_lines_joined(rows: Seq<Seq<char>>)
    requires
        forall|i: int|
            0 <= i < rows.len() ==> (#[trigger] rows[i]).len() > 0 && !is_white(rows[i].last()) && !rows[i].contains('\n'),
    ensures
        lines_of(joined(rows, seq!['\n'])) == rows,
{
    if rows.len() == 0 {
        assert(split_on(joined(rows, seq!['\n']), '\n') =~= seq![Seq::<char>::empty()]);
        assert(lines_of(joined(rows, seq!['\n'])) =~= rows);
    } else {
        lemma_split_joined(rows, '\n');
        let whole = rows.drop_last().map_values(|p: Seq<char>| without_cr(p));
        assert forall|i: int| 0 <= i < whole.len() implies whole[i] == rows[i] by {
            assert(rows[i].len() > 0 && !is_white(rows[i].last()));
        }
        assert(rows[rows.len() - 1].len() > 0);
        assert(whole.push(rows.last()) =~= rows);
    }
}

// ── What the operations give ─────────────────────────────────────────────────

/// Trimming takes white space off the two ends, all of it, and nothing else.
pub proof fn law_trim(s: &str, r: String)
    requires
        call_ensures(trim, (s,), r),
    ensures
        r@.len() > 0 ==> !is_white(r@[0]) && !is_white(r@.last()),
        exists|i: int, j: int|
            {
                &&& 0 <= i <= j <= s@.len()
                &&& r@ == #[trigger] s@.subrange(i, j)
                &&& forall|k: int| 0 <= k < i || j <= k < s@.len() ==> is_white(#[trigger] s@[k])
            },
{
    lemma_trimmed(s@);
}

/// What trimming leaves stands in the text with white space before and after it.
pub proof fn lemma_trimmed(s: Seq<char>)
    ensures
        trimmed(s).len() > 0 ==> !is_white(trimmed(s)[0]) && !is_white(trimmed(s).last()),
        exists|i: int, j: int|
            {
                &&& 0 <= i <= j <= s.len()
                &&& trimmed(s) == #[trigger] s.subrange(i, j)
                &&& forall|k: int| 0 <= k < i || j <= k < s.len() ==> is_white(#[trigger] s[k])
            },
{
    let i = lemma_trimmed_start(s);
    let t = trimmed_start(s);
    let n = lemma_trimmed_end(t);
    assert(s.subrange(i, i + n) =~= trimmed(s));
    assert forall|k: int| 0 <= k < i || i + n <= k < s.len() implies is_white(#[trigger] s[k]) by {
        if k >= i {
            assert(t[k - i] == s[k]);
        }
    }
}

/// How many characters a text loses at its start.
proof fn lemma_trimmed_start(s: Seq<char>) -> (i: int)
    ensures
        0 <= i <= s.len(),
        trimmed_start(s) == s.skip(i),
        forall|k: int| 0 <= k < i ==> is_white(#[trigger] s[k]),
        i < s.len() ==> !is_white(s[i]),
    decreases s.len(),
{
    if s.len() > 0 && is_white(s[0]) {
        let rest = s.skip(1);
        let j = lemma_trimmed_start(rest);
        assert(rest.skip(j) =~= s.skip(j + 1));
        assert forall|k: int| 0 <= k < j + 1 implies is_white(#[trigger] s[k]) by {
            if k > 0 {
                assert(rest[k - 1] == s[k]);
            }
        }
        if j + 1 < s.len() {
            assert(rest[j] == s[j + 1]);
        }
        j + 1
    } else {
        assert(s.skip(0) =~= s);
        0
    }
}

/// How many characters a text keeps when it loses the white space at its end.
proof fn lemma_trimmed_end(s: Seq<char>) -> (n: int)
    ensures
        0 <= n <= s.len(),
        trimmed_end(s) == s.take(n),
        forall|k: int| n <= k < s.len() ==> is_white(#[trigger] s[k]),
        n > 0 ==> !is_white(s[n - 1]),
        n > 0 ==> trimmed_end(s)[0] == s[0],
    decreases s.len(),
{
    if s.len() > 0 && is_white(s.last()) {
        let rest = s.drop_last();
        let n = lemma_trimmed_end(rest);
        assert(rest.take(n) =~= s.take(n));
        assert forall|k: int| n <= k < s.len() implies is_white(#[trigger] s[k]) by {
            if k < rest.len() {
                assert(rest[k] == s[k]);
            }
        }
        n
    } else {
        assert(s.take(s.len() as int) =~= s);
        s.len() as int
    }
}

/// White space is what ASCII has of it, the space and the five characters from the tab to the
/// carriage return, and no visible ASCII character.
pub proof fn law_ascii_white_space(c: char)
    requires
        (c as u32) < 128,
    ensures
        is_white(c) <==> c == ' ' || '\t' <= c <= '\r',
{
}

/// Splitting loses nothing: put together again with the separator, the pieces are the text, and
/// none of them holds the separator.
pub proof fn law_split(s: &str, sep: char, parts: Vec<String>)
    requires
        call_ensures(split, (s, sep), parts),
    ensures
        parts@.len() > 0,
        joined(views(parts@), seq![sep]) == s@,
        forall|i: int| 0 <= i < parts@.len() ==> !(#[trigger] parts@[i])@.contains(sep),
{
    lemma_split_whole(s@, sep);
    assert forall|i: int| 0 <= i < parts@.len() implies !(#[trigger] parts@[i])@.contains(sep) by {
        assert(views(parts@)[i] == parts@[i]@);
    }
}

/// The pieces of a text, put together again, are the text.
pub proof fn lemma_split_whole(s: Seq<char>, sep: char)
    ensures
        split_on(s, sep).len() > 0,
        joined(split_on(s, sep), seq![sep]) == s,
        forall|i: int| 0 <= i < split_on(s, sep).len() ==> !(#[trigger] split_on(s, sep)[i]).contains(sep),
    decreases s.len(),
{
    let parts = split_on(s, sep);
    if s.len() == 0 {
        assert(joined(parts, seq![sep]) =~= s);
    } else {
        let front = s.drop_last();
        let before = split_on(front, sep);
        lemma_split_whole(front, sep);
        if s.last() == sep {
            assert(parts.drop_last() =~= before);
            assert(joined(parts, seq![sep]) =~= s);
        } else {
            let longer = before.last().push(s.last());
            assert(parts.last() == longer);
            assert forall|i: int| 0 <= i < parts.len() implies !(#[trigger] parts[i]).contains(sep) by {
                assert(!before[i].contains(sep));
                if i == parts.len() - 1 {
                    assert forall|k: int| 0 <= k < longer.len() implies longer[k] != sep by {
                        if k < before.last().len() {
                            assert(before[i].contains(before[i][k]));
                        }
                    }
                }
            }
            if before.len() == 1 {
                assert(joined(parts, seq![sep]) =~= s);
            } else {
                assert(parts.drop_last() =~= before.drop_last());
                let head = joined(before.drop_last(), seq![sep]) + seq![sep];
                assert(front == head + before.last());
                assert(joined(parts, seq![sep]) == head + longer);
                assert(head + longer =~= (head + before.last()).push(s.last()));
                assert(front.push(s.last()) =~= s);
            }
        }
    }
}

/// No line holds a line feed, and the text is its lines, each ended by a line feed or by a
/// carriage return and a line feed; only the last may lack its end.
pub proof fn law_lines(s: &str, rows: Vec<String>)
    requires
        call_ensures(lines, (s,), rows),
    ensures
        forall|i: int| 0 <= i < rows@.len() ==> !(#[trigger] rows@[i])@.contains('\n'),
        exists|parts: Seq<Seq<char>>|
            {
                &&& #[trigger] joined(parts, seq!['\n']) == s@
                &&& parts.len() > 0
                &&& rows@.len() == parts.len() - if parts.last().len() == 0 {
                    1int
                } else {
                    0int
                }
                &&& forall|i: int|
                    0 <= i < rows@.len() ==> (#[trigger] rows@[i])@ == parts[i] || (i < parts.len() - 1 && parts[i]
                        == rows@[i]@.push('\r'))
                &&& forall|i: int|
                    0 <= i < parts.len() - 1 && #[trigger] parts[i].len() > 0 && parts[i].last() == '\r' ==> parts[i]
                        == rows@[i]@.push('\r')
            },
{
    let parts = split_on(s@, '\n');
    lemma_split_whole(s@, '\n');
    let rv = views(rows@);
    let whole = parts.drop_last().map_values(|p: Seq<char>| without_cr(p));
    assert(rv == if parts.last().len() == 0 {
        whole
    } else {
        whole.push(parts.last())
    });
    assert(rv.len() == rows@.len() && whole.len() == parts.len() - 1);
    assert forall|i: int| 0 <= i < rows@.len() implies (#[trigger] rows@[i])@ == parts[i] || (i < parts.len() - 1 && parts[i]
        == rows@[i]@.push('\r')) by {
        assert(rv[i] == rows@[i]@);
        if i < parts.len() - 1 {
            assert(rv[i] == without_cr(parts[i]));
            if parts[i].len() > 0 && parts[i].last() == '\r' {
                assert(rv[i].push('\r') =~= parts[i]);
            }
        }
    }
    assert forall|i: int| 0 <= i < rows@.len() implies !(#[trigger] rows@[i])@.contains('\n') by {
        assert(rv[i] == rows@[i]@);
        assert(!parts[i].contains('\n'));
        if rv[i].contains('\n') {
            let k = choose|k: int| 0 <= k < rv[i].len() && rv[i][k] == '\n';
            assert(parts[i][k] == '\n');
        }
    }
    assert forall|i: int|
        0 <= i < parts.len() - 1 && #[trigger] parts[i].len() > 0 && parts[i].last() == '\r' implies parts[i]
        == rows@[i]@.push('\r') by {
        assert(rv[i] == without_cr(parts[i]));
        assert(rv[i].push('\r') =~= parts[i]);
    }
    assert(joined(parts, seq!['\n']) == s@);
}

/// A text is found at the first place where it stands, and only then.
pub proof fn law_find_text(s: &[char], p: &[char], from: usize, r: Option<usize>, k: int)
    requires
        from <= s@.len(),
        call_ensures(find_text, (s, p, from), r),
    ensures
        r matches Some(i) ==> from <= i && i + p@.len() <= s@.len() && s@.subrange(i as int, i + p@.len()) == p@,
        from <= k && k + p@.len() <= s@.len() && s@.subrange(k, k + p@.len()) == p@ ==> r is Some && r->0 <= k,
{
    lemma_first_place(s@, p@, from as int);
    assert(occurs_at(s@, p@, k) == (0 <= k && k + p@.len() <= s@.len() && s@.subrange(k, k + p@.len()) == p@));
}

/// The first place of a text is where it stands, and it stands nowhere before.
pub proof fn lemma_first_place(s: Seq<char>, p: Seq<char>, from: int)
    requires
        0 <= from <= s.len(),
    ensures
        match first_place(s, p, from) {
            Some(i) => from <= i <= s.len() && occurs_at(s, p, i) && forall|k: int|
                from <= k < i ==> !#[trigger] occurs_at(s, p, k),
            None => forall|k: int| from <= k ==> !#[trigger] occurs_at(s, p, k),
        },
    decreases s.len() - from,
{
    if !occurs_at(s, p, from) && from < s.len() {
        lemma_first_place(s, p, from + 1);
    }
}

/// A list without doubles keeps the first of each, in their order: what is left after one more
/// text is what was left before, and then the text where it is new.
pub proof fn law_dedup(list: Vec<String>, r: Vec<String>)
    requires
        call_ensures(dedup, (list,), r),
    ensures
        views(r@).no_duplicates(),
        forall|s: Seq<char>| views(r@).contains(s) <==> views(list@).contains(s),
        forall|i: int, j: int|
            0 <= i < j < r@.len() ==> views(list@).index_of_first(#[trigger] views(r@)[i]) is Some && views(
                list@,
            ).index_of_first(#[trigger] views(r@)[j]) is Some && views(list@).index_of_first(views(r@)[i])->0 < views(
                list@,
            ).index_of_first(views(r@)[j])->0,
{
    lemma_deduped(views(list@));
    lemma_deduped_order(views(list@));
}

/// What is left of a list stands in the order in which the texts first come.
proof fn lemma_deduped_order(list: Seq<Seq<char>>)
    ensures
        forall|i: int|
            0 <= i < deduped(list).len() ==> list.contains(#[trigger] deduped(list)[i]) && list.index_of_first(
                deduped(list)[i],
            ) is Some,
        forall|i: int, j: int|
            0 <= i < j < deduped(list).len() ==> list.index_of_first(#[trigger] deduped(list)[i])->0
                < list.index_of_first(#[trigger] deduped(list)[j])->0,
    decreases list.len(),
{
    lemma_deduped(list);
    let now = deduped(list);
    assert forall|i: int| 0 <= i < now.len() implies list.contains(#[trigger] now[i]) && list.index_of_first(now[i]) is Some by {
        assert(now.contains(now[i]));
        list.index_of_first_ensures(now[i]);
    }
    if list.len() > 0 {
        let front = list.drop_last();
        let before = deduped(front);
        lemma_deduped(front);
        lemma_deduped_order(front);
        assert forall|i: int, j: int| 0 <= i < j < now.len() implies list.index_of_first(#[trigger] now[i])->0
            < list.index_of_first(#[trigger] now[j])->0 by {
            let a = now[i];
            assert(before[i] == a);
            assert(before.contains(a));
            front.index_of_first_ensures(a);
            list.index_of_first_ensures(a);
            let ai = front.index_of_first(a)->0;
            let al = list.index_of_first(a)->0;
            assert(list[ai] == a);
            assert(al == ai) by {
                if al < ai {
                    assert(front[al] == a);
                }
            }
            let b = now[j];
            list.index_of_first_ensures(b);
            let bl = list.index_of_first(b)->0;
            if j < before.len() {
                assert(before[j] == b);
                assert(before.contains(b));
                front.index_of_first_ensures(b);
                let bi = front.index_of_first(b)->0;
                assert(list[bi] == b);
                assert(bl == bi) by {
                    if bl < bi {
                        assert(front[bl] == b);
                    }
                }
            } else {
                assert(!before.contains(b));
                assert(!front.contains(b));
                if bl < front.len() {
                    assert(front[bl] == b);
                }
            }
        }
    }
}

/// Lower case is the same text in which each letter from A to Z is the one from a to z at the
/// same place of the alphabet.
pub proof fn law_ascii_lower(s: &str, r: String, i: int)
    requires
        call_ensures(to_ascii_lower, (s,), r),
        0 <= i < s@.len(),
    ensures
        r@.len() == s@.len(),
        if 'A' <= s@[i] <= 'Z' {
            'a' <= r@[i] <= 'z' && r@[i] as int - 'a' as int == s@[i] as int - 'A' as int
        } else {
            r@[i] == s@[i]
        },
{
}

/// A text that is cut after a number of bytes is the start of the text that takes up exactly these
/// bytes; it can be cut there wherever a start of it does.
pub proof fn law_take_bytes(s: &str, n: usize, r: Option<String>, k: int)
    requires
        call_ensures(take_bytes, (s, n), r),
    ensures
        r matches Some(p) ==> p@.len() <= s@.len() && p@ == s@.take(p@.len() as int) && byte_len(p@) == n,
        0 <= k <= s@.len() && byte_len(s@.take(k)) == n ==> r is Some && r->0@ == s@.take(k),
{
    lemma_byte_prefix(s@, n as int, k);
}

/// The start of a text that takes up a number of bytes.
pub proof fn lemma_byte_prefix(s: Seq<char>, n: int, k: int)
    requires
        n >= 0,
    ensures
        byte_prefix(s, n) matches Some(p) ==> p.len() <= s.len() && p == s.take(p.len() as int) && byte_len(p) == n,
        0 <= k <= s.len() && byte_len(s.take(k)) == n ==> byte_prefix(s, n) == Some(s.take(k)),
    decreases s.len(),
{
    if n == 0 {
        assert(s.take(0) =~= Seq::<char>::empty());
        lemma_ascii_byte_len(Seq::<char>::empty());
        if 0 < k <= s.len() {
            lemma_byte_len_first(s.take(k));
        }
        if k == 0 {
            assert(s.take(k) =~= Seq::<char>::empty());
        }
    } else {
        if 0 <= k <= s.len() && byte_len(s.take(k)) == n && k == 0 {
            assert(s.take(k) =~= Seq::<char>::empty());
            lemma_ascii_byte_len(Seq::<char>::empty());
        }
        if s.len() > 0 {
            let rest = s.drop_first();
            if 0 < k <= s.len() {
                lemma_byte_len_first(s.take(k));
                assert(s.take(k).drop_first() =~= rest.take(k - 1));
                assert(seq![s[0]] + rest.take(k - 1) =~= s.take(k));
            }
            if char_bytes(s[0]) <= n {
                lemma_byte_prefix(rest, n - char_bytes(s[0]), k - 1);
                if let Some(p) = byte_prefix(rest, n - char_bytes(s[0])) {
                    let whole = seq![s[0]] + p;
                    assert(whole =~= s.take(whole.len() as int));
                    assert(whole.drop_first() =~= p);
                    lemma_byte_len_first(whole);
                }
            }
        }
    }
}

/// A text has the bytes of its first character and those of the rest.
proof fn lemma_byte_len_first(s: Seq<char>)
    requires
        s.len() > 0,
    ensures
        byte_len(s) == char_bytes(s[0]) + byte_len(s.drop_first()),
        char_bytes(s[0]) > 0,
{
    vstd::utf8::char_is_scalar(s[0]);
    assert(vstd::utf8::encode_scalar(s[0] as u32).len() == char_bytes(s[0]));
}

/// A text stands in another exactly where the other is made of something, the text, and something; it
/// begins the other where nothing stands before it.
pub proof fn law_contains(s: &str, p: &str, in_it: bool, at_its_start: bool, before: Seq<char>, after: Seq<char>)
    requires
        call_ensures(contains, (s, p), in_it),
        call_ensures(starts_with, (s, p), at_its_start),
    ensures
        s@ == before + p@ + after ==> in_it,
        s@ == p@ + after ==> at_its_start,
        in_it ==> exists|a: Seq<char>, b: Seq<char>| s@ == #[trigger] (a + p@ + b),
        at_its_start ==> exists|b: Seq<char>| s@ == #[trigger] (p@ + b),
{
    if s@ == before + p@ + after {
        assert(s@.subrange(before.len() as int, before.len() as int + p@.len()) =~= p@);
        assert(occurs_at(s@, p@, before.len() as int));
    }
    if s@ == p@ + after {
        assert(s@.subrange(0, p@.len() as int) =~= p@);
    }
    if in_it {
        let i = choose|i: int| occurs_at(s@, p@, i);
        assert(s@ =~= s@.take(i) + p@ + s@.skip(i + p@.len()));
    }
    if at_its_start {
        assert(s@ =~= p@ + s@.skip(p@.len() as int));
    }
}

/// Pieces are put together in their order, with the separator between neighbours and nowhere else.
pub proof fn law_join(parts: &[String], more: &[String], piece: String, sep: &str, a: String, b: String)
    requires
        more@ == parts@.push(piece),
        call_ensures(join, (parts, sep), a),
        call_ensures(join, (more, sep), b),
    ensures
        parts@.len() == 0 ==> a@.len() == 0 && b@ == piece@,
        parts@.len() > 0 ==> b@ == a@ + sep@ + piece@,
{
    assert(views(more@) =~= views(parts@).push(piece@));
    assert(views(more@).drop_last() =~= views(parts@));
}

/// What stands before the first place of a text is what a split gives, where the text stands at all.
pub proof fn law_split_before(s: &str, p: &str, r: Option<String>, in_it: bool)
    requires
        call_ensures(split_before, (s, p), r),
        call_ensures(contains, (s, p), in_it),
    ensures
        r is Some <==> in_it,
        r matches Some(head) ==> exists|rest: Seq<char>| s@ == #[trigger] (head@ + p@ + rest),
        r matches Some(head) ==> forall|k: int| 0 <= k < head@.len() ==> !#[trigger] occurs_at(s@, p@, k),
{
    lemma_first_place(s@, p@, 0);
    if let Some(i) = first_place(s@, p@, 0) {
        assert(occurs_at(s@, p@, i));
        assert(s@ =~= s@.take(i) + p@ + s@.skip(i + p@.len()));
    } else if in_it {
        let i = choose|i: int| occurs_at(s@, p@, i);
        assert(occurs_at(s@, p@, i));
    }
}

} // verus!
