//! Text as sequences of characters: the pieces of `std`'s string handling the
//! logic leans on, and the few comparisons and number formats it needs.
use vstd::prelude::*;

verus! {

/// `String::push` appends one character.
pub assume_specification[ String::push ](s: &mut String, c: char)
    ensures
        final(s)@ == old(s)@.push(c),
;

/// `String::pop` takes the last character off, or returns `None` and changes
/// nothing where there is none.
pub assume_specification[ String::pop ](s: &mut String) -> (r: Option<char>)
    ensures
        old(s)@.len() == 0 ==> r is None && final(s)@ == old(s)@,
        old(s)@.len() > 0 ==> r == Some(old(s)@.last()) && final(s)@ == old(s)@.drop_last(),
;

/// The control characters: general category Cc, which is U+0000 to U+001F and
/// U+007F to U+009F.
pub open spec fn is_control_char(c: char) -> bool {
    c as u32 <= 0x1f || 0x7f <= c as u32 <= 0x9f
}

/// Whether `c` is a control character.
pub fn is_control(c: char) -> (r: bool)
    ensures
        r == is_control_char(c),
{
    let code: u32 = c as u32;
    code <= 0x1f || (0x7f <= code && code <= 0x9f)
}

/// Whether a number is a Unicode scalar value.
pub open spec fn is_scalar(code: int) -> bool {
    0 <= code <= 0xd7ff || 0xe000 <= code <= 0x10ffff
}

/// `char::from_u32` gives the character with that code for exactly the Unicode
/// scalar values.
pub assume_specification[ char::from_u32 ](code: u32) -> (r: Option<char>)
    ensures
        r is Some <==> is_scalar(code as int),
        r matches Some(c) ==> c as u32 == code,
;

/// A leading (high) surrogate.
pub open spec fn is_high_surrogate(unit: u16) -> bool {
    0xd800 <= unit <= 0xdbff
}

/// A trailing (low) surrogate.
pub open spec fn is_low_surrogate(unit: u16) -> bool {
    0xdc00 <= unit <= 0xdfff
}

/// The character a surrogate pair stands for.
pub open spec fn paired(high: u16, low: u16) -> char {
    (0x10000 + (high - 0xd800) * 0x400 + (low - 0xdc00)) as char
}

/// UTF-16 as text, with U+FFFD for every surrogate that is not part of a pair.
pub open spec fn utf16_text(units: Seq<u16>) -> Seq<char>
    decreases units.len(),
{
    if units.len() == 0 {
        Seq::empty()
    } else if is_high_surrogate(units[0]) && units.len() > 1 && is_low_surrogate(units[1]) {
        seq![paired(units[0], units[1])] + utf16_text(units.skip(2))
    } else if is_high_surrogate(units[0]) || is_low_surrogate(units[0]) {
        seq!['\u{fffd}'] + utf16_text(units.skip(1))
    } else {
        seq![units[0] as char] + utf16_text(units.skip(1))
    }
}

/// Decode UTF-16, replacing every unpaired surrogate by U+FFFD.
pub fn utf16_lossy(units: &Vec<u16>) -> (r: String)
    ensures
        r@ == utf16_text(units@),
{
    let mut out = String::new();
    let mut i: usize = 0;
    proof {
        assert(units@.skip(0) =~= units@);
        assert(out@ + utf16_text(units@) =~= utf16_text(units@));
    }
    while i < units.len()
        invariant
            i <= units@.len(),
            out@ + utf16_text(units@.skip(i as int)) == utf16_text(units@),
        decreases units@.len() - i,
    {
        let unit: u16 = units[i];
        let ghost rest = units@.skip(i as int);
        let ghost before = out@;
        let high: bool = 0xd800 <= unit && unit <= 0xdbff;
        let low: bool = 0xdc00 <= unit && unit <= 0xdfff;
        let mut code: u32 = unit as u32;
        let mut used: usize = 1;
        if high || low {
            code = 0xfffd;
            if high && i + 1 < units.len() {
                let next: u16 = units[i + 1];
                if 0xdc00 <= next && next <= 0xdfff {
                    code = 0x10000 + (unit as u32 - 0xd800) * 0x400 + (next as u32 - 0xdc00);
                    used = 2;
                }
            }
        }
        let c: char = match char::from_u32(code) {
            Some(c) => c,
            None => '\u{fffd}',
        };
        out.push(c);
        proof {
            assert(rest.skip(used as int) =~= units@.skip(i + used));
            assert(is_scalar(code as int));
            vstd::utf8::char_u32_cast(c, code);
            assert(rest[0] == unit);
            assert(utf16_text(rest) == seq![c] + utf16_text(rest.skip(used as int)));
            assert(before + (seq![c] + utf16_text(rest.skip(used as int))) =~= before.push(c)
                + utf16_text(rest.skip(used as int)));
        }
        i = i + used;
    }
    proof {
        assert(units@.skip(i as int) =~= Seq::<u16>::empty());
        assert(out@ + Seq::<char>::empty() =~= out@);
    }
    out
}

/// The characters of a string, one by one.
pub fn chars_of(s: &str) -> (r: Vec<char>)
    ensures
        r@ == s@,
{
    let mut out: Vec<char> = Vec::new();
    for c in it: s.chars()
        invariant
            out@ == s@.take(it.index()),
            it.seq() == s@,
    {
        proof {
            assert(s@.take(it.index() + 1) =~= s@.take(it.index()).push(c));
        }
        out.push(c);
    }
    proof {
        assert(s@.take(s@.len() as int) =~= s@);
    }
    out
}

/// The string of `chars[from..to]`.
pub fn string_of(chars: &Vec<char>, from: usize, to: usize) -> (r: String)
    requires
        from <= to <= chars@.len(),
    ensures
        r@ == chars@.subrange(from as int, to as int),
{
    let mut out = String::new();
    let mut i: usize = from;
    while i < to
        invariant
            from <= i <= to <= chars@.len(),
            out@ == chars@.subrange(from as int, i as int),
        decreases to - i,
    {
        proof {
            assert(chars@.subrange(from as int, i + 1) =~= chars@.subrange(
                from as int,
                i as int,
            ).push(chars@[i as int]));
        }
        out.push(chars[i]);
        i = i + 1;
    }
    out
}

/// Whether two strings are the same text.
pub fn same_text(a: &str, b: &str) -> (r: bool)
    ensures
        r == (a@ == b@),
{
    same_chars(&chars_of(a), &chars_of(b))
}

/// Whether two character lists are equal.
fn same_chars(a: &Vec<char>, b: &Vec<char>) -> (r: bool)
    ensures
        r == (a@ == b@),
{
    if a.len() != b.len() {
        return false;
    }
    let mut i: usize = 0;
    while i < a.len()
        invariant
            a@.len() == b@.len(),
            i <= a@.len(),
            forall|j: int| 0 <= j < i ==> a@[j] == b@[j],
        decreases a@.len() - i,
    {
        if a[i] != b[i] {
            return false;
        }
        i = i + 1;
    }
    proof {
        assert(a@ =~= b@);
    }
    true
}

/// A copy of a list of strings.
pub fn copy_strings(list: &Vec<String>) -> (r: Vec<String>)
    ensures
        texts(r@) == texts(list@),
{
    let mut out: Vec<String> = Vec::new();
    let mut i: usize = 0;
    while i < list.len()
        invariant
            i <= list@.len(),
            texts(out@) == texts(list@.take(i as int)),
        decreases list@.len() - i,
    {
        let copy = list[i].clone();
        proof {
            assert(list@.take(i + 1) =~= list@.take(i as int).push(list@[i as int]));
            assert(texts(list@.take(i + 1)) =~= texts(list@.take(i as int)).push(list@[i as int]@));
            assert(texts(out@.push(copy)) =~= texts(out@).push(copy@));
        }
        out.push(copy);
        i = i + 1;
    }
    proof {
        assert(list@.take(list@.len() as int) =~= list@);
    }
    out
}

/// The texts of a list of strings.
pub open spec fn texts(list: Seq<String>) -> Seq<Seq<char>> {
    list.map_values(|s: String| s@)
}

/// Whether two lists hold the same texts in the same order.
pub fn same_list(a: &Vec<String>, b: &Vec<String>) -> (r: bool)
    ensures
        r == (texts(a@) == texts(b@)),
{
    if a.len() != b.len() {
        proof {
            assert(texts(a@).len() == a@.len());
            assert(texts(b@).len() == b@.len());
        }
        return false;
    }
    let mut i: usize = 0;
    while i < a.len()
        invariant
            a@.len() == b@.len(),
            i <= a@.len(),
            forall|j: int| 0 <= j < i ==> #[trigger] a@[j]@ == b@[j]@,
        decreases a@.len() - i,
    {
        if !same_text(a[i].as_str(), b[i].as_str()) {
            proof {
                assert(texts(a@)[i as int] == a@[i as int]@);
                assert(texts(b@)[i as int] == b@[i as int]@);
            }
            return false;
        }
        i = i + 1;
    }
    proof {
        assert(texts(a@) =~= texts(b@));
    }
    true
}

/// The text of an optional borrowed string.
pub open spec fn borrowed_text(s: Option<&String>) -> Option<Seq<char>> {
    match s {
        Some(t) => Some(t@),
        None => None,
    }
}

/// Concatenation of two strings.
pub fn joined(a: &str, b: &str) -> (r: String)
    ensures
        r@ == a@ + b@,
{
    let mut out = a.to_owned();
    out.append(b);
    out
}

/// An ASCII upper-case letter as its lower-case one; any other character as it
/// is.
pub open spec fn lower_char(c: char) -> char {
    if 'A' <= c && c <= 'Z' {
        ((c as u32) + 32) as char
    } else {
        c
    }
}

/// A text with its ASCII letters in lower case.
pub open spec fn lowered(s: Seq<char>) -> Seq<char> {
    s.map_values(|c: char| lower_char(c))
}

/// Whether two texts are the same but for the case of ASCII letters.
pub open spec fn same_ignoring_case(a: Seq<char>, b: Seq<char>) -> bool {
    lowered(a) == lowered(b)
}

/// The ASCII lower-case form of one character.
fn to_lower(c: char) -> (r: char)
    ensures
        r == lower_char(c),
{
    if 'A' <= c && c <= 'Z' {
        match char::from_u32(c as u32 + 32) {
            Some(l) => {
                proof {
                    vstd::utf8::char_u32_cast(l, ((c as u32) + 32) as u32);
                }
                l
            },
            None => c,
        }
    } else {
        c
    }
}

/// The text with its ASCII letters in lower case.
pub fn ascii_lowercase(s: &str) -> (r: String)
    ensures
        r@ == lowered(s@),
{
    let chars = chars_of(s);
    let mut out = String::new();
    let mut i: usize = 0;
    while i < chars.len()
        invariant
            i <= chars@.len(),
            out@ == lowered(chars@.take(i as int)),
        decreases chars@.len() - i,
    {
        proof {
            assert(lowered(chars@.take(i + 1)) =~= lowered(chars@.take(i as int)).push(
                lower_char(chars@[i as int]),
            ));
        }
        out.push(to_lower(chars[i]));
        i = i + 1;
    }
    proof {
        assert(chars@.take(chars@.len() as int) =~= chars@);
    }
    out
}

/// Whether two strings are the same but for the case of ASCII letters.
pub fn eq_ignore_case(a: &str, b: &str) -> (r: bool)
    ensures
        r == same_ignoring_case(a@, b@),
{
    same_text(ascii_lowercase(a).as_str(), ascii_lowercase(b).as_str())
}

/// Whether some text of the list is the same as `s` but for case.
pub open spec fn listed_ignoring_case(list: Seq<Seq<char>>, s: Seq<char>) -> bool {
    exists|i: int| 0 <= i < list.len() && same_ignoring_case(#[trigger] list[i], s)
}

/// Whether some string of the list is the same as `s` but for case.
pub fn contains_ignoring_case(list: &Vec<String>, s: &str) -> (r: bool)
    ensures
        r == listed_ignoring_case(texts(list@), s@),
{
    let mut i: usize = 0;
    while i < list.len()
        invariant
            i <= list@.len(),
            forall|j: int|
                0 <= j < i ==> !same_ignoring_case(#[trigger] texts(list@)[j], s@),
        decreases list@.len() - i,
    {
        if eq_ignore_case(list[i].as_str(), s) {
            proof {
                assert(same_ignoring_case(texts(list@)[i as int], s@));
            }
            return true;
        }
        i = i + 1;
    }
    false
}

/// Whether some string of the list is the text `s`.
pub fn contains_text(list: &Vec<String>, s: &str) -> (r: bool)
    ensures
        r == texts(list@).contains(s@),
{
    let mut i: usize = 0;
    while i < list.len()
        invariant
            i <= list@.len(),
            forall|j: int| 0 <= j < i ==> #[trigger] texts(list@)[j] != s@,
        decreases list@.len() - i,
    {
        if same_text(list[i].as_str(), s) {
            proof {
                assert(texts(list@)[i as int] == s@);
            }
            return true;
        }
        i = i + 1;
    }
    false
}

/// The White_Space characters of Unicode.
pub open spec fn is_white(c: char) -> bool {
    let n = c as u32;
    ||| 0x9 <= n <= 0xd
    ||| n == 0x20
    ||| n == 0x85
    ||| n == 0xa0
    ||| n == 0x1680
    ||| 0x2000 <= n <= 0x200a
    ||| n == 0x2028
    ||| n == 0x2029
    ||| n == 0x202f
    ||| n == 0x205f
    ||| n == 0x3000
}

/// A text without the white space in front.
pub open spec fn trimmed_start(s: Seq<char>) -> Seq<char>
    decreases s.len(),
{
    if s.len() > 0 && is_white(s[0]) {
        trimmed_start(s.skip(1))
    } else {
        s
    }
}

/// A text without the white space behind.
pub open spec fn trimmed_end(s: Seq<char>) -> Seq<char>
    decreases s.len(),
{
    if s.len() > 0 && is_white(s.last()) {
        trimmed_end(s.drop_last())
    } else {
        s
    }
}

/// A text without the white space around it.
pub open spec fn trimmed(s: Seq<char>) -> Seq<char> {
    trimmed_end(trimmed_start(s))
}

/// Whether `c` is white space.
fn white(c: char) -> (r: bool)
    ensures
        r == is_white(c),
{
    let n: u32 = c as u32;
    (0x9 <= n && n <= 0xd) || n == 0x20 || n == 0x85 || n == 0xa0 || n == 0x1680 || (0x2000 <= n
        && n <= 0x200a) || n == 0x2028 || n == 0x2029 || n == 0x202f || n == 0x205f || n == 0x3000
}

/// The text without the white space around it.
pub fn trim(s: &str) -> (r: String)
    ensures
        r@ == trimmed(s@),
{
    let chars = chars_of(s);
    let n: usize = chars.len();
    let mut from: usize = 0;
    proof {
        assert(chars@.skip(0) =~= chars@);
    }
    while from < n && white(chars[from])
        invariant
            from <= n,
            n == chars@.len(),
            trimmed_start(chars@.skip(from as int)) == trimmed_start(chars@),
        decreases n - from,
    {
        proof {
            assert(chars@.skip(from as int).skip(1) =~= chars@.skip(from + 1));
        }
        from = from + 1;
    }
    let mut to: usize = n;
    proof {
        assert(trimmed_start(chars@) == chars@.skip(from as int));
        assert(chars@.subrange(from as int, n as int) =~= chars@.skip(from as int));
    }
    while from < to && white(chars[to - 1])
        invariant
            from <= to <= n,
            n == chars@.len(),
            trimmed_end(chars@.subrange(from as int, to as int)) == trimmed(chars@),
        decreases to,
    {
        proof {
            assert(chars@.subrange(from as int, to as int).drop_last() =~= chars@.subrange(
                from as int,
                to - 1,
            ));
        }
        to = to - 1;
    }
    string_of(&chars, from, to)
}

/// Whether `part` occurs in `whole`, starting at `at`.
pub open spec fn occurs_at(whole: Seq<char>, part: Seq<char>, at: int) -> bool {
    0 <= at && at + part.len() <= whole.len() && whole.subrange(at, at + part.len()) == part
}

/// Whether `part` occurs in `whole`.
pub open spec fn occurs_in(whole: Seq<char>, part: Seq<char>) -> bool {
    exists|at: int| #[trigger] occurs_at(whole, part, at)
}

/// Whether `part` occurs in `whole`.
pub fn contains_part(whole: &str, part: &str) -> (r: bool)
    ensures
        r == occurs_in(whole@, part@),
{
    let w = chars_of(whole);
    let p = chars_of(part);
    if p.len() > w.len() {
        return false;
    }
    let last: usize = w.len() - p.len();
    let mut at: usize = 0;
    let mut searching: bool = true;
    while searching
        invariant
            w@ == whole@,
            p@ == part@,
            last == w@.len() - p@.len(),
            at <= last,
            forall|k: int| 0 <= k < at ==> !#[trigger] occurs_at(w@, p@, k),
            !searching ==> forall|k: int| 0 <= k <= last ==> !#[trigger] occurs_at(w@, p@, k),
        decreases
                if searching {
                    last - at + 1
                } else {
                    0
                },
    {
        let here = matches_at(&w, &p, at);
        if here {
            return true;
        }
        if at == last {
            searching = false;
        } else {
            at = at + 1;
        }
    }
    false
}

/// Whether `part` occurs in `whole` at `at`.
fn matches_at(whole: &Vec<char>, part: &Vec<char>, at: usize) -> (r: bool)
    requires
        at + part@.len() <= whole@.len(),
    ensures
        r == occurs_at(whole@, part@, at as int),
{
    let n: usize = whole.len();
    let mut i: usize = 0;
    while i < part.len()
        invariant
            n == whole@.len(),
            at + part@.len() <= n,
            i <= part@.len(),
            forall|j: int| 0 <= j < i ==> whole@[at + j] == part@[j],
        decreases part@.len() - i,
    {
        if whole[at + i] != part[i] {
            proof {
                let piece = whole@.subrange(at as int, at + part@.len());
                assert(piece[i as int] == whole@[at + i]);
            }
            return false;
        }
        i = i + 1;
    }
    proof {
        assert(whole@.subrange(at as int, at + part@.len()) =~= part@);
    }
    true
}

/// Whether a text starts with `prefix`.
pub open spec fn starts_with(s: Seq<char>, prefix: Seq<char>) -> bool {
    prefix.len() <= s.len() && s.take(prefix.len() as int) == prefix
}

/// What follows `prefix` in a text that starts with it.
pub fn strip_prefix(s: &str, prefix: &str) -> (r: Option<String>)
    ensures
        r is Some <==> starts_with(s@, prefix@),
        r matches Some(rest) ==> rest@ == s@.skip(prefix@.len() as int),
{
    let chars = chars_of(s);
    let pre = chars_of(prefix);
    if pre.len() > chars.len() {
        return None;
    }
    if !matches_at(&chars, &pre, 0) {
        proof {
            assert(s@.subrange(0, prefix@.len() as int) =~= s@.take(prefix@.len() as int));
        }
        return None;
    }
    proof {
        assert(s@.subrange(0, prefix@.len() as int) =~= s@.take(prefix@.len() as int));
        assert(s@.subrange(prefix@.len() as int, s@.len() as int) =~= s@.skip(
            prefix@.len() as int,
        ));
    }
    Some(string_of(&chars, pre.len(), chars.len()))
}

/// The lower-case form of a text, by Unicode's full case mapping.
pub uninterp spec fn lowercase(s: Seq<char>) -> Seq<char>;

/// `str::to_lowercase` gives the lower-case form of a text, which is a function
/// of the text alone, and empty for an empty text.
pub assume_specification[ str::to_lowercase ](s: &str) -> (r: String)
    ensures
        r@ == lowercase(s@),
        s@.len() == 0 ==> r@.len() == 0,
;

/// Whether a text matches a filter: the filter occurs in it, in any case.
pub open spec fn matches_filter(s: Seq<char>, filter: Seq<char>) -> bool {
    lowercase(filter).len() == 0 || occurs_in(lowercase(s), lowercase(filter))
}

/// The positions of the texts that match a filter, in order.
pub open spec fn matching(list: Seq<Seq<char>>, filter: Seq<char>) -> Seq<usize>
    decreases list.len(),
{
    if list.len() == 0 {
        Seq::empty()
    } else {
        let rest = matching(list.drop_last(), filter);
        if matches_filter(list.last(), filter) {
            rest.push((list.len() - 1) as usize)
        } else {
            rest
        }
    }
}

/// The positions of a list of that length, in order.
pub open spec fn every_position(n: nat) -> Seq<usize> {
    Seq::new(n, |i: int| i as usize)
}

/// Where every text matches, every position does.
pub proof fn lemma_everything_matches(list: Seq<Seq<char>>, filter: Seq<char>)
    requires
        lowercase(filter).len() == 0,
        list.len() <= usize::MAX,
    ensures
        matching(list, filter) == every_position(list.len()),
    decreases list.len(),
{
    if list.len() > 0 {
        lemma_everything_matches(list.drop_last(), filter);
    }
    assert(matching(list, filter) =~= every_position(list.len()));
}

/// The positions that match are positions of the list.
pub proof fn lemma_matching(list: Seq<Seq<char>>, filter: Seq<char>)
    requires
        list.len() <= usize::MAX,
    ensures
        matching(list, filter).len() <= list.len(),
        forall|i: int|
            0 <= i < matching(list, filter).len() ==> #[trigger] matching(list, filter)[i]
                < list.len(),
    decreases list.len(),
{
    if list.len() > 0 {
        lemma_matching(list.drop_last(), filter);
    }
}

/// Whether a text matches a filter that is in lower case already.
pub fn matches_lowered(s: &str, needle: &str) -> (r: bool)
    ensures
        r == (needle@.len() == 0 || occurs_in(lowercase(s@), needle@)),
{
    needle.is_empty() || contains_part(s.to_lowercase().as_str(), needle)
}

/// The order of two texts by their characters' codes, the shorter first where
/// one begins the other: whether `a` comes before `b`.
pub open spec fn comes_before(a: Seq<char>, b: Seq<char>) -> bool
    decreases a.len(),
{
    if b.len() == 0 {
        false
    } else if a.len() == 0 {
        true
    } else if a[0] != b[0] {
        a[0] < b[0]
    } else {
        comes_before(a.skip(1), b.skip(1))
    }
}

/// Whether `a` comes before `b` in the order of their characters' codes.
pub fn precedes(a: &Vec<char>, b: &Vec<char>) -> (r: bool)
    ensures
        r == comes_before(a@, b@),
{
    let mut i: usize = 0;
    proof {
        assert(a@.skip(0) =~= a@);
        assert(b@.skip(0) =~= b@);
    }
    while i < a.len() && i < b.len() && a[i] == b[i]
        invariant
            i <= a@.len(),
            i <= b@.len(),
            comes_before(a@.skip(i as int), b@.skip(i as int)) == comes_before(a@, b@),
        decreases a@.len() - i,
    {
        proof {
            assert(a@.skip(i as int).skip(1) =~= a@.skip(i + 1));
            assert(b@.skip(i as int).skip(1) =~= b@.skip(i + 1));
        }
        i = i + 1;
    }
    if i == b.len() {
        return false;
    }
    if i == a.len() {
        return true;
    }
    proof {
        assert(a@.skip(i as int)[0] == a@[i as int]);
        assert(b@.skip(i as int)[0] == b@[i as int]);
    }
    a[i] < b[i]
}

/// The order of texts is irreflexive and transitive, and tells any two
/// different texts apart.
pub proof fn lemma_text_order(a: Seq<char>, b: Seq<char>, c: Seq<char>)
    ensures
        !comes_before(a, a),
        comes_before(a, b) && comes_before(b, c) ==> comes_before(a, c),
        comes_before(a, b) || comes_before(b, a) || a == b,
        comes_before(a, b) ==> !comes_before(b, a),
    decreases a.len() + b.len() + c.len(),
{
    if a.len() > 0 && b.len() > 0 && c.len() > 0 {
        lemma_text_order(a.skip(1), b.skip(1), c.skip(1));
    } else if a.len() > 0 && b.len() > 0 {
        lemma_text_order(a.skip(1), b.skip(1), c);
    } else if a.len() > 0 {
        lemma_text_order(a.skip(1), b, c);
    }
    if a.len() > 0 && b.len() > 0 && a[0] == b[0] && a.skip(1) == b.skip(1) {
        assert forall|i: int| 0 <= i < a.len() implies a[i] == b[i] by {
            if i > 0 {
                assert(a[i] == a.skip(1)[i - 1]);
                assert(b[i] == b.skip(1)[i - 1]);
            }
        }
        assert(a.len() == a.skip(1).len() + 1);
        assert(b.len() == b.skip(1).len() + 1);
        assert(a =~= b);
    }
    if a.len() == 0 && b.len() == 0 {
        assert(a =~= b);
    }
}

/// A filter finds a text wherever it stands in it: the position of a text is
/// listed exactly where the text in lower case is the filter in lower case with
/// anything in front and anything behind. Positions come in order, each once.
pub proof fn law_a_filter_finds_every_occurrence(list: Seq<Seq<char>>, filter: Seq<char>)
    requires
        list.len() <= usize::MAX,
    ensures
        forall|p: usize, a: Seq<char>, b: Seq<char>|
            p < list.len() && lowercase(list[p as int]) == #[trigger] (a + lowercase(filter) + b)
                ==> #[trigger] matching(list, filter).contains(p),
        forall|p: usize| #[trigger]
            matching(list, filter).contains(p) ==> p < list.len() && exists|
                a: Seq<char>,
                b: Seq<char>,
            |
                lowercase(list[p as int]) == #[trigger] (a + lowercase(filter) + b),
        forall|i: int, j: int|
            0 <= i < j < matching(list, filter).len() ==> #[trigger] matching(list, filter)[i]
                < #[trigger] matching(list, filter)[j],
    decreases list.len(),
{
    let all = matching(list, filter);
    if list.len() > 0 {
        let init = list.drop_last();
        let rest = matching(init, filter);
        law_a_filter_finds_every_occurrence(init, filter);
        lemma_matching(init, filter);
        let last = (list.len() - 1) as usize;
        let low = lowercase(list.last());
        let f = lowercase(filter);
        assert forall|p: usize, a: Seq<char>, b: Seq<char>|
            p < list.len() && lowercase(list[p as int]) == #[trigger] (a + f + b) implies
            #[trigger] all.contains(p) by {
            if p < init.len() {
                assert(init[p as int] == list[p as int]);
                assert(rest.contains(p));
                let k = choose|k: int| 0 <= k < rest.len() && rest[k] == p;
                assert(all[k] == p);
            } else {
                assert(low.subrange(a.len() as int, (a.len() + f.len()) as int) =~= f);
                assert(occurs_at(low, f, a.len() as int));
                assert(all[all.len() - 1] == p);
            }
        }
        assert forall|p: usize| #[trigger] all.contains(p) implies p < list.len() && exists|
            a: Seq<char>,
            b: Seq<char>,
        |
            lowercase(list[p as int]) == #[trigger] (a + f + b) by {
            let k = choose|k: int| 0 <= k < all.len() && all[k] == p;
            if k < rest.len() {
                assert(rest[k] == p);
                assert(rest.contains(p));
                assert(init[p as int] == list[p as int]);
            } else {
                assert(p == last);
                let at = if f.len() == 0 {
                    0
                } else {
                    choose|at: int| #[trigger] occurs_at(low, f, at)
                };
                let a = low.take(at);
                let b = low.skip(at + f.len());
                assert(low.subrange(at, at + f.len()) =~= f);
                assert(low =~= a + f + b);
            }
        }
        assert forall|i: int, j: int| 0 <= i < j < all.len() implies #[trigger] all[i]
            < #[trigger] all[j] by {
            assert(all[i] == rest[i]);
            assert(rest[i] < init.len());
            if j < rest.len() {
                assert(all[j] == rest[j]);
            }
        }
    }
}

/// The UTF-16 units of a character.
pub open spec fn char_units(c: char) -> Seq<u16> {
    let code = c as int;
    if code < 0x1_0000 {
        seq![code as u16]
    } else {
        seq![
            (0xd800 + (code - 0x1_0000) / 0x400) as u16,
            (0xdc00 + (code - 0x1_0000) % 0x400) as u16,
        ]
    }
}

/// A text in UTF-16.
pub open spec fn utf16_of(s: Seq<char>) -> Seq<u16>
    decreases s.len(),
{
    if s.len() == 0 {
        Seq::empty()
    } else {
        char_units(s[0]) + utf16_of(s.skip(1))
    }
}

/// Decoding gives back the text that was encoded, whatever follows it; a unit
/// that is half of a pair without the other half is one U+FFFD, and what follows
/// it is decoded on its own.
pub proof fn law_utf16_round_trips(s: Seq<char>, half: u16, rest: Seq<u16>)
    ensures
        utf16_text(utf16_of(s)) == s,
        utf16_text(utf16_of(s) + rest) == s + utf16_text(rest),
        (0xdc00 <= half <= 0xdfff || (0xd800 <= half <= 0xdbff && (rest.len() == 0 || !(0xdc00
            <= rest[0] <= 0xdfff)))) ==> utf16_text(seq![half] + rest) == seq!['\u{fffd}']
            + utf16_text(rest),
    decreases s.len(),
{
    let all = seq![half] + rest;
    assert(all.skip(1) =~= rest);
    if rest.len() > 0 {
        assert(all[1] == rest[0]);
    }
    if s.len() == 0 {
        assert(utf16_of(s) + rest =~= rest);
        assert(s + utf16_text(rest) =~= utf16_text(rest));
        assert(utf16_text(utf16_of(s)) =~= s);
    } else {
        let tail = s.skip(1);
        law_utf16_round_trips(tail, half, rest);
        let head = char_units(s[0]);
        let code = s[0] as int;
        lemma_char_units(s[0], utf16_of(tail));
        lemma_char_units(s[0], utf16_of(tail) + rest);
        assert(utf16_of(s) + rest =~= head + (utf16_of(tail) + rest));
        assert(s =~= seq![s[0]] + tail);
        assert(seq![s[0]] + (tail + utf16_text(rest)) =~= s + utf16_text(rest));
    }
}

proof fn lemma_char_units(c: char, rest: Seq<u16>)
    ensures
        utf16_text(char_units(c) + rest) == seq![c] + utf16_text(rest),
{
    let units = char_units(c);
    let all = units + rest;
    let code = c as int;
    assert(is_scalar(code));
    if code < 0x1_0000 {
        assert(all.skip(1) =~= rest);
        assert(all[0] == code as u16);
        assert(all[0] as char == c);
    } else {
        assert(all.skip(2) =~= rest);
        assert(0 <= (code - 0x1_0000) / 0x400 < 0x400);
        assert(0 <= (code - 0x1_0000) % 0x400 < 0x400);
        assert(all[0] == units[0] && all[1] == units[1]);
        assert(0x10000 + (all[0] - 0xd800) * 0x400 + (all[1] - 0xdc00) == code);
        assert(paired(all[0], all[1]) == c);
    }
}

/// A part occurs in a whole exactly where the whole is the part with something
/// in front and something behind; it starts the whole exactly where nothing is
/// in front.
pub proof fn law_parts_stand_anywhere(whole: Seq<char>, part: Seq<char>)
    ensures
        occurs_in(whole, part) <==> exists|a: Seq<char>, b: Seq<char>|
            whole == #[trigger] (a + part + b),
        starts_with(whole, part) <==> exists|b: Seq<char>| whole == #[trigger] (part + b),
{
    if occurs_in(whole, part) {
        let at = choose|at: int| #[trigger] occurs_at(whole, part, at);
        let a = whole.take(at);
        let b = whole.skip(at + part.len());
        assert(whole =~= a + part + b);
    }
    if exists|a: Seq<char>, b: Seq<char>| whole == #[trigger] (a + part + b) {
        let (a, b) = choose|a: Seq<char>, b: Seq<char>| whole == #[trigger] (a + part + b);
        assert(whole.subrange(a.len() as int, (a.len() + part.len()) as int) =~= part);
        assert(occurs_at(whole, part, a.len() as int));
    }
    if starts_with(whole, part) {
        assert(whole =~= part + whole.skip(part.len() as int));
    }
    if exists|b: Seq<char>| whole == #[trigger] (part + b) {
        let b = choose|b: Seq<char>| whole == #[trigger] (part + b);
        assert(whole.take(part.len() as int) =~= part);
    }
}

/// Whether two characters are the same ASCII letter, in the same or in the other
/// case, or the same character.
pub open spec fn same_letter(a: char, b: char) -> bool {
    ||| a == b
    ||| 65 <= a as int <= 90 && b as int == a as int + 32
    ||| 65 <= b as int <= 90 && a as int == b as int + 32
}

/// Texts are the same but for case exactly where they are as long and every
/// character is the same letter; nothing beyond ASCII has a case here.
pub proof fn law_case_is_of_ascii_letters_only(a: Seq<char>, b: Seq<char>)
    ensures
        same_ignoring_case(a, b) <==> a.len() == b.len() && forall|i: int|
            0 <= i < a.len() ==> same_letter(#[trigger] a[i], b[i]),
        lowered(a).len() == a.len(),
        forall|i: int|
            0 <= i < a.len() ==> !(65 <= #[trigger] lowered(a)[i] as int <= 90) && same_letter(
                a[i],
                lowered(a)[i],
            ),
{
    let x = lowered(a);
    let y = lowered(b);
    assert forall|c: char| #[trigger] lower_char(c) as int == if 65 <= c as int <= 90 {
        c as int + 32
    } else {
        c as int
    } by {}
    assert forall|i: int| 0 <= i < a.len() && a.len() == b.len() implies (x[i] == y[i])
        == same_letter(#[trigger] a[i], b[i]) by {
        let p = a[i];
        let q = b[i];
        assert(x[i] == lower_char(p) && y[i] == lower_char(q));
        assert((x[i] as int == y[i] as int) == (x[i] == y[i]));
    }
    if same_ignoring_case(a, b) {
        assert(x.len() == y.len());
        assert forall|i: int| 0 <= i < a.len() implies same_letter(#[trigger] a[i], b[i]) by {
            assert(x[i] == y[i]);
        }
    }
    if a.len() == b.len() && forall|i: int|
        0 <= i < a.len() ==> same_letter(#[trigger] a[i], b[i]) {
        assert forall|i: int| 0 <= i < x.len() implies x[i] == y[i] by {
            assert(same_letter(a[i], b[i]));
        }
        assert(x =~= y);
    }
}

/// Trimming takes white space off both ends and nothing else: what is left
/// neither starts nor ends with any.
pub proof fn law_trimming_takes_only_what_is_around(s: Seq<char>)
    ensures
        exists|a: Seq<char>, b: Seq<char>|
            s == #[trigger] (a + trimmed(s) + b) && (forall|i: int|
                0 <= i < a.len() ==> is_white(#[trigger] a[i])) && (forall|i: int|
                0 <= i < b.len() ==> is_white(#[trigger] b[i])),
        trimmed(s).len() > 0 ==> !is_white(trimmed(s)[0]) && !is_white(trimmed(s).last()),
{
    let front = trimmed_start(s);
    let a = lemma_trimmed_start(s);
    let b = lemma_trimmed_end(front);
    assert(s =~= a + trimmed(s) + b);
    if trimmed(s).len() > 0 {
        assert(trimmed(s)[0] == front[0]);
    }
}

proof fn lemma_trimmed_start(s: Seq<char>) -> (a: Seq<char>)
    ensures
        s == a + trimmed_start(s),
        forall|i: int| 0 <= i < a.len() ==> is_white(#[trigger] a[i]),
        trimmed_start(s).len() > 0 ==> !is_white(trimmed_start(s)[0]),
    decreases s.len(),
{
    if s.len() > 0 && is_white(s[0]) {
        let rest = lemma_trimmed_start(s.skip(1));
        let a = seq![s[0]] + rest;
        assert(s =~= seq![s[0]] + s.skip(1));
        assert(s =~= a + trimmed_start(s));
        a
    } else {
        assert(s =~= Seq::<char>::empty() + s);
        Seq::empty()
    }
}

proof fn lemma_trimmed_end(s: Seq<char>) -> (b: Seq<char>)
    ensures
        s == trimmed_end(s) + b,
        forall|i: int| 0 <= i < b.len() ==> is_white(#[trigger] b[i]),
        trimmed_end(s).len() > 0 ==> !is_white(trimmed_end(s).last()),
    decreases s.len(),
{
    if s.len() > 0 && is_white(s.last()) {
        let rest = lemma_trimmed_end(s.drop_last());
        let b = rest.push(s.last());
        assert(s =~= s.drop_last().push(s.last()));
        assert(s =~= trimmed_end(s) + b);
        b
    } else {
        assert(s =~= s + Seq::<char>::empty());
        Seq::empty()
    }
}

/// White space is the characters that Unicode lists as such: the blank, the tab
/// and the line ends, the no-break and the typographic spaces.
pub proof fn law_white_space_is_unicodes(c: char)
    ensures
        is_white(c) <==> seq![
            0x09u32,
            0x0a,
            0x0b,
            0x0c,
            0x0d,
            0x20,
            0x85,
            0xa0,
            0x1680,
            0x2000,
            0x2001,
            0x2002,
            0x2003,
            0x2004,
            0x2005,
            0x2006,
            0x2007,
            0x2008,
            0x2009,
            0x200a,
            0x2028,
            0x2029,
            0x202f,
            0x205f,
            0x3000,
        ].contains(c as u32),
        is_control_char(c) <==> (c as u32) < 0x20 || 0x7f <= (c as u32) < 0xa0,
{
    let all = seq![
        0x09u32,
        0x0a,
        0x0b,
        0x0c,
        0x0d,
        0x20,
        0x85,
        0xa0,
        0x1680,
        0x2000,
        0x2001,
        0x2002,
        0x2003,
        0x2004,
        0x2005,
        0x2006,
        0x2007,
        0x2008,
        0x2009,
        0x200a,
        0x2028,
        0x2029,
        0x202f,
        0x205f,
        0x3000,
    ];
    let n = c as u32;
    if is_white(c) {
        let k = if n <= 0x0d {
            n - 9
        } else if n == 0x20 {
            5
        } else if n == 0x85 {
            6
        } else if n == 0xa0 {
            7
        } else if n == 0x1680 {
            8
        } else if n <= 0x200a {
            9 + (n - 0x2000)
        } else if n == 0x2028 {
            20
        } else if n == 0x2029 {
            21
        } else if n == 0x202f {
            22
        } else if n == 0x205f {
            23
        } else {
            24
        };
        assert(all[k] == n);
    }
}

/// The order of texts goes by the first character in which they differ, and by
/// length where one begins the other.
pub proof fn law_texts_are_ordered_by_their_first_difference(
    head: Seq<char>,
    x: char,
    y: char,
    a: Seq<char>,
    b: Seq<char>,
)
    requires
        (x as int) < (y as int),
    ensures
        comes_before(head + seq![x] + a, head + seq![y] + b),
        !comes_before(head + seq![y] + b, head + seq![x] + a),
        comes_before(head, head + seq![x] + a),
        !comes_before(head + seq![x] + a, head),
    decreases head.len(),
{
    let p = head + seq![x] + a;
    let q = head + seq![y] + b;
    if head.len() > 0 {
        let rest = head.skip(1);
        law_texts_are_ordered_by_their_first_difference(rest, x, y, a, b);
        assert(p.skip(1) =~= rest + seq![x] + a);
        assert(q.skip(1) =~= rest + seq![y] + b);
        assert(p[0] == head[0] && q[0] == head[0]);
    } else {
        assert(p[0] == x && q[0] == y);
    }
}

/// A text is listed but for case where one on the list is the same but for case:
/// no list of none holds any, and one more text adds those it is the same as.
pub proof fn law_texts_are_listed_one_by_one(list: Seq<Seq<char>>, t: Seq<char>, s: Seq<char>)
    ensures
        !listed_ignoring_case(Seq::empty(), s),
        listed_ignoring_case(list.push(t), s) <==> listed_ignoring_case(list, s)
            || same_ignoring_case(t, s),
{
    let more = list.push(t);
    if listed_ignoring_case(more, s) {
        let i = choose|i: int| 0 <= i < more.len() && same_ignoring_case(#[trigger] more[i], s);
        if i < list.len() {
            assert(list[i] == more[i]);
        }
    }
    if listed_ignoring_case(list, s) {
        let i = choose|i: int| 0 <= i < list.len() && same_ignoring_case(#[trigger] list[i], s);
        assert(more[i] == list[i]);
    }
    if same_ignoring_case(t, s) {
        assert(more[list.len() as int] == t);
    }
}

} // verus!
