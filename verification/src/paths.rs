//! Windows paths as text.
use vstd::prelude::*;

use crate::text;

verus! {

/// A path separator.
pub open spec fn is_separator(c: char) -> bool {
    c == '\\' || c == '/'
}

/// A drive letter.
pub open spec fn is_letter(c: char) -> bool {
    ||| 'a' <= c && c <= 'z'
    ||| 'A' <= c && c <= 'Z'
}

/// Whether a drive (`C:`) stands at that place of a path.
pub open spec fn drive_at(path: Seq<char>, at: int) -> bool {
    0 <= at && at + 1 < path.len() && is_letter(path[at]) && path[at + 1] == ':'
}

/// Whether a separator goes between a base path and what is below it: not
/// after an empty base, a base that ends in one, or a bare drive.
pub open spec fn needs_separator(base: Seq<char>) -> bool {
    &&& base.len() > 0
    &&& !separates(base.last(), begins_verbatim(base))
    &&& !(base.len() == 2 && drive_at(base, 0))
}

/// The relative path `name` below `base`.
pub open spec fn below(base: Seq<char>, name: Seq<char>) -> Seq<char> {
    if needs_separator(base) {
        base + seq!['\\'] + name
    } else {
        base + name
    }
}

/// Whether a drive (`C:`) stands at that place of a path.
fn is_drive(chars: &Vec<char>, at: usize) -> (r: bool)
    ensures
        r == drive_at(chars@, at as int),
{
    if chars.len() < 2 || at > chars.len() - 2 {
        return false;
    }
    let c: char = chars[at];
    (('a' <= c && c <= 'z') || ('A' <= c && c <= 'Z')) && chars[at + 1] == ':'
}

/// The relative path `name` below `base`.
pub fn join(base: &str, name: &str) -> (r: String)
    ensures
        r@ == below(base@, name@),
{
    let chars = text::chars_of(base);
    let n: usize = chars.len();
    let mut out = base.to_owned();
    let verbatim: bool = n >= 4 && chars[0] == '\\' && chars[1] == '\\' && chars[2] == '?' && chars[3]
        == '\\';
    if n > 0 && !splits(chars[n - 1], verbatim) && !(n == 2 && is_drive(&chars, 0)) {
        out.push('\\');
        proof {
            assert(out@ =~= base@ + seq!['\\']);
        }
    }
    out.append(name);
    out
}

/// Where the text after the last separator starts.
pub open spec fn tail_start(path: Seq<char>) -> int
    decreases path.len(),
{
    if path.len() == 0 || is_separator(path.last()) {
        path.len() as int
    } else {
        tail_start(path.drop_last())
    }
}

/// What follows the last separator of a path, which may be nothing.
pub open spec fn tail_of(path: Seq<char>) -> Seq<char> {
    path.skip(tail_start(path))
}

proof fn lemma_tail_start(path: Seq<char>)
    ensures
        0 <= tail_start(path) <= path.len(),
    decreases path.len(),
{
    if path.len() > 0 && !is_separator(path.last()) {
        lemma_tail_start(path.drop_last());
    }
}

/// What follows the last separator of a path, which may be nothing.
pub fn tail(path: &str) -> (r: String)
    ensures
        r@ == tail_of(path@),
{
    let chars = text::chars_of(path);
    let n: usize = chars.len();
    let mut from: usize = n;
    proof {
        assert(chars@.take(n as int) =~= chars@);
        lemma_tail_start(chars@);
    }
    while from > 0 && chars[from - 1] != '\\' && chars[from - 1] != '/'
        invariant
            from <= n,
            n == chars@.len(),
            tail_start(chars@.take(from as int)) == tail_start(chars@),
        decreases from,
    {
        proof {
            assert(chars@.take(from as int).drop_last() =~= chars@.take(from - 1));
        }
        from = from - 1;
    }
    proof {
        if from > 0 {
            assert(chars@.take(from as int).last() == chars@[from - 1]);
        }
        assert(tail_start(chars@) == from);
        assert(chars@.subrange(from as int, n as int) =~= chars@.skip(from as int));
    }
    text::string_of(&chars, from, n)
}

/// What a component of a path is, in the order in which components compare.
#[derive(Debug, Clone, Copy, PartialEq, Eq, Structural)]
pub enum PartKind {
    /// `\\?\name`.
    Verbatim,
    /// The server or the share of `\\?\UNC\server\share`.
    VerbatimShare,
    /// `\\?\C:`.
    VerbatimDisk,
    /// `\\.\name`.
    Device,
    /// The server or the share of `\\server\share`.
    Share,
    /// `C:`.
    Disk,
    /// The separator after what the path begins with.
    Root,
    /// `.`.
    Here,
    /// `..`.
    Up,
    /// A file or a directory.
    Name,
}

impl PartKind {
    /// The place of the kind in the order of components.
    pub open spec fn rank_value(self) -> int {
        match self {
            PartKind::Verbatim => 0,
            PartKind::VerbatimShare => 1,
            PartKind::VerbatimDisk => 2,
            PartKind::Device => 3,
            PartKind::Share => 4,
            PartKind::Disk => 5,
            PartKind::Root => 6,
            PartKind::Here => 7,
            PartKind::Up => 8,
            PartKind::Name => 9,
        }
    }

    fn rank(self) -> (r: u32)
        ensures
            r == self.rank_value(),
    {
        match self {
            PartKind::Verbatim => 0,
            PartKind::VerbatimShare => 1,
            PartKind::VerbatimDisk => 2,
            PartKind::Device => 3,
            PartKind::Share => 4,
            PartKind::Disk => 5,
            PartKind::Root => 6,
            PartKind::Here => 7,
            PartKind::Up => 8,
            PartKind::Name => 9,
        }
    }
}

/// A component of a path. Only what has a name of its own has a text: a drive's
/// is its letter in upper case.
pub struct Part {
    pub kind: PartKind,
    pub name: String,
}

/// A component as a value.
#[verifier::ext_equal]
pub ghost struct PartModel {
    pub kind: PartKind,
    pub name: Seq<char>,
}

impl View for Part {
    type V = PartModel;

    open spec fn view(&self) -> PartModel {
        PartModel { kind: self.kind, name: self.name@ }
    }
}

/// Components as values.
pub open spec fn part_models(parts: Seq<Part>) -> Seq<PartModel> {
    parts.map_values(|p: Part| p@)
}

/// A component with that name.
pub open spec fn part(kind: PartKind, name: Seq<char>) -> PartModel {
    PartModel { kind, name }
}

/// A component without a name.
pub open spec fn mark(kind: PartKind) -> PartModel {
    PartModel { kind, name: Seq::empty() }
}

/// What separates components: in a verbatim path only the backslash.
pub open spec fn separates(c: char, verbatim: bool) -> bool {
    c == '\\' || (c == '/' && !verbatim)
}

/// Where the component that starts at `from` ends.
pub open spec fn part_end(path: Seq<char>, from: int, verbatim: bool) -> int
    decreases path.len() - from,
{
    if from < 0 || from >= path.len() {
        path.len() as int
    } else if separates(path[from], verbatim) {
        from
    } else {
        part_end(path, from + 1, verbatim)
    }
}

proof fn lemma_part_end(path: Seq<char>, from: int, verbatim: bool)
    requires
        0 <= from <= path.len(),
    ensures
        from <= part_end(path, from, verbatim) <= path.len(),
    decreases path.len() - from,
{
    if from < path.len() && !separates(path[from], verbatim) {
        lemma_part_end(path, from + 1, verbatim);
    }
}

/// Where what follows the component that ends at `end` starts.
pub open spec fn past(path: Seq<char>, end: int) -> int {
    if end < path.len() {
        end + 1
    } else {
        path.len() as int
    }
}

/// The letter of a drive, in upper case.
pub open spec fn drive_letter(c: char) -> char {
    if 'a' <= c && c <= 'z' {
        ((c as u32) - 32) as char
    } else {
        c
    }
}

/// What a path begins with.
#[verifier::ext_equal]
pub ghost struct HeadModel {
    pub parts: Seq<PartModel>,
    /// How much of the path it takes.
    pub len: int,
    /// Whether the rest is taken as it is written.
    pub verbatim: bool,
    /// Whether a root follows that need not be written.
    pub rooted: bool,
}

/// Whether a path begins with `\\?\`, as it is written.
pub open spec fn begins_verbatim(path: Seq<char>) -> bool {
    path.len() >= 4 && path[0] == '\\' && path[1] == '\\' && path[2] == '?' && path[3] == '\\'
}

/// Whether `UNC\` follows `\\?\`.
pub open spec fn begins_verbatim_share(path: Seq<char>) -> bool {
    &&& path.len() >= 8
    &&& path[4] == 'U'
    &&& path[5] == 'N'
    &&& path[6] == 'C'
    &&& is_separator(path[7])
}

/// A server and a share, from `from` on.
pub open spec fn share_at(
    path: Seq<char>,
    from: int,
    kind: PartKind,
    verbatim: bool,
) -> HeadModel {
    let server_end = part_end(path, from, verbatim);
    let share = past(path, server_end);
    let share_end = part_end(path, share, verbatim);
    HeadModel {
        parts: seq![
            part(kind, path.subrange(from, server_end)),
            part(kind, path.subrange(share, share_end)),
        ],
        len: if share_end > share {
            share_end
        } else {
            server_end
        },
        verbatim,
        rooted: !verbatim,
    }
}

/// A name, from `from` on.
pub open spec fn name_at(path: Seq<char>, from: int, kind: PartKind, verbatim: bool) -> HeadModel {
    let end = part_end(path, from, verbatim);
    HeadModel {
        parts: seq![part(kind, path.subrange(from, end))],
        len: end,
        verbatim,
        rooted: !verbatim,
    }
}

/// The drive, server or device a path begins with, if any.
pub open spec fn prefix_of(path: Seq<char>) -> HeadModel {
    if begins_verbatim(path) {
        if begins_verbatim_share(path) {
            share_at(path, 8, PartKind::VerbatimShare, true)
        } else if drive_at(path, 4) && (path.len() == 6 || is_separator(path[6])) {
            HeadModel {
                parts: seq![part(PartKind::VerbatimDisk, seq![drive_letter(path[4])])],
                len: 6,
                verbatim: true,
                rooted: false,
            }
        } else {
            name_at(path, 4, PartKind::Verbatim, true)
        }
    } else if path.len() >= 4 && is_separator(path[0]) && is_separator(path[1]) && path[2] == '.'
        && is_separator(path[3]) {
        name_at(path, 4, PartKind::Device, false)
    } else if names_share(path) {
        share_at(path, 2, PartKind::Share, false)
    } else if drive_at(path, 0) {
        HeadModel {
            parts: seq![part(PartKind::Disk, seq![drive_letter(path[0])])],
            len: 2,
            verbatim: false,
            rooted: false,
        }
    } else {
        HeadModel { parts: Seq::empty(), len: 0, verbatim: false, rooted: false }
    }
}

/// Whether a path begins with a server and a share, neither of them empty.
pub open spec fn names_share(path: Seq<char>) -> bool {
    &&& path.len() >= 2
    &&& is_separator(path[0])
    &&& is_separator(path[1])
    &&& part_end(path, 2, false) > 2
    &&& part_end(path, past(path, part_end(path, 2, false)), false) > past(
        path,
        part_end(path, 2, false),
    )
}

/// Everything before the names of a path: what it begins with, and the root or
/// the leading `.` behind that. Behind a drive such a `.` does not count, though
/// it belongs to the head.
pub open spec fn head_of(path: Seq<char>) -> HeadModel {
    let x = prefix_of(path);
    let at = x.len;
    if at < path.len() && is_separator(path[at]) {
        HeadModel { parts: x.parts.push(mark(PartKind::Root)), len: at + 1, ..x }
    } else if x.rooted {
        HeadModel { parts: x.parts.push(mark(PartKind::Root)), ..x }
    } else if !x.verbatim && at < path.len() && path[at] == '.' && (at + 1 == path.len()
        || is_separator(path[at + 1])) {
        HeadModel {
            parts: if x.parts.len() == 0 {
                seq![mark(PartKind::Here)]
            } else {
                x.parts
            },
            len: at + 1,
            ..x
        }
    } else {
        x
    }
}

/// Where the last piece of a text starts.
pub open spec fn piece_start(s: Seq<char>, verbatim: bool) -> int
    decreases s.len(),
{
    if s.len() == 0 || separates(s.last(), verbatim) {
        s.len() as int
    } else {
        piece_start(s.drop_last(), verbatim)
    }
}

pub proof fn lemma_piece_start(s: Seq<char>, verbatim: bool)
    ensures
        0 <= piece_start(s, verbatim) <= s.len(),
        forall|i: int|
            piece_start(s, verbatim) <= i < s.len() ==> !separates(#[trigger] s[i], verbatim),
        piece_start(s, verbatim) > 0 ==> separates(s[piece_start(s, verbatim) - 1], verbatim),
    decreases s.len(),
{
    if s.len() > 0 && !separates(s.last(), verbatim) {
        lemma_piece_start(s.drop_last(), verbatim);
        assert forall|i: int| piece_start(s, verbatim) <= i < s.len() implies !separates(
            #[trigger] s[i],
            verbatim,
        ) by {
            if i < s.len() - 1 {
                assert(s.drop_last()[i] == s[i]);
            }
        }
    }
}

/// A place with a separator before it and none from there on is where the last
/// piece starts.
proof fn lemma_piece_starts_at(s: Seq<char>, at: int, verbatim: bool)
    requires
        0 <= at <= s.len(),
        at > 0 ==> separates(s[at - 1], verbatim),
        forall|i: int| at <= i < s.len() ==> !separates(#[trigger] s[i], verbatim),
    ensures
        piece_start(s, verbatim) == at,
    decreases s.len(),
{
    if at < s.len() {
        let init = s.drop_last();
        assert(!separates(s[s.len() - 1], verbatim));
        assert forall|i: int| at <= i < init.len() implies !separates(#[trigger] init[i], verbatim)
        by {
            assert(init[i] == s[i]);
        }
        if at > 0 {
            assert(init[at - 1] == s[at - 1]);
        }
        lemma_piece_starts_at(init, at, verbatim);
    } else if s.len() > 0 {
        assert(s.last() == s[at - 1]);
    }
}

/// The component a piece stands for: none for nothing, and none for `.` but in a
/// verbatim path.
pub open spec fn part_in(piece: Seq<char>, verbatim: bool) -> Seq<PartModel> {
    if piece.len() == 0 {
        Seq::empty()
    } else if piece == seq!['.'] {
        if verbatim {
            seq![mark(PartKind::Here)]
        } else {
            Seq::empty()
        }
    } else if piece == seq!['.', '.'] {
        seq![mark(PartKind::Up)]
    } else {
        seq![part(PartKind::Name, piece)]
    }
}

/// The components of what is between separators.
pub open spec fn names_in(s: Seq<char>, verbatim: bool) -> Seq<PartModel>
    decreases s.len(),
{
    if s.len() == 0 {
        Seq::empty()
    } else {
        let at = piece_start(s, verbatim);
        proof {
            lemma_piece_start(s, verbatim);
        }
        (if at <= 0 {
            Seq::empty()
        } else {
            names_in(s.take(at - 1), verbatim)
        }) + part_in(s.skip(at), verbatim)
    }
}

/// The components of a path. Both separators are alike, what is empty or `.`
/// between them does not count, and neither does the case of a drive's letter.
pub open spec fn components_of(path: Seq<char>) -> Seq<PartModel> {
    let h = head_of(path);
    h.parts + names_in(path.skip(h.len), h.verbatim)
}

/// Whether two texts are the same path.
pub open spec fn same_path(a: Seq<char>, b: Seq<char>) -> bool {
    components_of(a) == components_of(b)
}

/// Whether a component comes before another: by kind, then by name.
pub open spec fn part_before(a: PartModel, b: PartModel) -> bool {
    ||| a.kind.rank_value() < b.kind.rank_value()
    ||| a.kind == b.kind && text::comes_before(a.name, b.name)
}

/// Whether components come before others: by the first in which they differ, the
/// fewer first where one begins the other.
pub open spec fn parts_before(a: Seq<PartModel>, b: Seq<PartModel>) -> bool
    decreases a.len(),
{
    if b.len() == 0 {
        false
    } else if a.len() == 0 {
        true
    } else if a[0] != b[0] {
        part_before(a[0], b[0])
    } else {
        parts_before(a.skip(1), b.skip(1))
    }
}

/// Whether a path comes before another, component by component.
pub open spec fn path_before(a: Seq<char>, b: Seq<char>) -> bool {
    parts_before(components_of(a), components_of(b))
}

proof fn lemma_part_order(a: PartModel, b: PartModel, c: PartModel)
    ensures
        !part_before(a, a),
        part_before(a, b) && part_before(b, c) ==> part_before(a, c),
        part_before(a, b) || part_before(b, a) || a == b,
        part_before(a, b) ==> !part_before(b, a),
{
    text::lemma_text_order(a.name, b.name, c.name);
    assert(a.kind.rank_value() == b.kind.rank_value() ==> a.kind == b.kind);
    if a.kind == b.kind && a.name == b.name {
        assert(a =~= b);
    }
}

/// The order of components is irreflexive and transitive, and tells any two
/// different lists apart.
pub proof fn lemma_parts_order(a: Seq<PartModel>, b: Seq<PartModel>, c: Seq<PartModel>)
    ensures
        !parts_before(a, a),
        parts_before(a, b) && parts_before(b, c) ==> parts_before(a, c),
        parts_before(a, b) || parts_before(b, a) || a == b,
        parts_before(a, b) ==> !parts_before(b, a),
    decreases a.len() + b.len() + c.len(),
{
    if a.len() > 0 && b.len() > 0 && c.len() > 0 {
        lemma_parts_order(a.skip(1), b.skip(1), c.skip(1));
        lemma_part_order(a[0], b[0], c[0]);
    } else if a.len() > 0 && b.len() > 0 {
        lemma_parts_order(a.skip(1), b.skip(1), c);
        lemma_part_order(a[0], b[0], a[0]);
    } else if a.len() > 0 {
        lemma_parts_order(a.skip(1), b, c);
    }
    if a.len() > 0 && b.len() > 0 && a[0] == b[0] && a.skip(1) == b.skip(1) {
        assert forall|i: int| 0 <= i < a.len() implies a[i] == b[i] by {
            if i > 0 {
                assert(a[i] == a.skip(1)[i - 1]);
                assert(b[i] == b.skip(1)[i - 1]);
            }
        }
        assert(a.len() == a.skip(1).len() + 1);
        assert(b.len() == b.skip(1).len() + 1);
        assert(a =~= b);
    }
    if a.len() == 0 && b.len() == 0 {
        assert(a =~= b);
    }
}

/// What a path begins with.
struct Head {
    parts: Vec<Part>,
    len: usize,
    verbatim: bool,
    rooted: bool,
}

impl View for Head {
    type V = HeadModel;

    closed spec fn view(&self) -> HeadModel {
        HeadModel {
            parts: part_models(self.parts@),
            len: self.len as int,
            verbatim: self.verbatim,
            rooted: self.rooted,
        }
    }
}

fn is_slash(c: char) -> (r: bool)
    ensures
        r == is_separator(c),
{
    c == '\\' || c == '/'
}

fn splits(c: char, verbatim: bool) -> (r: bool)
    ensures
        r == separates(c, verbatim),
{
    c == '\\' || (c == '/' && !verbatim)
}

/// A component with the name from `from` to `to`.
fn named(kind: PartKind, chars: &Vec<char>, from: usize, to: usize) -> (r: Part)
    requires
        from <= to <= chars@.len(),
    ensures
        r@ == part(kind, chars@.subrange(from as int, to as int)),
{
    Part { kind, name: text::string_of(chars, from, to) }
}

/// A component without a name.
fn marked(kind: PartKind) -> (r: Part)
    ensures
        r@ == mark(kind),
{
    let r = Part { kind, name: String::new() };
    proof {
        assert(r.name@ =~= Seq::<char>::empty());
    }
    r
}

/// Where the component that starts at `from` ends.
fn find_end(chars: &Vec<char>, from: usize, verbatim: bool) -> (r: usize)
    requires
        from <= chars@.len(),
    ensures
        from <= r <= chars@.len(),
        r == part_end(chars@, from as int, verbatim),
{
    let mut i: usize = from;
    while i < chars.len() && !splits(chars[i], verbatim)
        invariant
            from <= i <= chars@.len(),
            part_end(chars@, i as int, verbatim) == part_end(chars@, from as int, verbatim),
        decreases chars@.len() - i,
    {
        i = i + 1;
    }
    i
}

/// A server and a share, from `from` on.
fn read_share(chars: &Vec<char>, from: usize, kind: PartKind, verbatim: bool) -> (r: Head)
    requires
        from <= chars@.len(),
    ensures
        r@ == share_at(chars@, from as int, kind, verbatim),
        r.len <= chars@.len(),
{
    let server_end: usize = find_end(chars, from, verbatim);
    let share: usize = if server_end < chars.len() {
        server_end + 1
    } else {
        chars.len()
    };
    let share_end: usize = find_end(chars, share, verbatim);
    let mut parts: Vec<Part> = Vec::new();
    parts.push(named(kind, chars, from, server_end));
    parts.push(named(kind, chars, share, share_end));
    let r = Head {
        parts,
        len: if share_end > share {
            share_end
        } else {
            server_end
        },
        verbatim,
        rooted: !verbatim,
    };
    proof {
        assert(r@.parts =~= share_at(chars@, from as int, kind, verbatim).parts);
    }
    r
}

/// A head of one component.
fn one_part(p: Part, len: usize, verbatim: bool, rooted: bool) -> (r: Head)
    ensures
        r@ == (HeadModel { parts: seq![p@], len: len as int, verbatim, rooted }),
        r.len == len,
{
    let ghost model = p@;
    let mut parts: Vec<Part> = Vec::new();
    parts.push(p);
    let r = Head { parts, len, verbatim, rooted };
    proof {
        assert(r@.parts =~= seq![model]);
    }
    r
}

/// A name, from `from` on.
fn read_name(chars: &Vec<char>, from: usize, kind: PartKind, verbatim: bool) -> (r: Head)
    requires
        from <= chars@.len(),
    ensures
        r@ == name_at(chars@, from as int, kind, verbatim),
        r.len <= chars@.len(),
{
    let end: usize = find_end(chars, from, verbatim);
    one_part(named(kind, chars, from, end), end, verbatim, !verbatim)
}

/// The component of the drive with that letter.
fn drive_part(kind: PartKind, letter: char) -> (r: Part)
    requires
        is_letter(letter),
    ensures
        r@ == part(kind, seq![drive_letter(letter)]),
{
    let mut name = String::new();
    if 'a' <= letter && letter <= 'z' {
        if let Some(c) = char::from_u32(letter as u32 - 32) {
            proof {
                vstd::utf8::char_u32_cast(c, ((letter as u32) - 32) as u32);
            }
            name.push(c);
        }
    } else {
        name.push(letter);
    }
    proof {
        assert(name@ =~= seq![drive_letter(letter)]);
    }
    Part { kind, name }
}

/// The drive, server or device a path begins with, if any.
fn read_prefix(chars: &Vec<char>) -> (r: Head)
    ensures
        r@ == prefix_of(chars@),
        r.len <= chars@.len(),
{
    let n: usize = chars.len();
    if n >= 4 && chars[0] == '\\' && chars[1] == '\\' && chars[2] == '?' && chars[3] == '\\' {
        if n >= 8 && chars[4] == 'U' && chars[5] == 'N' && chars[6] == 'C' && is_slash(chars[7]) {
            return read_share(chars, 8, PartKind::VerbatimShare, true);
        }
        if is_drive(chars, 4) && (n == 6 || is_slash(chars[6])) {
            return one_part(drive_part(PartKind::VerbatimDisk, chars[4]), 6, true, false);
        }
        return read_name(chars, 4, PartKind::Verbatim, true);
    }
    if n >= 4 && is_slash(chars[0]) && is_slash(chars[1]) && chars[2] == '.' && is_slash(chars[3]) {
        return read_name(chars, 4, PartKind::Device, false);
    }
    if n >= 2 && is_slash(chars[0]) && is_slash(chars[1]) {
        let server_end: usize = find_end(chars, 2, false);
        let share: usize = if server_end < n {
            server_end + 1
        } else {
            n
        };
        let share_end: usize = find_end(chars, share, false);
        if server_end > 2 && share_end > share {
            return read_share(chars, 2, PartKind::Share, false);
        }
    }
    if is_drive(chars, 0) {
        return one_part(drive_part(PartKind::Disk, chars[0]), 2, false, false);
    }
    let r = Head { parts: Vec::new(), len: 0, verbatim: false, rooted: false };
    proof {
        assert(r@.parts =~= Seq::<PartModel>::empty());
    }
    r
}

/// Everything before the names of a path.
fn read_head(chars: &Vec<char>) -> (r: Head)
    ensures
        r@ == head_of(chars@),
        r.len <= chars@.len(),
{
    let mut h = read_prefix(chars);
    let ghost x = h@;
    let at: usize = h.len;
    let n: usize = chars.len();
    if at < n && is_slash(chars[at]) {
        h.parts.push(marked(PartKind::Root));
        h.len = at + 1;
        proof {
            assert(h@.parts =~= x.parts.push(mark(PartKind::Root)));
        }
    } else if h.rooted {
        h.parts.push(marked(PartKind::Root));
        proof {
            assert(h@.parts =~= x.parts.push(mark(PartKind::Root)));
        }
    } else if !h.verbatim && at < n && chars[at] == '.' && (at + 1 == n || is_slash(
        chars[at + 1],
    )) {
        h.len = at + 1;
        proof {
            assert(h@.parts.len() == h.parts@.len());
        }
        if h.parts.len() == 0 {
            h.parts.push(marked(PartKind::Here));
            proof {
                assert(h@.parts =~= seq![mark(PartKind::Here)]);
            }
        }
    }
    h
}

/// Append the component that a piece stands for.
fn push_piece(parts: &mut Vec<Part>, chars: &Vec<char>, from: usize, to: usize, verbatim: bool)
    requires
        from <= to <= chars@.len(),
    ensures
        part_models(final(parts)@) == part_models(old(parts)@) + part_in(
            chars@.subrange(from as int, to as int),
            verbatim,
        ),
{
    let ghost piece = chars@.subrange(from as int, to as int);
    let ghost before = part_models(parts@);
    if to - from == 1 && chars[from] == '.' {
        proof {
            assert(piece =~= seq!['.']);
        }
        if verbatim {
            parts.push(marked(PartKind::Here));
        }
    } else if to - from == 2 && chars[from] == '.' && chars[from + 1] == '.' {
        proof {
            assert(piece =~= seq!['.', '.']);
        }
        parts.push(marked(PartKind::Up));
    } else if from < to {
        proof {
            if piece == seq!['.'] {
                assert(piece.len() == 1 && piece[0] == '.');
            }
            if piece == seq!['.', '.'] {
                assert(piece.len() == 2 && piece[0] == '.' && piece[1] == '.');
            }
        }
        parts.push(named(PartKind::Name, chars, from, to));
    }
    proof {
        assert(part_models(parts@) =~= before + part_in(piece, verbatim));
    }
}

/// The components of a path.
pub fn components(path: &str) -> (r: Vec<Part>)
    ensures
        part_models(r@) == components_of(path@),
{
    let chars = text::chars_of(path);
    let h = read_head(&chars);
    let ghost head = h@;
    let verbatim: bool = h.verbatim;
    let base: usize = h.len;
    let n: usize = chars.len();
    let ghost body = chars@.skip(base as int);
    let mut parts = h.parts;
    let mut from: usize = base;
    let mut i: usize = base;
    proof {
        assert(head.parts =~= head.parts + Seq::<PartModel>::empty());
    }
    while i < n
        invariant
            base <= from <= i <= n,
            n == chars@.len(),
            body == chars@.skip(base as int),
            from > base ==> separates(body[from - base - 1], verbatim),
            forall|k: int| from - base <= k < i - base ==> !separates(#[trigger] body[k], verbatim),
            part_models(parts@) == head.parts + (if from == base {
                Seq::empty()
            } else {
                names_in(body.take(from - base - 1), verbatim)
            }),
        decreases n - i,
    {
        proof {
            assert(body[i - base] == chars@[i as int]);
        }
        if splits(chars[i], verbatim) {
            proof {
                lemma_pieces_add_up(body, from - base, i - base, verbatim);
                assert(chars@.subrange(from as int, i as int) =~= body.subrange(
                    from - base,
                    i - base,
                ));
                let done = if from == base {
                    Seq::empty()
                } else {
                    names_in(body.take(from - base - 1), verbatim)
                };
                let piece = part_in(body.subrange(from - base, i - base), verbatim);
                assert(head.parts + done + piece =~= head.parts + (done + piece));
            }
            push_piece(&mut parts, &chars, from, i, verbatim);
            from = i + 1;
        }
        i = i + 1;
    }
    proof {
        lemma_pieces_add_up(body, from - base, n - base, verbatim);
        assert(body.take(n - base) =~= body);
        assert(chars@.subrange(from as int, n as int) =~= body.subrange(from - base, n - base));
        let done = if from == base {
            Seq::empty()
        } else {
            names_in(body.take(from - base - 1), verbatim)
        };
        let piece = part_in(body.subrange(from - base, n - base), verbatim);
        assert(head.parts + done + piece =~= head.parts + (done + piece));
    }
    push_piece(&mut parts, &chars, from, n, verbatim);
    parts
}

/// The components up to a place are those before the piece that ends there, and
/// that piece's.
proof fn lemma_pieces_add_up(body: Seq<char>, from: int, to: int, verbatim: bool)
    requires
        0 <= from <= to <= body.len(),
        from > 0 ==> separates(body[from - 1], verbatim),
        forall|k: int| from <= k < to ==> !separates(#[trigger] body[k], verbatim),
    ensures
        names_in(body.take(to), verbatim) == (if from == 0 {
            Seq::empty()
        } else {
            names_in(body.take(from - 1), verbatim)
        }) + part_in(body.subrange(from, to), verbatim),
{
    let s = body.take(to);
    assert forall|k: int| from <= k < s.len() implies !separates(#[trigger] s[k], verbatim) by {
        assert(s[k] == body[k]);
    }
    if from > 0 {
        assert(s[from - 1] == body[from - 1]);
    }
    lemma_piece_starts_at(s, from, verbatim);
    assert(s.skip(from) =~= body.subrange(from, to));
    if from > 0 {
        assert(s.take(from - 1) =~= body.take(from - 1));
    }
    if s.len() == 0 {
        assert(names_in(s, verbatim) =~= Seq::<PartModel>::empty() + part_in(
            body.subrange(from, to),
            verbatim,
        ));
    }
}

/// Whether two components are the same.
fn same_part(a: &Part, b: &Part) -> (r: bool)
    ensures
        r == (a@ == b@),
{
    a.kind.rank() == b.kind.rank() && text::same_text(a.name.as_str(), b.name.as_str())
}

/// Whether two texts are the same path.
pub fn same(a: &str, b: &str) -> (r: bool)
    ensures
        r == same_path(a@, b@),
{
    let x = components(a);
    let y = components(b);
    if x.len() != y.len() {
        proof {
            assert(part_models(x@).len() != part_models(y@).len());
        }
        return false;
    }
    let mut i: usize = 0;
    while i < x.len()
        invariant
            i <= x@.len(),
            x@.len() == y@.len(),
            part_models(x@) == components_of(a@),
            part_models(y@) == components_of(b@),
            forall|k: int| 0 <= k < i ==> (#[trigger] part_models(x@)[k]) == part_models(y@)[k],
        decreases x@.len() - i,
    {
        if !same_part(&x[i], &y[i]) {
            proof {
                assert(part_models(x@)[i as int] != part_models(y@)[i as int]);
            }
            return false;
        }
        i = i + 1;
    }
    proof {
        assert(part_models(x@) =~= part_models(y@));
    }
    true
}

/// Whether `a` comes before `b`, component by component.
pub fn precedes(a: &str, b: &str) -> (r: bool)
    ensures
        r == path_before(a@, b@),
{
    let x = components(a);
    let y = components(b);
    let ghost p = part_models(x@);
    let ghost q = part_models(y@);
    let mut i: usize = 0;
    proof {
        assert(p.skip(0) =~= p);
        assert(q.skip(0) =~= q);
    }
    while i < x.len() && i < y.len() && same_part(&x[i], &y[i])
        invariant
            p == part_models(x@),
            q == part_models(y@),
            i <= x@.len(),
            i <= y@.len(),
            parts_before(p.skip(i as int), q.skip(i as int)) == parts_before(p, q),
        decreases x@.len() - i,
    {
        proof {
            assert(p.skip(i as int).skip(1) =~= p.skip(i + 1));
            assert(q.skip(i as int).skip(1) =~= q.skip(i + 1));
            assert(p[i as int] == q[i as int]);
        }
        i = i + 1;
    }
    if i == y.len() {
        return false;
    }
    if i == x.len() {
        return true;
    }
    proof {
        assert(p.skip(i as int)[0] == x@[i as int]@);
        assert(q.skip(i as int)[0] == y@[i as int]@);
    }
    let (j, k) = (x[i].kind.rank(), y[i].kind.rank());
    if j != k {
        return j < k;
    }
    text::precedes(&text::chars_of(x[i].name.as_str()), &text::chars_of(y[i].name.as_str()))
}

/// Whether some path of the list is the same as `path`.
pub open spec fn lists_path(list: Seq<Seq<char>>, path: Seq<char>) -> bool {
    exists|i: int| 0 <= i < list.len() && same_path(#[trigger] list[i], path)
}

/// Whether some path of the list is the same as `path`.
pub fn contains(list: &Vec<String>, path: &str) -> (r: bool)
    ensures
        r == lists_path(text::texts(list@), path@),
{
    let mut i: usize = 0;
    let ghost all = text::texts(list@);
    while i < list.len()
        invariant
            i <= list@.len(),
            all == text::texts(list@),
            forall|k: int| 0 <= k < i ==> !same_path(#[trigger] all[k], path@),
        decreases list@.len() - i,
    {
        if same(list[i].as_str(), path) {
            proof {
                assert(same_path(all[i as int], path@));
            }
            return true;
        }
        i = i + 1;
    }
    false
}

/// Whether the paths of two lists are the same, one by one.
pub open spec fn same_paths(a: Seq<Seq<char>>, b: Seq<Seq<char>>) -> bool {
    &&& a.len() == b.len()
    &&& forall|i: int| 0 <= i < a.len() ==> same_path(#[trigger] a[i], b[i])
}

/// Whether the paths of two lists are the same, one by one.
pub fn same_list(a: &Vec<String>, b: &Vec<String>) -> (r: bool)
    ensures
        r == same_paths(text::texts(a@), text::texts(b@)),
{
    let ghost x = text::texts(a@);
    let ghost y = text::texts(b@);
    if a.len() != b.len() {
        return false;
    }
    let mut i: usize = 0;
    while i < a.len()
        invariant
            i <= a@.len(),
            a@.len() == b@.len(),
            x == text::texts(a@),
            y == text::texts(b@),
            forall|k: int| 0 <= k < i ==> same_path(#[trigger] x[k], y[k]),
        decreases a@.len() - i,
    {
        if !same(a[i].as_str(), b[i].as_str()) {
            proof {
                assert(!same_path(x[i as int], y[i as int]));
            }
            return false;
        }
        i = i + 1;
    }
    true
}

/// Whether two paths that may be missing are the same.
pub open spec fn same_optional_path(a: Option<Seq<char>>, b: Option<Seq<char>>) -> bool {
    match (a, b) {
        (Some(x), Some(y)) => same_path(x, y),
        (None, None) => true,
        _ => false,
    }
}

/// Whether two paths that may be missing are the same.
pub fn same_optional(a: Option<&String>, b: Option<&String>) -> (r: bool)
    ensures
        r == same_optional_path(text::borrowed_text(a), text::borrowed_text(b)),
{
    match (a, b) {
        (Some(x), Some(y)) => same(x.as_str(), y.as_str()),
        (None, None) => true,
        _ => false,
    }
}

/// The name of the file or directory that a path ends in; empty where it ends in
/// anything else.
pub open spec fn file_name_of(path: Seq<char>) -> Seq<char> {
    let all = components_of(path);
    if all.len() > 0 && all.last().kind == PartKind::Name {
        all.last().name
    } else {
        Seq::empty()
    }
}

/// The name of the file or directory that a path ends in; empty where it ends in
/// anything else.
pub fn file_name(path: &str) -> (r: String)
    ensures
        r@ == file_name_of(path@),
{
    let all = components(path);
    let n: usize = all.len();
    proof {
        assert(part_models(all@).len() == n);
    }
    if n > 0 {
        let last = &all[n - 1];
        proof {
            assert(part_models(all@).last() == last@);
        }
        if let PartKind::Name = last.kind {
            return last.name.clone();
        }
    }
    let r = String::new();
    proof {
        assert(r@ =~= Seq::<char>::empty());
    }
    r
}

/// Where the last component of a text ends: nothing behind it counts.
pub open spec fn last_end(s: Seq<char>, verbatim: bool) -> int
    decreases s.len(),
{
    if s.len() == 0 {
        0
    } else {
        let at = piece_start(s, verbatim);
        proof {
            lemma_piece_start(s, verbatim);
        }
        if part_in(s.skip(at), verbatim).len() > 0 {
            s.len() as int
        } else if at <= 0 {
            0
        } else {
            last_end(s.take(at - 1), verbatim)
        }
    }
}

/// A path without its last component, if that is a name, `.` or `..`.
pub open spec fn parent_of(path: Seq<char>) -> Option<Seq<char>> {
    let h = head_of(path);
    let body = path.skip(h.len);
    let end = last_end(body, h.verbatim);
    if end > 0 {
        let at = piece_start(body.take(end), h.verbatim);
        Some(
            path.take(
                h.len + if at <= 0 {
                    0
                } else {
                    last_end(body.take(at - 1), h.verbatim)
                },
            ),
        )
    } else if h.parts.len() > 0 && h.parts.last().kind == PartKind::Here {
        Some(path.take(h.len - 1))
    } else {
        None
    }
}

/// What stands before the last component is its text's end, and the components
/// up to there are the same.
proof fn lemma_last_end(s: Seq<char>, verbatim: bool)
    ensures
        0 <= last_end(s, verbatim) <= s.len(),
        names_in(s.take(last_end(s, verbatim)), verbatim) == names_in(s, verbatim),
        names_in(s, verbatim).len() > 0 <==> last_end(s, verbatim) > 0,
        last_end(s, verbatim) > 0 ==> !separates(s[last_end(s, verbatim) - 1], verbatim),
    decreases s.len(),
{
    let end = last_end(s, verbatim);
    if s.len() == 0 {
        assert(s.take(0) =~= s);
    } else {
        let at = piece_start(s, verbatim);
        lemma_piece_start(s, verbatim);
        let piece = part_in(s.skip(at), verbatim);
        if piece.len() > 0 {
            assert(s.take(end) =~= s);
        } else {
            assert(piece =~= Seq::<PartModel>::empty());
            if at > 0 {
                let rest = s.take(at - 1);
                lemma_last_end(rest, verbatim);
                assert(s.take(end) =~= rest.take(end));
                assert(names_in(s, verbatim) =~= names_in(rest, verbatim));
            } else {
                assert(names_in(s, verbatim) =~= Seq::<PartModel>::empty());
                assert(s.take(0) =~= Seq::<char>::empty());
            }
        }
    }
}

/// A path has a parent where it has a component beyond its drive, server and
/// root.
pub proof fn law_names_have_a_parent(path: Seq<char>)
    ensures
        parent_of(path) is Some <==> components_of(path).len() > 0 && match components_of(
            path,
        ).last().kind {
            PartKind::Name | PartKind::Up | PartKind::Here => true,
            _ => false,
        },
{
    let h = head_of(path);
    let body = path.skip(h.len);
    lemma_last_end(body, h.verbatim);
    lemma_names_are_names(body, h.verbatim);
    let names = names_in(body, h.verbatim);
    if names.len() > 0 {
        assert(components_of(path).last() == names.last());
    } else {
        assert(components_of(path) =~= h.parts);
        lemma_head_kinds(path);
    }
}

/// Names, `.` and `..` are all there is between separators.
proof fn lemma_names_are_names(s: Seq<char>, verbatim: bool)
    ensures
        forall|i: int|
            0 <= i < names_in(s, verbatim).len() ==> match (#[trigger] names_in(
                s,
                verbatim,
            )[i]).kind {
                PartKind::Name | PartKind::Up | PartKind::Here => true,
                _ => false,
            },
    decreases s.len(),
{
    if s.len() > 0 {
        let at = piece_start(s, verbatim);
        lemma_piece_start(s, verbatim);
        let all = names_in(s, verbatim);
        let piece = part_in(s.skip(at), verbatim);
        if at > 0 {
            let rest = names_in(s.take(at - 1), verbatim);
            lemma_names_are_names(s.take(at - 1), verbatim);
            assert forall|i: int| 0 <= i < all.len() implies match (#[trigger] all[i]).kind {
                PartKind::Name | PartKind::Up | PartKind::Here => true,
                _ => false,
            } by {
                if i < rest.len() {
                    assert(all[i] == rest[i]);
                } else {
                    assert(all[i] == piece[i - rest.len()]);
                }
            }
        }
    }
}

/// A head ends in a drive, a server, a device, the root or `.`.
proof fn lemma_head_kinds(path: Seq<char>)
    ensures
        head_of(path).parts.len() > 0 ==> match head_of(path).parts.last().kind {
            PartKind::Name | PartKind::Up => false,
            _ => true,
        },
{
}

/// The path of another file beside the one at a path that has a parent.
pub open spec fn beside(path: Seq<char>, name: Seq<char>) -> Seq<char> {
    below(parent_of(path)->0, name)
}

/// A path without its last component, if that is a name, `.` or `..`.
#[verifier::rlimit(50)]
pub fn parent(path: &str) -> (r: Option<String>)
    ensures
        crate::config::optional_text(r) == parent_of(path@),
{
    let chars = text::chars_of(path);
    let h = read_head(&chars);
    let ghost head = h@;
    let base: usize = h.len;
    let verbatim: bool = h.verbatim;
    let n: usize = chars.len();
    let ghost body = chars@.skip(base as int);
    proof {
        assert(body.take(n - base) =~= body);
        lemma_last_end(body, verbatim);
    }
    let end: usize = find_last_end(&chars, base, n, verbatim);
    if end > base {
        let at: usize = find_piece(&chars, base, end, verbatim);
        let kept: usize = if at > base {
            find_last_end(&chars, base, at - 1, verbatim)
        } else {
            base
        };
        proof {
            let e = end - base;
            let s = at - base;
            if s > 0 {
                assert(body.take(e).take(s - 1) =~= body.take(s - 1));
            }
            assert(chars@.subrange(0, kept as int) =~= path@.take(kept as int));
        }
        return Some(text::string_of(&chars, 0, kept));
    }
    let k: usize = h.parts.len();
    proof {
        assert(head.parts.len() == k);
    }
    if k > 0 {
        proof {
            assert(head.parts.last() == h.parts@[k - 1]@);
        }
        if let PartKind::Here = h.parts[k - 1].kind {
            proof {
                lemma_here_takes_room(path@);
                assert(chars@.subrange(0, base - 1) =~= path@.take(base - 1));
            }
            return Some(text::string_of(&chars, 0, base - 1));
        }
    }
    None
}

/// A head that ends in `.` takes at least that.
proof fn lemma_here_takes_room(path: Seq<char>)
    requires
        head_of(path).parts.len() > 0,
        head_of(path).parts.last().kind == PartKind::Here,
    ensures
        head_of(path).len >= 1,
{
    let x = prefix_of(path);
    if begins_verbatim(path) {
        lemma_part_end(path, 4, true);
    }
}

/// Where the last piece of `chars[base..to]` starts.
fn find_piece(chars: &Vec<char>, base: usize, to: usize, verbatim: bool) -> (r: usize)
    requires
        base <= to <= chars@.len(),
    ensures
        base <= r <= to,
        r - base == piece_start(chars@.skip(base as int).take(to - base), verbatim),
{
    let ghost s = chars@.skip(base as int).take(to - base);
    let mut i: usize = to;
    while i > base && !splits(chars[i - 1], verbatim)
        invariant
            base <= i <= to <= chars@.len(),
            s == chars@.skip(base as int).take(to - base),
            forall|k: int| i - base <= k < s.len() ==> !separates(#[trigger] s[k], verbatim),
        decreases i,
    {
        proof {
            assert(s[i - base - 1] == chars@[i - 1]);
        }
        i = i - 1;
    }
    proof {
        if i > base {
            assert(s[i - base - 1] == chars@[i - 1]);
        }
        lemma_piece_starts_at(s, i - base, verbatim);
    }
    i
}

/// Where the last component of `chars[base..to]` ends.
fn find_last_end(chars: &Vec<char>, base: usize, to: usize, verbatim: bool) -> (r: usize)
    requires
        base <= to <= chars@.len(),
    ensures
        base <= r <= to,
        r - base == last_end(chars@.skip(base as int).take(to - base), verbatim),
{
    let ghost body = chars@.skip(base as int);
    let mut end: usize = to;
    while end > base
        invariant
            base <= end <= to <= chars@.len(),
            body == chars@.skip(base as int),
            last_end(body.take(end - base), verbatim) == last_end(body.take(to - base), verbatim),
        decreases end,
    {
        let at: usize = find_piece(chars, base, end, verbatim);
        let ghost s = body.take(end - base);
        proof {
            assert(s.skip(at - base) =~= chars@.subrange(at as int, end as int));
        }
        let counts: bool = at < end && (verbatim || !(end - at == 1 && chars[at] == '.'));
        proof {
            let piece = chars@.subrange(at as int, end as int);
            if end - at == 1 && chars@[at as int] == '.' {
                assert(piece =~= seq!['.']);
            } else if piece == seq!['.'] {
                assert(piece.len() == 1 && piece[0] == '.');
            }
            assert(counts == (part_in(piece, verbatim).len() > 0));
        }
        if counts {
            return end;
        }
        if at == base {
            return base;
        }
        proof {
            assert(s.take(at - base - 1) =~= body.take(at - base - 1));
        }
        end = at - 1;
    }
    end
}

/// The path of the file `name` beside the one at `path`; `None` where `path` has
/// no parent.
pub fn sibling(path: &str, name: &str) -> (r: Option<String>)
    ensures
        r is Some <==> parent_of(path@) is Some,
        r matches Some(s) ==> s@ == beside(path@, name@),
{
    match parent(path) {
        Some(directory) => Some(join(directory.as_str(), name)),
        None => None,
    }
}

/// Whether a file beside another begins with the same drive, server or root. It
/// does not where the directory is a bare server, whose share the name would be.
pub open spec fn begins_alike(path: Seq<char>, name: Seq<char>) -> bool {
    let h = head_of(path);
    let other = head_of(beside(path, name));
    h.len == other.len && h.verbatim == other.verbatim
}

/// A plain file name: no separator in it, and neither `.` nor `..`.
pub open spec fn is_plain_name(name: Seq<char>) -> bool {
    &&& name.len() > 0
    &&& name != seq!['.']
    &&& name != seq!['.', '.']
    &&& forall|i: int| 0 <= i < name.len() ==> !is_separator(#[trigger] name[i])
}

/// The last component of the path of a file beside another is its name.
pub proof fn law_a_file_beside_another_has_its_name(path: Seq<char>, name: Seq<char>)
    requires
        file_name_of(path).len() > 0,
        is_plain_name(name),
        begins_alike(path, name),
    ensures
        file_name_of(beside(path, name)) == name,
{
    let h = head_of(path);
    let v = h.verbatim;
    lemma_parent_text(path);
    let dir = parent_of(path)->0;
    let all = below(dir, name);
    let rest = all.skip(h.len);
    let from = rest.len() - name.len();
    if dir.len() > h.len {
        lemma_verbatim_head(path, dir);
        lemma_head_fits(path);
        if dir.len() == 2 && drive_at(dir, 0) {
            assert(dir[0] == path[0] && dir[1] == path[1]);
            assert(drive_at(path, 0));
            assert(prefix_of(path).len == 2);
        }
        assert(needs_separator(dir));
    }
    if needs_separator(dir) {
        assert(all =~= dir.push('\\') + name);
        assert(rest[from - 1] == all[dir.len() as int]);
    } else {
        assert(all =~= dir + name);
        assert(from == 0);
    }
    assert(rest.skip(from) =~= name);
    lemma_ends_in_name(rest, name, v);
    assert(components_of(all).last() == names_in(rest, v).last());
}

/// The parent of a file is the start of its path, from the head on up to the end
/// of a component.
proof fn lemma_parent_text(path: Seq<char>)
    requires
        file_name_of(path).len() > 0,
    ensures
        ({
            let h = head_of(path);
            let dir = parent_of(path)->0;
            &&& parent_of(path) is Some
            &&& 0 <= h.len <= dir.len() <= path.len()
            &&& dir == path.take(dir.len() as int)
            &&& dir.len() > h.len ==> !separates(dir.last(), h.verbatim)
        }),
{
    let h = head_of(path);
    let body = path.skip(h.len);
    let v = h.verbatim;
    lemma_head_fits(path);
    lemma_head_kinds(path);
    lemma_last_end(body, v);
    if names_in(body, v).len() == 0 {
        assert(components_of(path) =~= h.parts);
    }
    let end = last_end(body, v);
    let at = piece_start(body.take(end), v);
    lemma_piece_start(body.take(end), v);
    if at > 0 {
        let before = body.take(at - 1);
        lemma_last_end(before, v);
        let kept = last_end(before, v);
        if kept > 0 {
            assert(before[kept - 1] == path[h.len + kept - 1]);
        }
    }
}

/// A text that ends in a plain name after a separator, or is one, has it as its
/// last component.
proof fn lemma_ends_in_name(rest: Seq<char>, name: Seq<char>, verbatim: bool)
    requires
        is_plain_name(name),
        name.len() <= rest.len(),
        rest.skip(rest.len() - name.len()) == name,
        name.len() < rest.len() ==> rest[rest.len() - name.len() - 1] == '\\',
    ensures
        names_in(rest, verbatim).len() > 0,
        names_in(rest, verbatim).last() == part(PartKind::Name, name),
{
    let from = rest.len() - name.len();
    assert forall|i: int| from <= i < rest.len() implies !separates(#[trigger] rest[i], verbatim) by {
        assert(rest[i] == rest.skip(from)[i - from]);
    }
    lemma_piece_starts_at(rest, from, verbatim);
    let piece = part_in(name, verbatim);
    assert(piece =~= seq![part(PartKind::Name, name)]);
    assert(names_in(rest, verbatim).last() == piece.last());
}

/// A head is within its path.
proof fn lemma_head_fits(path: Seq<char>)
    ensures
        0 <= head_of(path).len <= path.len(),
        0 <= prefix_of(path).len <= path.len(),
        prefix_of(path).verbatim == begins_verbatim(path),
        head_of(path).verbatim == begins_verbatim(path),
{
    if path.len() >= 2 {
        lemma_part_end(path, 2, false);
        let e = part_end(path, 2, false);
        lemma_part_end(path, past(path, e), false);
    }
    if path.len() >= 4 {
        lemma_part_end(path, 4, false);
        lemma_part_end(path, 4, true);
    }
    if path.len() >= 8 {
        lemma_part_end(path, 8, true);
        let e = part_end(path, 8, true);
        lemma_part_end(path, past(path, e), true);
    }
}

/// What is left of a path, if no less than its head, is verbatim where it is.
proof fn lemma_verbatim_head(path: Seq<char>, dir: Seq<char>)
    requires
        dir.len() <= path.len(),
        dir == path.take(dir.len() as int),
        dir.len() >= head_of(path).len,
    ensures
        begins_verbatim(dir) == begins_verbatim(path),
{
    lemma_head_fits(path);
    if begins_verbatim(path) {
        lemma_part_end(path, 4, true);
        if begins_verbatim_share(path) {
            lemma_part_end(path, 8, true);
        }
    }
}

/// What follows the last separator of a path, whichever it is, is its tail; a
/// path without one is all tail.
pub proof fn law_the_tail_follows_the_last_separator(dir: Seq<char>, name: Seq<char>)
    requires
        forall|i: int| 0 <= i < name.len() ==> #[trigger] name[i] != '\\' && name[i] != '/',
    ensures
        tail_of(dir + seq!['\\'] + name) == name,
        tail_of(dir + seq!['/'] + name) == name,
        tail_of(name) == name,
{
    lemma_tail_start_is(dir + seq!['\\'], name);
    lemma_tail_start_is(dir + seq!['/'], name);
    lemma_tail_start_is(Seq::empty(), name);
    assert((dir + seq!['\\'] + name).skip(dir.len() as int + 1) =~= name);
    assert((dir + seq!['/'] + name).skip(dir.len() as int + 1) =~= name);
    assert(Seq::<char>::empty() + name =~= name);
    assert(name.skip(0) =~= name);
}

proof fn lemma_tail_start_is(before: Seq<char>, name: Seq<char>)
    requires
        before.len() == 0 || before.last() == '\\' || before.last() == '/',
        forall|i: int| 0 <= i < name.len() ==> #[trigger] name[i] != '\\' && name[i] != '/',
    ensures
        tail_start(before + name) == before.len(),
    decreases name.len(),
{
    let all = before + name;
    if name.len() == 0 {
        assert(all =~= before);
    } else {
        assert(all.last() == name[name.len() - 1]);
        assert(all.drop_last() =~= before + name.drop_last());
        lemma_tail_start_is(before, name.drop_last());
    }
}

/// A separator goes between a directory and a name below it, but after an empty
/// directory, one that ends in a separator, and a bare drive.
pub proof fn law_names_go_below_directories(dir: Seq<char>, name: Seq<char>, c: char)
    ensures
        below(Seq::empty(), name) == name,
        below(dir + seq!['\\'], name) == dir + seq!['\\'] + name,
        dir.len() > 0 && dir[0] != '\\' ==> below(dir + seq!['/'], name) == dir + seq!['/'] + name,
        ('a' <= c && c <= 'z' || 'A' <= c && c <= 'Z') ==> below(seq![c, ':'], name) == seq![c, ':']
            + name,
        dir.len() > 2 && dir.last() != '\\' && dir.last() != '/' ==> below(dir, name) == dir
            + seq!['\\'] + name,
{
    assert(Seq::<char>::empty() + name =~= name);
    assert((dir + seq!['\\']).last() == '\\');
    assert((dir + seq!['/']).last() == '/');
    if dir.len() > 0 {
        assert((dir + seq!['/'])[0] == dir[0]);
    }
}

/// The names of a path, one after the other: what stands between two separators
/// is a name, `..` goes up, and nothing and `.` do not count. In a verbatim path
/// the slash is a character like any other, and `.` counts.
pub proof fn law_names_are_what_separators_divide(
    before: Seq<char>,
    piece: Seq<char>,
    verbatim: bool,
)
    requires
        forall|i: int|
            0 <= i < piece.len() ==> #[trigger] piece[i] != '\\' && (verbatim || piece[i] != '/'),
    ensures
        ({
            let named = if piece.len() == 0 {
                Seq::empty()
            } else if piece == seq!['.'] && !verbatim {
                Seq::empty()
            } else if piece == seq!['.'] {
                seq![PartModel { kind: PartKind::Here, name: Seq::empty() }]
            } else if piece == seq!['.', '.'] {
                seq![PartModel { kind: PartKind::Up, name: Seq::empty() }]
            } else {
                seq![PartModel { kind: PartKind::Name, name: piece }]
            };
            &&& names_in(piece, verbatim) == named
            &&& names_in(before + seq!['\\'] + piece, verbatim) == names_in(before, verbatim) + named
            &&& !verbatim ==> names_in(before + seq!['/'] + piece, false) == names_in(before, false)
                + named
        }),
{
    let none = Seq::<char>::empty();
    lemma_piece_starts_at(piece, 0, verbatim);
    assert(piece.skip(0) =~= piece);
    assert(Seq::<PartModel>::empty() + part_in(piece, verbatim) =~= part_in(piece, verbatim));
    if piece.len() == 0 {
        assert(names_in(piece, verbatim) =~= part_in(piece, verbatim));
    }
    lemma_names_after(before, '\\', piece, verbatim);
    if !verbatim {
        lemma_names_after(before, '/', piece, false);
    }
    assert(seq!['.'] != seq!['.', '.']) by {
        assert(seq!['.'].len() != seq!['.', '.'].len());
    }
}

proof fn lemma_names_after(before: Seq<char>, sep: char, piece: Seq<char>, verbatim: bool)
    requires
        separates(sep, verbatim),
        forall|i: int| 0 <= i < piece.len() ==> !separates(#[trigger] piece[i], verbatim),
    ensures
        names_in(before + seq![sep] + piece, verbatim) == names_in(before, verbatim) + part_in(
            piece,
            verbatim,
        ),
{
    let all = before + seq![sep] + piece;
    let at = before.len() as int + 1;
    assert(all[at - 1] == sep);
    assert forall|i: int| at <= i < all.len() implies !separates(#[trigger] all[i], verbatim) by {
        assert(all[i] == piece[i - at]);
    }
    lemma_piece_starts_at(all, at, verbatim);
    assert(all.take(at - 1) =~= before);
    assert(all.skip(at) =~= piece);
}

/// Where a component ends: at the next separator, or at the end of the path.
proof fn lemma_part_end_is(path: Seq<char>, from: int, end: int, verbatim: bool)
    requires
        0 <= from <= end <= path.len(),
        forall|i: int| from <= i < end ==> !separates(#[trigger] path[i], verbatim),
        end < path.len() ==> separates(path[end], verbatim),
    ensures
        part_end(path, from, verbatim) == end,
    decreases end - from,
{
    if from < end {
        lemma_part_end_is(path, from + 1, end, verbatim);
    }
}

/// The letter of a drive counts in upper case, whichever it is written in.
pub open spec fn upper_letter(c: char) -> char {
    if 97 <= c as int <= 122 {
        (c as int - 32) as char
    } else {
        c
    }
}

/// What a path on a drive holds: the drive in upper case, the root where a
/// separator follows, and the names behind it. A path that begins with none of
/// these is its names alone, and one that begins with a single separator is its
/// names from the root on.
pub proof fn law_a_drive_comes_first(c: char, rest: Seq<char>)
    requires
        'a' <= c && c <= 'z' || 'A' <= c && c <= 'Z',
    ensures
        components_of(seq![c, ':', '\\'] + rest) == seq![
            PartModel { kind: PartKind::Disk, name: seq![upper_letter(c)] },
            PartModel { kind: PartKind::Root, name: Seq::empty() },
        ] + names_in(rest, false),
        components_of(seq![c, ':', '/'] + rest) == seq![
            PartModel { kind: PartKind::Disk, name: seq![upper_letter(c)] },
            PartModel { kind: PartKind::Root, name: Seq::empty() },
        ] + names_in(rest, false),
        rest.len() > 0 && rest[0] != '\\' && rest[0] != '/' && rest[0] != '.' ==> components_of(
            seq![c, ':'] + rest,
        ) == seq![PartModel { kind: PartKind::Disk, name: seq![upper_letter(c)] }] + names_in(
            rest,
            false,
        ),
{
    lemma_drive_letter(c);
    let a = seq![c, ':', '\\'] + rest;
    let b = seq![c, ':', '/'] + rest;
    let d = seq![c, ':'] + rest;
    assert(a[0] == c && a[1] == ':' && a[2] == '\\');
    assert(b[0] == c && b[1] == ':' && b[2] == '/');
    assert(d[0] == c && d[1] == ':');
    assert(a.skip(3) =~= rest);
    assert(b.skip(3) =~= rest);
    assert(d.skip(2) =~= rest);
    let disk = part(PartKind::Disk, seq![drive_letter(c)]);
    let both = seq![disk, mark(PartKind::Root)];
    assert(prefix_of(a).parts == seq![disk] && prefix_of(a).len == 2);
    assert(prefix_of(b).parts == seq![disk] && prefix_of(b).len == 2);
    assert(head_of(a).parts =~= both);
    assert(head_of(b).parts =~= both);
    if rest.len() > 0 && rest[0] != '\\' && rest[0] != '/' && rest[0] != '.' {
        assert(d[2] == rest[0]);
        assert(head_of(d).parts =~= seq![disk]);
    }
}

proof fn lemma_drive_letter(c: char)
    requires
        'a' <= c && c <= 'z' || 'A' <= c && c <= 'Z',
    ensures
        drive_letter(c) == upper_letter(c),
{
}

/// A path without a drive or a server is its names, from the root on where it
/// begins with a separator; a leading `.` counts.
pub proof fn law_other_paths_are_their_names(path: Seq<char>)
    requires
        path.len() > 0,
        path[0] != '\\' && path[0] != '/',
        path.len() > 1 ==> path[1] != ':',
    ensures
        path[0] != '.' ==> components_of(path) == names_in(path, false),
        components_of(seq!['\\'] + path) == seq![
            PartModel { kind: PartKind::Root, name: Seq::empty() },
        ] + names_in(path, false),
        components_of(seq!['/'] + path) == seq![
            PartModel { kind: PartKind::Root, name: Seq::empty() },
        ] + names_in(path, false),
        components_of(seq!['.', '\\'] + path) == seq![
            PartModel { kind: PartKind::Here, name: Seq::empty() },
        ] + names_in(path, false),
{
    let a = seq!['\\'] + path;
    let b = seq!['/'] + path;
    let d = seq!['.', '\\'] + path;
    assert(a[0] == '\\' && a[1] == path[0]);
    assert(b[0] == '/' && b[1] == path[0]);
    assert(d[0] == '.' && d[1] == '\\');
    assert(a.skip(1) =~= path);
    assert(b.skip(1) =~= path);
    assert(path.skip(0) =~= path);
    assert(head_of(path).parts.len() == 0 || path[0] == '.');
    if path[0] != '.' {
        assert(head_of(path).len == 0);
        assert(head_of(path).parts =~= Seq::<PartModel>::empty());
        assert(components_of(path) =~= names_in(path, false));
    }
    assert(head_of(a).parts =~= seq![mark(PartKind::Root)]);
    assert(head_of(b).parts =~= seq![mark(PartKind::Root)]);
    assert(head_of(d).parts =~= seq![mark(PartKind::Here)]);
    assert(head_of(d).len == 1);
    let none = Seq::<char>::empty();
    assert(d.skip(1) =~= seq!['\\'] + path);
    lemma_names_from_separator(path);
}

/// A separator before the first name adds nothing.
proof fn lemma_names_from_separator(path: Seq<char>)
    ensures
        names_in(seq!['\\'] + path, false) == names_in(path, false),
    decreases path.len(),
{
    let all = seq!['\\'] + path;
    let at = piece_start(path, false);
    lemma_piece_start(path, false);
    let piece = path.skip(at);
    assert(all[at] == if at == 0 {
        '\\'
    } else {
        path[at - 1]
    });
    assert forall|i: int| at + 1 <= i < all.len() implies !separates(#[trigger] all[i], false) by {
        assert(all[i] == path[i - 1]);
    }
    lemma_piece_starts_at(all, at + 1, false);
    assert(all.skip(at + 1) =~= piece);
    if at == 0 {
        assert(all.take(0) =~= Seq::<char>::empty());
        if path.len() == 0 {
            assert(names_in(path, false) =~= Seq::<PartModel>::empty());
            assert(part_in(piece, false) =~= Seq::<PartModel>::empty());
        }
        assert(names_in(all.take(0), false) =~= Seq::<PartModel>::empty());
        assert(names_in(all, false) =~= part_in(piece, false));
        assert(names_in(path, false) =~= part_in(piece, false));
    } else {
        assert(all.take(at) =~= seq!['\\'] + path.take(at - 1));
        lemma_names_from_separator(path.take(at - 1));
    }
}

/// A server and its share come first, and the root behind them counts whether or
/// not it is written.
pub proof fn law_a_server_comes_first(server: Seq<char>, share: Seq<char>, rest: Seq<char>)
    requires
        server.len() > 0,
        share.len() > 0,
        server[0] != '.' && server[0] != '?',
        forall|i: int| 0 <= i < server.len() ==> #[trigger] server[i] != '\\' && server[i] != '/',
        forall|i: int| 0 <= i < share.len() ==> #[trigger] share[i] != '\\' && share[i] != '/',
    ensures
        ({
            let head = seq![
                PartModel { kind: PartKind::Share, name: server },
                PartModel { kind: PartKind::Share, name: share },
                PartModel { kind: PartKind::Root, name: Seq::empty() },
            ];
            &&& components_of(seq!['\\', '\\'] + server + seq!['\\'] + share) == head
            &&& components_of(seq!['\\', '\\'] + server + seq!['\\'] + share + seq!['\\'] + rest)
                == head + names_in(rest, false)
        }),
{
    let a = seq!['\\', '\\'] + server + seq!['\\'] + share;
    let b = a + seq!['\\'] + rest;
    let se = 2 + server.len() as int;
    let sh = se + 1;
    let end = sh + share.len() as int;
    assert(a.take(end) =~= a);
    assert(b.take(end) =~= a);
    assert(b[end] == '\\');
    lemma_share_ends(a, server, share);
    lemma_share_ends(b, server, share);
    assert(b[end] == '\\');
    assert(a.skip(end) =~= Seq::<char>::empty());
    assert(b.skip(end + 1) =~= rest);
    let two = seq![part(PartKind::Share, server), part(PartKind::Share, share)];
    let head = two.push(mark(PartKind::Root));
    assert(prefix_of(a).parts =~= two);
    assert(prefix_of(b).parts =~= two);
    assert(head_of(a).parts =~= head);
    assert(head_of(b).parts =~= head);
    assert(names_in(a.skip(end), false) =~= Seq::<PartModel>::empty());
    assert(head =~= seq![
        PartModel { kind: PartKind::Share, name: server },
        PartModel { kind: PartKind::Share, name: share },
        PartModel { kind: PartKind::Root, name: Seq::empty() },
    ]);
    assert(components_of(a) =~= head);
}

proof fn lemma_share_ends(path: Seq<char>, server: Seq<char>, share: Seq<char>)
    requires
        server.len() > 0,
        share.len() > 0,
        server[0] != '.' && server[0] != '?',
        forall|i: int| 0 <= i < server.len() ==> #[trigger] server[i] != '\\' && server[i] != '/',
        forall|i: int| 0 <= i < share.len() ==> #[trigger] share[i] != '\\' && share[i] != '/',
        path.len() >= 3 + server.len() + share.len(),
        path.take(3 + server.len() as int + share.len() as int) == seq!['\\', '\\'] + server
            + seq!['\\'] + share,
        path.len() > 3 + server.len() + share.len() ==> path[3 + server.len() as int
            + share.len() as int] == '\\',
    ensures
        path[0] == '\\' && path[1] == '\\' && path[2] == server[0],
        names_share(path),
        prefix_of(path) == share_at(path, 2, PartKind::Share, false),
        share_at(path, 2, PartKind::Share, false).len == 3 + server.len() + share.len(),
        share_at(path, 2, PartKind::Share, false).parts == seq![
            part(PartKind::Share, server),
            part(PartKind::Share, share),
        ],
{
    let start = seq!['\\', '\\'] + server + seq!['\\'] + share;
    let se = 2 + server.len() as int;
    let sh = se + 1;
    let end = sh + share.len() as int;
    let taken = path.take(end);
    assert(taken[0] == start[0] && taken[1] == start[1] && taken[2] == start[2]);
    assert(start[2] == server[0]);
    assert(taken[se] == start[se]);
    assert(path[se] == '\\');
    assert forall|i: int| 2 <= i < se implies !separates(#[trigger] path[i], false) by {
        assert(taken[i] == start[i]);
        assert(start[i] == server[i - 2]);
    }
    assert forall|i: int| sh <= i < end implies !separates(#[trigger] path[i], false) by {
        assert(taken[i] == start[i]);
        assert(start[i] == share[i - sh]);
    }
    lemma_part_end_is(path, 2, se, false);
    lemma_part_end_is(path, sh, end, false);
    assert(path.subrange(2, se) =~= server) by {
        assert forall|i: int| 0 <= i < server.len() implies path.subrange(2, se)[i] == server[i] by {
            assert(taken[i + 2] == start[i + 2]);
        }
    }
    assert(path.subrange(sh, end) =~= share) by {
        assert forall|i: int| 0 <= i < share.len() implies path.subrange(sh, end)[i] == share[i] by {
            assert(taken[i + sh] == start[i + sh]);
        }
    }
}

/// A device comes first, and the root behind it counts.
pub proof fn law_a_device_comes_first(device: Seq<char>, rest: Seq<char>)
    requires
        forall|i: int| 0 <= i < device.len() ==> #[trigger] device[i] != '\\' && device[i] != '/',
    ensures
        components_of(seq!['\\', '\\', '.', '\\'] + device + seq!['\\'] + rest) == seq![
            PartModel { kind: PartKind::Device, name: device },
            PartModel { kind: PartKind::Root, name: Seq::empty() },
        ] + names_in(rest, false),
{
    let path = seq!['\\', '\\', '.', '\\'] + device + seq!['\\'] + rest;
    let end = 4 + device.len() as int;
    assert(path[0] == '\\' && path[1] == '\\' && path[2] == '.' && path[3] == '\\');
    assert(path[end] == '\\');
    assert forall|i: int| 4 <= i < end implies !separates(#[trigger] path[i], false) by {
        assert(path[i] == device[i - 4]);
    }
    lemma_part_end_is(path, 4, end, false);
    assert(path.subrange(4, end) =~= device);
    assert(prefix_of(path).parts =~= seq![part(PartKind::Device, device)]);
    assert(head_of(path).parts =~= seq![part(PartKind::Device, device), mark(PartKind::Root)]);
    assert(path.skip(end + 1) =~= rest);
}

/// A verbatim path begins with `\\?\`: on a drive, on a server, or with a name.
/// The names behind it are taken as they are written.
pub proof fn law_verbatim_paths_are_taken_as_written(
    c: char,
    server: Seq<char>,
    share: Seq<char>,
    rest: Seq<char>,
)
    requires
        'a' <= c && c <= 'z' || 'A' <= c && c <= 'Z',
        server.len() > 0,
        share.len() > 0,
        forall|i: int| 0 <= i < server.len() ==> #[trigger] server[i] != '\\',
        forall|i: int| 0 <= i < share.len() ==> #[trigger] share[i] != '\\',
    ensures
        components_of(seq!['\\', '\\', '?', '\\', c, ':', '\\'] + rest) == seq![
            PartModel { kind: PartKind::VerbatimDisk, name: seq![upper_letter(c)] },
            PartModel { kind: PartKind::Root, name: Seq::empty() },
        ] + names_in(rest, true),
        components_of(
            seq!['\\', '\\', '?', '\\', 'U', 'N', 'C', '\\'] + server + seq!['\\'] + share + seq![
                '\\',
            ] + rest,
        ) == seq![
            PartModel { kind: PartKind::VerbatimShare, name: server },
            PartModel { kind: PartKind::VerbatimShare, name: share },
            PartModel { kind: PartKind::Root, name: Seq::empty() },
        ] + names_in(rest, true),
        server[0] != 'U' && (server.len() > 1 ==> server[1] != ':') ==> components_of(
            seq!['\\', '\\', '?', '\\'] + server + seq!['\\'] + rest,
        ) == seq![
            PartModel { kind: PartKind::Verbatim, name: server },
            PartModel { kind: PartKind::Root, name: Seq::empty() },
        ] + names_in(rest, true),
{
    lemma_drive_letter(c);
    let a = seq!['\\', '\\', '?', '\\', c, ':', '\\'] + rest;
    assert(a[0] == '\\' && a[1] == '\\' && a[2] == '?' && a[3] == '\\');
    assert(a[4] == c && a[5] == ':' && a[6] == '\\');
    assert(!begins_verbatim_share(a));
    assert(a.skip(7) =~= rest);
    assert(head_of(a).parts =~= seq![
        part(PartKind::VerbatimDisk, seq![drive_letter(c)]),
        mark(PartKind::Root),
    ]);
    lemma_verbatim_server(server, share, rest);
    if server[0] != 'U' && (server.len() > 1 ==> server[1] != ':') {
        let d = seq!['\\', '\\', '?', '\\'] + server + seq!['\\'] + rest;
        let end = 4 + server.len() as int;
        assert(d[0] == '\\' && d[1] == '\\' && d[2] == '?' && d[3] == '\\');
        assert(d[4] == server[0]);
        assert(d[end] == '\\');
        if server.len() > 1 {
            assert(d[5] == server[1]);
        } else {
            assert(d[5] == '\\');
        }
        assert forall|i: int| 4 <= i < end implies !separates(#[trigger] d[i], true) by {
            assert(d[i] == server[i - 4]);
        }
        lemma_part_end_is(d, 4, end, true);
        assert(d.subrange(4, end) =~= server);
        assert(d.skip(end + 1) =~= rest);
        assert(head_of(d).parts =~= seq![part(PartKind::Verbatim, server), mark(PartKind::Root)]);
    }
}

proof fn lemma_verbatim_server(server: Seq<char>, share: Seq<char>, rest: Seq<char>)
    requires
        server.len() > 0,
        share.len() > 0,
        forall|i: int| 0 <= i < server.len() ==> #[trigger] server[i] != '\\',
        forall|i: int| 0 <= i < share.len() ==> #[trigger] share[i] != '\\',
    ensures
        components_of(
            seq!['\\', '\\', '?', '\\', 'U', 'N', 'C', '\\'] + server + seq!['\\'] + share + seq![
                '\\',
            ] + rest,
        ) == seq![
            part(PartKind::VerbatimShare, server),
            part(PartKind::VerbatimShare, share),
            mark(PartKind::Root),
        ] + names_in(rest, true),
{
    let first = seq!['\\', '\\', '?', '\\', 'U', 'N', 'C', '\\'];
    let b = first + server + seq!['\\'] + share + seq!['\\'] + rest;
    let se = 8 + server.len() as int;
    let sh = se + 1;
    let end = sh + share.len() as int;
    assert(b[0] == '\\' && b[1] == '\\' && b[2] == '?' && b[3] == '\\');
    assert(b[4] == 'U' && b[5] == 'N' && b[6] == 'C' && b[7] == '\\');
    assert(b[se] == '\\' && b[end] == '\\');
    assert forall|i: int| 8 <= i < se implies !separates(#[trigger] b[i], true) by {
        assert(b[i] == server[i - 8]);
    }
    assert forall|i: int| sh <= i < end implies !separates(#[trigger] b[i], true) by {
        assert(b[i] == share[i - sh]);
    }
    lemma_part_end_is(b, 8, se, true);
    lemma_part_end_is(b, sh, end, true);
    assert(b.subrange(8, se) =~= server);
    assert(b.subrange(sh, end) =~= share);
    assert(b.skip(end + 1) =~= rest);
    assert(head_of(b).parts =~= seq![
        part(PartKind::VerbatimShare, server),
        part(PartKind::VerbatimShare, share),
        mark(PartKind::Root),
    ]);
}

/// The file at a path on a drive: its name is what follows the last separator,
/// its parent the directory before that, and a file beside it is the other name
/// below that directory.
pub proof fn law_files_on_a_drive_have_their_directory(
    c: char,
    dir: Seq<char>,
    name: Seq<char>,
    other: Seq<char>,
)
    requires
        'a' <= c && c <= 'z' || 'A' <= c && c <= 'Z',
        dir.len() > 0,
        dir.last() != '\\' && dir.last() != '/' && dir.last() != '.',
        name.len() > 0,
        name != seq!['.'],
        name != seq!['.', '.'],
        forall|i: int| 0 <= i < name.len() ==> #[trigger] name[i] != '\\' && name[i] != '/',
    ensures
        ({
            let home = seq![c, ':', '\\'] + dir;
            let file = home + seq!['\\'] + name;
            &&& file_name_of(file) == name
            &&& parent_of(file) == Some(home)
            &&& beside(file, other) == home + seq!['\\'] + other
            &&& parent_of(seq![c, ':', '\\'] + name) == Some(seq![c, ':', '\\'])
            &&& file_name_of(seq![c, ':', '\\'] + name) == name
            &&& beside(seq![c, ':', '\\'] + name, other) == seq![c, ':', '\\'] + other
        }),
{
    let drive = seq![c, ':', '\\'];
    let home = drive + dir;
    lemma_file_in_directory(c, dir, name);
    lemma_file_at_root(c, name);
    assert(home.last() == dir.last());
    law_names_go_below_directories(home, other, c);
    assert(drive =~= seq![c, ':'] + seq!['\\']);
    law_names_go_below_directories(seq![c, ':'], other, c);
}

proof fn lemma_file_in_directory(c: char, dir: Seq<char>, name: Seq<char>)
    requires
        'a' <= c && c <= 'z' || 'A' <= c && c <= 'Z',
        dir.len() > 0,
        dir.last() != '\\' && dir.last() != '/' && dir.last() != '.',
        name.len() > 0,
        name != seq!['.'],
        name != seq!['.', '.'],
        forall|i: int| 0 <= i < name.len() ==> #[trigger] name[i] != '\\' && name[i] != '/',
    ensures
        file_name_of(seq![c, ':', '\\'] + dir + seq!['\\'] + name) == name,
        parent_of(seq![c, ':', '\\'] + dir + seq!['\\'] + name) == Some(seq![c, ':', '\\'] + dir),
{
    let drive = seq![c, ':', '\\'];
    let home = drive + dir;
    let body = dir + seq!['\\'] + name;
    let file = home + seq!['\\'] + name;
    assert(file =~= drive + body);
    law_a_drive_comes_first(c, body);
    law_names_are_what_separators_divide(dir, name, false);
    assert(components_of(file).last().name == name);
    lemma_drive_head(c, body);
    assert(file.skip(3) =~= body);
    lemma_directory_ends(dir, name);
    assert(file.take(3 + dir.len() as int) =~= home);
}

/// What is behind a drive and its root.
proof fn lemma_drive_head(c: char, body: Seq<char>)
    requires
        'a' <= c && c <= 'z' || 'A' <= c && c <= 'Z',
    ensures
        head_of(seq![c, ':', '\\'] + body).len == 3,
        !head_of(seq![c, ':', '\\'] + body).verbatim,
        head_of(seq![c, ':', '\\'] + body).parts.len() == 2,
{
    let path = seq![c, ':', '\\'] + body;
    assert(path[0] == c && path[1] == ':' && path[2] == '\\');
}

/// The last component of a file's path is its name, and the directory ends where
/// the separator before it stands.
proof fn lemma_directory_ends(dir: Seq<char>, name: Seq<char>)
    requires
        dir.len() > 0,
        dir.last() != '\\' && dir.last() != '/' && dir.last() != '.',
        name.len() > 0,
        name != seq!['.'],
        forall|i: int| 0 <= i < name.len() ==> #[trigger] name[i] != '\\' && name[i] != '/',
    ensures
        ({
            let body = dir + seq!['\\'] + name;
            &&& last_end(body, false) == body.len()
            &&& piece_start(body.take(body.len() as int), false) == dir.len() + 1
            &&& last_end(body.take(dir.len() as int), false) == dir.len()
        }),
{
    let body = dir + seq!['\\'] + name;
    let at = dir.len() as int + 1;
    assert forall|i: int| at <= i < body.len() implies !separates(#[trigger] body[i], false) by {
        assert(body[i] == name[i - at]);
    }
    assert(body[at - 1] == '\\');
    lemma_piece_starts_at(body, at, false);
    assert(body.skip(at) =~= name);
    assert(body.take(body.len() as int) =~= body);
    assert(body.take(at - 1) =~= dir);
    let from = piece_start(dir, false);
    lemma_piece_start(dir, false);
    let piece = dir.skip(from);
    assert(piece.len() > 0) by {
        if from == dir.len() {
            assert(dir[from - 1] == dir.last());
        }
    }
    assert(piece.last() == dir.last());
    assert(piece != seq!['.']) by {
        if piece == seq!['.'] {
            assert(piece.last() == '.');
        }
    }
}

proof fn lemma_file_at_root(c: char, name: Seq<char>)
    requires
        'a' <= c && c <= 'z' || 'A' <= c && c <= 'Z',
        name.len() > 0,
        name != seq!['.'],
        name != seq!['.', '.'],
        forall|i: int| 0 <= i < name.len() ==> #[trigger] name[i] != '\\' && name[i] != '/',
    ensures
        file_name_of(seq![c, ':', '\\'] + name) == name,
        parent_of(seq![c, ':', '\\'] + name) == Some(seq![c, ':', '\\']),
{
    let drive = seq![c, ':', '\\'];
    let top = drive + name;
    law_a_drive_comes_first(c, name);
    law_names_are_what_separators_divide(Seq::empty(), name, false);
    assert(components_of(top).last().name == name);
    lemma_drive_head(c, name);
    assert(top.skip(3) =~= name);
    lemma_piece_starts_at(name, 0, false);
    assert(name.skip(0) =~= name);
    assert(name.take(name.len() as int) =~= name);
    assert(top.take(3) =~= drive);
}

/// Paths are ordered by the first component in which they differ, and the
/// shorter comes first where it begins the other.
pub proof fn law_paths_are_ordered_by_their_first_difference(
    same: Seq<PartModel>,
    a: PartModel,
    b: PartModel,
    x: Seq<PartModel>,
    y: Seq<PartModel>,
)
    ensures
        !parts_before(same, same),
        y.len() > 0 ==> parts_before(same, same + y) && !parts_before(same + y, same),
        a != b ==> parts_before(same + seq![a] + x, same + seq![b] + y) == part_before(a, b),
    decreases same.len(),
{
    let p = same + seq![a] + x;
    let q = same + seq![b] + y;
    let longer = same + y;
    if same.len() == 0 {
        assert(p[0] == a && q[0] == b);
        assert(longer =~= y);
    } else {
        let rest = same.skip(1);
        law_paths_are_ordered_by_their_first_difference(rest, a, b, x, y);
        assert(p.skip(1) =~= rest + seq![a] + x);
        assert(q.skip(1) =~= rest + seq![b] + y);
        assert(longer.skip(1) =~= rest + y);
        assert(p[0] == same[0] && q[0] == same[0] && longer[0] == same[0]);
    }
}

/// The kinds of components, in their order.
pub open spec fn kinds_in_order() -> Seq<PartKind> {
    seq![
        PartKind::Verbatim,
        PartKind::VerbatimShare,
        PartKind::VerbatimDisk,
        PartKind::Device,
        PartKind::Share,
        PartKind::Disk,
        PartKind::Root,
        PartKind::Here,
        PartKind::Up,
        PartKind::Name,
    ]
}

/// A component comes before another by its kind, and by its name where they are
/// of one kind.
pub proof fn law_components_are_ordered_by_kind_and_name(
    i: int,
    j: int,
    a: Seq<char>,
    b: Seq<char>,
)
    requires
        0 <= i < 10,
        0 <= j < 10,
    ensures
        part_before(
            PartModel { kind: kinds_in_order()[i], name: a },
            PartModel { kind: kinds_in_order()[j], name: b },
        ) <==> i < j || i == j && text::comes_before(a, b),
{
    assert(kinds_in_order()[i].rank_value() == i);
    assert(kinds_in_order()[j].rank_value() == j);
}

/// Two texts are the same path exactly where they have the same components: how
/// a drive's letter and the separator behind it are written makes no difference,
/// and neither do a `.` and a second separator before the last name; another name
/// does.
pub proof fn law_paths_are_the_same_by_their_components(
    a: Seq<char>,
    b: Seq<char>,
    c: char,
    dir: Seq<char>,
    name: Seq<char>,
    other: Seq<char>,
)
    requires
        'a' <= c && c <= 'z',
        is_plain_name(name),
        is_plain_name(other),
    ensures
        same_path(a, b) <==> components_of(a) == components_of(b),
        same_path(seq![c, ':', '\\'] + dir, seq![upper_letter(c), ':', '/'] + dir),
        same_path(
            seq![c, ':', '\\'] + (dir + seq!['\\'] + name),
            seq![c, ':', '\\'] + (dir + seq!['/'] + name),
        ),
        same_path(
            seq![c, ':', '\\'] + (dir + seq!['\\'] + name),
            seq![c, ':', '\\'] + (dir + seq!['\\', '\\'] + name),
        ),
        same_path(
            seq![c, ':', '\\'] + (dir + seq!['\\'] + name),
            seq![c, ':', '\\'] + (dir + seq!['\\', '.', '\\'] + name),
        ),
        name != other ==> !same_path(
            seq![c, ':', '\\'] + (dir + seq!['\\'] + name),
            seq![c, ':', '\\'] + (dir + seq!['\\'] + other),
        ),
{
    let up = upper_letter(c);
    assert('A' <= up && up <= 'Z');
    law_a_drive_comes_first(c, dir);
    law_a_drive_comes_first(up, dir);
    let none = Seq::<char>::empty();
    let x = dir + seq!['\\'] + name;
    let y = dir + seq!['/'] + name;
    let z = dir + seq!['\\', '\\'] + name;
    let w = dir + seq!['\\', '.', '\\'] + name;
    let v = dir + seq!['\\'] + other;
    law_a_drive_comes_first(c, x);
    law_a_drive_comes_first(c, y);
    law_a_drive_comes_first(c, z);
    law_a_drive_comes_first(c, w);
    law_a_drive_comes_first(c, v);
    law_names_are_what_separators_divide(dir, name, false);
    law_names_are_what_separators_divide(dir, other, false);
    let doubled = dir + seq!['\\'] + none;
    law_names_are_what_separators_divide(dir, none, false);
    law_names_are_what_separators_divide(doubled, name, false);
    assert(doubled + seq!['\\'] + name =~= z);
    let dotted = dir + seq!['\\'] + seq!['.'];
    law_names_are_what_separators_divide(dir, seq!['.'], false);
    law_names_are_what_separators_divide(dotted, name, false);
    assert(dotted + seq!['\\'] + name =~= w);
    assert(names_in(dir, false) + Seq::<PartModel>::empty() =~= names_in(dir, false));
    if name != other {
        let p = components_of(seq![c, ':', '\\'] + x);
        let q = components_of(seq![c, ':', '\\'] + v);
        assert(p.last().name == name);
        assert(q.last().name == other);
    }
}

/// Lists of paths are the same where they are as long and the same path by path,
/// and a list holds a path where one of its own is the same.
pub proof fn law_lists_of_paths_are_compared_path_by_path(
    list: Seq<Seq<char>>,
    other: Seq<Seq<char>>,
    a: Seq<char>,
    b: Seq<char>,
)
    ensures
        same_paths(Seq::empty(), Seq::empty()),
        same_paths(list, other) ==> list.len() == other.len(),
        same_paths(list.push(a), other.push(b)) <==> same_paths(list, other) && same_path(a, b),
        !lists_path(Seq::empty(), a),
        lists_path(list.push(b), a) <==> lists_path(list, a) || same_path(b, a),
        same_optional_path(Some(a), Some(b)) <==> same_path(a, b),
        same_optional_path(None, None),
        !same_optional_path(Some(a), None),
        !same_optional_path(None, Some(a)),
{
    let x = list.push(a);
    let y = other.push(b);
    if same_paths(x, y) {
        assert forall|i: int| 0 <= i < list.len() implies same_path(#[trigger] list[i], other[i]) by {
            assert(x[i] == list[i] && y[i] == other[i]);
        }
        assert(x[list.len() as int] == a && y[list.len() as int] == b);
    }
    if same_paths(list, other) && same_path(a, b) {
        assert forall|i: int| 0 <= i < x.len() implies same_path(#[trigger] x[i], y[i]) by {
            if i < list.len() {
                assert(x[i] == list[i] && y[i] == other[i]);
            }
        }
    }
    let more = list.push(b);
    if lists_path(more, a) {
        let i = choose|i: int| 0 <= i < more.len() && same_path(#[trigger] more[i], a);
        if i < list.len() {
            assert(list[i] == more[i]);
        }
    }
    if lists_path(list, a) {
        let i = choose|i: int| 0 <= i < list.len() && same_path(#[trigger] list[i], a);
        assert(more[i] == list[i]);
    }
    if same_path(b, a) {
        assert(more[list.len() as int] == b);
    }
}

/// A device, a verbatim drive and a verbatim name are components by themselves,
/// with nothing behind them: the device is rooted, and a verbatim path only where
/// a backslash follows.
pub proof fn law_heads_stand_alone(c: char, name: Seq<char>)
    requires
        'a' <= c && c <= 'z' || 'A' <= c && c <= 'Z',
        forall|i: int| 0 <= i < name.len() ==> #[trigger] name[i] != '\\' && name[i] != '/',
    ensures
        components_of(seq!['\\', '\\', '.', '\\'] + name) == seq![
            PartModel { kind: PartKind::Device, name },
            PartModel { kind: PartKind::Root, name: Seq::empty() },
        ],
        components_of(seq!['\\', '\\', '?', '\\', c, ':']) == seq![
            PartModel { kind: PartKind::VerbatimDisk, name: seq![upper_letter(c)] },
        ],
        !(name.len() == 2 && name[1] == ':') ==> components_of(seq!['\\', '\\', '?', '\\'] + name)
            == seq![PartModel { kind: PartKind::Verbatim, name }],
        components_of(seq![c, ':']) == seq![
            PartModel { kind: PartKind::Disk, name: seq![upper_letter(c)] },
        ],
{
    lemma_drive_letter(c);
    let none = Seq::<char>::empty();
    assert(names_in(none, false) =~= Seq::<PartModel>::empty());
    assert(names_in(none, true) =~= Seq::<PartModel>::empty());

    let a = seq!['\\', '\\', '.', '\\'] + name;
    let end = 4 + name.len() as int;
    assert(a[0] == '\\' && a[1] == '\\' && a[2] == '.' && a[3] == '\\');
    assert forall|i: int| 4 <= i < end implies !separates(#[trigger] a[i], false) by {
        assert(a[i] == name[i - 4]);
    }
    lemma_part_end_is(a, 4, end, false);
    assert(a.subrange(4, end) =~= name);
    assert(a.skip(end) =~= none);
    assert(head_of(a).parts =~= seq![part(PartKind::Device, name), mark(PartKind::Root)]);
    assert(components_of(a) =~= head_of(a).parts);

    let b = seq!['\\', '\\', '?', '\\', c, ':'];
    assert(b.skip(6) =~= none);
    assert(head_of(b).parts =~= seq![part(PartKind::VerbatimDisk, seq![drive_letter(c)])]);
    assert(components_of(b) =~= head_of(b).parts);

    let d = seq![c, ':'];
    assert(d.skip(2) =~= none);
    assert(head_of(d).parts =~= seq![part(PartKind::Disk, seq![drive_letter(c)])]);
    assert(components_of(d) =~= head_of(d).parts);

    if !(name.len() == 2 && name[1] == ':') {
        lemma_verbatim_name(name);
    }
}

proof fn lemma_verbatim_name(name: Seq<char>)
    requires
        forall|i: int| 0 <= i < name.len() ==> #[trigger] name[i] != '\\' && name[i] != '/',
        !(name.len() == 2 && name[1] == ':'),
    ensures
        components_of(seq!['\\', '\\', '?', '\\'] + name) == seq![part(PartKind::Verbatim, name)],
{
    let none = Seq::<char>::empty();
    let e = seq!['\\', '\\', '?', '\\'] + name;
    let end = 4 + name.len() as int;
    assert(e[0] == '\\' && e[1] == '\\' && e[2] == '?' && e[3] == '\\');
    assert forall|i: int| 4 <= i < end implies !is_separator(#[trigger] e[i]) by {
        assert(e[i] == name[i - 4]);
    }
    if e.len() >= 8 {
        assert(!is_separator(e[7]));
    }
    if e.len() > 6 {
        assert(!is_separator(e[6]));
    }
    if e.len() == 6 {
        assert(e[5] == name[1]);
    }
    lemma_part_end_is(e, 4, end, true);
    assert(e.subrange(4, end) =~= name);
    assert(e.skip(end) =~= none);
    assert(names_in(none, true) =~= Seq::<PartModel>::empty());
    assert(head_of(e).parts =~= seq![part(PartKind::Verbatim, name)]);
    assert(components_of(e) =~= head_of(e).parts);
}

} // verus!
