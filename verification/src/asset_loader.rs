//! The sprite-atlas registry.
//!
//! A registry is built once, before the simulation loop starts, from a flat
//! text description: one entry per line, five fields separated by single
//! spaces, `name x y width height`, the four numbers non-negative base-10
//! integers. Malformed lines are skipped with a line-scoped diagnostic and
//! never abort the parse; a later entry under an already-seen name overwrites
//! the earlier one.

use vstd::prelude::*;

verus! {

/// The byte that separates fields within a line.
pub const SPACE: u8 = 32;

/// The byte that separates lines.
pub const NEWLINE: u8 = 10;

/// A carriage return; one directly before a line break is not part of the line.
pub const CARRIAGE_RETURN: u8 = 13;

/// An optional leading plus sign on a numeric field.
pub const PLUS_SIGN: u8 = 43;

/// The lowest digit byte.
pub const DIGIT_ZERO: u8 = 48;

/// The highest digit byte.
pub const DIGIT_NINE: u8 = 57;

/// Split `s` at every occurrence of `sep`, keeping empty segments, so that
/// the result always holds one segment more than `s` holds separators.
pub open spec fn split_on(s: Seq<u8>, sep: u8) -> Seq<Seq<u8>>
    decreases s.len(),
{
    if s.len() == 0 {
        seq![Seq::<u8>::empty()]
    } else if s[0] == sep {
        seq![Seq::<u8>::empty()] + split_on(s.drop_first(), sep)
    } else {
        let rest = split_on(s.drop_first(), sep);
        seq![seq![s[0]] + rest[0]] + rest.drop_first()
    }
}

/// Splitting always yields at least one segment.
pub proof fn lemma_split_on_len(s: Seq<u8>, sep: u8)
    ensures
        split_on(s, sep).len() >= 1,
    decreases s.len(),
{
    if s.len() > 0 {
        lemma_split_on_len(s.drop_first(), sep);
    }
}

/// Unfold `split_on` one byte into the sequence, phrased over `skip` so a
/// left-to-right scan can maintain it.
proof fn lemma_split_on_skip(s: Seq<u8>, sep: u8, i: int)
    requires
        0 <= i < s.len(),
    ensures
        s[i] == sep ==> split_on(s.skip(i), sep) == seq![Seq::<u8>::empty()] + split_on(
            s.skip(i + 1),
            sep,
        ),
        s[i] != sep ==> split_on(s.skip(i), sep) == seq![
            seq![s[i]] + split_on(s.skip(i + 1), sep)[0],
        ] + split_on(s.skip(i + 1), sep).drop_first(),
{
    assert(s.skip(i).len() == s.len() - i);
    assert(s.skip(i)[0] == s[i]);
    assert(s.skip(i).drop_first() =~= s.skip(i + 1));
}

/// A separator at the very end contributes one final empty segment.
pub proof fn lemma_split_on_trailing(s: Seq<u8>, sep: u8)
    requires
        s.len() > 0,
        s.last() == sep,
    ensures
        split_on(s, sep) == split_on(s.drop_last(), sep).push(Seq::<u8>::empty()),
    decreases s.len(),
{
    if s.len() == 1 {
        assert(s.drop_last() =~= Seq::<u8>::empty());
        assert(s.drop_first() =~= Seq::<u8>::empty());
        assert(split_on(s, sep) =~~= split_on(s.drop_last(), sep).push(Seq::<u8>::empty()));
    } else {
        let t = s.drop_first();
        assert(t.last() == s.last());
        lemma_split_on_trailing(t, sep);
        assert(t.drop_last() =~= s.drop_last().drop_first());
        assert(s.drop_last().len() > 0 && s.drop_last()[0] == s[0]);
        lemma_split_on_len(t.drop_last(), sep);
        if s[0] == sep {
            assert(split_on(s, sep) =~~= split_on(s.drop_last(), sep).push(Seq::<u8>::empty()));
        } else {
            assert(split_on(t, sep)[0] == split_on(t.drop_last(), sep)[0]);
            assert(split_on(t, sep).drop_first() =~~= split_on(t.drop_last(), sep).drop_first().push(
                Seq::<u8>::empty(),
            ));
            assert(split_on(s, sep) =~~= split_on(s.drop_last(), sep).push(Seq::<u8>::empty()));
        }
    }
}

/// Split a byte slice at every `sep`, keeping empty segments.
pub fn split_bytes(s: &[u8], sep: u8) -> (r: Vec<Vec<u8>>)
    ensures
        r@.map_values(|f: Vec<u8>| f@) == split_on(s@, sep),
        r@.len() == split_on(s@, sep).len(),
        forall|j: int| 0 <= j < r@.len() ==> (#[trigger] r@[j])@ == split_on(s@, sep)[j],
{
    let ghost whole = split_on(s@, sep);
    let mut done: Vec<Vec<u8>> = Vec::new();
    let mut cur: Vec<u8> = Vec::new();
    let mut i: usize = 0;
    proof {
        lemma_split_on_len(s@, sep);
        assert(s@.skip(0) =~= s@);
        assert(whole =~~= done@.map_values(|f: Vec<u8>| f@) + seq![
            cur@ + split_on(s@.skip(0), sep)[0],
        ] + split_on(s@.skip(0), sep).drop_first());
    }
    while i < s.len()
        invariant
            0 <= i <= s@.len(),
            whole == split_on(s@, sep),
            whole =~~= done@.map_values(|f: Vec<u8>| f@) + seq![
                cur@ + split_on(s@.skip(i as int), sep)[0],
            ] + split_on(s@.skip(i as int), sep).drop_first(),
        decreases s@.len() - i,
    {
        proof {
            lemma_split_on_skip(s@, sep, i as int);
            lemma_split_on_len(s@.skip(i + 1), sep);
        }
        let c = s[i];
        if c == sep {
            let finished = cur;
            cur = Vec::new();
            done.push(finished);
            proof {
                assert(done@.map_values(|f: Vec<u8>| f@) =~~= map_view_push(done@, finished));
            }
        } else {
            cur.push(c);
            proof {
                assert(cur@ + split_on(s@.skip(i + 1), sep)[0] =~= (cur@.drop_last() + (seq![
                    s@[i as int],
                ] + split_on(s@.skip(i + 1), sep)[0])));
            }
        }
        i += 1;
        proof {
            assert(whole =~~= done@.map_values(|f: Vec<u8>| f@) + seq![
                cur@ + split_on(s@.skip(i as int), sep)[0],
            ] + split_on(s@.skip(i as int), sep).drop_first());
        }
    }
    proof {
        assert(s@.skip(i as int) =~= Seq::<u8>::empty());
        assert(cur@ + split_on(s@.skip(i as int), sep)[0] =~= cur@);
    }
    done.push(cur);
    proof {
        assert(done@.map_values(|f: Vec<u8>| f@) =~~= whole);
        assert(done@.map_values(|f: Vec<u8>| f@).len() == done@.len());
        assert forall|j: int| 0 <= j < done@.len() implies (#[trigger] done@[j])@ == whole[j] by {
            assert(done@.map_values(|f: Vec<u8>| f@)[j] == done@[j]@);
        }
    }
    done
}

/// The view of `done` after pushing `f`, named so the loop proof can speak
/// of it without re-deriving the `map_values` algebra each time.
spec fn map_view_push(done: Seq<Vec<u8>>, f: Vec<u8>) -> Seq<Seq<u8>> {
    done.drop_last().map_values(|g: Vec<u8>| g@).push(f@)
}

/// `c` is an ASCII decimal digit.
pub open spec fn is_digit(c: u8) -> bool {
    DIGIT_ZERO <= c <= DIGIT_NINE
}

/// Every byte of `s` is a decimal digit.
pub open spec fn all_digits(s: Seq<u8>) -> bool {
    forall|i: int| 0 <= i < s.len() ==> is_digit(#[trigger] s[i])
}

/// The number the digit string `s` denotes in base ten.
pub open spec fn digits_value(s: Seq<u8>) -> int
    decreases s.len(),
{
    if s.len() == 0 {
        0
    } else {
        digits_value(s.drop_last()) * 10 + (s.last() - DIGIT_ZERO)
    }
}

/// A digit string denotes a non-negative number.
pub proof fn lemma_digits_value_nonneg(s: Seq<u8>)
    requires
        all_digits(s),
    ensures
        digits_value(s) >= 0,
    decreases s.len(),
{
    if s.len() > 0 {
        assert(all_digits(s.drop_last()));
        lemma_digits_value_nonneg(s.drop_last());
    }
}

/// Dropping trailing digits can only shrink the denoted number.
pub proof fn lemma_digits_value_prefix_le(s: Seq<u8>, i: int)
    requires
        all_digits(s),
        0 <= i <= s.len(),
    ensures
        digits_value(s.take(i)) <= digits_value(s),
    decreases s.len() - i,
{
    if i < s.len() {
        lemma_digits_value_prefix_le(s, i + 1);
        let t = s.take(i + 1);
        assert(t.drop_last() =~= s.take(i));
        assert(all_digits(s.take(i)));
        lemma_digits_value_nonneg(s.take(i));
        assert(digits_value(t) == digits_value(s.take(i)) * 10 + (s[i] - DIGIT_ZERO));
    } else {
        assert(s.take(i) =~= s);
    }
}

/// The number a numeric field denotes: an optional leading plus sign, then
/// at least one digit, denoting a value that fits 32 bits; anything else is
/// rejected. This is what the original text format's integer fields accept.
pub open spec fn parse_u32(s: Seq<u8>) -> Option<u32> {
    let t = if s.len() > 0 && s[0] == PLUS_SIGN {
        s.drop_first()
    } else {
        s
    };
    if t.len() > 0 && all_digits(t) && digits_value(t) <= u32::MAX {
        Some(digits_value(t) as u32)
    } else {
        None
    }
}

/// Parse a numeric field as a non-negative 32-bit integer.
pub fn parse_u32_field(s: &[u8]) -> (r: Option<u32>)
    ensures
        r == parse_u32(s@),
{
    let start: usize = if s.len() > 0 && s[0] == PLUS_SIGN {
        1
    } else {
        0
    };
    let ghost t = if s@.len() > 0 && s@[0] == PLUS_SIGN {
        s@.drop_first()
    } else {
        s@
    };
    proof {
        assert(t =~= s@.skip(start as int));
    }
    if s.len() == start {
        return None;
    }
    let mut acc: u64 = 0;
    let mut i: usize = start;
    proof {
        assert(t.take(0) =~= Seq::<u8>::empty());
    }
    while i < s.len()
        invariant
            start <= i <= s@.len(),
            start <= 1 <= s@.len(),
            start == 1 <==> (s@.len() > 0 && s@[0] == PLUS_SIGN),
            t == s@.skip(start as int),
            t == (if s@.len() > 0 && s@[0] == PLUS_SIGN { s@.drop_first() } else { s@ }),
            all_digits(t.take(i - start)),
            acc == digits_value(t.take(i - start)),
            acc <= u32::MAX,
        decreases s@.len() - i,
    {
        let c = s[i];
        proof {
            assert(t[i - start] == s@[i as int]);
        }
        if c < DIGIT_ZERO || c > DIGIT_NINE {
            assert(!all_digits(t));
            return None;
        }
        let d = (c - DIGIT_ZERO) as u64;
        acc = acc * 10 + d;
        proof {
            let k = i - start;
            assert(t.take(k + 1).drop_last() =~= t.take(k));
            assert(t.take(k + 1).last() == t[k]);
            assert(all_digits(t.take(k + 1)));
            assert(acc == digits_value(t.take(k + 1)));
        }
        i += 1;
        if acc > 0xFFFF_FFFF {
            proof {
                if all_digits(t) {
                    lemma_digits_value_prefix_le(t, i - start);
                }
            }
            return None;
        }
    }
    proof {
        assert(t.take(i - start) =~= t);
    }
    Some(acc as u32)
}

/// A named rectangular region of the shared sprite sheet image.
#[derive(Clone, Copy, Debug, PartialEq, Eq, Structural)]
pub struct SpriteData {
    pub x: u32,
    pub y: u32,
    pub width: u32,
    pub height: u32,
}

/// Why a line of the description was skipped.
#[derive(Clone, Copy, Debug, PartialEq, Eq, Structural)]
pub enum LineIssue {
    /// The line does not hold exactly five space-separated fields.
    WrongFieldCount,
    /// The `x` field is not a non-negative 32-bit integer.
    BadX,
    /// The `y` field is not a non-negative 32-bit integer.
    BadY,
    /// The `width` field is not a non-negative 32-bit integer.
    BadWidth,
    /// The `height` field is not a non-negative 32-bit integer.
    BadHeight,
}

/// A required sprite was not found in the registry: a fatal configuration
/// error at startup, carrying the name that was looked up.
#[derive(Clone, Debug, PartialEq, Eq)]
pub struct MissingSprite {
    pub name: Vec<u8>,
}

/// A line-scoped warning produced while parsing a description: the zero-based
/// line number, the line's content, and what was wrong with it.
#[derive(Clone, Debug, PartialEq, Eq)]
pub struct Diagnostic {
    pub line: usize,
    pub content: Vec<u8>,
    pub kind: LineIssue,
}

/// The fields of one description line.
pub open spec fn line_fields(line: Seq<u8>) -> Seq<Seq<u8>> {
    split_on(line, SPACE)
}

/// The name under which a well-formed line files its entry.
pub open spec fn line_name(line: Seq<u8>) -> Seq<u8> {
    line_fields(line)[0]
}

/// The entry a line contributes, if it is well formed.
pub open spec fn line_sprite(line: Seq<u8>) -> Option<SpriteData> {
    let f = line_fields(line);
    if f.len() == 5 {
        match (parse_u32(f[1]), parse_u32(f[2]), parse_u32(f[3]), parse_u32(f[4])) {
            (Some(x), Some(y), Some(w), Some(h)) => Some(
                SpriteData { x, y, width: w, height: h },
            ),
            _ => None,
        }
    } else {
        None
    }
}

/// The diagnostic a line provokes, if any: the field count is checked first,
/// then the four numeric fields in order, and the first failure wins.
pub open spec fn line_issue(line: Seq<u8>) -> Option<LineIssue> {
    let f = line_fields(line);
    if f.len() != 5 {
        Some(LineIssue::WrongFieldCount)
    } else if parse_u32(f[1]) is None {
        Some(LineIssue::BadX)
    } else if parse_u32(f[2]) is None {
        Some(LineIssue::BadY)
    } else if parse_u32(f[3]) is None {
        Some(LineIssue::BadWidth)
    } else if parse_u32(f[4]) is None {
        Some(LineIssue::BadHeight)
    } else {
        None
    }
}

/// A line with a carriage return directly before the line break loses it.
pub open spec fn strip_cr(l: Seq<u8>) -> Seq<u8> {
    if l.len() > 0 && l.last() == CARRIAGE_RETURN {
        l.drop_last()
    } else {
        l
    }
}

/// Strip the carriage return, if any, from every line.
pub open spec fn strip_all(ls: Seq<Seq<u8>>) -> Seq<Seq<u8>> {
    Seq::new(ls.len(), |i: int| strip_cr(ls[i]))
}

/// The lines of a description text: split at every line break, with one
/// final line break opening no further empty line, and carriage returns
/// before line breaks dropped.
pub open spec fn lines_of(s: Seq<u8>) -> Seq<Seq<u8>> {
    if s.len() == 0 {
        Seq::empty()
    } else if s.last() == NEWLINE {
        strip_all(split_on(s.drop_last(), NEWLINE))
    } else {
        strip_all(split_on(s, NEWLINE))
    }
}

/// The mapping a sequence of lines denotes: each well-formed line files its
/// entry under its name, later lines overwriting earlier ones.
pub open spec fn atlas_map(lines: Seq<Seq<u8>>) -> Map<Seq<u8>, SpriteData>
    decreases lines.len(),
{
    if lines.len() == 0 {
        Map::empty()
    } else {
        let m = atlas_map(lines.drop_last());
        match line_sprite(lines.last()) {
            Some(d) => m.insert(line_name(lines.last()), d),
            None => m,
        }
    }
}

/// The diagnostics a sequence of lines provokes, in line order.
pub open spec fn diags_of(lines: Seq<Seq<u8>>) -> Seq<(int, Seq<u8>, LineIssue)>
    decreases lines.len(),
{
    if lines.len() == 0 {
        Seq::empty()
    } else {
        let front = diags_of(lines.drop_last());
        match line_issue(lines.last()) {
            Some(k) => front.push((lines.len() - 1, lines.last(), k)),
            None => front,
        }
    }
}

/// An entry as stored: the parse keeps every well-formed line, and a lookup
/// takes the latest entry under a name.
struct AtlasEntry {
    name: Vec<u8>,
    sprite: SpriteData,
}

/// The sprite-atlas registry: a mapping from sprite names to regions of the
/// shared image, built once from a description text and immutable afterward.
pub struct SpriteAtlas {
    entries: Vec<AtlasEntry>,
}

/// The mapping the stored entries denote, later entries overwriting earlier.
spec fn entries_map(es: Seq<AtlasEntry>) -> Map<Seq<u8>, SpriteData>
    decreases es.len(),
{
    if es.len() == 0 {
        Map::empty()
    } else {
        entries_map(es.drop_last()).insert(es.last().name@, es.last().sprite)
    }
}

impl View for SpriteAtlas {
    type V = Map<Seq<u8>, SpriteData>;

    closed spec fn view(&self) -> Map<Seq<u8>, SpriteData> {
        entries_map(self.entries@)
    }
}

/// If no entry from position `i` on carries the key, the first `i` entries
/// already decide it.
proof fn lemma_entries_map_no_match(es: Seq<AtlasEntry>, k: Seq<u8>, i: int)
    requires
        0 <= i <= es.len(),
        forall|j: int| i <= j < es.len() ==> (#[trigger] es[j]).name@ != k,
    ensures
        entries_map(es).contains_key(k) <==> entries_map(es.take(i)).contains_key(k),
        entries_map(es).contains_key(k) ==> entries_map(es)[k] == entries_map(es.take(i))[k],
    decreases es.len(),
{
    if i == es.len() {
        assert(es.take(i) =~= es);
    } else {
        let front = es.drop_last();
        assert(es.last().name@ != k);
        lemma_entries_map_no_match(front, k, i);
        assert(front.take(i) =~= es.take(i));
    }
}

/// The latest entry under a key decides the mapping.
proof fn lemma_entries_map_found(es: Seq<AtlasEntry>, k: Seq<u8>, i: int)
    requires
        0 <= i < es.len(),
        es[i].name@ == k,
        forall|j: int| i < j < es.len() ==> (#[trigger] es[j]).name@ != k,
    ensures
        entries_map(es).contains_key(k),
        entries_map(es)[k] == es[i].sprite,
    decreases es.len(),
{
    if i == es.len() - 1 {
        assert(es.last() == es[i]);
    } else {
        let front = es.drop_last();
        assert(es.last().name@ != k);
        lemma_entries_map_found(front, k, i);
    }
}

/// Copy a byte slice into an owned vector.
pub fn copy_bytes(s: &[u8]) -> (r: Vec<u8>)
    ensures
        r@ == s@,
{
    let mut r: Vec<u8> = Vec::new();
    let mut i: usize = 0;
    while i < s.len()
        invariant
            0 <= i <= s@.len(),
            r@ == s@.take(i as int),
        decreases s@.len() - i,
    {
        r.push(s[i]);
        proof {
            assert(r@ =~= s@.take(i + 1));
        }
        i += 1;
    }
    proof {
        assert(s@.take(i as int) =~= s@);
    }
    r
}

/// Compare two byte slices for equality of contents.
pub fn bytes_eq(a: &[u8], b: &[u8]) -> (r: bool)
    ensures
        r == (a@ == b@),
{
    if a.len() != b.len() {
        return false;
    }
    let mut i: usize = 0;
    while i < a.len()
        invariant
            0 <= i <= a@.len(),
            a@.len() == b@.len(),
            forall|j: int| 0 <= j < i ==> a@[j] == b@[j],
        decreases a@.len() - i,
    {
        if a[i] != b[i] {
            return false;
        }
        i += 1;
    }
    proof {
        assert(a@ =~= b@);
    }
    true
}

impl SpriteAtlas {
    /// A registry with no entries.
    pub fn new() -> (r: SpriteAtlas)
        ensures
            r@ == Map::<Seq<u8>, SpriteData>::empty(),
    {
        SpriteAtlas { entries: Vec::new() }
    }

    /// File `sprite` under `name`, overwriting any earlier entry.
    fn put(&mut self, name: Vec<u8>, sprite: SpriteData)
        ensures
            final(self)@ == old(self)@.insert(name@, sprite),
    {
        self.entries.push(AtlasEntry { name, sprite });
        proof {
            assert(self.entries@.drop_last() =~= old(self).entries@);
        }
    }

    /// Look a sprite up by name: the latest entry under exactly that name,
    /// or nothing when the name was never filed.
    pub fn lookup(&self, name: &[u8]) -> (r: Option<SpriteData>)
        ensures
            r == (if self@.contains_key(name@) {
                Some(self@[name@])
            } else {
                None::<SpriteData>
            }),
    {
        let mut i: usize = self.entries.len();
        while i > 0
            invariant
                0 <= i <= self.entries@.len(),
                forall|j: int|
                    i <= j < self.entries@.len() ==> (#[trigger] self.entries@[j]).name@ != name@,
            decreases i,
        {
            i = i - 1;
            let hit = bytes_eq(self.entries[i].name.as_slice(), name);
            if hit {
                proof {
                    lemma_entries_map_found(self.entries@, name@, i as int);
                }
                return Some(self.entries[i].sprite);
            }
        }
        proof {
            lemma_entries_map_no_match(self.entries@, name@, 0);
            assert(self.entries@.take(0) =~= Seq::<AtlasEntry>::empty());
        }
        None
    }
}

/// The spec-level face of a stored diagnostic.
pub open spec fn diag_view(d: Diagnostic) -> (int, Seq<u8>, LineIssue) {
    (d.line as int, d.content@, d.kind)
}

/// Parse a description text into a registry, skipping malformed lines with
/// one diagnostic each: wrong field counts first, then the first numeric
/// field that fails, in the order `x`, `y`, `width`, `height`.
pub fn parse_spritesheet_data(text: &[u8]) -> (r: (SpriteAtlas, Vec<Diagnostic>))
    ensures
        r.0@ == atlas_map(lines_of(text@)),
        r.1@.map_values(|d: Diagnostic| diag_view(d)) == diags_of(lines_of(text@)),
{
    let ghost lns = lines_of(text@);
    if text.len() == 0 {
        let atlas = SpriteAtlas::new();
        let diags: Vec<Diagnostic> = Vec::new();
        proof {
            assert(diags@.map_values(|d: Diagnostic| diag_view(d)) =~~= diags_of(lns));
        }
        return (atlas, diags);
    }
    let mut raw_lines = split_bytes(text, NEWLINE);
    let ghost raw0 = raw_lines@;
    let ghost base = if text@.last() == NEWLINE {
        split_on(text@.drop_last(), NEWLINE)
    } else {
        split_on(text@, NEWLINE)
    };
    if text[text.len() - 1] == NEWLINE {
        proof {
            lemma_split_on_trailing(text@, NEWLINE);
            lemma_split_on_len(text@.drop_last(), NEWLINE);
        }
        raw_lines.pop();
    }
    proof {
        assert(lns == strip_all(base));
        assert(lns.len() == base.len());
        assert(raw_lines@.len() == base.len());
        assert forall|j: int| 0 <= j < lns.len() implies lns[j] == strip_cr(
            (#[trigger] raw_lines@[j])@,
        ) by {
            if text@.last() == NEWLINE {
                assert(raw_lines@[j] == raw0[j]);
                assert(raw0[j]@ == split_on(text@, NEWLINE)[j]);
                assert(split_on(text@, NEWLINE)[j] == base.push(Seq::<u8>::empty())[j]);
                assert(raw_lines@[j]@ == base[j]);
            } else {
                assert(raw_lines@[j]@ == base[j]);
            }
            assert(lns[j] == strip_cr(base[j]));
        }
    }
    let mut atlas = SpriteAtlas::new();
    let mut diags: Vec<Diagnostic> = Vec::new();
    let mut idx: usize = 0;
    proof {
        assert(lns.take(0) =~= Seq::<Seq<u8>>::empty());
    }
    while idx < raw_lines.len()
        invariant
            0 <= idx <= raw_lines@.len(),
            lns == lines_of(text@),
            lns.len() == raw_lines@.len(),
            forall|j: int| 0 <= j < lns.len() ==> lns[j] == strip_cr((#[trigger] raw_lines@[j])@),
            atlas@ == atlas_map(lns.take(idx as int)),
            diags@.map_values(|d: Diagnostic| diag_view(d)) == diags_of(lns.take(idx as int)),
        decreases raw_lines@.len() - idx,
    {
        let ghost l = lns[idx as int];
        proof {
            assert(lns.take(idx + 1).drop_last() =~= lns.take(idx as int));
            assert(lns.take(idx + 1).last() == l);
        }
        let line = &raw_lines[idx];
        let n = if line.len() > 0 && line[line.len() - 1] == CARRIAGE_RETURN {
            line.len() - 1
        } else {
            line.len()
        };
        let stripped: &[u8] = &line[0..n];
        proof {
            assert(stripped@ =~= strip_cr(line@));
            assert(stripped@ == l);
        }
        let fields = split_bytes(stripped, SPACE);
        proof {
            lemma_split_on_len(l, SPACE);
            assert(fields@.len() == line_fields(l).len());
            assert(forall|j: int|
                0 <= j < fields@.len() ==> (#[trigger] fields@[j])@ == line_fields(l)[j]);
        }
        if fields.len() != 5 {
            let content = copy_bytes(stripped);
            diags.push(Diagnostic { line: idx, content, kind: LineIssue::WrongFieldCount });
            proof {
                assert(line_sprite(l) is None);
                assert(line_issue(l) == Some(LineIssue::WrongFieldCount));
                assert(diags@.map_values(|d: Diagnostic| diag_view(d)) =~~= diags_of(
                    lns.take(idx + 1),
                ));
            }
        } else {
            let x_opt = parse_u32_field(fields[1].as_slice());
            let y_opt = parse_u32_field(fields[2].as_slice());
            let w_opt = parse_u32_field(fields[3].as_slice());
            let h_opt = parse_u32_field(fields[4].as_slice());
            proof {
                assert(fields@[1]@ == line_fields(l)[1]);
                assert(fields@[2]@ == line_fields(l)[2]);
                assert(fields@[3]@ == line_fields(l)[3]);
                assert(fields@[4]@ == line_fields(l)[4]);
            }
            if x_opt.is_none() {
                let content = copy_bytes(stripped);
                diags.push(Diagnostic { line: idx, content, kind: LineIssue::BadX });
                proof {
                    assert(line_sprite(l) is None);
                    assert(line_issue(l) == Some(LineIssue::BadX));
                    assert(diags@.map_values(|d: Diagnostic| diag_view(d)) =~~= diags_of(
                        lns.take(idx + 1),
                    ));
                }
            } else if y_opt.is_none() {
                let content = copy_bytes(stripped);
                diags.push(Diagnostic { line: idx, content, kind: LineIssue::BadY });
                proof {
                    assert(line_sprite(l) is None);
                    assert(line_issue(l) == Some(LineIssue::BadY));
                    assert(diags@.map_values(|d: Diagnostic| diag_view(d)) =~~= diags_of(
                        lns.take(idx + 1),
                    ));
                }
            } else if w_opt.is_none() {
                let content = copy_bytes(stripped);
                diags.push(Diagnostic { line: idx, content, kind: LineIssue::BadWidth });
                proof {
                    assert(line_sprite(l) is None);
                    assert(line_issue(l) == Some(LineIssue::BadWidth));
                    assert(diags@.map_values(|d: Diagnostic| diag_view(d)) =~~= diags_of(
                        lns.take(idx + 1),
                    ));
                }
            } else if h_opt.is_none() {
                let content = copy_bytes(stripped);
                diags.push(Diagnostic { line: idx, content, kind: LineIssue::BadHeight });
                proof {
                    assert(line_sprite(l) is None);
                    assert(line_issue(l) == Some(LineIssue::BadHeight));
                    assert(diags@.map_values(|d: Diagnostic| diag_view(d)) =~~= diags_of(
                        lns.take(idx + 1),
                    ));
                }
            } else {
                let name = copy_bytes(fields[0].as_slice());
                let sprite = SpriteData {
                    x: x_opt.unwrap(),
                    y: y_opt.unwrap(),
                    width: w_opt.unwrap(),
                    height: h_opt.unwrap(),
                };
                proof {
                    assert(line_issue(l) is None);
                    assert(line_sprite(l) == Some(sprite));
                    assert(name@ == line_name(l));
                }
                atlas.put(name, sprite);
            }
        }
        idx += 1;
    }
    proof {
        assert(lns.take(idx as int) =~= lns);
    }
    (atlas, diags)
}

/// A well-formed line's entry is retrievable by exactly its name with
/// exactly its field values, as long as no later line files the same name.
pub proof fn lemma_valid_line_retrievable(lines: Seq<Seq<u8>>, i: int)
    requires
        0 <= i < lines.len(),
        line_sprite(lines[i]) is Some,
        forall|j: int| i < j < lines.len() ==> line_name(#[trigger] lines[j]) != line_name(lines[i]),
    ensures
        atlas_map(lines).contains_key(line_name(lines[i])),
        atlas_map(lines)[line_name(lines[i])] == line_sprite(lines[i]).unwrap(),
    decreases lines.len(),
{
    if i == lines.len() - 1 {
        assert(lines.last() == lines[i]);
    } else {
        let front = lines.drop_last();
        assert(line_name(lines.last()) != line_name(lines[i]));
        lemma_valid_line_retrievable(front, i);
    }
}

/// A line that yields no entry (a wrong field count, or a numeric field
/// that fails to parse) leaves the parsed mapping exactly as if the line
/// were absent: it files nothing and cannot disturb other lines' entries.
pub proof fn lemma_invalid_line_no_effect(lines: Seq<Seq<u8>>, i: int)
    requires
        0 <= i < lines.len(),
        line_sprite(lines[i]) is None,
    ensures
        atlas_map(lines) == atlas_map(lines.remove(i)),
    decreases lines.len(),
{
    if i == lines.len() - 1 {
        assert(lines.remove(i) =~= lines.drop_last());
    } else {
        let front = lines.drop_last();
        lemma_invalid_line_no_effect(front, i);
        assert(lines.remove(i).drop_last() =~= front.remove(i));
        assert(lines.remove(i).last() == lines.last());
        assert(lines.remove(i).len() > 0);
    }
}

} // verus!
