//! Text rules of the pipeline: trimming, label normalization and the
//! splitting of a document into paragraphs.

use vstd::prelude::*;
use crate::chars::{lowercase, to_chars, white_space};
use crate::models::{lemma_filter_all, views};

verus! {

/// A class of characters that can be stripped from the ends of a text.
#[derive(Clone, Copy, Debug, PartialEq)]
pub enum CharClass {
    /// White space.
    Whitespace,
    /// One given character.
    Exactly(char),
}

impl CharClass {
    /// Whether the character belongs to the class.
    pub open spec fn holds(self, c: char) -> bool {
        match self {
            CharClass::Whitespace => white_space(c),
            CharClass::Exactly(x) => c == x,
        }
    }

    /// Tests whether the character belongs to the class.
    pub fn test(self, c: char) -> (b: bool)
        ensures
            b == self.holds(c),
    {
        match self {
            CharClass::Whitespace => c.is_whitespace(),
            CharClass::Exactly(x) => c == x,
        }
    }
}

/// The text without its longest prefix of characters of the class.
pub open spec fn strip_start(s: Seq<char>, class: CharClass) -> Seq<char>
    decreases s.len(),
{
    if s.len() > 0 && class.holds(s[0]) {
        strip_start(s.drop_first(), class)
    } else {
        s
    }
}

/// The text without its longest suffix of characters of the class.
pub open spec fn strip_end(s: Seq<char>, class: CharClass) -> Seq<char>
    decreases s.len(),
{
    if s.len() > 0 && class.holds(s.last()) {
        strip_end(s.drop_last(), class)
    } else {
        s
    }
}

/// The text stripped at both ends.
pub open spec fn strip(s: Seq<char>, class: CharClass) -> Seq<char> {
    strip_end(strip_start(s, class), class)
}

/// The text without leading and trailing white space.
pub open spec fn trim_spec(s: Seq<char>) -> Seq<char> {
    strip(s, CharClass::Whitespace)
}

/// The key form of an entity label: apostrophes are dropped and every space
/// becomes an underscore.
pub open spec fn normalize_label_spec(s: Seq<char>) -> Seq<char> {
    s.filter(|c: char| c != '\'').map_values(|c: char| if c == ' ' { '_' } else { c })
}

/// The key form of a relation label: the key form of the label, in lowercase.
pub open spec fn normalize_relation_spec(s: Seq<char>) -> Seq<char> {
    lowercase(normalize_label_spec(s))
}

/// Whether a paragraph break, two line feeds, starts at position `i`.
pub open spec fn break_at(s: Seq<char>, i: int) -> bool {
    0 <= i && i + 1 < s.len() && s[i] == '\n' && s[i + 1] == '\n'
}

/// The pieces of `s` from position `start` on, where no break starts in
/// `start..i`. Breaks are taken from left to right and do not overlap.
pub open spec fn pieces_from(s: Seq<char>, start: int, i: int) -> Seq<Seq<char>>
    decreases s.len() - i,
{
    if i < 0 || i + 1 >= s.len() {
        seq![s.subrange(start, s.len() as int)]
    } else if break_at(s, i) {
        seq![s.subrange(start, i)] + pieces_from(s, i + 2, i + 2)
    } else {
        pieces_from(s, start, i + 1)
    }
}

/// The pieces of a text between its paragraph breaks. A text without a break
/// is one piece, the empty text included.
pub open spec fn pieces(s: Seq<char>) -> Seq<Seq<char>> {
    pieces_from(s, 0, 0)
}

/// The texts of a list, each trimmed.
pub open spec fn trimmed(ps: Seq<Seq<char>>) -> Seq<Seq<char>> {
    ps.map_values(|p: Seq<char>| trim_spec(p))
}

/// The paragraphs of a text: its pieces between paragraph breaks, each
/// trimmed.
pub open spec fn split_paragraphs_spec(s: Seq<char>) -> Seq<Seq<char>> {
    trimmed(pieces(s))
}

/// The texts of a list, put together with a paragraph break between each
/// two.
pub open spec fn joined(ps: Seq<Seq<char>>) -> Seq<char>
    decreases ps.len(),
{
    if ps.len() == 0 {
        Seq::empty()
    } else if ps.len() == 1 {
        ps[0]
    } else {
        ps[0] + seq!['\n', '\n'] + joined(ps.drop_first())
    }
}

/// Finds where the part of `v[from..to]` begins that is left when the
/// leading characters of the class are stripped.
pub(crate) fn leading(v: &Vec<char>, from: usize, to: usize, class: CharClass) -> (a: usize)
    requires
        from <= to <= v.len(),
    ensures
        from <= a <= to,
        strip_start(v@.subrange(from as int, to as int), class) == v@.subrange(a as int, to as int),
{
    let mut a: usize = from;
    while a < to && class.test(v[a])
        invariant
            from <= a <= to <= v.len(),
            strip_start(v@.subrange(from as int, to as int), class) == strip_start(
                v@.subrange(a as int, to as int),
                class,
            ),
        decreases to - a,
    {
        assert(v@.subrange(a as int, to as int).drop_first() == v@.subrange(a + 1, to as int));
        a += 1;
    }
    a
}

/// Finds where the part of `v[from..to]` ends that is left when the trailing
/// characters of the class are stripped.
pub(crate) fn trailing(v: &Vec<char>, from: usize, to: usize, class: CharClass) -> (b: usize)
    requires
        from <= to <= v.len(),
    ensures
        from <= b <= to,
        strip_end(v@.subrange(from as int, to as int), class) == v@.subrange(from as int, b as int),
{
    let mut b: usize = to;
    while b > from && class.test(v[b - 1])
        invariant
            from <= b <= to <= v.len(),
            strip_end(v@.subrange(from as int, to as int), class) == strip_end(
                v@.subrange(from as int, b as int),
                class,
            ),
        decreases b - from,
    {
        assert(v@.subrange(from as int, b as int).drop_last() == v@.subrange(from as int, b - 1));
        b -= 1;
    }
    b
}

/// The string made of the characters `v[from..to]`.
pub(crate) fn slice_to_string(v: &Vec<char>, from: usize, to: usize) -> (s: String)
    requires
        from <= to <= v.len(),
    ensures
        s@ == v@.subrange(from as int, to as int),
{
    let mut s: String = String::new();
    let mut i: usize = from;
    while i < to
        invariant
            from <= i <= to <= v.len(),
            s@ == v@.subrange(from as int, i as int),
        decreases to - i,
    {
        s.push(v[i]);
        i += 1;
    }
    s
}

/// The bounds of `v[from..to]` stripped at both ends.
pub(crate) fn strip_bounds(v: &Vec<char>, from: usize, to: usize, class: CharClass) -> (r: (usize, usize))
    requires
        from <= to <= v.len(),
    ensures
        from <= r.0 <= r.1 <= to,
        strip(v@.subrange(from as int, to as int), class) == v@.subrange(r.0 as int, r.1 as int),
{
    let a: usize = leading(v, from, to, class);
    let b: usize = trailing(v, a, to, class);
    (a, b)
}

/// Removes leading and trailing white space.
pub fn trim(s: &str) -> (r: String)
    ensures
        r@ == trim_spec(s@),
{
    let v: Vec<char> = to_chars(s);
    assert(v@.subrange(0, v.len() as int) == v@);
    let (a, b) = strip_bounds(&v, 0, v.len(), CharClass::Whitespace);
    slice_to_string(&v, a, b)
}

/// Brings an entity label into its key form.
pub fn normalize_label(label: &str) -> (r: String)
    ensures
        r@ == normalize_label_spec(label@),
{
    let v: Vec<char> = to_chars(label);
    let mut r: String = String::new();
    let mut i: usize = 0;
    while i < v.len()
        invariant
            i <= v.len(),
            v@ == label@,
            r@ == normalize_label_spec(v@.take(i as int)),
        decreases v.len() - i,
    {
        let c: char = v[i];
        proof {
            let keep = |c: char| c != '\'';
            let under = |c: char| if c == ' ' { '_' } else { c };
            let head = v@.take(i as int);
            assert(v@.take(i + 1) == head.push(c));
            Seq::lemma_filter_push(head, c, keep);
            if keep(c) {
                assert(head.filter(keep).push(c).map_values(under) == head.filter(keep).map_values(
                    under,
                ).push(under(c)));
            }
        }
        if c == '\'' {
        } else if c == ' ' {
            r.push('_');
        } else {
            r.push(c);
        }
        i += 1;
    }
    assert(v@.take(v.len() as int) == v@);
    r
}

/// Brings a relation label into its key form.
pub fn normalize_relation(label: &str) -> (r: String)
    ensures
        r@ == normalize_relation_spec(label@),
{
    let key: String = normalize_label(label);
    key.as_str().to_lowercase()
}

/// Splits a text into its paragraphs.
pub fn split_paragraphs(text: &str) -> (r: Vec<String>)
    ensures
        views(r@) == split_paragraphs_spec(text@),
{
    let v: Vec<char> = to_chars(text);
    let n: usize = v.len();
    let mut out: Vec<String> = Vec::new();
    let mut start: usize = 0;
    let mut i: usize = 0;
    assert(views(out@) + trimmed(pieces_from(v@, 0, 0)) == trimmed(pieces(v@)));
    while i < n && i + 1 < n
        invariant
            n == v.len(),
            v@ == text@,
            start <= i <= n,
            split_paragraphs_spec(v@) == views(out@) + trimmed(
                pieces_from(v@, start as int, i as int),
            ),
        decreases n - i,
    {
        if v[i] == '\n' && v[i + 1] == '\n' {
            let (a, b) = strip_bounds(&v, start, i, CharClass::Whitespace);
            let piece: String = slice_to_string(&v, a, b);
            proof {
                let rest = pieces_from(v@, i + 2, i + 2);
                assert(views(out@.push(piece)) == views(out@).push(piece@));
                assert(trimmed(seq![v@.subrange(start as int, i as int)] + rest) == seq![piece@]
                    + trimmed(rest));
                assert(views(out@).push(piece@) + trimmed(rest) == views(out@) + (seq![piece@]
                    + trimmed(rest)));
            }
            out.push(piece);
            start = i + 2;
            i = i + 2;
        } else {
            i = i + 1;
        }
    }
    let (a, b) = strip_bounds(&v, start, n, CharClass::Whitespace);
    let piece: String = slice_to_string(&v, a, b);
    proof {
        assert(views(out@.push(piece)) == views(out@).push(piece@));
        assert(trimmed(seq![v@.subrange(start as int, n as int)]) == seq![piece@]);
        assert(views(out@).push(piece@) == views(out@) + seq![piece@]);
    }
    out.push(piece);
    out
}

/// A text falls into one piece at least, and no piece holds a paragraph
/// break.
pub proof fn lemma_pieces_hold_no_break(s: Seq<char>, start: int, i: int)
    requires
        0 <= start <= i <= s.len(),
        forall|j: int| start <= j < i ==> !break_at(s, j),
    ensures
        pieces_from(s, start, i).len() >= 1,
        forall|k: int, x: int|
            0 <= k < pieces_from(s, start, i).len() ==> !#[trigger] break_at(
                pieces_from(s, start, i)[k],
                x,
            ),
    decreases s.len() - i,
{
    let ps = pieces_from(s, start, i);
    if i + 1 >= s.len() {
        let piece = s.subrange(start, s.len() as int);
        assert forall|k: int, x: int| 0 <= k < ps.len() implies !#[trigger] break_at(ps[k], x) by {
            if break_at(piece, x) {
                assert(piece[x] == s[start + x] && piece[x + 1] == s[start + x + 1]);
                assert(break_at(s, start + x));
            }
        }
    } else if break_at(s, i) {
        let piece = s.subrange(start, i);
        let rest = pieces_from(s, i + 2, i + 2);
        lemma_pieces_hold_no_break(s, i + 2, i + 2);
        assert forall|k: int, x: int| 0 <= k < ps.len() implies !#[trigger] break_at(ps[k], x) by {
            if k == 0 {
                if break_at(piece, x) {
                    assert(piece[x] == s[start + x] && piece[x + 1] == s[start + x + 1]);
                    assert(break_at(s, start + x));
                }
            } else {
                assert(ps[k] == rest[k - 1]);
            }
        }
    } else {
        lemma_pieces_hold_no_break(s, start, i + 1);
    }
}

/// The pieces of a text, put together again with the breaks between them,
/// are the text.
pub proof fn lemma_pieces_join(s: Seq<char>, start: int, i: int)
    requires
        0 <= start <= i <= s.len(),
    ensures
        joined(pieces_from(s, start, i)) == s.subrange(start, s.len() as int),
    decreases s.len() - i,
{
    if i + 1 >= s.len() {
    } else if break_at(s, i) {
        let piece = s.subrange(start, i);
        let rest = pieces_from(s, i + 2, i + 2);
        let ps = seq![piece] + rest;
        lemma_pieces_join(s, i + 2, i + 2);
        lemma_pieces_hold_no_break(s, i + 2, i + 2);
        assert(ps[0] == piece);
        assert(ps.drop_first() == rest);
        assert(piece + seq!['\n', '\n'] + s.subrange(i + 2, s.len() as int) == s.subrange(
            start,
            s.len() as int,
        ));
    } else {
        lemma_pieces_join(s, start, i + 1);
    }
}

/// Splitting loses nothing but the breaks: the pieces of a text, joined by
/// breaks, are the text; there is one piece at least; and no piece holds a
/// break.
pub proof fn lemma_pieces(s: Seq<char>)
    ensures
        joined(pieces(s)) == s,
        pieces(s).len() >= 1,
        split_paragraphs_spec(s).len() == pieces(s).len(),
        forall|k: int, x: int| 0 <= k < pieces(s).len() ==> !#[trigger] break_at(pieces(s)[k], x),
{
    lemma_pieces_join(s, 0, 0);
    lemma_pieces_hold_no_break(s, 0, 0);
    assert(s.subrange(0, s.len() as int) == s);
}

/// The key form of a label is a key form already: to normalize it again
/// changes nothing.
pub proof fn lemma_normalize_label_idempotent(s: Seq<char>)
    ensures
        normalize_label_spec(normalize_label_spec(s)) == normalize_label_spec(s),
        forall|i: int|
            0 <= i < normalize_label_spec(s).len() ==> (#[trigger] normalize_label_spec(s)[i])
                != ' ' && normalize_label_spec(s)[i] != '\'',
{
    let keep = |c: char| c != '\'';
    let under = |c: char| if c == ' ' { '_' } else { c };
    let kept = s.filter(keep);
    let key = normalize_label_spec(s);
    assert forall|i: int| 0 <= i < key.len() implies (#[trigger] key[i]) != ' ' && key[i]
        != '\'' by {
        s.lemma_filter_pred(keep, i);
        assert(key[i] == under(kept[i]));
    }
    lemma_filter_all(key, keep);
    assert(key.map_values(under) =~= key);
}

/// What is left of a text that was stripped begins and ends with a character
/// outside the class, unless it is empty; to strip it again changes nothing.
pub proof fn lemma_strip_is_clean(s: Seq<char>, class: CharClass)
    ensures
        strip(s, class).len() > 0 ==> !class.holds(strip(s, class)[0]) && !class.holds(
            strip(s, class).last(),
        ),
        strip(strip(s, class), class) == strip(s, class),
        strip(s, class).len() <= s.len(),
{
    let a = strip_start(s, class);
    let r = strip_end(a, class);
    lemma_strip_start(s, class);
    lemma_strip_end(a, class);
    if r.len() > 0 {
        let n = choose|n: int| 0 <= n <= a.len() && r == a.subrange(0, n);
        assert(r[0] == a[0]);
    }
}

/// What is left when the leading characters of a class are stripped is the
/// end of the text, and does not begin with a character of the class.
pub proof fn lemma_strip_start(s: Seq<char>, class: CharClass)
    ensures
        exists|n: int| 0 <= n <= s.len() && strip_start(s, class) == #[trigger] s.subrange(
            n,
            s.len() as int,
        ),
        strip_start(s, class).len() > 0 ==> !class.holds(strip_start(s, class)[0]),
    decreases s.len(),
{
    if s.len() > 0 && class.holds(s[0]) {
        let t = s.drop_first();
        lemma_strip_start(t, class);
        let n = choose|n: int| 0 <= n <= t.len() && strip_start(t, class) == t.subrange(
            n,
            t.len() as int,
        );
        assert(t.subrange(n, t.len() as int) == s.subrange(n + 1, s.len() as int));
    } else {
        assert(s == s.subrange(0, s.len() as int));
    }
}

/// What is left when the trailing characters of a class are stripped is the
/// beginning of the text, and does not end with a character of the class.
pub proof fn lemma_strip_end(s: Seq<char>, class: CharClass)
    ensures
        exists|n: int| 0 <= n <= s.len() && strip_end(s, class) == #[trigger] s.subrange(0, n),
        strip_end(s, class).len() > 0 ==> !class.holds(strip_end(s, class).last()),
    decreases s.len(),
{
    if s.len() > 0 && class.holds(s.last()) {
        let t = s.drop_last();
        lemma_strip_end(t, class);
        let n = choose|n: int| 0 <= n <= t.len() && strip_end(t, class) == t.subrange(0, n);
        assert(t.subrange(0, n) == s.subrange(0, n));
    } else {
        assert(s == s.subrange(0, s.len() as int));
    }
}

} // verus!
