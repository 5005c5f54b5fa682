use vstd::prelude::*;

verus! {

/// Sets of characters that the library trims, splits or tests on.
#[derive(Clone, Copy, PartialEq, Eq)]
pub enum CharSet {
    /// Characters with the Unicode `White_Space` property (`char::is_whitespace`).
    Whitespace,
    /// `/`
    Slash,
    /// `\n`
    Newline,
    /// `-`
    Dash,
    /// `#`
    Hash,
    /// `⟨` and `⟩`, the brackets of an escaped record key.
    Brackets,
    /// `⟨`, `⟩`, `"`, `'` and `` ` ``.
    RecordQuotes,
    /// `⟨`, `⟩`, `"`, `'`, `` ` `` and the space.
    RecordQuotesSpace,
    /// `` ` ``, `⟨`, `⟩`, `"` and the space.
    IdQuotes,
    /// ASCII punctuation (`char::is_ascii_punctuation`).
    AsciiPunctuation,
    /// Characters that are neither alphanumeric nor `_`.
    WordSeparator,
    /// ASCII letters and digits and `-`.
    SlugChar,
    /// ASCII letters and digits, `-` and `_`.
    IdChar,
    /// Lowercase ASCII letters, digits and `-`.
    LowerSlugChar,
}

/// `char::is_whitespace`: the characters with the Unicode `White_Space` property.
pub open spec fn is_whitespace(c: char) -> bool {
    ||| ('\u{9}' <= c && c <= '\u{d}')
    ||| c == ' '
    ||| c == '\u{85}'
    ||| c == '\u{a0}'
    ||| c == '\u{1680}'
    ||| ('\u{2000}' <= c && c <= '\u{200a}')
    ||| c == '\u{2028}'
    ||| c == '\u{2029}'
    ||| c == '\u{202f}'
    ||| c == '\u{205f}'
    ||| c == '\u{3000}'
}

/// `char::is_ascii_punctuation`.
pub open spec fn is_ascii_punctuation(c: char) -> bool {
    ||| ('!' <= c && c <= '/')
    ||| (':' <= c && c <= '@')
    ||| ('[' <= c && c <= '`')
    ||| ('{' <= c && c <= '~')
}

/// `char::is_ascii_alphanumeric`.
pub open spec fn is_ascii_alphanumeric(c: char) -> bool {
    ||| ('0' <= c && c <= '9')
    ||| ('a' <= c && c <= 'z')
    ||| ('A' <= c && c <= 'Z')
}

/// What `char::is_alphanumeric` returns: whether the character has the Unicode
/// `Alphabetic` property or a numeric general category.
pub uninterp spec fn unicode_alphanumeric(c: char) -> bool;

/// What `str::to_lowercase` returns for a string.
pub uninterp spec fn unicode_lowercase(s: Seq<char>) -> Seq<char>;

/// `char::is_alphanumeric`.
#[verifier::external_body]
pub(crate) fn is_alphanumeric(c: char) -> (r: bool)
    ensures
        r == unicode_alphanumeric(c),
{
    c.is_alphanumeric()
}

/// `str::to_lowercase`: the Unicode lowercase of each character in turn;
/// every character lowercases to at least one, so only the empty string
/// lowercases to the empty string.
#[verifier::external_body]
pub(crate) fn to_lowercase(s: &str) -> (r: String)
    ensures
        r@ == unicode_lowercase(s@),
        r@.len() == 0 <==> s@.len() == 0,
{
    s.to_lowercase()
}

pub open spec fn in_set(set: CharSet, c: char) -> bool {
    match set {
        CharSet::Whitespace => is_whitespace(c),
        CharSet::Slash => c == '/',
        CharSet::Newline => c == '\n',
        CharSet::Dash => c == '-',
        CharSet::Hash => c == '#',
        CharSet::Brackets => c == '⟨' || c == '⟩',
        CharSet::RecordQuotes => c == '⟨' || c == '⟩' || c == '"' || c == '\'' || c == '`',
        CharSet::RecordQuotesSpace => c == '⟨' || c == '⟩' || c == '"' || c == '\'' || c == '`'
            || c == ' ',
        CharSet::IdQuotes => c == '`' || c == '⟨' || c == '⟩' || c == '"' || c == ' ',
        CharSet::AsciiPunctuation => is_ascii_punctuation(c),
        CharSet::WordSeparator => !unicode_alphanumeric(c) && c != '_',
        CharSet::SlugChar => is_ascii_alphanumeric(c) || c == '-',
        CharSet::IdChar => is_ascii_alphanumeric(c) || c == '-' || c == '_',
        CharSet::LowerSlugChar => ('a' <= c && c <= 'z') || ('0' <= c && c <= '9') || c == '-',
    }
}

pub fn set_contains(set: CharSet, c: char) -> (r: bool)
    ensures
        r == in_set(set, c),
{
    match set {
        CharSet::Whitespace => {
            ('\u{9}' <= c && c <= '\u{d}') || c == ' ' || c == '\u{85}' || c == '\u{a0}' || c
                == '\u{1680}' || ('\u{2000}' <= c && c <= '\u{200a}') || c == '\u{2028}' || c
                == '\u{2029}' || c == '\u{202f}' || c == '\u{205f}' || c == '\u{3000}'
        },
        CharSet::Slash => c == '/',
        CharSet::Newline => c == '\n',
        CharSet::Dash => c == '-',
        CharSet::Hash => c == '#',
        CharSet::Brackets => c == '⟨' || c == '⟩',
        CharSet::RecordQuotes => c == '⟨' || c == '⟩' || c == '"' || c == '\'' || c == '`',
        CharSet::RecordQuotesSpace => c == '⟨' || c == '⟩' || c == '"' || c == '\'' || c == '`'
            || c == ' ',
        CharSet::IdQuotes => c == '`' || c == '⟨' || c == '⟩' || c == '"' || c == ' ',
        CharSet::AsciiPunctuation => {
            ('!' <= c && c <= '/') || (':' <= c && c <= '@') || ('[' <= c && c <= '`') || ('{'
                <= c && c <= '~')
        },
        CharSet::WordSeparator => !is_alphanumeric(c) && c != '_',
        CharSet::SlugChar => ('0' <= c && c <= '9') || ('a' <= c && c <= 'z') || ('A' <= c && c
            <= 'Z') || c == '-',
        CharSet::IdChar => ('0' <= c && c <= '9') || ('a' <= c && c <= 'z') || ('A' <= c && c
            <= 'Z') || c == '-' || c == '_',
        CharSet::LowerSlugChar => ('a' <= c && c <= 'z') || ('0' <= c && c <= '9') || c == '-',
    }
}

// ---------------------------------------------------------------------------
// Specifications of the string operations
// ---------------------------------------------------------------------------

/// `str::trim_start_matches` with a set of characters.
pub open spec fn trim_start_set(s: Seq<char>, set: CharSet) -> Seq<char>
    decreases s.len(),
{
    if s.len() > 0 && in_set(set, s[0]) {
        trim_start_set(s.drop_first(), set)
    } else {
        s
    }
}

/// `str::trim_end_matches` with a set of characters.
pub open spec fn trim_end_set(s: Seq<char>, set: CharSet) -> Seq<char>
    decreases s.len(),
{
    if s.len() > 0 && in_set(set, s.last()) {
        trim_end_set(s.drop_last(), set)
    } else {
        s
    }
}

/// `str::trim_matches` with a set of characters.
pub open spec fn trim_set(s: Seq<char>, set: CharSet) -> Seq<char> {
    trim_end_set(trim_start_set(s, set), set)
}

/// `str::trim`.
pub open spec fn trim(s: Seq<char>) -> Seq<char> {
    trim_set(s, CharSet::Whitespace)
}

/// `str::contains` with a string pattern: `p` stands somewhere in `s`.
pub open spec fn contains_str(s: Seq<char>, p: Seq<char>) -> bool {
    exists|i: int| 0 <= i && i + p.len() <= s.len() && #[trigger] s.subrange(i, i + p.len()) == p
}

pub open spec fn has_prefix(s: Seq<char>, p: Seq<char>) -> bool {
    p.len() <= s.len() && s.take(p.len() as int) == p
}

pub open spec fn has_suffix(s: Seq<char>, p: Seq<char>) -> bool {
    p.len() <= s.len() && s.skip(s.len() - p.len()) == p
}

/// `str::strip_prefix`.
pub open spec fn strip_prefix(s: Seq<char>, p: Seq<char>) -> Option<Seq<char>> {
    if has_prefix(s, p) {
        Some(s.skip(p.len() as int))
    } else {
        None
    }
}

/// `str::trim_start_matches` with a string pattern.
pub open spec fn trim_start_str(s: Seq<char>, p: Seq<char>) -> Seq<char>
    decreases s.len(),
{
    if p.len() > 0 && has_prefix(s, p) {
        trim_start_str(s.skip(p.len() as int), p)
    } else {
        s
    }
}

/// `str::trim_end_matches` with a string pattern.
pub open spec fn trim_end_str(s: Seq<char>, p: Seq<char>) -> Seq<char>
    decreases s.len(),
{
    if p.len() > 0 && has_suffix(s, p) {
        trim_end_str(s.take(s.len() - p.len()), p)
    } else {
        s
    }
}

/// `str::split` on the characters of a set: the pieces between separators, empty
/// ones included; there is always at least one piece.
pub open spec fn split_set(s: Seq<char>, set: CharSet) -> Seq<Seq<char>>
    decreases s.len(),
{
    if s.len() == 0 {
        seq![Seq::<char>::empty()]
    } else {
        let r = split_set(s.drop_last(), set);
        if in_set(set, s.last()) {
            r.push(Seq::<char>::empty())
        } else {
            r.update(r.len() - 1, r.last().push(s.last()))
        }
    }
}

/// `join` of pieces with a separator.
pub open spec fn join(pieces: Seq<Seq<char>>, sep: Seq<char>) -> Seq<char>
    decreases pieces.len(),
{
    if pieces.len() == 0 {
        Seq::empty()
    } else if pieces.len() == 1 {
        pieces[0]
    } else {
        join(pieces.drop_last(), sep) + sep + pieces.last()
    }
}

/// The pieces that are not empty, in order.
pub open spec fn nonempty_only(pieces: Seq<Seq<char>>) -> Seq<Seq<char>>
    decreases pieces.len(),
{
    if pieces.len() == 0 {
        Seq::empty()
    } else {
        let r = nonempty_only(pieces.drop_last());
        if pieces.last().len() > 0 {
            r.push(pieces.last())
        } else {
            r
        }
    }
}

/// The views of a vector of character vectors.
pub open spec fn seqs(v: Seq<Vec<char>>) -> Seq<Seq<char>> {
    Seq::new(v.len(), |i: int| v[i]@)
}

/// The views of a list of string pairs.
pub open spec fn pairs_view(v: Seq<(String, String)>) -> Seq<(Seq<char>, Seq<char>)> {
    Seq::new(v.len(), |i: int| (v[i].0@, v[i].1@))
}

/// The views of a vector of strings.
pub open spec fn strings(v: Seq<String>) -> Seq<Seq<char>> {
    Seq::new(v.len(), |i: int| v[i]@)
}

// ---------------------------------------------------------------------------
// Lemmas
// ---------------------------------------------------------------------------

pub proof fn lemma_split_nonempty(s: Seq<char>, set: CharSet)
    ensures
        split_set(s, set).len() >= 1,
    decreases s.len(),
{
    if s.len() > 0 {
        lemma_split_nonempty(s.drop_last(), set);
    }
}

pub proof fn lemma_trim_start_prefix(s: Seq<char>, set: CharSet)
    ensures
        trim_start_set(s, set).len() <= s.len(),
        trim_start_set(s, set) == s.skip(s.len() - trim_start_set(s, set).len()),
        trim_start_set(s, set).len() > 0 ==> !in_set(set, trim_start_set(s, set)[0]),
    decreases s.len(),
{
    if s.len() > 0 && in_set(set, s[0]) {
        lemma_trim_start_prefix(s.drop_first(), set);
        let t = trim_start_set(s.drop_first(), set);
        assert(s.drop_first().skip(s.drop_first().len() - t.len()) =~= s.skip(s.len() - t.len()));
    } else {
        assert(s.skip(0) =~= s);
    }
}

pub proof fn lemma_trim_end_prefix(s: Seq<char>, set: CharSet)
    ensures
        trim_end_set(s, set).len() <= s.len(),
        trim_end_set(s, set) == s.take(trim_end_set(s, set).len() as int),
        trim_end_set(s, set).len() > 0 ==> !in_set(set, trim_end_set(s, set).last()),
    decreases s.len(),
{
    if s.len() > 0 && in_set(set, s.last()) {
        lemma_trim_end_prefix(s.drop_last(), set);
        let t = trim_end_set(s.drop_last(), set);
        assert(s.drop_last().take(t.len() as int) =~= s.take(t.len() as int));
    } else {
        assert(s.take(s.len() as int) =~= s);
    }
}

/// What `trim_set` leaves neither starts nor ends with a character of the set.
pub proof fn lemma_trim_set_ends(s: Seq<char>, set: CharSet)
    ensures
        trim_set(s, set).len() > 0 ==> !in_set(set, trim_set(s, set)[0]) && !in_set(
            set,
            trim_set(s, set).last(),
        ),
{
    lemma_trim_start_prefix(s, set);
    let u = trim_start_set(s, set);
    lemma_trim_end_prefix(u, set);
    let t = trim_end_set(u, set);
    if t.len() > 0 {
        assert(t[0] == u.take(t.len() as int)[0]);
    }
}

/// A text that neither starts nor ends with a character of the set is left as
/// it is by `trim_set`.
pub proof fn lemma_trim_set_keeps(s: Seq<char>, set: CharSet)
    requires
        s.len() > 0 ==> !in_set(set, s[0]) && !in_set(set, s.last()),
    ensures
        trim_set(s, set) == s,
{
}

/// No piece holds a character of the set.
pub open spec fn pieces_outside(pieces: Seq<Seq<char>>, set: CharSet) -> bool {
    forall|i: int, j: int|
        0 <= i < pieces.len() && 0 <= j < pieces[i].len() ==> !in_set(set, #[trigger] pieces[i][j])
}

/// Characters of the set never stand at either end of `s`, nor two in a row.
pub open spec fn separated_once(s: Seq<char>, set: CharSet) -> bool {
    &&& s.len() > 0 ==> !in_set(set, s[0]) && !in_set(set, s.last())
    &&& forall|i: int| 0 <= i < s.len() - 1 ==> !(in_set(set, #[trigger] s[i]) && in_set(set, s[i + 1]))
}

/// The pieces of a split hold no separator.
pub proof fn lemma_split_pieces_outside(s: Seq<char>, set: CharSet)
    ensures
        pieces_outside(split_set(s, set), set),
    decreases s.len(),
{
    if s.len() > 0 {
        lemma_split_pieces_outside(s.drop_last(), set);
        lemma_split_nonempty(s.drop_last(), set);
        let r = split_set(s.drop_last(), set);
        if !in_set(set, s.last()) {
            let u = r.update(r.len() - 1, r.last().push(s.last()));
            assert forall|i: int, j: int| 0 <= i < u.len() && 0 <= j < u[i].len() implies !in_set(
                set,
                #[trigger] u[i][j],
            ) by {
                if i == r.len() - 1 && j == r.last().len() {
                } else if i == r.len() - 1 {
                    assert(u[i][j] == r[i][j]);
                } else {
                    assert(u[i] == r[i]);
                }
            }
        } else {
            let u = r.push(Seq::<char>::empty());
            assert forall|i: int, j: int| 0 <= i < u.len() && 0 <= j < u[i].len() implies !in_set(
                set,
                #[trigger] u[i][j],
            ) by {
                assert(u[i] == r[i]);
            }
        }
    }
}

/// The non-empty pieces keep what holds of every piece.
pub proof fn lemma_nonempty_only_outside(pieces: Seq<Seq<char>>, set: CharSet)
    requires
        pieces_outside(pieces, set),
    ensures
        pieces_outside(nonempty_only(pieces), set),
        forall|i: int| 0 <= i < nonempty_only(pieces).len() ==> #[trigger] nonempty_only(pieces)[i].len() > 0,
    decreases pieces.len(),
{
    if pieces.len() > 0 {
        let t = pieces.drop_last();
        assert(pieces_outside(t, set)) by {
            assert forall|i: int, j: int| 0 <= i < t.len() && 0 <= j < t[i].len() implies !in_set(
                set,
                #[trigger] t[i][j],
            ) by {
                assert(t[i] == pieces[i]);
            }
        }
        lemma_nonempty_only_outside(t, set);
        let r = nonempty_only(t);
        if pieces.last().len() > 0 {
            let u = r.push(pieces.last());
            assert forall|i: int, j: int| 0 <= i < u.len() && 0 <= j < u[i].len() implies !in_set(
                set,
                #[trigger] u[i][j],
            ) by {
                if i < r.len() {
                    assert(u[i] == r[i]);
                } else {
                    assert(u[i] == pieces[pieces.len() - 1]);
                }
            }
            assert forall|i: int| 0 <= i < u.len() implies #[trigger] u[i].len() > 0 by {
                if i < r.len() {
                    assert(u[i] == r[i]);
                }
            }
        }
    }
}

/// Joining non-empty pieces that hold no separator with one separator
/// character gives a text in which the separator stands only alone and between
/// pieces.
pub proof fn lemma_join_separated_once(pieces: Seq<Seq<char>>, c: char, set: CharSet)
    requires
        in_set(set, c),
        pieces_outside(pieces, set),
        forall|i: int| 0 <= i < pieces.len() ==> #[trigger] pieces[i].len() > 0,
    ensures
        separated_once(join(pieces, seq![c]), set),
        pieces.len() > 0 ==> join(pieces, seq![c]).len() > 0,
    decreases pieces.len(),
{
    if pieces.len() == 1 {
        let p = pieces[0];
        assert(p.len() > 0);
        assert forall|i: int| 0 <= i < p.len() implies !in_set(set, #[trigger] p[i]) by {
            assert(pieces[0][i] == p[i]);
        }
    } else if pieces.len() > 1 {
        let t = pieces.drop_last();
        assert(pieces_outside(t, set)) by {
            assert forall|i: int, j: int| 0 <= i < t.len() && 0 <= j < t[i].len() implies !in_set(
                set,
                #[trigger] t[i][j],
            ) by {
                assert(t[i] == pieces[i]);
            }
        }
        assert forall|i: int| 0 <= i < t.len() implies #[trigger] t[i].len() > 0 by {
            assert(t[i] == pieces[i]);
        }
        lemma_join_separated_once(t, c, set);
        let a = join(t, seq![c]);
        let l = pieces.last();
        assert(l.len() > 0);
        assert forall|i: int| 0 <= i < l.len() implies !in_set(set, #[trigger] l[i]) by {
            assert(pieces[pieces.len() - 1][i] == l[i]);
        }
        let r = a + seq![c] + l;
        assert(join(pieces, seq![c]) == r);
        assert(r[0] == a[0]);
        assert(r.last() == l.last());
        assert forall|i: int| 0 <= i < r.len() - 1 implies !(in_set(set, #[trigger] r[i]) && in_set(
            set,
            r[i + 1],
        )) by {
            if i < a.len() - 1 {
                assert(r[i] == a[i] && r[i + 1] == a[i + 1]);
            } else if i == a.len() - 1 {
                assert(r[i] == a.last());
            } else if i == a.len() {
                assert(r[i + 1] == l[0]);
            } else {
                assert(r[i] == l[i - a.len() - 1]);
                assert(r[i + 1] == l[i + 1 - a.len() - 1]);
            }
        }
    }
}

/// A text without separators splits into itself alone.
pub proof fn lemma_split_no_separator(s: Seq<char>, set: CharSet)
    requires
        forall|i: int| 0 <= i < s.len() ==> !in_set(set, #[trigger] s[i]),
    ensures
        split_set(s, set) == seq![s],
    decreases s.len(),
{
    if s.len() > 0 {
        lemma_split_no_separator(s.drop_last(), set);
        assert(s.drop_last().push(s.last()) =~= s);
        assert(!in_set(set, s[s.len() - 1]));
        assert(seq![s.drop_last()].update(0, s.drop_last().push(s.last())) =~= seq![s]);
    } else {
        assert(s =~= Seq::<char>::empty());
    }
}

/// Text without separators after a text only lengthens its last piece.
pub proof fn lemma_split_append(x: Seq<char>, b: Seq<char>, set: CharSet)
    requires
        forall|i: int| 0 <= i < b.len() ==> !in_set(set, #[trigger] b[i]),
    ensures
        split_set(x + b, set) == split_set(x, set).update(
            split_set(x, set).len() - 1,
            split_set(x, set).last() + b,
        ),
        split_set(x + b, set).len() == split_set(x, set).len(),
    decreases b.len(),
{
    lemma_split_nonempty(x, set);
    let sx = split_set(x, set);
    if b.len() == 0 {
        assert(x + b =~= x);
        assert(sx.last() + b =~= sx.last());
        assert(sx.update(sx.len() - 1, sx.last()) =~= sx);
    } else {
        let bd = b.drop_last();
        assert forall|i: int| 0 <= i < bd.len() implies !in_set(set, #[trigger] bd[i]) by {
            assert(bd[i] == b[i]);
        }
        lemma_split_append(x, bd, set);
        assert((x + b).drop_last() =~= x + bd);
        assert((x + b).last() == b.last());
        assert(!in_set(set, b[b.len() - 1]));
        let r = split_set(x + bd, set);
        assert(r.last() == sx.last() + bd);
        assert((sx.last() + bd).push(b.last()) =~= sx.last() + b);
        assert(r.update(r.len() - 1, r.last().push(b.last())) =~= sx.update(
            sx.len() - 1,
            sx.last() + b,
        ));
    }
}

/// Two texts without separators, one separator between them, split into the
/// two texts.
pub proof fn lemma_split_two(a: Seq<char>, c: char, b: Seq<char>, set: CharSet)
    requires
        in_set(set, c),
        forall|i: int| 0 <= i < a.len() ==> !in_set(set, #[trigger] a[i]),
        forall|i: int| 0 <= i < b.len() ==> !in_set(set, #[trigger] b[i]),
    ensures
        split_set(a + seq![c] + b, set) == seq![a, b],
{
    lemma_split_no_separator(a, set);
    let ac = a.push(c);
    assert(ac.drop_last() =~= a);
    assert(split_set(ac, set) == seq![a].push(Seq::<char>::empty()));
    lemma_split_append(ac, b, set);
    assert(a + seq![c] + b =~= ac + b);
    assert(Seq::<char>::empty() + b =~= b);
    assert(seq![a].push(Seq::<char>::empty()).update(1, b) =~= seq![a, b]);
}

/// Trimming the end of `p + y` stops inside `y` when something of `y` stays,
/// or at the end of `p` when `p` ends in a character outside the set.
pub proof fn lemma_trim_end_set_append(p: Seq<char>, y: Seq<char>, set: CharSet)
    requires
        trim_end_set(y, set).len() > 0 || (p.len() > 0 && !in_set(set, p.last())),
    ensures
        trim_end_set(p + y, set) == p + trim_end_set(y, set),
    decreases y.len(),
{
    if y.len() == 0 {
        assert(p + y =~= p);
    } else {
        assert((p + y).last() == y.last());
        if in_set(set, y.last()) {
            assert((p + y).drop_last() =~= p + y.drop_last());
            lemma_trim_end_set_append(p, y.drop_last(), set);
        }
    }
}

/// When all of `y` is trimmed away, trimming the end of `p + y` trims into `p`.
pub proof fn lemma_trim_end_set_append_all(p: Seq<char>, y: Seq<char>, set: CharSet)
    requires
        trim_end_set(y, set).len() == 0,
    ensures
        trim_end_set(p + y, set) == trim_end_set(p, set),
    decreases y.len(),
{
    if y.len() == 0 {
        assert(p + y =~= p);
    } else {
        assert((p + y).last() == y.last());
        assert((p + y).drop_last() =~= p + y.drop_last());
        lemma_trim_end_set_append_all(p, y.drop_last(), set);
    }
}

/// A text made of characters of the set is trimmed away entirely.
pub proof fn lemma_trim_end_set_all_in(y: Seq<char>, set: CharSet)
    requires
        forall|i: int| 0 <= i < y.len() ==> in_set(set, #[trigger] y[i]),
    ensures
        trim_end_set(y, set).len() == 0,
    decreases y.len(),
{
    if y.len() > 0 {
        assert(in_set(set, y[y.len() - 1]));
        let d = y.drop_last();
        assert forall|i: int| 0 <= i < d.len() implies in_set(set, #[trigger] d[i]) by {
            assert(d[i] == y[i]);
        }
        lemma_trim_end_set_all_in(d, set);
    }
}

/// A leading run of characters of the set is trimmed away by `trim_start_set`.
pub proof fn lemma_trim_start_set_prepend(a: Seq<char>, v: Seq<char>, set: CharSet)
    requires
        forall|i: int| 0 <= i < a.len() ==> in_set(set, #[trigger] a[i]),
    ensures
        trim_start_set(a + v, set) == trim_start_set(v, set),
    decreases a.len(),
{
    if a.len() == 0 {
        assert(a + v =~= v);
    } else {
        assert((a + v)[0] == a[0]);
        assert((a + v).drop_first() =~= a.drop_first() + v);
        let d = a.drop_first();
        assert forall|i: int| 0 <= i < d.len() implies in_set(set, #[trigger] d[i]) by {
            assert(d[i] == a[i + 1]);
        }
        lemma_trim_start_set_prepend(d, v, set);
    }
}

/// Taking `.git` off the end of `p + y` stays inside `y` when `p` ends in a
/// character that `.git` does not hold.
pub proof fn lemma_trim_end_git_append(p: Seq<char>, y: Seq<char>)
    requires
        p.len() > 0,
        p.last() != '.' && p.last() != 'g' && p.last() != 'i' && p.last() != 't',
    ensures
        trim_end_str(p + y, ".git"@) == p + trim_end_str(y, ".git"@),
    decreases y.len(),
{
    reveal_strlit(".git");
    let g = ".git"@;
    let w = p + y;
    if has_suffix(y, g) {
        assert(w.skip(w.len() - 4) =~= y.skip(y.len() - 4));
        assert(w.take(w.len() - 4) =~= p + y.take(y.len() - 4));
        lemma_trim_end_git_append(p, y.take(y.len() - 4));
    } else {
        if has_suffix(w, g) {
            if y.len() >= 4 {
                assert(w.skip(w.len() - 4) =~= y.skip(y.len() - 4));
            } else {
                let k = 3 - y.len();
                assert(w.skip(w.len() - 4)[k] == w[w.len() - 1 - y.len()]);
                assert(w[w.len() - 1 - y.len()] == p.last());
                assert(g[k] == '.' || g[k] == 'g' || g[k] == 'i' || g[k] == 't');
            }
        }
    }
}

/// Every piece of whitespace in `s` is a plain space.
pub open spec fn only_space_whitespace(s: Seq<char>) -> bool {
    forall|i: int| 0 <= i < s.len() ==> (is_whitespace(#[trigger] s[i]) ==> s[i] == ' ')
}

/// Trimming keeps a text's characters, so it keeps `only_space_whitespace`.
pub proof fn lemma_trim_set_only_space_whitespace(s: Seq<char>, set: CharSet)
    requires
        only_space_whitespace(s),
    ensures
        only_space_whitespace(trim_set(s, set)),
{
    lemma_trim_start_prefix(s, set);
    let u = trim_start_set(s, set);
    lemma_trim_end_prefix(u, set);
    let t = trim_end_set(u, set);
    assert forall|i: int| 0 <= i < t.len() implies (is_whitespace(#[trigger] t[i]) ==> t[i] == ' ') by {
        assert(t[i] == u[i]);
        assert(u[i] == s[i + s.len() - u.len()]);
    }
}

// ---------------------------------------------------------------------------
// Executable operations on character vectors
// ---------------------------------------------------------------------------

/// Appends one character to a string (`String::push`).
#[verifier::external_body]
pub(crate) fn push_char(s: &mut String, c: char)
    ensures
        final(s)@ == old(s)@.push(c),
{
    s.push(c);
}

/// The characters of a string slice, in order.
pub fn chars_of(s: &str) -> (v: Vec<char>)
    ensures
        v@ == s@,
{
    let mut v: Vec<char> = Vec::new();
    for c in it: s.chars()
        invariant
            v@ == it.seq().take(it.index() as int),
    {
        v.push(c);
    }
    v
}

/// The string made of the given characters.
pub fn string_of(v: &Vec<char>) -> (s: String)
    ensures
        s@ == v@,
{
    let mut s = String::new();
    let n = v.len();
    for i in 0..n
        invariant
            n == v.len(),
            s@ == v@.take(i as int),
    {
        push_char(&mut s, v[i]);
        assert(v@.take(i as int).push(v@[i as int]) =~= v@.take(i + 1));
    }
    assert(v@.take(n as int) =~= v@);
    s
}

/// Appends the characters of `v` to `s`.
pub fn push_chars(s: &mut String, v: &Vec<char>)
    ensures
        final(s)@ == old(s)@ + v@,
{
    let ghost s0 = s@;
    let n = v.len();
    for i in 0..n
        invariant
            n == v.len(),
            s@ == s0 + v@.take(i as int),
    {
        push_char(s, v[i]);
        assert(s0 + v@.take(i as int).push(v@[i as int]) =~= s0 + v@.take(i + 1));
    }
    assert(v@.take(n as int) =~= v@);
}

/// Appends the characters of `b` to `a`.
pub fn extend_chars(a: &mut Vec<char>, b: &Vec<char>)
    ensures
        final(a)@ == old(a)@ + b@,
{
    let ghost a0 = a@;
    let n = b.len();
    for i in 0..n
        invariant
            n == b.len(),
            a@ == a0 + b@.take(i as int),
    {
        a.push(b[i]);
        assert(a0 + b@.take(i as int).push(b@[i as int]) =~= a0 + b@.take(i + 1));
    }
    assert(b@.take(n as int) =~= b@);
}

/// The characters of `v` from `lo` up to `hi`.
pub fn slice(v: &Vec<char>, lo: usize, hi: usize) -> (r: Vec<char>)
    requires
        lo <= hi <= v.len(),
    ensures
        r@ == v@.subrange(lo as int, hi as int),
{
    let mut r: Vec<char> = Vec::new();
    let mut i = lo;
    while i < hi
        invariant
            lo <= i <= hi <= v.len(),
            r@ == v@.subrange(lo as int, i as int),
        decreases hi - i,
    {
        r.push(v[i]);
        assert(v@.subrange(lo as int, i as int).push(v@[i as int]) =~= v@.subrange(
            lo as int,
            i + 1,
        ));
        i = i + 1;
    }
    r
}

/// Whether two character sequences are equal.
pub fn chars_eq(a: &Vec<char>, b: &Vec<char>) -> (r: bool)
    ensures
        r == (a@ == b@),
{
    if a.len() != b.len() {
        return false;
    }
    let n = a.len();
    for i in 0..n
        invariant
            n == a.len() == b.len(),
            forall|j: int| 0 <= j < i ==> a@[j] == b@[j],
    {
        if a[i] != b[i] {
            return false;
        }
    }
    assert(a@ =~= b@);
    true
}

/// Whether every character of `v` belongs to `set`.
pub fn all_in_set(v: &Vec<char>, set: CharSet) -> (r: bool)
    ensures
        r == (forall|j: int| 0 <= j < v@.len() ==> in_set(set, #[trigger] v@[j])),
{
    let n = v.len();
    for i in 0..n
        invariant
            n == v.len(),
            forall|j: int| 0 <= j < i ==> in_set(set, #[trigger] v@[j]),
    {
        if !set_contains(set, v[i]) {
            return false;
        }
    }
    true
}

pub fn trim_start_set_chars(v: &Vec<char>, set: CharSet) -> (r: Vec<char>)
    ensures
        r@ == trim_start_set(v@, set),
{
    let n = v.len();
    let mut i: usize = 0;
    assert(v@.skip(0) =~= v@);
    while i < n && set_contains(set, v[i])
        invariant
            i <= n == v.len(),
            trim_start_set(v@, set) == trim_start_set(v@.skip(i as int), set),
        decreases n - i,
    {
        assert(v@.skip(i as int).drop_first() =~= v@.skip(i + 1));
        i = i + 1;
    }
    let r = slice(v, i, n);
    assert(r@ =~= v@.skip(i as int));
    r
}

pub fn trim_end_set_chars(v: &Vec<char>, set: CharSet) -> (r: Vec<char>)
    ensures
        r@ == trim_end_set(v@, set),
{
    let mut j: usize = v.len();
    assert(v@.take(j as int) =~= v@);
    while j > 0 && set_contains(set, v[j - 1])
        invariant
            j <= v.len(),
            trim_end_set(v@, set) == trim_end_set(v@.take(j as int), set),
        decreases j,
    {
        assert(v@.take(j as int).drop_last() =~= v@.take(j - 1));
        j = j - 1;
    }
    let r = slice(v, 0, j);
    assert(r@ =~= v@.take(j as int));
    r
}

pub fn trim_set_chars(v: &Vec<char>, set: CharSet) -> (r: Vec<char>)
    ensures
        r@ == trim_set(v@, set),
{
    let a = trim_start_set_chars(v, set);
    trim_end_set_chars(&a, set)
}

pub fn trim_chars(v: &Vec<char>) -> (r: Vec<char>)
    ensures
        r@ == trim(v@),
{
    trim_set_chars(v, CharSet::Whitespace)
}

pub fn has_prefix_chars(v: &Vec<char>, p: &Vec<char>) -> (r: bool)
    ensures
        r == has_prefix(v@, p@),
{
    if p.len() > v.len() {
        return false;
    }
    let n = p.len();
    for i in 0..n
        invariant
            n == p.len() <= v.len(),
            forall|j: int| 0 <= j < i ==> v@[j] == p@[j],
    {
        if v[i] != p[i] {
            assert(v@.take(n as int)[i as int] != p@[i as int]);
            return false;
        }
    }
    assert(v@.take(n as int) =~= p@);
    true
}

pub fn has_suffix_chars(v: &Vec<char>, p: &Vec<char>) -> (r: bool)
    ensures
        r == has_suffix(v@, p@),
{
    if p.len() > v.len() {
        return false;
    }
    let n = p.len();
    let off = v.len() - n;
    for i in 0..n
        invariant
            n == p.len() <= v.len(),
            off == v.len() - n,
            forall|j: int| 0 <= j < i ==> v@[off + j] == p@[j],
    {
        if v[off + i] != p[i] {
            assert(v@.skip(off as int)[i as int] != p@[i as int]);
            return false;
        }
    }
    assert(v@.skip(off as int) =~= p@);
    true
}

pub fn strip_prefix_chars(v: &Vec<char>, p: &Vec<char>) -> (r: Option<Vec<char>>)
    ensures
        match r {
            Some(t) => strip_prefix(v@, p@) == Some(t@),
            None => strip_prefix(v@, p@) is None,
        },
{
    if has_prefix_chars(v, p) {
        let t = slice(v, p.len(), v.len());
        assert(t@ =~= v@.skip(p@.len() as int));
        Some(t)
    } else {
        None
    }
}

pub fn trim_start_str_chars(v: &Vec<char>, p: &Vec<char>) -> (r: Vec<char>)
    ensures
        r@ == trim_start_str(v@, p@),
{
    if p.len() == 0 {
        return slice(v, 0, v.len());
    }
    let n = v.len();
    let mut cur = slice(v, 0, n);
    assert(cur@ =~= v@);
    while has_prefix_chars(&cur, p)
        invariant
            p@.len() > 0,
            trim_start_str(v@, p@) == trim_start_str(cur@, p@),
        decreases cur@.len(),
    {
        let k = cur.len();
        cur = slice(&cur, p.len(), k);
    }
    cur
}

pub fn trim_end_str_chars(v: &Vec<char>, p: &Vec<char>) -> (r: Vec<char>)
    ensures
        r@ == trim_end_str(v@, p@),
{
    if p.len() == 0 {
        return slice(v, 0, v.len());
    }
    let n = v.len();
    let mut cur = slice(v, 0, n);
    assert(cur@ =~= v@);
    while has_suffix_chars(&cur, p)
        invariant
            p@.len() > 0,
            trim_end_str(v@, p@) == trim_end_str(cur@, p@),
        decreases cur@.len(),
    {
        let k = cur.len();
        cur = slice(&cur, 0, k - p.len());
    }
    cur
}

pub fn split_set_chars(v: &Vec<char>, set: CharSet) -> (r: Vec<Vec<char>>)
    ensures
        seqs(r@) == split_set(v@, set),
        r@.len() >= 1,
{
    let n = v.len();
    let mut pieces: Vec<Vec<char>> = Vec::new();
    let mut cur: Vec<char> = Vec::new();
    assert(v@.take(0) =~= Seq::<char>::empty());
    assert(seqs(pieces@).push(cur@) =~= split_set(v@.take(0), set));
    for i in 0..n
        invariant
            n == v.len(),
            seqs(pieces@).push(cur@) == split_set(v@.take(i as int), set),
    {
        let c = v[i];
        let ghost prev = split_set(v@.take(i as int), set);
        assert(v@.take(i + 1).drop_last() =~= v@.take(i as int));
        assert(v@.take(i + 1).last() == c);
        if set_contains(set, c) {
            pieces.push(cur);
            cur = Vec::new();
            assert(seqs(pieces@).push(cur@) =~= prev.push(Seq::<char>::empty()));
        } else {
            let ghost old_pieces = pieces@;
            cur.push(c);
            assert(seqs(pieces@).push(cur@) =~= prev.update(prev.len() - 1, prev.last().push(c)));
        }
    }
    assert(v@.take(n as int) =~= v@);
    pieces.push(cur);
    assert(seqs(pieces@) =~= split_set(v@, set));
    pieces
}

pub fn join_chars(pieces: &Vec<Vec<char>>, sep: &Vec<char>) -> (r: Vec<char>)
    ensures
        r@ == join(seqs(pieces@), sep@),
{
    let n = pieces.len();
    let mut out: Vec<char> = Vec::new();
    for i in 0..n
        invariant
            n == pieces.len(),
            out@ == join(seqs(pieces@).take(i as int), sep@),
    {
        let ghost before = seqs(pieces@).take(i as int);
        assert(seqs(pieces@).take(i + 1).drop_last() =~= before);
        if i > 0 {
            extend_chars(&mut out, sep);
        }
        extend_chars(&mut out, &pieces[i]);
        assert(seqs(pieces@).take(i + 1).last() == pieces@[i as int]@);
        if i == 0 {
            assert(out@ =~= join(seqs(pieces@).take(i + 1), sep@));
        }
    }
    assert(seqs(pieces@).take(n as int) =~= seqs(pieces@));
    out
}

pub fn nonempty_chars(pieces: &Vec<Vec<char>>) -> (r: Vec<Vec<char>>)
    ensures
        seqs(r@) == nonempty_only(seqs(pieces@)),
{
    let n = pieces.len();
    let mut out: Vec<Vec<char>> = Vec::new();
    for i in 0..n
        invariant
            n == pieces.len(),
            seqs(out@) == nonempty_only(seqs(pieces@).take(i as int)),
    {
        assert(seqs(pieces@).take(i + 1).drop_last() =~= seqs(pieces@).take(i as int));
        assert(seqs(pieces@).take(i + 1).last() == pieces@[i as int]@);
        if pieces[i].len() > 0 {
            let p = slice(&pieces[i], 0, pieces[i].len());
            assert(p@ =~= pieces@[i as int]@);
            out.push(p);
            assert(seqs(out@) =~= nonempty_only(seqs(pieces@).take(i as int)).push(p@));
        }
    }
    assert(seqs(pieces@).take(n as int) =~= seqs(pieces@));
    out
}

/// Adds a piece at the end of a list of pieces.
pub fn push_piece(v: &mut Vec<Vec<char>>, x: Vec<char>)
    ensures
        seqs(final(v)@) == seqs(old(v)@).push(x@),
{
    let ghost before = seqs(v@);
    let ghost xv = x@;
    v.push(x);
    assert(seqs(v@) =~= before.push(xv));
}

/// Adds a string at the end of a list of strings.
pub fn push_string(v: &mut Vec<String>, x: String)
    ensures
        strings(final(v)@) == strings(old(v)@).push(x@),
{
    let ghost before = strings(v@);
    let ghost xv = x@;
    v.push(x);
    assert(strings(v@) =~= before.push(xv));
}

/// The strings made of each piece.
pub fn to_strings(v: &Vec<Vec<char>>) -> (r: Vec<String>)
    ensures
        strings(r@) == seqs(v@),
{
    let mut out: Vec<String> = Vec::new();
    let n = v.len();
    for i in 0..n
        invariant
            n == v.len(),
            strings(out@) == seqs(v@).take(i as int),
    {
        push_string(&mut out, string_of(&v[i]));
        assert(seqs(v@).take(i + 1) =~= seqs(v@).take(i as int).push(seqs(v@)[i as int]));
    }
    assert(seqs(v@).take(n as int) =~= seqs(v@));
    out
}

/// The characters of each string.
pub fn to_chars_all(v: &Vec<String>) -> (r: Vec<Vec<char>>)
    ensures
        seqs(r@) == strings(v@),
{
    let mut out: Vec<Vec<char>> = Vec::new();
    let n = v.len();
    for i in 0..n
        invariant
            n == v.len(),
            seqs(out@) == strings(v@).take(i as int),
    {
        push_piece(&mut out, chars_of(v[i].as_str()));
        assert(strings(v@).take(i + 1) =~= strings(v@).take(i as int).push(strings(v@)[i as int]));
    }
    assert(strings(v@).take(n as int) =~= strings(v@));
    out
}

/// Whether `p` stands somewhere in `s`.
pub fn contains_str_chars(s: &Vec<char>, p: &Vec<char>) -> (r: bool)
    ensures
        r == contains_str(s@, p@),
{
    if p.len() > s.len() {
        return false;
    }
    let n = s.len() - p.len();
    let mut i: usize = 0;
    loop
        invariant
            n == s.len() - p.len(),
            p.len() <= s.len(),
            i <= n,
            forall|j: int| 0 <= j < i ==> #[trigger] s@.subrange(j, j + p@.len()) != p@,
        decreases n - i,
    {
        let piece = slice(s, i, i + p.len());
        if chars_eq(&piece, p) {
            assert(s@.subrange(i as int, i + p@.len()) == p@);
            return true;
        }
        if i == n {
            proof {
                assert forall|j: int| 0 <= j && j + p@.len() <= s@.len() implies #[trigger] s@.subrange(
                    j,
                    j + p@.len(),
                ) != p@ by {
                    assert(j <= i);
                }
            }
            return false;
        }
        i = i + 1;
    }
}

} // verus!
