use vstd::prelude::*;

use crate::text::{
    chars_eq, chars_of, extend_chars, join, join_chars, nonempty_chars, nonempty_only, push_chars,
    push_piece, push_string, seqs, slice, split_set, split_set_chars, string_of, trim, trim_chars, trim_set, trim_set_chars,
    trim_start_set, trim_start_set_chars, trim_start_str, trim_start_str_chars, CharSet,
};

verus! {

// ---------------------------------------------------------------------------
// Paging
// ---------------------------------------------------------------------------

pub open spec fn page_value(page: Option<i64>) -> int {
    let p = match page {
        Some(p) => p as int,
        None => 1,
    };
    if p < 1 {
        1
    } else {
        p
    }
}

pub open spec fn per_page_value(per_page: Option<i64>) -> int {
    let p = match per_page {
        Some(p) => p as int,
        None => 20,
    };
    if p < 1 {
        1
    } else if p > 100 {
        100
    } else {
        p
    }
}

/// Whether the offset of the requested page fits in an `i64`.
pub fn pagination_fits(page: Option<i64>, per_page: Option<i64>) -> (r: bool)
    ensures
        r == ((page_value(page) - 1) * per_page_value(per_page) <= i64::MAX),
{
    let p: i64 = match page {
        Some(p) => p,
        None => 1,
    };
    let p: i64 = if p < 1 {
        1
    } else {
        p
    };
    let pp: i64 = match per_page {
        Some(x) => x,
        None => 20,
    };
    let pp: i64 = if pp < 1 {
        1
    } else if pp > 100 {
        100
    } else {
        pp
    };
    let fits = (p - 1) <= i64::MAX / pp;
    assert(fits == ((p - 1) * pp <= i64::MAX)) by (nonlinear_arith)
        requires
            p >= 1,
            1 <= pp <= 100,
            fits == ((p - 1) <= i64::MAX / pp),
    ;
    fits
}

/// The page (at least 1, default 1), the page size (1 to 100, default 20) and
/// the offset of the page's first item.
pub fn normalize_pagination(page: Option<i64>, per_page: Option<i64>) -> (r: (i64, i64, i64))
    requires
        (page_value(page) - 1) * per_page_value(per_page) <= i64::MAX,
    ensures
        r.0 == page_value(page),
        r.1 == per_page_value(per_page),
        r.2 == (page_value(page) - 1) * per_page_value(per_page),
{
    let p: i64 = match page {
        Some(p) => p,
        None => 1,
    };
    let p: i64 = if p < 1 {
        1
    } else {
        p
    };
    let pp: i64 = match per_page {
        Some(x) => x,
        None => 20,
    };
    let pp: i64 = if pp < 1 {
        1
    } else if pp > 100 {
        100
    } else {
        pp
    };
    assert(0 <= (p - 1) * pp) by (nonlinear_arith)
        requires
            p >= 1,
            pp >= 1,
    ;
    let offset = (p - 1) * pp;
    (p, pp, offset)
}

// ---------------------------------------------------------------------------
// Text helpers
// ---------------------------------------------------------------------------

/// The first `n` characters, followed by `…` when something was cut off.
pub open spec fn truncated(s: Seq<char>, n: nat) -> Seq<char> {
    if s.len() > n {
        s.take(n as int).push('…')
    } else {
        s
    }
}

/// The first `max_chars` characters of `input`, and `…` when it is longer.
pub fn truncate_chars(input: &str, max_chars: usize) -> (r: String)
    ensures
        r@ == truncated(input@, max_chars as nat),
{
    let c = chars_of(input);
    string_of(&truncate_vec(&c, max_chars))
}

fn truncate_vec(c: &Vec<char>, max_chars: usize) -> (r: Vec<char>)
    ensures
        r@ == truncated(c@, max_chars as nat),
{
    if c.len() > max_chars {
        let mut t = slice(c, 0, max_chars);
        t.push('…');
        t
    } else {
        let t = slice(c, 0, c.len());
        assert(t@ =~= c@);
        t
    }
}

/// A Markdown line without its surrounding whitespace, leading `#`s and list
/// markers (`- `, `* `).
pub open spec fn clean_line(line: Seq<char>) -> Seq<char> {
    trim(trim_start_str(trim_start_str(trim_start_set(trim(line), CharSet::Hash), "- "@), "* "@))
}

pub open spec fn clean_lines(lines: Seq<Seq<char>>) -> Seq<Seq<char>> {
    Seq::new(lines.len(), |i: int| clean_line(lines[i]))
}

/// The text of a Markdown document: its cleaned, non-empty lines, one per line.
pub open spec fn normalized_markdown(content: Seq<char>) -> Seq<char> {
    join(nonempty_only(clean_lines(split_set(content, CharSet::Newline))), "\n"@)
}

fn clean_line_chars(line: &Vec<char>) -> (r: Vec<char>)
    ensures
        r@ == clean_line(line@),
{
    let a = trim_chars(line);
    let b = trim_start_set_chars(&a, CharSet::Hash);
    let c = trim_start_str_chars(&b, &chars_of("- "));
    let d = trim_start_str_chars(&c, &chars_of("* "));
    trim_chars(&d)
}

fn normalize_markdown_chars(content: &Vec<char>) -> (r: Vec<char>)
    ensures
        r@ == normalized_markdown(content@),
{
    let lines = split_set_chars(content, CharSet::Newline);
    let mut cleaned: Vec<Vec<char>> = Vec::new();
    let n = lines.len();
    for i in 0..n
        invariant
            n == lines.len(),
            seqs(cleaned@) == clean_lines(seqs(lines@)).take(i as int),
    {
        push_piece(&mut cleaned, clean_line_chars(&lines[i]));
        assert(clean_lines(seqs(lines@)).take(i + 1) =~= clean_lines(seqs(lines@)).take(i as int).push(clean_lines(seqs(lines@))[i as int]));
    }
    assert(clean_lines(seqs(lines@)).take(n as int) =~= clean_lines(seqs(lines@)));
    let kept = nonempty_chars(&cleaned);
    join_chars(&kept, &chars_of("\n"))
}

/// The text of a Markdown document, one cleaned non-empty line per line.
pub fn normalize_markdown_text(content: &str) -> (r: String)
    ensures
        r@ == normalized_markdown(content@),
{
    string_of(&normalize_markdown_chars(&chars_of(content)))
}

pub open spec fn trimmed_all(lines: Seq<Seq<char>>) -> Seq<Seq<char>> {
    Seq::new(lines.len(), |i: int| trim(lines[i]))
}

/// The paragraphs of a text: its trimmed, non-empty lines.
pub open spec fn paragraphs_of(content: Seq<char>) -> Seq<Seq<char>> {
    nonempty_only(trimmed_all(split_set(content, CharSet::Newline)))
}

fn paragraphs_chars(content: &Vec<char>) -> (r: Vec<Vec<char>>)
    ensures
        seqs(r@) == paragraphs_of(content@),
{
    let lines = split_set_chars(content, CharSet::Newline);
    let mut trimmed: Vec<Vec<char>> = Vec::new();
    let n = lines.len();
    for i in 0..n
        invariant
            n == lines.len(),
            seqs(trimmed@) == trimmed_all(seqs(lines@)).take(i as int),
    {
        push_piece(&mut trimmed, trim_chars(&lines[i]));
        assert(trimmed_all(seqs(lines@)).take(i + 1) =~= trimmed_all(seqs(lines@)).take(i as int).push(trimmed_all(seqs(lines@))[i as int]));
    }
    assert(trimmed_all(seqs(lines@)).take(n as int) =~= trimmed_all(seqs(lines@)));
    nonempty_chars(&trimmed)
}

/// The paragraphs of a text: its trimmed, non-empty lines.
pub fn markdown_paragraphs(content: &str) -> (r: Vec<String>)
    ensures
        crate::text::strings(r@) == paragraphs_of(content@),
{
    crate::text::to_strings(&paragraphs_chars(&chars_of(content)))
}

pub open spec fn bullet_lines(items: Seq<Seq<char>>) -> Seq<Seq<char>> {
    Seq::new(items.len(), |i: int| "- "@ + truncated(items[i], 120))
}

/// A Markdown list of the items (each cut to 120 characters), or a note that
/// there are none.
pub open spec fn bullets(items: Seq<Seq<char>>) -> Seq<char> {
    if items.len() == 0 {
        "- 暂无可提取要点。"@
    } else {
        join(bullet_lines(items), "\n"@)
    }
}

fn bullets_chars(items: &Vec<Vec<char>>) -> (r: Vec<char>)
    ensures
        r@ == bullets(seqs(items@)),
{
    if items.len() == 0 {
        return chars_of("- 暂无可提取要点。");
    }
    let mut lines: Vec<Vec<char>> = Vec::new();
    let n = items.len();
    for i in 0..n
        invariant
            n == items.len(),
            seqs(lines@) == bullet_lines(seqs(items@)).take(i as int),
    {
        let mut line = chars_of("- ");
        extend_chars(&mut line, &truncate_vec(&items[i], 120));
        push_piece(&mut lines, line);
        assert(bullet_lines(seqs(items@)).take(i + 1) =~= bullet_lines(seqs(items@)).take(i as int).push(bullet_lines(seqs(items@))[i as int]));
    }
    assert(bullet_lines(seqs(items@)).take(n as int) =~= bullet_lines(seqs(items@)));
    join_chars(&lines, &chars_of("\n"))
}

/// A Markdown list of the items (each cut to 120 characters), or a note that
/// there are none.
pub fn markdown_bullets(items: &[String]) -> (r: String)
    ensures
        r@ == bullets(crate::text::strings(items@)),
{
    let mut v: Vec<String> = Vec::new();
    let n = items.len();
    for i in 0..n
        invariant
            n == items@.len(),
            v@ == items@.take(i as int),
    {
        v.push(items[i].clone());
        assert(v@ =~= items@.take(i + 1));
    }
    assert(items@.take(n as int) =~= items@);
    let c = crate::text::to_chars_all(&v);
    string_of(&bullets_chars(&c))
}

pub open spec fn topic_or(title: Seq<char>, fallback: Seq<char>) -> Seq<char> {
    if title.len() == 0 {
        fallback
    } else {
        title
    }
}

pub open spec fn short_items(items: Seq<Seq<char>>) -> Seq<Seq<char>> {
    Seq::new(items.len(), |i: int| truncated(items[i], 36))
}

/// A one-line outline of a topic: what to add when there are no points, else
/// the first three points (each cut to 36 characters).
pub open spec fn overview(title: Seq<char>, items: Seq<Seq<char>>) -> Seq<char> {
    if items.len() == 0 {
        "围绕「"@ + topic_or(title, "当前主题"@) + "」补充背景、目标、步骤和结果。"@
    } else {
        "围绕「"@ + topic_or(title, "当前主题"@) + "」重组内容，突出："@ + join(
            short_items(items.take(if items.len() < 3 { items.len() as int } else { 3 })),
            "；"@,
        )
    }
}

fn topic_chars(title: &Vec<char>, fallback: &str) -> (r: Vec<char>)
    ensures
        r@ == topic_or(title@, fallback@),
{
    if title.len() == 0 {
        chars_of(fallback)
    } else {
        slice_all(title)
    }
}

fn slice_all(v: &Vec<char>) -> (r: Vec<char>)
    ensures
        r@ == v@,
{
    let r = slice(v, 0, v.len());
    assert(r@ =~= v@);
    r
}

fn overview_chars(title: &Vec<char>, items: &Vec<Vec<char>>) -> (r: Vec<char>)
    ensures
        r@ == overview(title@, seqs(items@)),
{
    let mut out = chars_of("围绕「");
    extend_chars(&mut out, &topic_chars(title, "当前主题"));
    if items.len() == 0 {
        extend_chars(&mut out, &chars_of("」补充背景、目标、步骤和结果。"));
        return out;
    }
    extend_chars(&mut out, &chars_of("」重组内容，突出："));
    let k: usize = if items.len() < 3 {
        items.len()
    } else {
        3
    };
    let ghost taken = seqs(items@).take(k as int);
    let mut shorts: Vec<Vec<char>> = Vec::new();
    for i in 0..k
        invariant
            k <= items.len(),
            taken == seqs(items@).take(k as int),
            seqs(shorts@) == short_items(taken).take(i as int),
    {
        push_piece(&mut shorts, truncate_vec(&items[i], 36));
        assert(taken[i as int] == seqs(items@)[i as int]);
        assert(short_items(taken).take(i + 1) =~= short_items(taken).take(i as int).push(short_items(taken)[i as int]));
    }
    assert(short_items(taken).take(k as int) =~= short_items(taken));
    extend_chars(&mut out, &join_chars(&shorts, &chars_of("；")));
    out
}

/// A one-line outline of a topic: what to add when there are no points, else
/// the first three points (each cut to 36 characters).
pub fn heading_overview(title: &str, items: &[String]) -> (r: String)
    ensures
        r@ == overview(title@, crate::text::strings(items@)),
{
    let mut v: Vec<String> = Vec::new();
    let n = items.len();
    for i in 0..n
        invariant
            n == items@.len(),
            v@ == items@.take(i as int),
    {
        v.push(items[i].clone());
        assert(v@ =~= items@.take(i + 1));
    }
    assert(items@.take(n as int) =~= items@);
    let c = crate::text::to_chars_all(&v);
    string_of(&overview_chars(&chars_of(title), &c))
}

/// The readability note on a text (cut to 360 characters).
pub open spec fn readability_note(text: Seq<char>) -> Seq<char> {
    truncated(text, 360) + "\n\n建议：压缩重复表达，补充明确结论，并将长句拆分为更容易阅读的短句。"@
}

fn readability_chars(text: &Vec<char>) -> (r: Vec<char>)
    ensures
        r@ == readability_note(text@),
{
    let mut out = truncate_vec(text, 360);
    extend_chars(&mut out, &chars_of("\n\n建议：压缩重复表达，补充明确结论，并将长句拆分为更容易阅读的短句。"));
    out
}

/// The readability note on a text (cut to 360 characters).
pub fn improve_readability(text: &str) -> (r: String)
    ensures
        r@ == readability_note(text@),
{
    string_of(&readability_chars(&chars_of(text)))
}

// ---------------------------------------------------------------------------
// Keywords
// ---------------------------------------------------------------------------

/// A candidate keyword: a word without the ASCII punctuation and whitespace around it.
pub open spec fn keyword_of(raw: Seq<char>) -> Seq<char> {
    trim(trim_set(raw, CharSet::AsciiPunctuation))
}

/// The keywords picked from the words, in order: those of 2 to 24 characters
/// not picked before, at most 8.
pub open spec fn collect_keywords(words: Seq<Seq<char>>, acc: Seq<Seq<char>>) -> Seq<Seq<char>>
    decreases words.len(),
{
    if words.len() == 0 || acc.len() >= 8 {
        acc
    } else {
        let t = keyword_of(words[0]);
        if t.len() < 2 || t.len() > 24 || acc.contains(t) {
            collect_keywords(words.drop_first(), acc)
        } else {
            collect_keywords(words.drop_first(), acc.push(t))
        }
    }
}

/// The words of a text: the pieces between characters that are neither
/// alphanumeric nor `_`.
pub open spec fn words_of(s: Seq<char>) -> Seq<Seq<char>> {
    split_set(s, CharSet::WordSeparator)
}

/// The keywords of a document: from the words of its title, then of its
/// content; `知识库` when there are none.
pub open spec fn keywords(title: Seq<char>, content: Seq<char>) -> Seq<Seq<char>> {
    let r = collect_keywords(words_of(title) + words_of(content), Seq::empty());
    if r.len() == 0 {
        seq!["知识库"@]
    } else {
        r
    }
}

proof fn lemma_collect_keywords_bounded(words: Seq<Seq<char>>, acc: Seq<Seq<char>>)
    requires
        acc.len() <= 8,
        acc.no_duplicates(),
        forall|i: int| 0 <= i < acc.len() ==> 2 <= #[trigger] acc[i].len() <= 24,
    ensures
        collect_keywords(words, acc).len() <= 8,
        collect_keywords(words, acc).len() >= acc.len(),
        collect_keywords(words, acc).no_duplicates(),
        forall|i: int|
            0 <= i < collect_keywords(words, acc).len() ==> 2 <= #[trigger] collect_keywords(
                words,
                acc,
            )[i].len() <= 24,
    decreases words.len(),
{
    if words.len() > 0 && acc.len() < 8 {
        let t = keyword_of(words[0]);
        if t.len() < 2 || t.len() > 24 || acc.contains(t) {
            lemma_collect_keywords_bounded(words.drop_first(), acc);
        } else {
            let a = acc.push(t);
            assert forall|i: int, j: int| 0 <= i < a.len() && 0 <= j < a.len() && i != j implies a[i]
                != a[j] by {
                if i < acc.len() && j < acc.len() {
                    assert(a[i] == acc[i] && a[j] == acc[j]);
                } else if i < acc.len() {
                    assert(a[i] == acc[i]);
                    assert(acc[i] != t);
                } else {
                    assert(a[j] == acc[j]);
                    assert(acc[j] != t);
                }
            }
            assert forall|i: int| 0 <= i < a.len() implies 2 <= #[trigger] a[i].len() <= 24 by {
                if i < acc.len() {
                    assert(a[i] == acc[i]);
                }
            }
            lemma_collect_keywords_bounded(words.drop_first(), a);
        }
    }
}

/// The tags suggested for a document: at least one and at most eight, no tag
/// twice, each of 2 to 24 characters.
pub proof fn law_keywords_bounded_and_distinct(title: Seq<char>, content: Seq<char>)
    ensures
        1 <= keywords(title, content).len() <= 8,
        keywords(title, content).no_duplicates(),
        forall|i: int|
            0 <= i < keywords(title, content).len() ==> 2 <= #[trigger] keywords(title, content)[i].len()
                <= 24,
{
    reveal_strlit("知识库");
    lemma_collect_keywords_bounded(words_of(title) + words_of(content), Seq::empty());
    let r = collect_keywords(words_of(title) + words_of(content), Seq::empty());
    if r.len() == 0 {
        assert(keywords(title, content) == seq!["知识库"@]);
        assert("知识库"@.len() == 3);
    }
}

proof fn lemma_collect_keywords_split(a: Seq<Seq<char>>, b: Seq<Seq<char>>, acc: Seq<Seq<char>>)
    ensures
        collect_keywords(a + b, acc) == collect_keywords(b, collect_keywords(a, acc)),
    decreases a.len(),
{
    if a.len() == 0 {
        assert(a + b =~= b);
    } else if acc.len() >= 8 {
        if b.len() > 0 {
            assert((a + b).len() > 0);
        }
    } else {
        assert((a + b)[0] == a[0]);
        assert((a + b).drop_first() =~= a.drop_first() + b);
        let t = keyword_of(a[0]);
        if t.len() < 2 || t.len() > 24 || acc.contains(t) {
            lemma_collect_keywords_split(a.drop_first(), b, acc);
        } else {
            lemma_collect_keywords_split(a.drop_first(), b, acc.push(t));
        }
    }
}

proof fn lemma_collect_keywords_keeps(words: Seq<Seq<char>>, acc: Seq<Seq<char>>, x: Seq<char>)
    requires
        acc.contains(x),
    ensures
        collect_keywords(words, acc).contains(x),
    decreases words.len(),
{
    if words.len() > 0 && acc.len() < 8 {
        let t = keyword_of(words[0]);
        if t.len() < 2 || t.len() > 24 || acc.contains(t) {
            lemma_collect_keywords_keeps(words.drop_first(), acc, x);
        } else {
            let i = choose|i: int| 0 <= i < acc.len() && acc[i] == x;
            assert(acc.push(t)[i] == x);
            lemma_collect_keywords_keeps(words.drop_first(), acc.push(t), x);
        }
    }
}

proof fn lemma_collect_keywords_sources(words: Seq<Seq<char>>, acc: Seq<Seq<char>>, x: Seq<char>)
    requires
        collect_keywords(words, acc).contains(x),
    ensures
        acc.contains(x) || exists|m: int| 0 <= m < words.len() && keyword_of(#[trigger] words[m]) == x,
    decreases words.len(),
{
    if words.len() > 0 && acc.len() < 8 {
        let t = keyword_of(words[0]);
        let rest = words.drop_first();
        if t.len() < 2 || t.len() > 24 || acc.contains(t) {
            lemma_collect_keywords_sources(rest, acc, x);
        } else {
            lemma_collect_keywords_sources(rest, acc.push(t), x);
            if acc.push(t).contains(x) && !acc.contains(x) {
                let i = choose|i: int| 0 <= i < acc.push(t).len() && acc.push(t)[i] == x;
                if i < acc.len() {
                    assert(acc[i] == x);
                }
                assert(keyword_of(words[0]) == x);
            }
        }
        if !acc.contains(x) && exists|m: int| 0 <= m < rest.len() && keyword_of(#[trigger] rest[m]) == x {
            let m = choose|m: int| 0 <= m < rest.len() && keyword_of(#[trigger] rest[m]) == x;
            assert(words[m + 1] == rest[m]);
        }
    }
}

proof fn lemma_fitting_word_kept(ws: Seq<Seq<char>>, i: int)
    requires
        0 <= i < ws.len(),
        2 <= keyword_of(ws[i]).len() <= 24,
    ensures
        ({
            let k = keyword_of(ws[i]);
            let full = collect_keywords(ws, Seq::empty());
            let before = collect_keywords(ws.take(i), Seq::empty());
            full.contains(k) || (before.len() >= 8 && full == before)
        }),
{
    let k = keyword_of(ws[i]);
    let a = ws.take(i);
    let b = ws.skip(i);
    let empty = Seq::<Seq<char>>::empty();
    assert(a + b =~= ws);
    lemma_collect_keywords_split(a, b, empty);
    let before = collect_keywords(a, empty);
    assert(b[0] == ws[i]);
    if before.len() < 8 {
        if before.contains(k) {
            lemma_collect_keywords_keeps(b, before, k);
        } else {
            assert(before.push(k)[before.len() as int] == k);
            lemma_collect_keywords_keeps(b.drop_first(), before.push(k), k);
        }
    }
}

/// No fitting word is dropped from the suggested tags while there is room:
/// a word of the title or the content whose keyword (the word without the
/// ASCII punctuation and whitespace around it) has 2 to 24 characters is
/// among the tags, unless eight tags were already taken, all of them from the
/// words before it.
pub proof fn law_keywords_keep_every_fitting_word(title: Seq<char>, content: Seq<char>, i: int)
    requires
        0 <= i < (words_of(title) + words_of(content)).len(),
    ensures
        ({
            let ws = words_of(title) + words_of(content);
            let k = keyword_of(ws[i]);
            let r = keywords(title, content);
            2 <= k.len() <= 24 ==> (r.contains(k) || (r.len() == 8 && forall|j: int|
                #![trigger r[j]]
                0 <= j < 8 ==> exists|m: int| 0 <= m < i && keyword_of(#[trigger] ws[m]) == r[j]))
        }),
{
    let ws = words_of(title) + words_of(content);
    let k = keyword_of(ws[i]);
    let a = ws.take(i);
    let empty = Seq::<Seq<char>>::empty();
    let before = collect_keywords(a, empty);
    let full = collect_keywords(ws, empty);
    lemma_collect_keywords_bounded(a, empty);
    lemma_collect_keywords_bounded(ws, empty);
    if 2 <= k.len() <= 24 {
        lemma_fitting_word_kept(ws, i);
        if !full.contains(k) {
            assert forall|j: int| #![trigger full[j]] 0 <= j < 8 implies exists|m: int|
                0 <= m < i && keyword_of(#[trigger] ws[m]) == full[j] by {
                assert(full.contains(full[j]));
                lemma_collect_keywords_sources(a, empty, full[j]);
                let m = choose|m: int| 0 <= m < a.len() && keyword_of(#[trigger] a[m]) == full[j];
                assert(a[m] == ws[m]);
            }
        }
        assert(full.len() > 0);
    }
}

/// Whether some word of the list gives a keyword of 2 to 24 characters.
pub open spec fn has_fitting_word(ws: Seq<Seq<char>>) -> bool {
    exists|m: int| 0 <= m < ws.len() && 2 <= keyword_of(#[trigger] ws[m]).len() <= 24
}

/// The suggested tags come from the document's words: when some word of the
/// title or the content gives a keyword of 2 to 24 characters, every tag is
/// the keyword of one of its words; when none does, the one tag is `知识库`.
pub proof fn law_keywords_come_from_words(title: Seq<char>, content: Seq<char>)
    ensures
        ({
            let ws = words_of(title) + words_of(content);
            let r = keywords(title, content);
            &&& has_fitting_word(ws) ==> forall|j: int|
                #![trigger r[j]]
                0 <= j < r.len() ==> exists|m: int| 0 <= m < ws.len() && keyword_of(#[trigger] ws[m]) == r[j]
            &&& !has_fitting_word(ws) ==> r == seq!["知识库"@]
        }),
{
    let ws = words_of(title) + words_of(content);
    let empty = Seq::<Seq<char>>::empty();
    let c = collect_keywords(ws, empty);
    lemma_collect_keywords_bounded(ws, empty);
    if has_fitting_word(ws) {
        let i = choose|m: int| 0 <= m < ws.len() && 2 <= keyword_of(#[trigger] ws[m]).len() <= 24;
        lemma_fitting_word_kept(ws, i);
        assert(c.len() > 0);
        assert forall|j: int| #![trigger c[j]] 0 <= j < c.len() implies exists|m: int|
            0 <= m < ws.len() && keyword_of(#[trigger] ws[m]) == c[j] by {
            assert(c.contains(c[j]));
            lemma_collect_keywords_sources(ws, empty, c[j]);
        }
    } else if c.len() > 0 {
        assert(c.contains(c[0]));
        lemma_collect_keywords_sources(ws, empty, c[0]);
        let m = choose|m: int| 0 <= m < ws.len() && keyword_of(#[trigger] ws[m]) == c[0];
        assert(2 <= c[0].len() <= 24);
        assert(2 <= keyword_of(ws[m]).len() <= 24);
    }
}

fn seq_contains_chars(v: &Vec<Vec<char>>, k: &Vec<char>) -> (r: bool)
    ensures
        r == seqs(v@).contains(k@),
{
    let n = v.len();
    for i in 0..n
        invariant
            n == v.len(),
            forall|j: int| 0 <= j < i ==> v@[j]@ != k@,
    {
        if chars_eq(&v[i], k) {
            assert(seqs(v@)[i as int] == k@);
            return true;
        }
    }
    assert forall|j: int| 0 <= j < seqs(v@).len() implies seqs(v@)[j] != k@ by {
        assert(seqs(v@)[j] == v@[j]@);
    }
    false
}

fn keywords_chars(title: &Vec<char>, content: &Vec<char>) -> (r: Vec<Vec<char>>)
    ensures
        seqs(r@) == keywords(title@, content@),
{
    let mut words = split_set_chars(title, CharSet::WordSeparator);
    let more = split_set_chars(content, CharSet::WordSeparator);
    let ghost all = seqs(words@) + seqs(more@);
    let m = more.len();
    for i in 0..m
        invariant
            m == more.len(),
            all == split_set(title@, CharSet::WordSeparator) + seqs(more@),
            seqs(words@) == split_set(title@, CharSet::WordSeparator) + seqs(more@).take(i as int),
    {
        let w = slice_all(&more[i]);
        push_piece(&mut words, w);
        assert(seqs(more@).take(i + 1) =~= seqs(more@).take(i as int).push(seqs(more@)[i as int]));
        assert(seqs(words@) =~= split_set(title@, CharSet::WordSeparator) + seqs(more@).take(i + 1));
    }
    assert(seqs(more@).take(m as int) =~= seqs(more@));
    assert(seqs(words@) == words_of(title@) + words_of(content@));
    let ghost ws = seqs(words@);
    let mut tags: Vec<Vec<char>> = Vec::new();
    assert(seqs(tags@) =~= Seq::<Seq<char>>::empty());
    let n = words.len();
    let mut i: usize = 0;
    assert(ws.skip(0) =~= ws);
    while i < n && tags.len() < 8
        invariant
            n == words.len(),
            ws == seqs(words@),
            i <= n,
            collect_keywords(ws.skip(i as int), seqs(tags@)) == collect_keywords(ws, Seq::empty()),
        decreases n - i,
    {
        assert(ws.skip(i as int)[0] == words@[i as int]@);
        assert(ws.skip(i as int).drop_first() =~= ws.skip(i + 1));
        let tag = trim_chars(&trim_set_chars(&words[i], CharSet::AsciiPunctuation));
        if tag.len() < 2 || tag.len() > 24 || seq_contains_chars(&tags, &tag) {
        } else {
            let ghost before = seqs(tags@);
            tags.push(tag);
            assert(seqs(tags@) =~= before.push(tag@));
        }
        i = i + 1;
    }
    if i == n {
        assert(ws.skip(i as int).len() == 0);
    }
    assert(collect_keywords(ws.skip(i as int), seqs(tags@)) == seqs(tags@));
    if tags.len() == 0 {
        let mut d: Vec<Vec<char>> = Vec::new();
        d.push(chars_of("知识库"));
        assert(seqs(d@) =~= seq!["知识库"@]);
        d
    } else {
        tags
    }
}

/// The keywords of a document: from the words of its title, then of its
/// content, without surrounding ASCII punctuation, of 2 to 24 characters,
/// each once, at most 8; `知识库` when there are none.
pub fn extract_keywords(title: &str, content: &str) -> (r: Vec<String>)
    ensures
        crate::text::strings(r@) == keywords(title@, content@),
{
    crate::text::to_strings(&keywords_chars(&chars_of(title), &chars_of(content)))
}

// ---------------------------------------------------------------------------
// Task results
// ---------------------------------------------------------------------------

/// The document an AI task works on.
#[derive(Debug, Clone)]
pub struct AiTaskDocument {
    pub title: String,
    pub content: String,
    pub target_language: Option<String>,
}

/// The result of an AI task: its format (`markdown` or `tags`), a title, the
/// text to show, and for `tags` the tags themselves.
#[derive(Debug, Clone)]
pub struct TaskResult {
    pub format: String,
    pub title: String,
    pub content: String,
    pub tags: Option<Vec<String>>,
}

pub open spec fn first_paragraph(paragraphs: Seq<Seq<char>>) -> Seq<char> {
    if paragraphs.len() > 0 {
        paragraphs[0]
    } else {
        "当前文档内容较少，建议先补充正文后再生成。"@
    }
}

pub open spec fn key_points(paragraphs: Seq<Seq<char>>) -> Seq<Seq<char>> {
    paragraphs.take(if paragraphs.len() < 4 { paragraphs.len() as int } else { 4 })
}

/// The title and Markdown text of a task of a type other than `extract_tags`,
/// for a document with the given (trimmed) title, (normalized) content, first
/// paragraph, key points and target language.
pub open spec fn markdown_task(
    task_type: Seq<char>,
    title: Seq<char>,
    content: Seq<char>,
    first: Seq<char>,
    points: Seq<Seq<char>>,
    language: Option<Seq<char>>,
) -> (Seq<char>, Seq<char>) {
    if task_type == "summarize"@ {
        (
            "文档摘要"@,
            "## 文档摘要\n\n"@ + truncated(first, 260) + "\n\n### 关键要点\n"@ + bullets(points),
        )
    } else if task_type == "outline"@ {
        (
            "优化大纲"@,
            "## AI 优化大纲\n\n"@ + overview(title, points)
                + "\n\n## 建议结构\n\n1. 背景与目标\n2. 核心内容\n3. 操作步骤\n4. 注意事项\n5. FAQ"@,
        )
    } else if task_type == "faq"@ {
        (
            "FAQ"@,
            "## FAQ\n\n### Q1："@ + topic_or(title, "这篇文档"@) + "主要讲什么？\n\n"@ + truncated(
                first,
                220,
            )
                + "\n\n### Q2：使用时应该优先关注什么？\n\n建议优先关注文档中的核心概念、操作步骤和权限边界。\n\n### Q3：后续可以如何完善？\n\n可以补充示例、异常处理、常见问题和相关链接。"@,
        )
    } else if task_type == "proofread"@ {
        (
            "审校建议"@,
            "## AI 审校检查\n\n### 可读性\n"@ + (if content.len() > 1200 {
                "正文较长，建议拆分为多个小节。"@
            } else {
                "正文长度适中。"@
            })
                + "\n\n### 建议\n- 检查标题层级是否连续。\n- 为关键步骤补充示例。\n- 避免同一段落承载过多信息。"@,
        )
    } else if task_type == "translate"@ {
        (
            "翻译草稿"@,
            "## 翻译草稿\n\n目标语言："@ + match language {
                Some(l) => l,
                None => "未指定"@,
            }
                + "\n\n当前内置执行器只生成任务结果占位。接入真实模型后会在这里返回完整译文。\n\n---\n\n"@
                + truncated(content, 800),
        )
    } else if task_type == "polish"@ {
        ("润色建议"@, "## 润色建议\n\n"@ + readability_note(first))
    } else if task_type == "expand"@ {
        (
            "扩写草稿"@,
            "## 扩写草稿\n\n"@ + first
                + "\n\n可以进一步补充背景、具体示例、操作路径和风险说明，让内容更完整。"@,
        )
    } else if task_type == "compress"@ {
        ("压缩版本"@, "## 压缩版本\n\n"@ + truncated(first, 160))
    } else if task_type == "dialog_to_doc"@ {
        (
            "对话转文档"@,
            "## 对话整理文档\n\n### 主题\n"@ + topic_or(title, "未命名主题"@) + "\n\n### 内容摘要\n"@
                + truncated(first, 220)
                + "\n\n### 后续行动\n- 明确结论。\n- 补充负责人和时间节点。\n- 整理为正式文档。"@,
        )
    } else {
        (
            "AI 任务结果"@,
            "## AI 任务结果\n\n任务类型："@ + task_type + "\n\n"@ + truncated(first, 260),
        )
    }
}

/// Whether `s` ends with `t`.
pub open spec fn ends_with(s: Seq<char>, t: Seq<char>) -> bool {
    t.len() <= s.len() && s.skip(s.len() - t.len()) == t
}

/// A translation draft carries the whole document and not a part of it: for
/// any document, the draft's text ends with all of its normalized content
/// when that has at most 800 characters, and otherwise with the first 800
/// characters of it followed by `…`.
pub proof fn law_translation_draft_holds_whole_content(
    title: Seq<char>,
    content: Seq<char>,
    language: Option<Seq<char>>,
)
    ensures
        ({
            let n = normalized_markdown(content);
            let p = paragraphs_of(n);
            let body = markdown_task(
                "translate"@,
                trim(title),
                n,
                first_paragraph(p),
                key_points(p),
                language,
            ).1;
            &&& n.len() <= 800 ==> ends_with(body, n)
            &&& n.len() > 800 ==> ends_with(body, n.take(800).push('…'))
        }),
{
    reveal_strlit("translate");
    reveal_strlit("summarize");
    reveal_strlit("outline");
    reveal_strlit("faq");
    reveal_strlit("proofread");
    let n = normalized_markdown(content);
    let p = paragraphs_of(n);
    let lang = match language {
        Some(l) => l,
        None => "未指定"@,
    };
    let head = "## 翻译草稿\n\n目标语言："@ + lang
        + "\n\n当前内置执行器只生成任务结果占位。接入真实模型后会在这里返回完整译文。\n\n---\n\n"@;
    let t = truncated(n, 800);
    assert("translate"@[0] != "summarize"@[0]);
    assert("translate"@[0] != "outline"@[0]);
    assert("translate"@[0] != "faq"@[0]);
    assert("translate"@[0] != "proofread"@[0]);
    let body = markdown_task("translate"@, trim(title), n, first_paragraph(p), key_points(p), language).1;
    assert(body == head + t);
    assert((head + t).skip(head.len() as int) =~= t);
}

fn lit_eq(v: &Vec<char>, lit: &str) -> (r: bool)
    ensures
        r == (v@ == lit@),
{
    chars_eq(v, &chars_of(lit))
}

fn cat(parts: &mut Vec<char>, lit: &str)
    ensures
        final(parts)@ == old(parts)@ + lit@,
{
    extend_chars(parts, &chars_of(lit));
}

fn markdown_task_chars(
    tt: &Vec<char>,
    title: &Vec<char>,
    content: &Vec<char>,
    first: &Vec<char>,
    points: &Vec<Vec<char>>,
    language: &Option<String>,
) -> (r: (Vec<char>, Vec<char>))
    ensures
        (r.0@, r.1@) == markdown_task(
            tt@,
            title@,
            content@,
            first@,
            seqs(points@),
            match language {
                Some(l) => Some(l@),
                None => None,
            },
        ),
{
    let mut body: Vec<char> = Vec::new();
    if lit_eq(tt, "summarize") {
        cat(&mut body, "## 文档摘要\n\n");
        extend_chars(&mut body, &truncate_vec(first, 260));
        cat(&mut body, "\n\n### 关键要点\n");
        extend_chars(&mut body, &bullets_chars(points));
        (chars_of("文档摘要"), body)
    } else if lit_eq(tt, "outline") {
        cat(&mut body, "## AI 优化大纲\n\n");
        extend_chars(&mut body, &overview_chars(title, points));
        cat(&mut body, "\n\n## 建议结构\n\n1. 背景与目标\n2. 核心内容\n3. 操作步骤\n4. 注意事项\n5. FAQ");
        (chars_of("优化大纲"), body)
    } else if lit_eq(tt, "faq") {
        cat(&mut body, "## FAQ\n\n### Q1：");
        extend_chars(&mut body, &topic_chars(title, "这篇文档"));
        cat(&mut body, "主要讲什么？\n\n");
        extend_chars(&mut body, &truncate_vec(first, 220));
        cat(
            &mut body,
            "\n\n### Q2：使用时应该优先关注什么？\n\n建议优先关注文档中的核心概念、操作步骤和权限边界。\n\n### Q3：后续可以如何完善？\n\n可以补充示例、异常处理、常见问题和相关链接。",
        );
        (chars_of("FAQ"), body)
    } else if lit_eq(tt, "proofread") {
        cat(&mut body, "## AI 审校检查\n\n### 可读性\n");
        if content.len() > 1200 {
            cat(&mut body, "正文较长，建议拆分为多个小节。");
        } else {
            cat(&mut body, "正文长度适中。");
        }
        cat(
            &mut body,
            "\n\n### 建议\n- 检查标题层级是否连续。\n- 为关键步骤补充示例。\n- 避免同一段落承载过多信息。",
        );
        (chars_of("审校建议"), body)
    } else if lit_eq(tt, "translate") {
        cat(&mut body, "## 翻译草稿\n\n目标语言：");
        match language {
            Some(l) => extend_chars(&mut body, &chars_of(l.as_str())),
            None => cat(&mut body, "未指定"),
        }
        cat(
            &mut body,
            "\n\n当前内置执行器只生成任务结果占位。接入真实模型后会在这里返回完整译文。\n\n---\n\n",
        );
        extend_chars(&mut body, &truncate_vec(content, 800));
        (chars_of("翻译草稿"), body)
    } else if lit_eq(tt, "polish") {
        cat(&mut body, "## 润色建议\n\n");
        extend_chars(&mut body, &readability_chars(first));
        (chars_of("润色建议"), body)
    } else if lit_eq(tt, "expand") {
        cat(&mut body, "## 扩写草稿\n\n");
        extend_chars(&mut body, first);
        cat(&mut body, "\n\n可以进一步补充背景、具体示例、操作路径和风险说明，让内容更完整。");
        (chars_of("扩写草稿"), body)
    } else if lit_eq(tt, "compress") {
        cat(&mut body, "## 压缩版本\n\n");
        extend_chars(&mut body, &truncate_vec(first, 160));
        (chars_of("压缩版本"), body)
    } else if lit_eq(tt, "dialog_to_doc") {
        cat(&mut body, "## 对话整理文档\n\n### 主题\n");
        extend_chars(&mut body, &topic_chars(title, "未命名主题"));
        cat(&mut body, "\n\n### 内容摘要\n");
        extend_chars(&mut body, &truncate_vec(first, 220));
        cat(&mut body, "\n\n### 后续行动\n- 明确结论。\n- 补充负责人和时间节点。\n- 整理为正式文档。");
        (chars_of("对话转文档"), body)
    } else {
        cat(&mut body, "## AI 任务结果\n\n任务类型：");
        extend_chars(&mut body, tt);
        cat(&mut body, "\n\n");
        extend_chars(&mut body, &truncate_vec(first, 260));
        (chars_of("AI 任务结果"), body)
    }
}

/// The result of an AI task on a document. The document's title is trimmed,
/// its content normalized (see `normalize_markdown_text`) and split into
/// paragraphs; `extract_tags` yields the document's keywords; every other type
/// yields a Markdown text built from the title, the first paragraph (or a note
/// that the document is short) and the first four paragraphs.
pub fn generate_task_result(task_type: &str, doc: &AiTaskDocument) -> (r: TaskResult)
    ensures
        ({
            let title = trim(doc.title@);
            let content = normalized_markdown(doc.content@);
            let paragraphs = paragraphs_of(content);
            if task_type@ == "extract_tags"@ {
                &&& r.format@ == "tags"@
                &&& r.title@ == "智能提取标签"@
                &&& r.tags is Some
                &&& crate::text::strings(r.tags->0@) == keywords(title, content)
                &&& r.content@ == "建议标签："@ + join(keywords(title, content), "、"@)
            } else {
                let m = markdown_task(
                    task_type@,
                    title,
                    content,
                    first_paragraph(paragraphs),
                    key_points(paragraphs),
                    match doc.target_language {
                        Some(l) => Some(l@),
                        None => None,
                    },
                );
                &&& r.format@ == "markdown"@
                &&& r.title@ == m.0
                &&& r.content@ == m.1
                &&& r.tags is None
            }
        }),
        task_type@ == "translate"@ && normalized_markdown(doc.content@).len() <= 800 ==> ends_with(
            r.content@,
            normalized_markdown(doc.content@),
        ),
        task_type@ == "translate"@ && normalized_markdown(doc.content@).len() > 800 ==> ends_with(
            r.content@,
            normalized_markdown(doc.content@).take(800).push('…'),
        ),
{
    proof {
        law_translation_draft_holds_whole_content(
            doc.title@,
            doc.content@,
            crate::spaces::opt_view(doc.target_language),
        );
        reveal_strlit("translate");
        reveal_strlit("extract_tags");
        assert("translate"@.len() != "extract_tags"@.len());
    }
    let tt = chars_of(task_type);
    let title = trim_chars(&chars_of(doc.title.as_str()));
    let content = normalize_markdown_chars(&chars_of(doc.content.as_str()));
    if lit_eq(&tt, "extract_tags") {
        let tags = keywords_chars(&title, &content);
        let mut text = chars_of("建议标签：");
        extend_chars(&mut text, &join_chars(&tags, &chars_of("、")));
        return TaskResult {
            format: "tags".to_string(),
            title: "智能提取标签".to_string(),
            content: string_of(&text),
            tags: Some(crate::text::to_strings(&tags)),
        };
    }
    let paragraphs = paragraphs_chars(&content);
    let first = if paragraphs.len() > 0 {
        slice_all(&paragraphs[0])
    } else {
        chars_of("当前文档内容较少，建议先补充正文后再生成。")
    };
    let k: usize = if paragraphs.len() < 4 {
        paragraphs.len()
    } else {
        4
    };
    let mut points: Vec<Vec<char>> = Vec::new();
    for i in 0..k
        invariant
            k <= paragraphs.len(),
            k == (if paragraphs@.len() < 4 { paragraphs@.len() } else { 4 }),
            seqs(points@) == seqs(paragraphs@).take(i as int),
    {
        push_piece(&mut points, slice_all(&paragraphs[i]));
        assert(seqs(paragraphs@).take(i + 1) =~= seqs(paragraphs@).take(i as int).push(
            seqs(paragraphs@)[i as int],
        ));
    }
    assert(seqs(points@) == key_points(seqs(paragraphs@)));
    let (label, body) = markdown_task_chars(&tt, &title, &content, &first, &points, &doc.target_language);
    TaskResult {
        format: "markdown".to_string(),
        title: string_of(&label),
        content: string_of(&body),
        tags: None,
    }
}


// ---------------------------------------------------------------------------
// Task list
// ---------------------------------------------------------------------------

/// The filters and paging of a task list request.
#[derive(Debug, Clone)]
pub struct TaskQuery {
    pub status: Option<String>,
    pub space_id: Option<String>,
    pub task_type: Option<String>,
    pub page: Option<i64>,
    pub per_page: Option<i64>,
}

/// `field = 'value'` when a value is given.
pub open spec fn opt_condition(field: Seq<char>, value: Option<String>) -> Seq<Seq<char>> {
    match value {
        Some(v) => seq![field + " = '"@ + v@ + "'"@],
        None => Seq::empty(),
    }
}

/// The conditions of a task list: tasks that are not deleted, with the given
/// status, space and type.
pub open spec fn task_conditions(q: TaskQuery) -> Seq<Seq<char>> {
    seq!["is_deleted = false"@] + opt_condition("status"@, q.status) + opt_condition(
        "space_id"@,
        q.space_id,
    ) + opt_condition("task_type"@, q.task_type)
}

/// The query of a task list: the newest tasks first, one page of them.
pub open spec fn task_list_query(q: TaskQuery) -> Seq<char> {
    "SELECT * FROM ai_task WHERE "@ + join(task_conditions(q), " AND "@)
        + " ORDER BY created_at DESC LIMIT "@ + crate::num::decimal(per_page_value(q.per_page) as nat)
        + " START "@ + crate::num::decimal(
        ((page_value(q.page) - 1) * per_page_value(q.per_page)) as nat,
    )
}

fn condition_chars(field: &str, value: &String) -> (r: Vec<char>)
    ensures
        r@ == field@ + " = '"@ + value@ + "'"@,
{
    let mut s = String::new();
    s.append(field);
    s.append(" = '");
    s.append(value.as_str());
    s.append("'");
    chars_of(s.as_str())
}

fn push_opt_condition(conds: &mut Vec<Vec<char>>, field: &str, value: &Option<String>)
    ensures
        seqs(final(conds)@) == seqs(old(conds)@) + opt_condition(field@, *value),
{
    match value {
        Some(v) => {
            push_piece(conds, condition_chars(field, v));
        },
        None => {
            assert(seqs(conds@) + Seq::<Seq<char>>::empty() =~= seqs(conds@));
        },
    }
}

/// The query that lists the tasks a request asks for.
pub fn task_list_sql(q: &TaskQuery) -> (r: String)
    requires
        (page_value(q.page) - 1) * per_page_value(q.per_page) <= i64::MAX,
    ensures
        r@ == task_list_query(*q),
{
    let (_page, per_page, offset) = normalize_pagination(q.page, q.per_page);
    let mut conds: Vec<Vec<char>> = Vec::new();
    push_piece(&mut conds, chars_of("is_deleted = false"));
    assert(seqs(conds@) =~= seq!["is_deleted = false"@]);
    push_opt_condition(&mut conds, "status", &q.status);
    push_opt_condition(&mut conds, "space_id", &q.space_id);
    push_opt_condition(&mut conds, "task_type", &q.task_type);
    let mut sql = String::new();
    sql.append("SELECT * FROM ai_task WHERE ");
    push_chars(&mut sql, &join_chars(&conds, &chars_of(" AND ")));
    sql.append(" ORDER BY created_at DESC LIMIT ");
    let pp = crate::num::decimal_string(per_page as u64);
    sql.append(pp.as_str());
    sql.append(" START ");
    let off = crate::num::decimal_string(offset as u64);
    sql.append(off.as_str());
    sql
}

// ---------------------------------------------------------------------------
// Task statistics
// ---------------------------------------------------------------------------

/// How many tasks are in each state.
#[derive(Debug, Clone, Copy, PartialEq, Eq)]
pub struct TaskStats {
    pub running: i64,
    pub completed: i64,
    pub pending: i64,
    pub failed: i64,
}

/// The status of a counted row, empty when the row has none.
pub open spec fn row_status(row: (Option<i64>, Option<String>)) -> Seq<char> {
    match row.1 {
        Some(s) => s@,
        None => Seq::empty(),
    }
}

/// The count of the last row whose status is `status` (0 when that row has no
/// count), or 0 when no row has that status.
pub open spec fn status_count(rows: Seq<(Option<i64>, Option<String>)>, status: Seq<char>) -> int
    decreases rows.len(),
{
    if rows.len() == 0 {
        0
    } else if row_status(rows.last()) == status {
        match rows.last().0 {
            Some(n) => n as int,
            None => 0,
        }
    } else {
        status_count(rows.drop_last(), status)
    }
}

/// The task counts of rows of (count, status), grouped by status.
pub fn task_stats(rows: &[(Option<i64>, Option<String>)]) -> (r: TaskStats)
    ensures
        r.running == status_count(rows@, "running"@),
        r.completed == status_count(rows@, "completed"@),
        r.pending == status_count(rows@, "pending"@),
        r.failed == status_count(rows@, "failed"@),
{
    let mut stats = TaskStats { running: 0, completed: 0, pending: 0, failed: 0 };
    let running = chars_of("running");
    let completed = chars_of("completed");
    let pending = chars_of("pending");
    let failed = chars_of("failed");
    let n = rows.len();
    for i in 0..n
        invariant
            n == rows@.len(),
            running@ == "running"@,
            completed@ == "completed"@,
            pending@ == "pending"@,
            failed@ == "failed"@,
            stats.running == status_count(rows@.take(i as int), "running"@),
            stats.completed == status_count(rows@.take(i as int), "completed"@),
            stats.pending == status_count(rows@.take(i as int), "pending"@),
            stats.failed == status_count(rows@.take(i as int), "failed"@),
    {
        let ghost next = rows@.take(i + 1);
        assert(next.drop_last() =~= rows@.take(i as int));
        assert(next.last() == rows@[i as int]);
        let count: i64 = match rows[i].0 {
            Some(c) => c,
            None => 0,
        };
        let status: Vec<char> = match &rows[i].1 {
            Some(s) => chars_of(s.as_str()),
            None => Vec::new(),
        };
        assert(status@ == row_status(rows@[i as int]));
        if chars_eq(&status, &running) {
            stats.running = count;
        }
        if chars_eq(&status, &completed) {
            stats.completed = count;
        }
        if chars_eq(&status, &pending) {
            stats.pending = count;
        }
        if chars_eq(&status, &failed) {
            stats.failed = count;
        }
    }
    assert(rows@.take(n as int) =~= rows@);
    stats
}

// ---------------------------------------------------------------------------
// Creating, cancelling and retrying tasks
// ---------------------------------------------------------------------------

/// A request to run an AI task on a document.
#[derive(Debug, Clone)]
pub struct CreateTaskRequest {
    pub task_type: String,
    pub document_id: String,
    pub document_title: Option<String>,
    pub space_id: Option<String>,
    pub model: Option<String>,
    pub target_language: Option<String>,
    pub extra: Option<String>,
}

/// The values a new task record is stored with.
#[derive(Debug, Clone)]
pub struct TaskRecordValues {
    pub task_type: String,
    pub document_id: String,
    pub document_title: String,
    pub space_id: String,
    pub model: String,
    pub target_language: String,
    pub extra: String,
}

pub open spec fn or_default(v: Option<String>, default: Seq<char>) -> Seq<char> {
    match v {
        Some(s) => s@,
        None => default,
    }
}

fn or_default_string(v: &Option<String>, default: &str) -> (r: String)
    ensures
        r@ == or_default(*v, default@),
{
    match v {
        Some(s) => s.clone(),
        None => default.to_string(),
    }
}

/// The space whose document the task reads: the request's space, unless it
/// is missing or empty, in which case the document is looked up by its id.
pub fn task_source_space(req: &CreateTaskRequest) -> (r: Option<String>)
    ensures
        match req.space_id {
            Some(s) => if s@.len() > 0 {
                r is Some && r->0@ == s@
            } else {
                r is None
            },
            None => r is None,
        },
{
    match &req.space_id {
        Some(s) => {
            if !s.as_str().is_empty() {
                Some(s.clone())
            } else {
                None
            }
        },
        None => None,
    }
}

/// The document a task falls back to when its source document cannot be
/// read: titled by the request's title, or else by the document id, with no
/// content.
pub fn fallback_task_document(req: &CreateTaskRequest) -> (r: AiTaskDocument)
    ensures
        r.title@ == or_default(req.document_title, req.document_id@),
        r.content@ == Seq::<char>::empty(),
        match req.target_language {
            Some(l) => r.target_language is Some && r.target_language->0@ == l@,
            None => r.target_language is None,
        },
{
    AiTaskDocument {
        title: or_default_string(&req.document_title, req.document_id.as_str()),
        content: String::new(),
        target_language: match &req.target_language {
            Some(l) => Some(l.clone()),
            None => None,
        },
    }
}

/// The values a new task is stored with: the document title that was read,
/// the model asked for, else the deployment's default model, and empty text
/// for a missing space, language or extra.
pub fn task_record_values(req: &CreateTaskRequest, document_title: &str, default_model: &str) -> (r: TaskRecordValues)
    ensures
        r.task_type@ == req.task_type@,
        r.document_id@ == req.document_id@,
        r.document_title@ == document_title@,
        r.space_id@ == or_default(req.space_id, Seq::empty()),
        r.model@ == or_default(req.model, default_model@),
        r.target_language@ == or_default(req.target_language, Seq::empty()),
        r.extra@ == or_default(req.extra, Seq::empty()),
{
    proof {
        reveal_strlit("");
    }
    TaskRecordValues {
        task_type: req.task_type.clone(),
        document_id: req.document_id.clone(),
        document_title: document_title.to_string(),
        space_id: or_default_string(&req.space_id, ""),
        model: or_default_string(&req.model, default_model),
        target_language: or_default_string(&req.target_language, ""),
        extra: or_default_string(&req.extra, ""),
    }
}

/// The record id of a task.
pub fn ai_task_record_id(id: &str) -> (r: String)
    ensures
        r@ == "ai_task:"@ + id@,
{
    let mut s = String::new();
    s.append("ai_task:");
    s.append(id);
    s
}

/// What can be done to an existing task.
#[derive(Debug, Clone, Copy, PartialEq, Eq)]
pub enum TaskAction {
    Cancel,
    Retry,
}

/// The status a task is given: `cancelled` when it is cancelled, `pending`
/// when it is retried.
pub fn task_status_after(action: TaskAction) -> (r: String)
    ensures
        r@ == match action {
            TaskAction::Cancel => "cancelled"@,
            TaskAction::Retry => "pending"@,
        },
{
    match action {
        TaskAction::Cancel => "cancelled".to_string(),
        TaskAction::Retry => "pending".to_string(),
    }
}

} // verus!
