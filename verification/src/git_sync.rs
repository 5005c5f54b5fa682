use vstd::prelude::*;

use crate::error::AppError;
use crate::text::{
    chars_of, has_prefix, push_chars, seqs, split_set, split_set_chars, string_of, strip_prefix,
    strip_prefix_chars, trim, trim_chars, trim_end_set, trim_end_set_chars, trim_end_str,
    trim_end_str_chars, trim_set, trim_set_chars, trim_start_set, CharSet,
};
use vstd::utf8::encode_utf8;

verus! {

/// The owner and name of a repository on github.com.
#[derive(Debug, Clone, PartialEq, Eq)]
pub struct GitHubRepoRef {
    pub owner: String,
    pub repo: String,
}

/// A Markdown file to write into a repository.
#[derive(Debug, Clone, PartialEq, Eq)]
pub struct ExportedFile {
    pub path: String,
    pub content: String,
}

/// A document of a space, as the sync reads it.
#[derive(Debug, Clone)]
pub struct Document {
    pub id: Option<String>,
    pub space_id: String,
    pub title: String,
    pub slug: String,
    pub content: String,
    pub excerpt: Option<String>,
    pub is_public: bool,
    pub status: Option<String>,
    pub parent_id: Option<String>,
    pub order_index: i32,
    pub author_id: String,
    pub last_editor_id: Option<String>,
    pub view_count: u32,
    pub word_count: u32,
    pub reading_time: u32,
    pub updated_by: Option<String>,
    pub is_deleted: bool,
    pub deleted_at: Option<String>,
    pub deleted_by: Option<String>,
    pub created_at: Option<String>,
    pub updated_at: Option<String>,
}

/// What a sync of one space into one repository needs.
#[derive(Debug, Clone)]
pub struct GitSyncInput {
    pub github_url: String,
    pub branch: String,
    pub path_prefix: String,
    pub space_id: String,
    pub token: String,
}

/// The outcome of a completed sync.
#[derive(Debug, Clone)]
pub struct GitSyncResult {
    pub files_changed: usize,
    pub commit_sha: Option<String>,
}

/// The body of a GitHub "create or update file contents" request.
#[derive(Debug, Clone)]
pub struct GitHubPutRequest {
    pub message: String,
    pub content: String,
    pub branch: String,
    pub sha: Option<String>,
}

// ---------------------------------------------------------------------------
// Specifications
// ---------------------------------------------------------------------------

/// The part of a repository URL after the github.com host, if the URL names that host.
pub open spec fn github_repo_path(url: Seq<char>) -> Option<Seq<char>> {
    let t = trim_end_set(trim_end_str(trim(url), ".git"@), CharSet::Slash);
    match strip_prefix(t, "https://github.com/"@) {
        Some(p) => Some(p),
        None => strip_prefix(t, "git@github.com:"@),
    }
}

/// The owner and repository named by the path after the host, if it is `owner/repo`.
pub open spec fn github_repo_parts(path: Seq<char>) -> Option<(Seq<char>, Seq<char>)> {
    let pieces = split_set(path, CharSet::Slash);
    let owner = trim(pieces[0]);
    let repo = if pieces.len() >= 2 {
        trim(pieces[1])
    } else {
        Seq::<char>::empty()
    };
    if owner.len() == 0 || repo.len() == 0 || pieces.len() > 2 {
        None
    } else {
        Some((owner, repo))
    }
}

/// An owner or repository name that a repository URL can carry unchanged:
/// non-empty, without `/` and without whitespace at either end.
pub open spec fn plain_name(n: Seq<char>) -> bool {
    &&& n.len() > 0
    &&& forall|i: int| 0 <= i < n.len() ==> #[trigger] n[i] != '/'
    &&& trim(n) == n
}

proof fn lemma_repo_url_parts(host: Seq<char>, owner: Seq<char>, repo: Seq<char>)
    requires
        host == "https://github.com/"@ || host == "git@github.com:"@,
        plain_name(owner),
        plain_name(repo),
        !crate::text::has_suffix(repo, ".git"@),
    ensures
        github_repo_path(host + owner + "/"@ + repo) == Some(owner + "/"@ + repo),
        github_repo_parts(owner + "/"@ + repo) == Some((owner, repo)),
{
    reveal_strlit("https://github.com/");
    reveal_strlit("git@github.com:");
    reveal_strlit("/");
    reveal_strlit(".git");
    let path = owner + "/"@ + repo;
    let url = host + path;
    assert(host + owner + "/"@ + repo =~= url);
    crate::text::lemma_trim_set_ends(repo, CharSet::Whitespace);
    assert(url[0] == host[0]);
    assert(url.last() == repo.last());
    crate::text::lemma_trim_set_keeps(url, CharSet::Whitespace);
    assert(trim(url) == url);
    assert(!crate::text::has_suffix(url, ".git"@)) by {
        if crate::text::has_suffix(url, ".git"@) {
            if repo.len() >= 4 {
                assert(repo.skip(repo.len() - 4) =~= url.skip(url.len() - 4));
            } else {
                let k = 3 - repo.len();
                assert(url.skip(url.len() - 4)[k] == url[url.len() - 1 - repo.len()]);
                assert(url[url.len() - 1 - repo.len()] == '/');
                assert(".git"@[k] != '/');
            }
        }
    }
    assert(crate::text::trim_end_str(url, ".git"@) == url);
    assert(trim_end_set(url, CharSet::Slash) == url);
    if host == "https://github.com/"@ {
        assert(url.take(host.len() as int) =~= host);
        assert(url.skip(host.len() as int) =~= path);
    } else {
        assert(url[0] != "https://github.com/"@[0]);
        assert(url.take(host.len() as int) =~= host);
        assert(url.skip(host.len() as int) =~= path);
    }
    assert("/"@ =~= seq!['/']);
    assert forall|i: int| 0 <= i < owner.len() implies !crate::text::in_set(CharSet::Slash, #[trigger] owner[i]) by {
        assert(owner[i] != '/');
    }
    assert forall|i: int| 0 <= i < repo.len() implies !crate::text::in_set(CharSet::Slash, #[trigger] repo[i]) by {
        assert(repo[i] != '/');
    }
    crate::text::lemma_split_two(owner, '/', repo, CharSet::Slash);
}

/// A repository URL written from an owner and a repository name, in the https
/// or the ssh form, parses back into that owner and name, for names that are
/// non-empty, hold no `/`, have no whitespace at either end, and (for the
/// repository) do not end in `.git`.
pub proof fn law_repo_url_round_trip(owner: Seq<char>, repo: Seq<char>)
    requires
        plain_name(owner),
        plain_name(repo),
        !crate::text::has_suffix(repo, ".git"@),
    ensures
        github_repo_path("https://github.com/"@ + owner + "/"@ + repo) matches Some(p)
            && github_repo_parts(p) == Some((owner, repo)),
        github_repo_path("git@github.com:"@ + owner + "/"@ + repo) matches Some(p)
            && github_repo_parts(p) == Some((owner, repo)),
{
    lemma_repo_url_parts("https://github.com/"@, owner, repo);
    lemma_repo_url_parts("git@github.com:"@, owner, repo);
}

/// The owner and repository a URL names, as `parse_github_repo_url` reads
/// them, or none when it refuses the URL.
pub open spec fn parsed_repo(url: Seq<char>) -> Option<(Seq<char>, Seq<char>)> {
    match github_repo_path(url) {
        Some(p) => github_repo_parts(p),
        None => None,
    }
}

/// A repository URL ending in `.git`, or with whitespace around it, is read
/// as the URL without them: for a URL `u` that has no whitespace at either
/// end, `u.git` and `u` surrounded by whitespace name what `u` names (and are
/// refused with the same message when `u` is).
pub proof fn law_repo_url_ignores_git_suffix_and_whitespace(u: Seq<char>, before: Seq<char>, after: Seq<char>)
    requires
        trim(u) == u,
        forall|i: int| 0 <= i < before.len() ==> crate::text::is_whitespace(#[trigger] before[i]),
        forall|i: int| 0 <= i < after.len() ==> crate::text::is_whitespace(#[trigger] after[i]),
    ensures
        github_repo_path(u + ".git"@) == github_repo_path(u),
        github_repo_path(before + u + after) == github_repo_path(u),
{
    reveal_strlit(".git");
    let g = ".git"@;
    crate::text::lemma_trim_set_ends(u, CharSet::Whitespace);
    let v = u + g;
    if u.len() > 0 {
        assert(v[0] == u[0]);
    }
    assert(v.last() == 't');
    crate::text::lemma_trim_set_keeps(v, CharSet::Whitespace);
    assert(v.skip(v.len() - 4) =~= g);
    assert(v.take(v.len() - 4) =~= u);
    assert(crate::text::trim_end_str(v, g) == crate::text::trim_end_str(u, g));
    let w = before + u + after;
    assert(w =~= before + (u + after));
    crate::text::lemma_trim_start_set_prepend(before, u + after, CharSet::Whitespace);
    crate::text::lemma_trim_end_set_all_in(after, CharSet::Whitespace);
    if u.len() > 0 {
        assert((u + after)[0] == u[0]);
        assert(trim_start_set(u + after, CharSet::Whitespace) == u + after);
        crate::text::lemma_trim_end_set_append_all(u, after, CharSet::Whitespace);
        crate::text::lemma_trim_set_keeps(u, CharSet::Whitespace);
        assert(trim_end_set(u, CharSet::Whitespace) == u);
    } else {
        assert(u + after =~= after);
        assert(after + Seq::<char>::empty() =~= after);
        crate::text::lemma_trim_start_set_prepend(after, Seq::<char>::empty(), CharSet::Whitespace);
        assert(trim_start_set(after, CharSet::Whitespace) == Seq::<char>::empty());
    }
    assert(trim(w) == u);
}

proof fn lemma_host_path(host: Seq<char>, s: Seq<char>)
    requires
        host == "https://github.com/"@ || host == "git@github.com:"@,
    ensures
        ({
            let y = crate::text::trim_end_str(trim_end_set(s, CharSet::Whitespace), ".git"@);
            trim_end_str(trim(host + s), ".git"@) == host + y
        }),
{
    reveal_strlit("https://github.com/");
    reveal_strlit("git@github.com:");
    let e = trim_end_set(s, CharSet::Whitespace);
    assert((host + s)[0] == host[0]);
    assert(trim_start_set(host + s, CharSet::Whitespace) == host + s);
    crate::text::lemma_trim_end_set_append(host, s, CharSet::Whitespace);
    assert(trim(host + s) == host + e);
    crate::text::lemma_trim_end_git_append(host, e);
}

/// The https and the ssh form of a repository URL are read alike: for any
/// text after the host, both name the same owner and repository, or both are
/// refused.
pub proof fn law_repo_url_forms_agree(rest: Seq<char>)
    ensures
        parsed_repo("https://github.com/"@ + rest) == parsed_repo("git@github.com:"@ + rest),
{
    reveal_strlit("https://github.com/");
    reveal_strlit("git@github.com:");
    let h = "https://github.com/"@;
    let g = "git@github.com:"@;
    lemma_host_path(h, rest);
    lemma_host_path(g, rest);
    let y = crate::text::trim_end_str(trim_end_set(rest, CharSet::Whitespace), ".git"@);
    let z = trim_end_set(y, CharSet::Slash);
    crate::text::lemma_trim_end_set_append(g, y, CharSet::Slash);
    let tg = g + z;
    assert(tg[0] != h[0]);
    assert(strip_prefix(tg, h) is None);
    assert(tg.take(g.len() as int) =~= g);
    assert(tg.skip(g.len() as int) =~= z);
    assert(github_repo_path(g + rest) == Some(z));
    if z.len() > 0 {
        crate::text::lemma_trim_end_set_append(h, y, CharSet::Slash);
        let th = h + z;
        assert(th.take(h.len() as int) =~= h);
        assert(th.skip(h.len() as int) =~= z);
        assert(github_repo_path(h + rest) == Some(z));
    } else {
        crate::text::lemma_trim_end_set_append_all(h, y, CharSet::Slash);
        assert(h.drop_last().last() == 'm');
        assert(trim_end_set(h.drop_last(), CharSet::Slash) == h.drop_last());
        assert(trim_end_set(h, CharSet::Slash) == h.drop_last());
        let th = h.drop_last();
        assert(!has_prefix(th, h));
        assert(th[0] != g[0]);
        assert(!has_prefix(th, g));
        assert(github_repo_path(h + rest) is None);
        assert(z =~= Seq::<char>::empty());
        assert(split_set(z, CharSet::Slash) == seq![Seq::<char>::empty()]);
        assert(trim(Seq::<char>::empty()) =~= Seq::<char>::empty());
        assert(github_repo_parts(z) is None);
    }
}

/// A path prefix without surrounding whitespace and slashes, followed by one `/`;
/// empty when nothing is left.
pub open spec fn normalized_prefix(prefix: Seq<char>) -> Seq<char> {
    let t = trim_set(trim(prefix), CharSet::Slash);
    if t.len() == 0 {
        Seq::empty()
    } else {
        t.push('/')
    }
}

/// A normalized path prefix is empty, or ends in one `/` after a character
/// that is not `/` and does not start with `/`; normalizing it again changes
/// nothing, unless it starts with whitespace (as ` docs/`, the normalized form
/// of `/ docs`, does).
pub proof fn law_normalized_prefix_is_stable(prefix: Seq<char>)
    ensures
        ({
            let n = normalized_prefix(prefix);
            n.len() == 0 || (n.len() >= 2 && n.last() == '/' && n[n.len() - 2] != '/' && n[0]
                != '/')
        }),
        ({
            let n = normalized_prefix(prefix);
            (n.len() == 0 || !crate::text::is_whitespace(n[0])) ==> normalized_prefix(n) == n
        }),
{
    let t = trim_set(trim(prefix), CharSet::Slash);
    let n = normalized_prefix(prefix);
    crate::text::lemma_trim_set_ends(trim(prefix), CharSet::Slash);
    if t.len() == 0 {
        assert(n.len() == 0);
        crate::text::lemma_trim_set_keeps(n, CharSet::Whitespace);
        crate::text::lemma_trim_set_keeps(n, CharSet::Slash);
    } else {
        assert(n == t.push('/'));
        assert(n[0] == t[0]);
        assert(n[n.len() - 2] == t.last());
        if !crate::text::is_whitespace(n[0]) {
            crate::text::lemma_trim_set_keeps(n, CharSet::Whitespace);
            assert(trim(n) == n);
            assert(trim_start_set(n, CharSet::Slash) == n);
            assert(n.drop_last() =~= t);
            assert(trim_end_set(n, CharSet::Slash) == trim_end_set(t, CharSet::Slash));
            crate::text::lemma_trim_set_keeps(t, CharSet::Slash);
            assert(trim_start_set(t, CharSet::Slash) == t);
            assert(trim_end_set(t, CharSet::Slash) == t);
            assert(trim_set(trim(n), CharSet::Slash) == t);
        }
    }
}

/// The file name (without extension) under which a document is exported.
pub open spec fn export_slug(slug: Seq<char>, id: Option<Seq<char>>) -> Seq<char> {
    if trim(slug).len() == 0 {
        match id {
            Some(i) => i,
            None => "untitled"@,
        }
    } else {
        slug
    }
}

pub open spec fn opt_view(o: Option<String>) -> Option<Seq<char>> {
    match o {
        Some(s) => Some(s@),
        None => None,
    }
}

/// The excerpt block of a document's Markdown: a quote line, or nothing.
pub open spec fn excerpt_block(excerpt: Option<Seq<char>>) -> Seq<char> {
    match excerpt {
        Some(e) => if trim(e).len() > 0 {
            "> "@ + trim(e) + "\n\n"@
        } else {
            Seq::empty()
        },
        None => Seq::empty(),
    }
}

/// The Markdown text of a document: its title as a heading, its excerpt as a
/// quote when it has one, then its content.
pub open spec fn document_markdown(title: Seq<char>, excerpt: Option<Seq<char>>, content: Seq<char>) -> Seq<char> {
    "# "@ + trim(title) + "\n\n"@ + excerpt_block(excerpt) + trim(content) + "\n"@
}

pub open spec fn doc_markdown(d: Document) -> Seq<char> {
    document_markdown(d.title@, opt_view(d.excerpt), d.content@)
}

pub open spec fn doc_file_path(prefix: Seq<char>, d: Document) -> Seq<char> {
    normalized_prefix(prefix) + export_slug(d.slug@, opt_view(d.id)) + ".md"@
}

/// The files exported for a list of documents: one per document that is not
/// deleted, in the documents' order.
pub open spec fn exported_files(prefix: Seq<char>, docs: Seq<Document>) -> Seq<(Seq<char>, Seq<char>)>
    decreases docs.len(),
{
    if docs.len() == 0 {
        Seq::empty()
    } else {
        let r = exported_files(prefix, docs.drop_last());
        let d = docs.last();
        if d.is_deleted {
            r
        } else {
            r.push((doc_file_path(prefix, d), doc_markdown(d)))
        }
    }
}

/// How many of the documents are not deleted.
pub open spec fn live_count(docs: Seq<Document>) -> nat
    decreases docs.len(),
{
    if docs.len() == 0 {
        0
    } else {
        live_count(docs.drop_last()) + if docs.last().is_deleted {
            0nat
        } else {
            1nat
        }
    }
}

/// The export writes one file for each document that is not deleted and none
/// for a deleted one; every file lies under the normalized prefix and its name
/// ends in `.md`.
pub proof fn law_export_one_file_per_live_document(prefix: Seq<char>, docs: Seq<Document>)
    ensures
        exported_files(prefix, docs).len() == live_count(docs),
        forall|i: int|
            0 <= i < exported_files(prefix, docs).len() ==> has_prefix(
                #[trigger] exported_files(prefix, docs)[i].0,
                normalized_prefix(prefix),
            ) && crate::text::has_suffix(exported_files(prefix, docs)[i].0, ".md"@),
    decreases docs.len(),
{
    if docs.len() > 0 {
        law_export_one_file_per_live_document(prefix, docs.drop_last());
        let r = exported_files(prefix, docs.drop_last());
        let d = docs.last();
        if !d.is_deleted {
            let path = doc_file_path(prefix, d);
            let pre = normalized_prefix(prefix);
            let name = export_slug(d.slug@, opt_view(d.id));
            assert(path.take(pre.len() as int) =~= pre);
            assert(path.skip(path.len() - ".md"@.len()) =~= ".md"@);
            let u = r.push((path, doc_markdown(d)));
            assert forall|i: int| 0 <= i < u.len() implies has_prefix(#[trigger] u[i].0, pre)
                && crate::text::has_suffix(u[i].0, ".md"@) by {
                if i < r.len() {
                    assert(u[i] == r[i]);
                }
            }
        }
    }
}

pub open spec fn files_view(files: Seq<ExportedFile>) -> Seq<(Seq<char>, Seq<char>)> {
    Seq::new(files.len(), |i: int| (files[i].path@, files[i].content@))
}

/// `record_key` without surrounding whitespace, one leading `space:` and the
/// quoting characters around it.
pub open spec fn normalized_record_key(value: Seq<char>) -> Seq<char> {
    let t = trim(value);
    let stripped = match strip_prefix(t, "space:"@) {
        Some(s) => s,
        None => t,
    };
    trim_set(stripped, CharSet::RecordQuotes)
}

/// The record id a space's documents are looked up by: `space:` and the key
/// of the given space id.
pub fn space_record_ref(space_id: &str) -> (r: String)
    ensures
        r@ == "space:"@ + normalized_record_key(space_id@),
{
    let mut s = String::new();
    s.append("space:");
    let key = normalize_record_key(space_id);
    s.append(key.as_str());
    s
}

/// The GitHub contents API URL of a file in a repository.
pub open spec fn contents_url(owner: Seq<char>, repo: Seq<char>, path: Seq<char>) -> Seq<char> {
    "https://api.github.com/repos/"@ + owner + "/"@ + repo + "/contents/"@ + path
}

// ---------------------------------------------------------------------------
// Functions
// ---------------------------------------------------------------------------

/// Parses the owner and repository out of an `https://github.com/owner/repo(.git)`
/// or `git@github.com:owner/repo(.git)` URL.
pub fn parse_github_repo_url(url: &str) -> (r: Result<GitHubRepoRef, String>)
    ensures
        match r {
            Ok(rf) => github_repo_path(url@) matches Some(p) && github_repo_parts(p) == Some(
                (rf.owner@, rf.repo@),
            ),
            Err(e) => match github_repo_path(url@) {
                None => e@ == "Only github.com repository URLs are supported"@,
                Some(p) => github_repo_parts(p) is None && e@
                    == "GitHub repository URL must be owner/repo"@,
            },
        },
{
    let chars = chars_of(url);
    let t0 = trim_chars(&chars);
    let t1 = trim_end_str_chars(&t0, &chars_of(".git"));
    let t = trim_end_set_chars(&t1, CharSet::Slash);
    let path = match strip_prefix_chars(&t, &chars_of("https://github.com/")) {
        Some(p) => p,
        None => match strip_prefix_chars(&t, &chars_of("git@github.com:")) {
            Some(p) => p,
            None => {
                return Err("Only github.com repository URLs are supported".to_string());
            },
        },
    };
    let pieces = split_set_chars(&path, CharSet::Slash);
    let owner = trim_chars(&pieces[0]);
    let repo = if pieces.len() >= 2 {
        trim_chars(&pieces[1])
    } else {
        Vec::new()
    };
    proof {
        assert(seqs(pieces@)[0] == pieces@[0]@);
        if pieces@.len() >= 2 {
            assert(seqs(pieces@)[1] == pieces@[1]@);
        }
    }
    if owner.len() == 0 || repo.len() == 0 || pieces.len() > 2 {
        return Err("GitHub repository URL must be owner/repo".to_string());
    }
    Ok(GitHubRepoRef { owner: string_of(&owner), repo: string_of(&repo) })
}

/// The path prefix under which files are written: the prefix without surrounding
/// whitespace and slashes, followed by one `/`, or empty.
pub fn normalize_path_prefix(prefix: &str) -> (r: String)
    ensures
        r@ == normalized_prefix(prefix@),
{
    let chars = chars_of(prefix);
    let t0 = trim_chars(&chars);
    let mut t = trim_set_chars(&t0, CharSet::Slash);
    if t.len() == 0 {
        String::new()
    } else {
        t.push('/');
        string_of(&t)
    }
}

/// The Markdown text of a document.
pub fn format_document_markdown(doc: &Document) -> (r: String)
    ensures
        r@ == doc_markdown(*doc),
{
    let mut out = String::new();
    out.append("# ");
    push_chars(&mut out, &trim_chars(&chars_of(doc.title.as_str())));
    out.append("\n\n");
    match &doc.excerpt {
        Some(e) => {
            let te = trim_chars(&chars_of(e.as_str()));
            if te.len() > 0 {
                out.append("> ");
                push_chars(&mut out, &te);
                out.append("\n\n");
            }
        },
        None => {},
    }
    push_chars(&mut out, &trim_chars(&chars_of(doc.content.as_str())));
    out.append("\n");
    proof {
        assert(out@ =~= doc_markdown(*doc));
    }
    out
}

/// The Markdown files for the documents that are not deleted, each at the
/// normalized prefix followed by its slug (or its id, or `untitled`) and `.md`.
pub fn export_documents_to_markdown(prefix: &str, documents: &[Document]) -> (r: Vec<ExportedFile>)
    ensures
        files_view(r@) == exported_files(prefix@, documents@),
{
    let pre = normalize_path_prefix(prefix);
    let n = documents.len();
    let mut files: Vec<ExportedFile> = Vec::new();
    for i in 0..n
        invariant
            n == documents@.len(),
            pre@ == normalized_prefix(prefix@),
            files_view(files@) == exported_files(prefix@, documents@.take(i as int)),
    {
        let doc = &documents[i];
        assert(documents@.take(i + 1).drop_last() =~= documents@.take(i as int));
        assert(documents@.take(i + 1).last() == *doc);
        if !doc.is_deleted {
            let slug_chars = chars_of(doc.slug.as_str());
            let mut path = String::new();
            path.append(pre.as_str());
            if trim_chars(&slug_chars).len() == 0 {
                match &doc.id {
                    Some(id) => path.append(id.as_str()),
                    None => path.append("untitled"),
                }
            } else {
                path.append(doc.slug.as_str());
            }
            path.append(".md");
            let content = format_document_markdown(doc);
            let ghost old_files = files@;
            files.push(ExportedFile { path, content });
            assert(files_view(files@) =~= files_view(old_files).push(
                (doc_file_path(prefix@, *doc), doc_markdown(*doc)),
            ));
        }
    }
    assert(documents@.take(n as int) =~= documents@);
    files
}

/// The key of a space record id: without whitespace, a leading `space:` and quotes.
pub fn normalize_record_key(value: &str) -> (r: String)
    ensures
        r@ == normalized_record_key(value@),
{
    let t = trim_chars(&chars_of(value));
    let stripped = match strip_prefix_chars(&t, &chars_of("space:")) {
        Some(s) => s,
        None => t,
    };
    string_of(&trim_set_chars(&stripped, CharSet::RecordQuotes))
}

/// The GitHub contents API URL of a file in a repository.
pub fn github_contents_url(repo: &GitHubRepoRef, path: &str) -> (r: String)
    ensures
        r@ == contents_url(repo.owner@, repo.repo@, path@),
{
    let mut url = String::new();
    url.append("https://api.github.com/repos/");
    url.append(repo.owner.as_str());
    url.append("/");
    url.append(repo.repo.as_str());
    url.append("/contents/");
    url.append(path);
    url
}

/// The request that writes one exported file to a branch, replacing the file
/// with the given blob sha when there is one.
pub fn put_file_request(file: &ExportedFile, branch: &str, existing_sha: Option<String>) -> (r: GitHubPutRequest)
    ensures
        r.message@ == "sync: update "@ + file.path@,
        r.content@ == crate::encoding::base64_of(encode_utf8(file.content@), false, true),
        r.branch@ == branch@,
        r.sha == existing_sha,
{
    let mut message = String::new();
    message.append("sync: update ");
    message.append(file.path.as_str());
    let content = crate::encoding::base64_standard_encode(file.content.as_str().as_bytes());
    GitHubPutRequest { message, content, branch: branch.to_string(), sha: existing_sha }
}

// ---------------------------------------------------------------------------
// The push of exported files, one request after the other
// ---------------------------------------------------------------------------

/// What the caller has to do next while pushing files to GitHub.
#[derive(Debug)]
pub enum SyncAction {
    /// Look up the blob sha of the file at `path` on the branch (`None` when absent).
    FetchExistingSha { path: String },
    /// Send the request that writes the file at `path`.
    PutFile { path: String, request: GitHubPutRequest },
    /// All files are written.
    Finish(GitSyncResult),
}

/// What the caller reports back after performing a `SyncAction`.
#[derive(Debug)]
pub enum SyncEvent {
    /// The blob sha found for the file (or `None`).
    ExistingSha(Option<String>),
    /// The sha of the commit that wrote the file.
    FilePut(String),
}

/// How GitHub answered a request, told by its HTTP status.
#[derive(Debug, Clone, Copy, PartialEq, Eq)]
pub enum GitHubReply {
    /// 404: there is no such file.
    NotFound,
    /// A 2xx status.
    Success,
    /// Any other status.
    Failure,
}

/// The kind of answer a status is: 404 is "not found", 200 to 299 a success
/// (as `StatusCode::is_success` counts it), anything else a failure.
pub fn classify_github_status(status: u16) -> (r: GitHubReply)
    ensures
        status == 404 ==> r == GitHubReply::NotFound,
        200 <= status <= 299 ==> r == GitHubReply::Success,
        status != 404 && !(200 <= status <= 299) ==> r == GitHubReply::Failure,
{
    if status == 404 {
        GitHubReply::NotFound
    } else if 200 <= status && status <= 299 {
        GitHubReply::Success
    } else {
        GitHubReply::Failure
    }
}

/// The message a failed GitHub call ends the sync with, naming the call
/// (`get file` or `put file`), the status as it is shown and the reply's body.
pub fn github_failure_message(call: &str, status: &str, body: &str) -> (r: String)
    ensures
        r@ == "GitHub "@ + call@ + " failed: HTTP "@ + status@ + " "@ + body@,
{
    let mut m = String::new();
    m.append("GitHub ");
    m.append(call);
    m.append(" failed: HTTP ");
    m.append(status);
    m.append(" ");
    m.append(body);
    m
}

/// The state of a push of exported files: which file is next and whether its
/// sha lookup or its write is outstanding.
pub struct GitSyncRun {
    pub branch: String,
    pub files: Vec<ExportedFile>,
    pub next: usize,
    pub awaiting_put: bool,
    pub last_commit_sha: Option<String>,
}

impl GitSyncRun {
    /// The run is waiting for the outcome of an action: the index is in range
    /// and the files are not all written.
    pub open spec fn wf(&self) -> bool {
        self.next < self.files@.len()
    }

    /// Whether `event` answers the action the run is waiting for.
    pub open spec fn fits(&self, event: SyncEvent) -> bool {
        if self.awaiting_put {
            event is FilePut
        } else {
            event is ExistingSha
        }
    }

    /// Starts pushing `files` to `branch`: the first file's sha is looked up, or,
    /// with no files, the run finishes at once with nothing changed.
    pub fn start(branch: &str, files: Vec<ExportedFile>) -> (r: (GitSyncRun, SyncAction))
        ensures
            r.0.branch@ == branch@,
            r.0.files@ == files@,
            r.0.next == 0,
            !r.0.awaiting_put,
            r.0.last_commit_sha is None,
            files@.len() == 0 ==> (r.1 matches SyncAction::Finish(res) && res.files_changed == 0
                && res.commit_sha is None),
            files@.len() > 0 ==> (r.1 matches SyncAction::FetchExistingSha { path } && path@
                == files@[0].path@ && r.0.wf()),
    {
        let action = if files.len() == 0 {
            SyncAction::Finish(GitSyncResult { files_changed: 0, commit_sha: None })
        } else {
            SyncAction::FetchExistingSha { path: files[0].path.clone() }
        };
        (
            GitSyncRun {
                branch: branch.to_string(),
                files,
                next: 0,
                awaiting_put: false,
                last_commit_sha: None,
            },
            action,
        )
    }

    /// Takes the outcome of the last action and says what to do next: after a sha
    /// lookup the file is written (replacing that blob); after a write the next
    /// file's sha is looked up, or, after the last file, the run finishes with the
    /// number of files and the sha of the last commit.
    pub fn step(&mut self, event: SyncEvent) -> (a: SyncAction)
        requires
            old(self).wf(),
            old(self).fits(event),
        ensures
            final(self).branch == old(self).branch,
            final(self).files@ == old(self).files@,
            match event {
                SyncEvent::ExistingSha(sha) => {
                    &&& final(self).next == old(self).next
                    &&& final(self).awaiting_put
                    &&& final(self).last_commit_sha == old(self).last_commit_sha
                    &&& final(self).wf()
                    &&& a matches SyncAction::PutFile { path, request } && path@ == old(
                        self,
                    ).files@[old(self).next as int].path@ && request.message@ == "sync: update "@
                        + path@ && request.content@ == crate::encoding::base64_of(
                        encode_utf8(old(self).files@[old(self).next as int].content@),
                        false,
                        true,
                    ) && request.branch@ == old(self).branch@ && request.sha == sha
                },
                SyncEvent::FilePut(commit) => {
                    &&& final(self).next == old(self).next + 1
                    &&& !final(self).awaiting_put
                    &&& final(self).last_commit_sha == Some(commit)
                    &&& if final(self).next == old(self).files@.len() {
                        a matches SyncAction::Finish(res) && res.files_changed
                            == old(self).files@.len() && res.commit_sha == Some(commit)
                    } else {
                        &&& final(self).wf()
                        &&& a matches SyncAction::FetchExistingSha { path } && path@ == old(
                            self,
                        ).files@[final(self).next as int].path@
                    }
                },
            },
    {
        match event {
            SyncEvent::ExistingSha(sha) => {
                let i = self.next;
                let request = put_file_request(&self.files[i], self.branch.as_str(), sha);
                self.awaiting_put = true;
                SyncAction::PutFile { path: self.files[i].path.clone(), request }
            },
            SyncEvent::FilePut(commit) => {
                let n = self.files.len();
                assert(self.next < n);
                self.next = self.next + 1;
                self.awaiting_put = false;
                self.last_commit_sha = Some(commit.clone());
                if self.next == self.files.len() {
                    SyncAction::Finish(
                        GitSyncResult { files_changed: self.files.len(), commit_sha: Some(commit) },
                    )
                } else {
                    SyncAction::FetchExistingSha { path: self.files[self.next].path.clone() }
                }
            },
        }
    }
}

// ---------------------------------------------------------------------------
// Repository bindings
// ---------------------------------------------------------------------------

/// The branch of a repository binding that names none.
pub fn default_main_branch() -> (r: String)
    ensures
        r@ == "main"@,
{
    "main".to_string()
}

/// The path prefix of a repository binding that names none.
pub fn default_path_prefix() -> (r: String)
    ensures
        r@ == "docs/"@,
{
    "docs/".to_string()
}

/// A stored binding of a space to a GitHub repository.
#[derive(Debug, Clone)]
pub struct GitRepoRecord {
    pub space_slug: String,
    pub github_url: String,
    pub branch: String,
    pub path_prefix: String,
}

impl GitRepoRecord {
    /// A binding names both a repository URL and a space.
    pub fn is_valid(&self) -> (r: bool)
        ensures
            r == (trim(self.github_url@).len() > 0 && trim(self.space_slug@).len() > 0),
    {
        trim_chars(&chars_of(self.github_url.as_str())).len() > 0 && trim_chars(
            &chars_of(self.space_slug.as_str()),
        ).len() > 0
    }
}

/// A stored binding is usable only when it exists and is valid.
pub fn require_valid_repo(record: Option<GitRepoRecord>) -> (r: Result<GitRepoRecord, AppError>)
    ensures
        match r {
            Ok(rec) => record == Some(rec) && trim(rec.github_url@).len() > 0 && trim(
                rec.space_slug@,
            ).len() > 0,
            Err(AppError::NotFound(m)) => m@ == "Repository not found"@ && (record is None || !(
            trim(record->0.github_url@).len() > 0 && trim(record->0.space_slug@).len() > 0)),
            Err(_) => false,
        },
{
    match record {
        Some(rec) => {
            if rec.is_valid() {
                Ok(rec)
            } else {
                Err(AppError::NotFound("Repository not found".to_string()))
            }
        },
        None => Err(AppError::NotFound("Repository not found".to_string())),
    }
}

/// A sync needs the GitHub token to be configured.
pub fn require_github_token(token: Option<String>) -> (r: Result<String, AppError>)
    ensures
        match r {
            Ok(t) => token == Some(t),
            Err(AppError::BadRequest(m)) => token is None && m@
                == "GitHub sync is not configured: missing GITHUB_TOKEN"@,
            Err(_) => false,
        },
{
    match token {
        Some(t) => Ok(t),
        None => Err(
            AppError::BadRequest("GitHub sync is not configured: missing GITHUB_TOKEN".to_string()),
        ),
    }
}

/// The record id of a repository binding.
pub fn git_repo_record_id(id: &str) -> (r: String)
    ensures
        r@ == "git_repo:"@ + id@,
{
    let mut s = String::new();
    s.append("git_repo:");
    s.append(id);
    s
}

/// What a sync run records in its log.
#[derive(Debug, Clone)]
pub struct SyncOutcome {
    pub status: String,
    pub message: String,
    pub files_changed: i64,
    pub commit_sha: Option<String>,
}

/// The log entry of a sync run: `success` with the number of files written
/// and the last commit, or `failed` with the error and nothing written.
pub fn sync_outcome(result: Result<GitSyncResult, String>) -> (r: SyncOutcome)
    ensures
        match result {
            Ok(res) => r.status@ == "success"@ && r.message@ == "Synced "@ + crate::num::decimal(
                res.files_changed as nat,
            ) + " file(s) to GitHub"@ && r.files_changed == res.files_changed as i64
                && r.commit_sha == res.commit_sha,
            Err(e) => r.status@ == "failed"@ && r.message == e && r.files_changed == 0
                && r.commit_sha is None,
        },
{
    match result {
        Ok(res) => {
            let mut message = String::new();
            message.append("Synced ");
            message.append(crate::num::decimal_string(res.files_changed as u64).as_str());
            message.append(" file(s) to GitHub");
            SyncOutcome {
                status: "success".to_string(),
                message,
                files_changed: res.files_changed as i64,
                commit_sha: res.commit_sha,
            }
        },
        Err(e) => SyncOutcome {
            status: "failed".to_string(),
            message: e,
            files_changed: 0,
            commit_sha: None,
        },
    }
}

/// A request to bind a space to a repository.
#[derive(Debug, Clone)]
pub struct CreateRepoRequest {
    pub space_slug: String,
    pub github_url: String,
    pub branch: Option<String>,
    pub direction: Option<String>,
    pub auto_sync: Option<bool>,
    pub path_prefix: Option<String>,
}

/// The values a new binding is stored with.
#[derive(Debug, Clone)]
pub struct RepoCreateValues {
    pub branch: String,
    pub direction: String,
    pub auto_sync: bool,
    pub path_prefix: String,
}

/// The values of a new binding: those given, else branch `main`, direction
/// `bidirectional`, no automatic sync and prefix `docs/`.
pub fn repo_create_values(req: &CreateRepoRequest) -> (r: RepoCreateValues)
    ensures
        r.branch@ == match req.branch {
            Some(b) => b@,
            None => "main"@,
        },
        r.direction@ == match req.direction {
            Some(d) => d@,
            None => "bidirectional"@,
        },
        r.auto_sync == match req.auto_sync {
            Some(a) => a,
            None => false,
        },
        r.path_prefix@ == match req.path_prefix {
            Some(p) => p@,
            None => "docs/"@,
        },
{
    RepoCreateValues {
        branch: match &req.branch {
            Some(b) => b.clone(),
            None => "main".to_string(),
        },
        direction: match &req.direction {
            Some(d) => d.clone(),
            None => "bidirectional".to_string(),
        },
        auto_sync: match req.auto_sync {
            Some(a) => a,
            None => false,
        },
        path_prefix: match &req.path_prefix {
            Some(p) => p.clone(),
            None => "docs/".to_string(),
        },
    }
}

/// A value of a repository binding's fields: text, a flag, null, or a value
/// given by the caller.
#[derive(Debug, Clone)]
pub enum RepoValue<V> {
    Text(String),
    Flag(bool),
    Null,
    Given(V),
}

pub open spec fn repo_value_view<V>(v: RepoValue<V>) -> (int, Seq<char>, bool, Option<V>) {
    match v {
        RepoValue::Text(s) => (0, s@, false, None),
        RepoValue::Flag(b) => (1, Seq::empty(), b, None),
        RepoValue::Null => (2, Seq::empty(), false, None),
        RepoValue::Given(x) => (3, Seq::empty(), false, Some(x)),
    }
}

pub open spec fn text_v<V>(s: Seq<char>) -> (int, Seq<char>, bool, Option<V>) {
    (0, s, false, None)
}

pub open spec fn flag_v<V>(b: bool) -> (int, Seq<char>, bool, Option<V>) {
    (1, Seq::empty(), b, None)
}

/// The fields of a binding before an update is merged in.
pub open spec fn repo_defaults<V>(id: Seq<char>) -> Seq<(Seq<char>, (int, Seq<char>, bool, Option<V>))> {
    seq![
        ("id"@, text_v("git_repo:"@ + id)),
        ("space_slug"@, text_v(Seq::empty())),
        ("github_url"@, text_v(Seq::empty())),
        ("branch"@, text_v("main"@)),
        ("direction"@, text_v("bidirectional"@)),
        ("auto_sync"@, flag_v(false)),
        ("path_prefix"@, text_v("docs/"@)),
        ("status"@, text_v("connected"@)),
        ("last_synced_at"@, (2int, Seq::<char>::empty(), false, None)),
        ("is_deleted"@, flag_v(false)),
    ]
}

pub open spec fn given_all<V>(body: Seq<(Seq<char>, V)>) -> Seq<(Seq<char>, (int, Seq<char>, bool, Option<V>))> {
    Seq::new(body.len(), |i: int| (body[i].0, (3int, Seq::<char>::empty(), false, Some(body[i].1))))
}

/// The value under which an update's field is kept.
pub open spec fn given_v<V>(v: V) -> (int, Seq<char>, bool, Option<V>) {
    (3, Seq::empty(), false, Some(v))
}

proof fn lemma_last_value_given<V>(body: Seq<(Seq<char>, V)>, key: Seq<char>)
    ensures
        crate::fields::last_value(given_all(body), key) == match crate::fields::last_value(body, key) {
            Some(v) => Some(given_v(v)),
            None => None,
        },
    decreases body.len(),
{
    if body.len() > 0 {
        assert(given_all(body).drop_last() =~= given_all(body.drop_last()));
        lemma_last_value_given(body.drop_last(), key);
    }
}

/// The binding shown after an update: the default fields of the binding, and,
/// when the update is an object, each of its fields set in turn and then
/// `updated_at`.
pub open spec fn merged_repo<V>(id: Seq<char>, body: Option<Seq<(Seq<char>, V)>>, updated_at: Seq<char>) -> Seq<(Seq<char>, (int, Seq<char>, bool, Option<V>))> {
    match body {
        Some(b) => crate::fields::upsert(
            crate::fields::upsert_all(repo_defaults(id), given_all(b)),
            "updated_at"@,
            text_v(updated_at),
        ),
        None => repo_defaults(id),
    }
}

pub open spec fn repo_fields_view<V>(v: Seq<(String, RepoValue<V>)>) -> Seq<(Seq<char>, (int, Seq<char>, bool, Option<V>))> {
    Seq::new(v.len(), |i: int| (v[i].0@, repo_value_view(v[i].1)))
}

/// Merging an update into a repository binding keeps the defaults and applies
/// the update: `updated_at` reads back as the time of the update; any other
/// field the update names reads back as the update's last value for it; every
/// field it does not name keeps its default. An update that is not an object
/// leaves the defaults as they are.
pub proof fn law_merge_keeps_defaults_and_applies_update<V>(
    id: Seq<char>,
    body: Seq<(Seq<char>, V)>,
    updated_at: Seq<char>,
    key: Seq<char>,
)
    ensures
        crate::fields::lookup(merged_repo(id, Some(body), updated_at), "updated_at"@) == Some(
            text_v::<V>(updated_at),
        ),
        key != "updated_at"@ ==> crate::fields::lookup(merged_repo(id, Some(body), updated_at), key)
            == match crate::fields::last_value(body, key) {
            Some(v) => Some(given_v(v)),
            None => crate::fields::lookup(repo_defaults::<V>(id), key),
        },
        merged_repo::<V>(id, None, updated_at) == repo_defaults::<V>(id),
{
    let applied = crate::fields::upsert_all(repo_defaults::<V>(id), given_all(body));
    crate::fields::lemma_upsert_lookup_same(applied, "updated_at"@, text_v::<V>(updated_at));
    if key != "updated_at"@ {
        crate::fields::lemma_upsert_lookup_other(applied, "updated_at"@, text_v::<V>(updated_at), key);
        crate::fields::lemma_upsert_all_lookup(repo_defaults::<V>(id), given_all(body), key);
        lemma_last_value_given(body, key);
    }
}

fn set_repo_field<V>(fields: &mut Vec<(String, RepoValue<V>)>, key: String, value: RepoValue<V>)
    ensures
        repo_fields_view(final(fields)@) == crate::fields::upsert(
            repo_fields_view(old(fields)@),
            key@,
            repo_value_view(value),
        ),
{
    let ghost before = crate::fields::fields_view(fields@);
    let ghost f = |x: RepoValue<V>| repo_value_view(x);
    let ghost vv = value;
    let ghost kv = key@;
    crate::fields::upsert_field(fields, key, value);
    proof {
        crate::fields::lemma_upsert_map(before, kv, vv, f);
        assert(repo_fields_view(fields@) =~= crate::fields::map_values(
            crate::fields::fields_view(fields@),
            f,
        ));
        assert(repo_fields_view(old(fields)@) =~= crate::fields::map_values(before, f));
    }
}

/// The binding shown after an update of binding `id`, made of the default
/// fields and, when the update is an object, its fields and `updated_at`.
pub fn merge_git_repo_payload<V>(id: &str, body: Option<Vec<(String, V)>>, updated_at: &str) -> (r: Vec<(String, RepoValue<V>)>)
    ensures
        repo_fields_view(r@) == merged_repo(
            id@,
            match body {
                Some(b) => Some(crate::fields::fields_view(b@)),
                None => None,
            },
            updated_at@,
        ),
{
    let mut repo: Vec<(String, RepoValue<V>)> = Vec::new();
    repo.push(("id".to_string(), RepoValue::Text(git_repo_record_id(id))));
    repo.push(("space_slug".to_string(), RepoValue::Text(String::new())));
    repo.push(("github_url".to_string(), RepoValue::Text(String::new())));
    repo.push(("branch".to_string(), RepoValue::Text("main".to_string())));
    repo.push(("direction".to_string(), RepoValue::Text("bidirectional".to_string())));
    repo.push(("auto_sync".to_string(), RepoValue::Flag(false)));
    repo.push(("path_prefix".to_string(), RepoValue::Text("docs/".to_string())));
    repo.push(("status".to_string(), RepoValue::Text("connected".to_string())));
    repo.push(("last_synced_at".to_string(), RepoValue::Null));
    repo.push(("is_deleted".to_string(), RepoValue::Flag(false)));
    assert(repo_fields_view(repo@) =~= repo_defaults::<V>(id@));
    match body {
        Some(b) => {
            let mut rest = b;
            let ghost all = crate::fields::fields_view(rest@);
            let ghost given = given_all(all);
            let n = rest.len();
            let mut i: usize = 0;
            while i < n
                invariant
                    i <= n,
                    n == all.len(),
                    given == given_all(all),
                    crate::fields::fields_view(rest@) == all.skip(i as int),
                    rest@.len() == n - i,
                    repo_fields_view(repo@) == crate::fields::upsert_all(
                        repo_defaults::<V>(id@),
                        given.take(i as int),
                    ),
                decreases n - i,
            {
                assert(rest@.len() == n - i);
                let ghost before = rest@;
                assert(crate::fields::fields_view(before)[0] == all[i as int]);
                let (k, v) = rest.remove(0);
                assert(rest@ =~= before.subrange(1, before.len() as int));
                assert(crate::fields::fields_view(rest@) =~= all.skip(i + 1)) by {
                    assert forall|j: int| 0 <= j < rest@.len() implies #[trigger] crate::fields::fields_view(rest@)[j] == all.skip(i + 1)[j] by {
                        assert(rest@[j] == before[j + 1]);
                        assert(crate::fields::fields_view(before)[j + 1] == all[i + 1 + j]);
                    }
                }
                assert(given.take(i + 1).drop_last() =~= given.take(i as int));
                assert(given.take(i + 1).last() == (k@, repo_value_view(RepoValue::Given(v))));
                set_repo_field(&mut repo, k, RepoValue::Given(v));
                i = i + 1;
            }
            assert(given.take(n as int) =~= given);
            set_repo_field(&mut repo, "updated_at".to_string(), RepoValue::Text(updated_at.to_string()));
        },
        None => {},
    }
    repo
}

} // verus!
