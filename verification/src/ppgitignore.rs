//! The `.ppgitignore` list and the managed block it becomes in each
//! git-dir's `info/exclude`.
use vstd::prelude::*;

use crate::exec::{command, Command};
use crate::text::{
    chars_of, find, find_at_or_after, find_from, find_spec, lemma_find_from, lemma_find_from_first, lines, occurs_at, lines_spec,
    push_char, push_range, str_eq, string_of, string_views, views, decimal, decimal_text, cat3,
    extend_strings, owned, prefix_all, prefixed,
};

verus! {

/// The file listing the paths kept out of the public repository.
pub const PPGITIGNORE: &'static str = ".ppgitignore";

/// The public repository's git-dir.
pub const PUBLIC_GIT_DIR: &'static str = ".git";

/// The private repository's git-dir.
pub const PRIVATE_GIT_DIR: &'static str = ".ppgit";

/// The line that opens the block ppgit manages in an exclude file.
pub const BLOCK_BEGIN: &'static str = "# >>> ppgit: generated from .ppgitignore, do not edit";

/// The line that closes the block ppgit manages in an exclude file.
pub const BLOCK_END: &'static str = "# <<< ppgit";

/// The managed block holding `body`: the begin marker, the body ended by a
/// newline, and the end marker on a line of its own.
pub open spec fn block_spec(body: Seq<char>) -> Seq<char> {
    let head = BLOCK_BEGIN@ + seq!['\n'] + body;
    let head = if head.last() == '\n' {
        head
    } else {
        head.push('\n')
    };
    head + BLOCK_END@ + seq!['\n']
}

/// What precedes a block appended to `existing`: nothing for an empty file,
/// otherwise the file ended by a newline and followed by a blank line.
pub open spec fn append_prefix(existing: Seq<char>) -> Seq<char> {
    if existing.len() == 0 {
        existing
    } else if existing.last() == '\n' {
        existing.push('\n')
    } else {
        existing.push('\n').push('\n')
    }
}

/// Where the existing block starting at `start` ends: after the first end
/// marker at or after `start` and the newline behind it, or at the end of the
/// file when there is no end marker.
pub open spec fn block_stop(existing: Seq<char>, start: int) -> int {
    let after = match find_from(existing, BLOCK_END@, start) {
        Some(off) => off + BLOCK_END@.len(),
        None => existing.len() as int,
    };
    if after < existing.len() && existing[after] == '\n' {
        after + 1
    } else {
        after
    }
}

/// `existing` with ppgit's block replaced by one holding `body`, or with the
/// block appended when there is none.
pub open spec fn managed_spec(existing: Seq<char>, body: Seq<char>) -> Seq<char> {
    match find_spec(existing, BLOCK_BEGIN@) {
        None => append_prefix(existing) + block_spec(body),
        Some(start) => existing.take(start) + block_spec(body) + existing.skip(
            block_stop(existing, start),
        ),
    }
}

/// The managed block holding `body`.
pub fn block_text(body: &str) -> (r: String)
    ensures
        r@ == block_spec(body@),
{
    let b = chars_of(body);
    let mut r = String::new();
    r.append(BLOCK_BEGIN);
    push_char(&mut r, '\n');
    r.append(body);
    let ghost head = BLOCK_BEGIN@ + seq!['\n'] + body@;
    assert(r@ == head);
    if b.len() > 0 && b[b.len() - 1] != '\n' {
        assert(head.last() == b@.last());
        push_char(&mut r, '\n');
    } else {
        assert(head.last() == '\n');
    }
    r.append(BLOCK_END);
    push_char(&mut r, '\n');
    r
}

/// Returns `existing` with ppgit's managed block replaced by one holding
/// `body`, leaving everything outside the markers alone. Appends the block
/// if there isn't one yet; if the begin marker is there but the end marker
/// isn't, everything from the marker on is treated as the block and
/// replaced.
pub fn with_managed_block(existing: &str, body: &str) -> (r: String)
    ensures
        r@ == managed_spec(existing@, body@),
{
    let e = chars_of(existing);
    let begin = chars_of(BLOCK_BEGIN);
    let end = chars_of(BLOCK_END);
    let block = block_text(body);
    match find(e.as_slice(), begin.as_slice()) {
        None => {
            let mut r = String::new();
            push_range(&mut r, e.as_slice(), 0, e.len());
            assert(e@.subrange(0, e@.len() as int) =~= e@);
            if e.len() > 0 {
                if e[e.len() - 1] != '\n' {
                    push_char(&mut r, '\n');
                }
                push_char(&mut r, '\n');
            }
            r.append(block.as_str());
            r
        },
        Some(start) => {
            let after0 = match find_at_or_after(e.as_slice(), end.as_slice(), start) {
                Some(off) => {
                    proof {
                        lemma_find_from(e@, end@, start as int);
                        assert(find_from(e@, end@, start as int) == Some(off as int));
                        assert(occurs_at(e@, end@, off as int));
                        assert(off + end@.len() <= e@.len());
                    }
                    let l = end.len();
                    assert(off + l <= e.len());
                    off + l
                },
                None => e.len(),
            };
            let after = if after0 < e.len() && e[after0] == '\n' {
                after0 + 1
            } else {
                after0
            };
            proof {
                lemma_find_from(e@, begin@, 0);
            }
            let mut r = String::new();
            push_range(&mut r, e.as_slice(), 0, start);
            r.append(block.as_str());
            push_range(&mut r, e.as_slice(), after, e.len());
            assert(e@.subrange(0, start as int) =~= e@.take(start as int));
            assert(e@.subrange(after as int, e@.len() as int) =~= e@.skip(after as int));
            r
        },
    }
}

/// What an exclude file should become, if anything: the file with its block
/// holding `body`, or `None` when that is what it already holds, so that an
/// unchanged file is not rewritten.
pub open spec fn exclude_update_spec(existing: Seq<char>, body: Seq<char>) -> Option<Seq<char>> {
    let updated = managed_spec(existing, body);
    if updated == existing {
        None
    } else {
        Some(updated)
    }
}

/// An optional string, by its characters.
pub open spec fn opt_view(o: Option<String>) -> Option<Seq<char>> {
    match o {
        Some(s) => Some(s@),
        None => None,
    }
}

/// The new contents of an exclude file whose contents are `existing`, or
/// `None` when the managed block already holds `body`.
pub fn exclude_update(existing: &str, body: &str) -> (r: Option<String>)
    ensures
        opt_view(r) == exclude_update_spec(existing@, body@),
{
    let updated = with_managed_block(existing, body);
    if str_eq(updated.as_str(), existing) {
        None
    } else {
        Some(updated)
    }
}

/// The block body for the public git-dir: it hides the private git-dir, the
/// private list itself, and everything the list names, copied verbatim.
pub open spec fn public_body_spec(list: Seq<char>) -> Seq<char> {
    seq!['/'] + PRIVATE_GIT_DIR@ + seq!['/', '\n', '/'] + PPGITIGNORE@ + seq!['\n'] + list
}

/// The block body for the private git-dir: only its own git-dir is hidden.
pub open spec fn private_body_spec() -> Seq<char> {
    seq!['/'] + PRIVATE_GIT_DIR@ + seq!['/', '\n']
}

/// The block body for the public git-dir, given the `.ppgitignore` contents.
pub fn public_body(list: &str) -> (r: String)
    ensures
        r@ == public_body_spec(list@),
{
    let mut r = String::new();
    push_char(&mut r, '/');
    r.append(PRIVATE_GIT_DIR);
    push_char(&mut r, '/');
    push_char(&mut r, '\n');
    push_char(&mut r, '/');
    r.append(PPGITIGNORE);
    push_char(&mut r, '\n');
    r.append(list);
    assert(r@ =~= public_body_spec(list@));
    r
}

/// The block body for the private git-dir.
pub fn private_body() -> (r: String)
    ensures
        r@ == private_body_spec(),
{
    let mut r = String::new();
    push_char(&mut r, '/');
    r.append(PRIVATE_GIT_DIR);
    push_char(&mut r, '/');
    push_char(&mut r, '\n');
    assert(r@ =~= private_body_spec());
    r
}

/// The rewrites of the two exclude files, each `None` when that file is to
/// be left as it is.
pub struct ExcludeWrites {
    pub public: Option<String>,
    pub private: Option<String>,
}

/// Works out both git-dirs' exclude files from `.ppgitignore`: the public
/// one's block hides the private git-dir, the list itself and everything
/// the list names; the private one's hides only the private git-dir. A file
/// whose block is already right is not to be rewritten.
pub fn sync_excludes(list: &str, public_existing: &str, private_existing: &str) -> (r:
    ExcludeWrites)
    ensures
        opt_view(r.public) == exclude_update_spec(public_existing@, public_body_spec(list@)),
        opt_view(r.private) == exclude_update_spec(private_existing@, private_body_spec()),
{
    let public = public_body(list);
    let private = private_body();
    ExcludeWrites {
        public: exclude_update(public_existing, public.as_str()),
        private: exclude_update(private_existing, private.as_str()),
    }
}

/// The query for files the public repository tracks although the active
/// exclude rules match them: `git ls-files -i -c --exclude-standard`, which
/// is exactly that question, asked of git rather than matched by hand.
pub open spec fn tracked_listing_spec() -> (Seq<char>, Seq<Seq<char>>) {
    ("git"@, seq!["ls-files"@, "-i"@, "-c"@, "--exclude-standard"@])
}

/// The command line of `tracked_listing_spec`, to be run quietly.
pub fn tracked_listing_command() -> (c: Command)
    ensures
        c@ == tracked_listing_spec(),
{
    let args = vec![owned("ls-files"), owned("-i"), owned("-c"), owned("--exclude-standard")];
    assert(string_views(args@) =~= seq!["ls-files"@, "-i"@, "-c"@, "--exclude-standard"@]);
    command("git", args)
}

/// The non-empty lines of `listing`.
pub open spec fn nonempty_lines(listing: Seq<char>) -> Seq<Seq<char>> {
    lines_spec(listing).filter(|l: Seq<char>| l.len() > 0)
}

/// The paths in the output of `git ls-files -i -c --exclude-standard`: its
/// non-empty lines.
pub fn tracked_but_ignored(listing: &str) -> (r: Vec<String>)
    ensures
        string_views(r@) == nonempty_lines(listing@),
{
    let l = chars_of(listing);
    let all = lines(l.as_slice());
    let ghost ls = views(all@);
    let ghost pred = |x: Seq<char>| x.len() > 0;
    let mut r: Vec<String> = Vec::new();
    let mut i: usize = 0;
    while i < all.len()
        invariant
            0 <= i <= all.len(),
            ls == views(all@),
            pred == (|x: Seq<char>| x.len() > 0),
            string_views(r@) == ls.take(i as int).filter(pred),
        decreases all.len() - i,
    {
        let ghost before = string_views(r@);
        proof {
            assert(ls.take(i + 1) =~= ls.take(i as int).push(ls[i as int]));
            ls.take(i as int).lemma_filter_push(ls[i as int], pred);
        }
        if all[i].len() > 0 {
            let s = string_of(all[i].as_slice());
            r.push(s);
            assert(string_views(r@) =~= before.push(s@));
        } else {
            assert(string_views(r@) =~= before);
        }
        i += 1;
    }
    assert(ls.take(all.len() as int) =~= ls);
    r
}

// ---------------------------------------------------------------------------
// Laws of the managed block
// ---------------------------------------------------------------------------

/// The facts about the two markers that the laws rest on: each starts with
/// `#`, holds no other `#` and no newline, and they differ in their third
/// character.
proof fn lemma_markers()
    ensures
        BLOCK_BEGIN@.len() == 53,
        BLOCK_END@.len() == 11,
        BLOCK_BEGIN@[0] == '#',
        BLOCK_END@[0] == '#',
        BLOCK_BEGIN@[2] == '>',
        BLOCK_END@[2] == '<',
        forall|i: int| 1 <= i < 53 ==> BLOCK_BEGIN@[i] != '#',
        forall|i: int| 0 <= i < 53 ==> BLOCK_BEGIN@[i] != '\n',
        forall|i: int| 1 <= i < 11 ==> BLOCK_END@[i] != '#',
        forall|i: int| 0 <= i < 11 ==> BLOCK_END@[i] != '\n',
{
    reveal_strlit("# >>> ppgit: generated from .ppgitignore, do not edit");
    reveal_strlit("# <<< ppgit");
}

/// The length of the body part of a block, newline included.
spec fn body_part_len(body: Seq<char>) -> int {
    if body.len() == 0 || body.last() == '\n' {
        body.len() as int
    } else {
        body.len() + 1int
    }
}

/// The layout of a block: begin marker, newline, body part, end marker,
/// newline.
proof fn lemma_block_layout(body: Seq<char>)
    ensures
        block_spec(body).len() == 53 + 1 + body_part_len(body) + 11 + 1,
        block_spec(body).subrange(0, 53) == BLOCK_BEGIN@,
        block_spec(body)[53] == '\n',
        forall|k: int| 0 <= k < body.len() ==> block_spec(body)[54 + k] == body[k],
        body_part_len(body) > body.len() ==> block_spec(body)[54 + body.len() as int] == '\n',
        block_spec(body).subrange(
            54 + body_part_len(body),
            54 + body_part_len(body) + 11,
        ) == BLOCK_END@,
        block_spec(body)[54 + body_part_len(body) + 11] == '\n',
{
    lemma_markers();
    let head = BLOCK_BEGIN@ + seq!['\n'] + body;
    let head2 = if head.last() == '\n' {
        head
    } else {
        head.push('\n')
    };
    assert(head2.len() == 54 + body_part_len(body));
    assert(block_spec(body) == head2 + BLOCK_END@ + seq!['\n']);
    assert(block_spec(body).subrange(0, 53) =~= BLOCK_BEGIN@);
    assert(block_spec(body).subrange(54 + body_part_len(body), 54 + body_part_len(body) + 11)
        =~= BLOCK_END@);
}

/// In `p + block_spec(body) + s`, where `p` holds no whole begin marker, the
/// first begin marker is the block's own.
proof fn lemma_first_begin(p: Seq<char>, body: Seq<char>, s: Seq<char>)
    requires
        forall|q: int| q + 53 <= p.len() ==> !occurs_at(p, BLOCK_BEGIN@, q),
    ensures
        find_spec(p + block_spec(body) + s, BLOCK_BEGIN@) == Some(p.len() as int),
{
    lemma_markers();
    lemma_block_layout(body);
    let b = block_spec(body);
    let r = p + b + s;
    let n = p.len() as int;
    assert(b.subrange(0, 53)[0] == b[0]);
    assert(r[n] == b[0]);
    assert(r.subrange(n, n + 53) =~= b.subrange(0, 53));
    assert forall|q: int| 0 <= q < n implies !occurs_at(r, BLOCK_BEGIN@, q) by {
        if occurs_at(r, BLOCK_BEGIN@, q) {
            if q + 53 <= n {
                assert(p.subrange(q, q + 53) =~= r.subrange(q, q + 53));
                assert(occurs_at(p, BLOCK_BEGIN@, q));
                assert(false);
            } else {
                let k = n - q;
                assert(1 <= k < 53);
                assert(r.subrange(q, q + 53)[k] == r[q + k]);
                assert(r.subrange(q, q + 53) == BLOCK_BEGIN@);
                assert(BLOCK_BEGIN@[k] == '#');
                assert(false);
            }
        }
    }
    lemma_find_from_first(r, BLOCK_BEGIN@, 0, n);
}

/// Inside a block whose body holds no end marker, the first end marker is
/// the block's own.
proof fn lemma_block_no_early_end(body: Seq<char>)
    requires
        forall|q: int| !occurs_at(body, BLOCK_END@, q),
    ensures
        forall|q: int|
            0 <= q < 54 + body_part_len(body) ==> !occurs_at(block_spec(body), BLOCK_END@, q),
{
    lemma_markers();
    lemma_block_layout(body);
    let b = block_spec(body);
    let m = 54 + body_part_len(body);
    assert(b.subrange(0, 53)[2] == b[2]);
    assert(b.subrange(m, m + 11)[0] == b[m]);
    assert forall|q: int| 0 <= q < m implies !occurs_at(b, BLOCK_END@, q) by {
        if occurs_at(b, BLOCK_END@, q) {
            assert(b.subrange(q, q + 11)[0] == b[q]);
            if q < 53 {
                assert(b.subrange(0, 53)[q] == b[q]);
                if q == 0 {
                    assert(b.subrange(q, q + 11)[2] == b[q + 2]);
                }
            } else if q == 53 {
            } else if q + 11 <= 54 + body.len() {
                lemma_body_occurrence(body, b, q);
            } else if q + 11 <= m {
                let k = 54 + body.len() - q;
                assert(b.subrange(q, q + 11)[k] == b[q + k]);
            } else {
                let k = m - q;
                assert(b.subrange(q, q + 11)[k] == b[q + k]);
            }
        }
    }
}

/// An end marker lying wholly inside the body part of a block lies in the
/// body.
proof fn lemma_body_occurrence(body: Seq<char>, b: Seq<char>, q: int)
    requires
        b == block_spec(body),
        54 <= q,
        q + 11 <= 54 + body.len(),
        occurs_at(b, BLOCK_END@, q),
    ensures
        occurs_at(body, BLOCK_END@, q - 54),
{
    lemma_markers();
    lemma_block_layout(body);
    let j = q - 54;
    assert forall|k: int| 0 <= k < 11 implies body.subrange(j, j + 11)[k] == BLOCK_END@[k] by {
        assert(b.subrange(q, q + 11)[k] == b[q + k]);
    }
    assert(body.subrange(j, j + 11) =~= BLOCK_END@);
}

/// In `p + block_spec(body) + s`, where the body holds no end marker, the
/// block stops right after its closing newline.
proof fn lemma_block_stop(p: Seq<char>, body: Seq<char>, s: Seq<char>)
    requires
        forall|q: int| !occurs_at(body, BLOCK_END@, q),
    ensures
        block_stop(p + block_spec(body) + s, p.len() as int) == p.len() + block_spec(body).len(),
{
    lemma_markers();
    lemma_block_layout(body);
    lemma_block_no_early_end(body);
    let b = block_spec(body);
    let r = p + b + s;
    let n = p.len() as int;
    let m = 54 + body_part_len(body);
    assert forall|q: int| n <= q < n + m implies !occurs_at(r, BLOCK_END@, q) by {
        assert(r.subrange(q, q + 11) =~= b.subrange(q - n, q - n + 11));
        assert(!occurs_at(b, BLOCK_END@, q - n));
    }
    assert(r.subrange(n + m, n + m + 11) =~= b.subrange(m, m + 11));
    lemma_find_from_first(r, BLOCK_END@, n, n + m);
    assert(r[n + m + 11] == b[m + 11]);
}

/// Whether `s` holds the end marker anywhere.
pub open spec fn has_end_marker(s: Seq<char>) -> bool {
    find_spec(s, BLOCK_END@) is Some
}

/// The result of the rewrite, split as prefix, block and suffix.
proof fn lemma_managed_shape(existing: Seq<char>, body: Seq<char>) -> (ps: (Seq<char>, Seq<char>))
    ensures
        managed_spec(existing, body) == ps.0 + block_spec(body) + ps.1,
        forall|b: Seq<char>| #[trigger] managed_spec(existing, b) == ps.0 + block_spec(b) + ps.1,
        forall|q: int| q + 53 <= ps.0.len() ==> !occurs_at(ps.0, BLOCK_BEGIN@, q),
{
    lemma_markers();
    lemma_find_from(existing, BLOCK_BEGIN@, 0);
    match find_spec(existing, BLOCK_BEGIN@) {
        None => {
            let p = append_prefix(existing);
            let e = Seq::<char>::empty();
            assert forall|b: Seq<char>| #[trigger] managed_spec(existing, b) == p + block_spec(b) + e by {
                assert(managed_spec(existing, b) =~= p + block_spec(b) + e);
            }
            assert forall|q: int| q + 53 <= p.len() implies !occurs_at(p, BLOCK_BEGIN@, q) by {
                if occurs_at(p, BLOCK_BEGIN@, q) {
                    if q + 53 <= existing.len() {
                        assert(existing.subrange(q, q + 53) =~= p.subrange(q, q + 53));
                        assert(occurs_at(existing, BLOCK_BEGIN@, q));
                    } else {
                        let k = existing.len() - q;
                        assert(p[existing.len() as int] == '\n');
                        assert(p.subrange(q, q + 53)[k] == p[q + k]);
                    }
                }
            }
            (p, e)
        },
        Some(start) => {
            let p = existing.take(start);
            let s = existing.skip(block_stop(existing, start));
            assert forall|q: int| q + 53 <= p.len() implies !occurs_at(p, BLOCK_BEGIN@, q) by {
                if occurs_at(p, BLOCK_BEGIN@, q) {
                    assert(existing.subrange(q, q + 53) =~= p.subrange(q, q + 53));
                    assert(occurs_at(existing, BLOCK_BEGIN@, q));
                }
            }
            (p, s)
        },
    }
}

/// Once the block holds `body`, the first begin marker in the file opens
/// exactly the block holding `body`.
pub proof fn lemma_managed_holds_block(existing: Seq<char>, body: Seq<char>)
    ensures
        ({
            let r = managed_spec(existing, body);
            match find_spec(r, BLOCK_BEGIN@) {
                Some(p) => p + block_spec(body).len() <= r.len() && r.subrange(
                    p,
                    p + block_spec(body).len(),
                ) == block_spec(body),
                None => false,
            }
        }),
{
    let (p, s) = lemma_managed_shape(existing, body);
    lemma_first_begin(p, body, s);
    let r = p + block_spec(body) + s;
    assert(r.subrange(p.len() as int, p.len() + block_spec(body).len() as int) =~= block_spec(body));
}

/// Rewriting the block with the same body a second time changes nothing,
/// as long as the body does not itself contain the end marker.
pub proof fn lemma_managed_idempotent(existing: Seq<char>, body: Seq<char>)
    requires
        !has_end_marker(body),
    ensures
        managed_spec(managed_spec(existing, body), body) == managed_spec(existing, body),
{
    lemma_find_from(body, BLOCK_END@, 0);
    let (p, s) = lemma_managed_shape(existing, body);
    lemma_first_begin(p, body, s);
    lemma_block_stop(p, body, s);
    let r = p + block_spec(body) + s;
    assert(r.take(p.len() as int) =~= p);
    assert(r.skip(p.len() + block_spec(body).len() as int) =~= s);
    assert(managed_spec(r, body) =~= r);
}

/// Rewriting the block with one body and then with another comes to a
/// single rewrite with the second, as long as the first body does not
/// contain the end marker: whatever the previous sync left in the block,
/// the next one replaces all of it and nothing else.
pub proof fn lemma_managed_rewrite(existing: Seq<char>, first: Seq<char>, second: Seq<char>)
    requires
        !has_end_marker(first),
    ensures
        managed_spec(managed_spec(existing, first), second) == managed_spec(existing, second),
{
    lemma_find_from(first, BLOCK_END@, 0);
    let (p, s) = lemma_managed_shape(existing, first);
    assert(managed_spec(existing, second) == p + block_spec(second) + s);
    lemma_first_begin(p, first, s);
    lemma_block_stop(p, first, s);
    let r = p + block_spec(first) + s;
    assert(r.take(p.len() as int) =~= p);
    assert(r.skip(p.len() + block_spec(first).len() as int) =~= s);
    assert(managed_spec(r, second) =~= p + block_spec(second) + s);
}

/// Once written, an exclude file is left alone by the next update with the
/// same body, as long as the body does not contain the end marker.
pub proof fn lemma_update_settles(existing: Seq<char>, body: Seq<char>)
    requires
        !has_end_marker(body),
    ensures
        exclude_update_spec(managed_spec(existing, body), body) is None,
{
    lemma_managed_idempotent(existing, body);
}

/// A `.ppgitignore` without the end marker gives a public block body without
/// it, and the private block body never holds it.
proof fn lemma_bodies_unmarked(list: Seq<char>)
    requires
        !has_end_marker(list),
    ensures
        !has_end_marker(public_body_spec(list)),
        !has_end_marker(private_body_spec()),
{
    lemma_markers();
    reveal_strlit(".ppgit");
    reveal_strlit(".ppgitignore");
    lemma_find_from(list, BLOCK_END@, 0);
    let b = public_body_spec(list);
    let head = seq!['/'] + PRIVATE_GIT_DIR@ + seq!['/', '\n', '/'] + PPGITIGNORE@ + seq!['\n'];
    assert(head.len() == 23);
    assert(b =~= head + list);
    assert forall|k: int| 0 <= k < 23 implies head[k] != '#' by {}
    assert forall|q: int| !occurs_at(b, BLOCK_END@, q) by {
        if occurs_at(b, BLOCK_END@, q) {
            assert(b.subrange(q, q + 11)[0] == b[q]);
            if q >= 23 {
                assert(list.subrange(q - 23, q - 23 + 11) =~= b.subrange(q, q + 11));
                assert(occurs_at(list, BLOCK_END@, q - 23));
            }
        }
    }
    lemma_find_from(b, BLOCK_END@, 0);
    let pb = private_body_spec();
    assert(pb.len() == 9);
    assert forall|k: int| 0 <= k < 9 implies pb[k] != '#' by {}
    assert forall|q: int| !occurs_at(pb, BLOCK_END@, q) by {
        if occurs_at(pb, BLOCK_END@, q) {
            assert(pb.subrange(q, q + 11)[0] == pb[q]);
        }
    }
    lemma_find_from(pb, BLOCK_END@, 0);
}

/// What an exclude file holds after its update has been written.
pub open spec fn after_update(existing: Seq<char>, update: Option<Seq<char>>) -> Seq<char> {
    match update {
        Some(u) => u,
        None => existing,
    }
}

/// Syncing twice in a row writes nothing the second time, as long as the
/// `.ppgitignore` list does not contain the end marker: running this on
/// every invocation does not churn the exclude files.
pub proof fn lemma_sync_settles(list: Seq<char>, public_existing: Seq<char>, private_existing: Seq<
    char,
>)
    requires
        !has_end_marker(list),
    ensures
        exclude_update_spec(
            after_update(
                public_existing,
                exclude_update_spec(public_existing, public_body_spec(list)),
            ),
            public_body_spec(list),
        ) is None,
        exclude_update_spec(
            after_update(private_existing, exclude_update_spec(private_existing, private_body_spec())),
            private_body_spec(),
        ) is None,
{
    lemma_bodies_unmarked(list);
    lemma_update_settles(public_existing, public_body_spec(list));
    lemma_update_settles(private_existing, private_body_spec());
}

/// The warning about files the public repository still tracks although
/// `.ppgitignore` lists them, with the commands that fix it.
pub open spec fn tracked_warning_spec(paths: Seq<Seq<char>>) -> Seq<Seq<char>> {
    seq![
        "ppgit: warning: the public repository still tracks "@ + decimal(paths.len())
            + " file(s) listed in "@ + PPGITIGNORE@ + ":"@,
    ] + prefixed("    "@, paths) + seq![
        "  Listing a path only hides it while it's untracked — these were committed"@,
        "  publicly first, so they keep going out with every push. To untrack them"@,
        "  (keeping the files on disk, and in the private repository):"@,
    ] + prefixed("    git rm --cached -- "@, paths) + seq![
        "  then commit that removal to the public repository."@,
    ]
}

/// Explains a `tracked_but_ignored` result and how to fix it: excluding a
/// path only stops git picking it up while it is untracked, so anything
/// committed publicly before it was listed keeps going out with every push.
pub fn warn_tracked_but_ignored(paths: &[String]) -> (r: Vec<String>)
    ensures
        string_views(r@) == tracked_warning_spec(string_views(paths@)),
{
    let count = decimal_text(paths.len() as u64);
    let mut first = cat3("ppgit: warning: the public repository still tracks ", count.as_str(), " file(s) listed in ");
    first.append(PPGITIGNORE);
    first.append(":");
    let mut r = vec![first];
    let ghost r0 = string_views(r@);
    extend_strings(&mut r, prefix_all("    ", paths));
    let middle = vec![
        owned("  Listing a path only hides it while it's untracked — these were committed"),
        owned("  publicly first, so they keep going out with every push. To untrack them"),
        owned("  (keeping the files on disk, and in the private repository):"),
    ];
    let ghost m = string_views(middle@);
    extend_strings(&mut r, middle);
    extend_strings(&mut r, prefix_all("    git rm --cached -- ", paths));
    let last = vec![owned("  then commit that removal to the public repository.")];
    let ghost z = string_views(last@);
    extend_strings(&mut r, last);
    assert(r0 =~= seq![
        "ppgit: warning: the public repository still tracks "@ + decimal(paths@.len())
            + " file(s) listed in "@ + PPGITIGNORE@ + ":"@,
    ]);
    assert(m =~= seq![
        "  Listing a path only hides it while it's untracked — these were committed"@,
        "  publicly first, so they keep going out with every push. To untrack them"@,
        "  (keeping the files on disk, and in the private repository):"@,
    ]);
    assert(z =~= seq!["  then commit that removal to the public repository."@]);
    r
}


/// Lines of its own in an exclude file are left alone: what comes before
/// ppgit's block stays in front of the new block, and what comes after the
/// old block stays behind it; with no block yet, the whole file is kept and
/// the block appended.
pub proof fn lemma_managed_keeps_own_lines(existing: Seq<char>, body: Seq<char>)
    ensures
        match find_spec(existing, BLOCK_BEGIN@) {
            None => existing.is_prefix_of(managed_spec(existing, body)),
            Some(start) => existing.take(start).is_prefix_of(managed_spec(existing, body))
                && existing.skip(block_stop(existing, start)).is_suffix_of(managed_spec(existing, body)),
        },
{
    let r = managed_spec(existing, body);
    match find_spec(existing, BLOCK_BEGIN@) {
        None => {
            let p = append_prefix(existing);
            assert(p.subrange(0, existing.len() as int) =~= existing);
            assert(r.subrange(0, existing.len() as int) =~= existing);
        },
        Some(start) => {
            let p = existing.take(start);
            let s = existing.skip(block_stop(existing, start));
            assert(r.subrange(0, p.len() as int) =~= p);
            assert(r.subrange(r.len() - s.len(), r.len() as int) =~= s);
        },
    }
}

} // verus!
