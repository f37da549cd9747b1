//! Session discovery and loading. The caller reads directories and files
//! and hands their contents in as plain values: one `ProjectListing` per
//! project directory, one `SessionFile` per file. Discovery keeps the files
//! whose name ends in `.jsonl`, scans each, and returns an inventory sorted
//! by updated time descending, entries without an updated time last. Loading
//! decodes every non-empty line of one file, skipping lines that fail to
//! decode; the ranged reader returns a page of the non-empty lines.

use vstd::prelude::*;
use vstd::seq_lib::lemma_multiset_commutative;
use vstd::multiset::Multiset;
use crate::scan::{
    lines_view,
    count_nonempty,
    sp_first_field,
    sp_first_ts,
    sp_last_ts,
    sp_first_message,
};
use crate::events::{Event, opt_str_view, event_matches, sp_decode_err};
use crate::json::sp_parse_text;

verus! {

/// One file of a project directory: its file name, its full path, and its
/// lines.
#[derive(Debug, PartialEq)]
pub struct SessionFile {
    pub name: String,
    pub path: String,
    pub lines: Vec<String>,
}

/// One project directory: its name and its immediate files.
#[derive(Debug, PartialEq)]
pub struct ProjectListing {
    pub name: String,
    pub files: Vec<SessionFile>,
}

/// Metadata about a discovered session, without loading all events.
#[derive(Debug, PartialEq)]
pub struct SessionInfo {
    pub id: String,
    pub project: String,
    pub path: String,
    pub slug: Option<String>,
    pub created_at: Option<i64>,
    pub updated_at: Option<i64>,
    pub message_count: usize,
    pub first_message: Option<String>,
    /// The real project directory path, extracted from the `cwd` field.
    pub project_path: Option<String>,
}

/// The file name ends in `.jsonl`, with a non-empty stem.
pub open spec fn is_jsonl_name(name: Seq<char>) -> bool {
    name.len() > ".jsonl"@.len() && name.subrange(
        name.len() - ".jsonl"@.len(),
        name.len() as int,
    ) == ".jsonl"@
}

/// The session identifier derived from a file name: the name without its
/// `.jsonl` ending.
pub open spec fn sp_stem(name: Seq<char>) -> Seq<char> {
    name.subrange(0, name.len() - ".jsonl"@.len())
}

/// `info` is the summary of file `f` of the named project: identifier from
/// the file name, and every metadata field as the scanner defines it.
pub open spec fn info_matches(info: SessionInfo, project_name: Seq<char>, f: SessionFile) -> bool {
    let lv = lines_view(f.lines@);
    &&& is_jsonl_name(f.name@)
    &&& info.id@ == sp_stem(f.name@)
    &&& info.project@ == project_name
    &&& info.path@ == f.path@
    &&& opt_str_view(info.slug) == sp_first_field(lv, "slug"@)
    &&& info.created_at == sp_first_ts(lv)
    &&& info.updated_at == sp_last_ts(lv)
    &&& info.message_count == count_nonempty(lv)
    &&& opt_str_view(info.first_message) == sp_first_message(lv)
    &&& opt_str_view(info.project_path) == sp_first_field(lv, "cwd"@)
}

/// The files of a directory whose name marks them as session files.
pub open spec fn sp_jsonl_files(files: Seq<SessionFile>) -> Seq<SessionFile> {
    files.filter(|f: SessionFile| is_jsonl_name(f.name@))
}

/// The session files of one project, in directory order.
pub open spec fn sp_project_entries(p: ProjectListing) -> Seq<(Seq<char>, SessionFile)> {
    sp_jsonl_files(p.files@).map_values(|f: SessionFile| (p.name@, f))
}

/// All session files under the root, project by project.
pub open spec fn sp_all_entries(ps: Seq<ProjectListing>) -> Seq<(Seq<char>, SessionFile)>
    decreases ps.len(),
{
    if ps.len() == 0 {
        Seq::empty()
    } else {
        sp_all_entries(ps.drop_last()) + sp_project_entries(ps.last())
    }
}

/// Ordering of inventory entries: by updated time, an absent time below
/// every present one.
pub open spec fn key_ge(a: Option<i64>, b: Option<i64>) -> bool {
    match (a, b) {
        (Some(x), Some(y)) => x >= y,
        (Some(_), None) => true,
        (None, Some(_)) => false,
        (None, None) => true,
    }
}

/// The inventory is sorted by updated time descending.
pub open spec fn sorted_desc(s: Seq<SessionInfo>) -> bool {
    forall|i: int, j: int| 0 <= i < j < s.len() ==> key_ge(s[i].updated_at, s[j].updated_at)
}

fn key_ge_exec(a: &Option<i64>, b: &Option<i64>) -> (r: bool)
    ensures
        r == key_ge(*a, *b),
{
    match (a, b) {
        (Some(x), Some(y)) => *x >= *y,
        (Some(_), None) => true,
        (None, Some(_)) => false,
        (None, None) => true,
    }
}

/// Whether the file name ends in `.jsonl` with a non-empty stem.
fn is_jsonl(name: &str) -> (r: bool)
    ensures
        r == is_jsonl_name(name@),
{
    let chars = crate::text::str_to_chars(name);
    let sfx = crate::text::str_to_chars(".jsonl");
    let n = chars.len();
    if n <= sfx.len() {
        return false;
    }
    let r = crate::text::eq_at(&chars, &sfx, n - sfx.len());
    proof {
        assert(crate::text::matches_at(name@, ".jsonl"@, name@.len() - ".jsonl"@.len())
            == is_jsonl_name(name@));
    }
    r
}

/// Summarize one file of a project: `Some` exactly for session files, those
/// whose name ends in `.jsonl`.
pub fn scan_project_file(project_name: &str, f: &SessionFile) -> (r: Option<SessionInfo>)
    ensures
        match r {
            Some(info) => info_matches(info, project_name@, *f) && is_jsonl_name(f.name@),
            None => !is_jsonl_name(f.name@),
        },
{
    if !is_jsonl(f.name.as_str()) {
        return None;
    }
    let name_chars = crate::text::str_to_chars(f.name.as_str());
    let sfx = crate::text::str_to_chars(".jsonl");
    let stem = crate::text::copy_range(&name_chars, 0, name_chars.len() - sfx.len());
    let id = crate::text::chars_to_string(&stem);
    let meta = crate::scan::scan_session_metadata(&f.lines);
    Some(
        SessionInfo {
            id,
            project: crate::text::chars_to_string(&crate::text::str_to_chars(project_name)),
            path: f.path.clone(),
            slug: meta.slug,
            created_at: meta.first_timestamp,
            updated_at: meta.last_timestamp,
            message_count: meta.line_count,
            first_message: meta.first_message,
            project_path: meta.project_path,
        },
    )
}

fn collect_sessions(projects: &Vec<ProjectListing>) -> (r: Vec<SessionInfo>)
    ensures
        r@.len() == sp_all_entries(projects@).len(),
        forall|k: int|
            0 <= k < r@.len() ==> info_matches(
                r@[k],
                sp_all_entries(projects@)[k].0,
                sp_all_entries(projects@)[k].1,
            ),
{
    let ghost ps = projects@;
    let np = projects.len();
    let mut out: Vec<SessionInfo> = Vec::new();
    let mut i: usize = 0;
    proof {
        assert(ps.take(0) =~= Seq::<ProjectListing>::empty());
    }
    while i < np
        invariant
            ps == projects@,
            np == ps.len(),
            i <= np,
            out@.len() == sp_all_entries(ps.take(i as int)).len(),
            forall|k: int|
                0 <= k < out@.len() ==> info_matches(
                    out@[k],
                    sp_all_entries(ps.take(i as int))[k].0,
                    sp_all_entries(ps.take(i as int))[k].1,
                ),
        decreases np - i,
    {
        let p = &projects[i];
        let nf = p.files.len();
        let mut j: usize = 0;
        proof {
            reveal(Seq::filter);
            assert(p.files@.take(0) =~= Seq::<SessionFile>::empty());
            assert(sp_jsonl_files(p.files@.take(0)) =~= Seq::<SessionFile>::empty());
        }
        while j < nf
            invariant
                ps == projects@,
                np == ps.len(),
                i < np,
                *p == ps[i as int],
                nf == p.files@.len(),
                j <= nf,
                out@.len() == sp_all_entries(ps.take(i as int)).len() + sp_jsonl_files(
                    p.files@.take(j as int),
                ).len(),
                forall|k: int|
                    0 <= k < sp_all_entries(ps.take(i as int)).len() ==> info_matches(
                        out@[k],
                        sp_all_entries(ps.take(i as int))[k].0,
                        sp_all_entries(ps.take(i as int))[k].1,
                    ),
                forall|k: int|
                    sp_all_entries(ps.take(i as int)).len() <= k < out@.len() ==> info_matches(
                        out@[k],
                        p.name@,
                        sp_jsonl_files(p.files@.take(j as int))[k - sp_all_entries(
                            ps.take(i as int),
                        ).len()],
                    ),
            decreases nf - j,
        {
            proof {
                reveal(Seq::filter);
                assert(p.files@.take(j as int + 1).drop_last() =~= p.files@.take(j as int));
                assert(p.files@.take(j as int + 1).last() == p.files@[j as int]);
                assert(sp_jsonl_files(p.files@.take(j as int + 1)) == (if is_jsonl_name(
                    p.files@[j as int].name@,
                ) {
                    sp_jsonl_files(p.files@.take(j as int)).push(p.files@[j as int])
                } else {
                    sp_jsonl_files(p.files@.take(j as int))
                }));
            }
            let f = &p.files[j];
            match scan_project_file(p.name.as_str(), f) {
                Some(info) => {
                    out.push(info);
                },
                None => {
                },
            }
            j += 1;
        }
        proof {
            assert(p.files@.take(nf as int) =~= p.files@);
            assert(ps.take(i as int + 1).drop_last() =~= ps.take(i as int));
            assert(ps.take(i as int + 1).last() == ps[i as int]);
            // the project's entries pair each kept file with the project name
            let kept = sp_jsonl_files(p.files@);
            let entries = sp_project_entries(ps[i as int]);
            assert(entries.len() == kept.len());
            assert(forall|m: int| 0 <= m < kept.len() ==> entries[m] == (p.name@, kept[m]));
            assert(sp_all_entries(ps.take(i as int + 1)) == sp_all_entries(ps.take(i as int))
                + entries);
        }
        i += 1;
    }
    proof {
        assert(ps.take(np as int) =~= ps);
    }
    out
}

fn sort_by_updated(input: Vec<SessionInfo>) -> (r: Vec<SessionInfo>)
    ensures
        sorted_desc(r@),
        r@.to_multiset() == input@.to_multiset(),
        r@.len() == input@.len(),
{
    let ghost orig = input@;
    let mut rest = input;
    let mut out: Vec<SessionInfo> = Vec::new();
    proof {
        broadcast use vstd::seq_lib::group_to_multiset_ensures;

        assert(out@.to_multiset() =~= Multiset::<SessionInfo>::empty());
    }
    while rest.len() > 0
        invariant
            sorted_desc(out@),
            out@.to_multiset().add(rest@.to_multiset()) == orig.to_multiset(),
            out@.len() + rest@.len() == orig.len(),
        decreases rest@.len(),
    {
        proof {
            broadcast use vstd::seq_lib::group_to_multiset_ensures;

        }
        let x = rest.remove(0);
        let n = out.len();
        let mut pos: usize = 0;
        while pos < n && key_ge_exec(&out[pos].updated_at, &x.updated_at)
            invariant
                n == out@.len(),
                pos <= n,
                forall|m: int| 0 <= m < pos ==> key_ge(out@[m].updated_at, x.updated_at),
            decreases n - pos,
        {
            pos += 1;
        }
        proof {
            assert(pos < n ==> !key_ge(out@[pos as int].updated_at, x.updated_at));
        }
        let ghost before = out@;
        out.insert(pos, x);
        proof {
            broadcast use vstd::seq_lib::group_to_multiset_ensures;

            // sortedness of the new sequence
            assert(out@ == before.insert(pos as int, x));
            before.insert_ensures(pos as int, x);
            assert forall|a: int, b: int|
                0 <= a < b < out@.len() implies key_ge(
                out@[a].updated_at,
                out@[b].updated_at,
            ) by {
                if a < pos && b < pos {
                    assert(out@[a] == before[a]);
                    assert(out@[b] == before[b]);
                    assert(key_ge(before[a].updated_at, before[b].updated_at));
                } else if a == pos as int {
                    // x stands before an element it outranks
                    assert(b > pos);
                    assert(out@[b] == before[b - 1]);
                    assert(pos < before.len());
                    assert(!key_ge(before[pos as int].updated_at, x.updated_at));
                    assert(key_ge(x.updated_at, before[pos as int].updated_at));
                    if b - 1 > pos {
                        assert(key_ge(before[pos as int].updated_at, before[b - 1].updated_at));
                    }
                } else if b == pos as int {
                    assert(out@[a] == before[a]);
                    assert(key_ge(before[a].updated_at, x.updated_at));
                } else if a < pos && b > pos {
                    assert(out@[a] == before[a]);
                    assert(out@[b] == before[b - 1]);
                    assert(key_ge(before[a].updated_at, x.updated_at));
                    assert(pos < before.len());
                    assert(!key_ge(before[pos as int].updated_at, x.updated_at));
                    if b - 1 > pos {
                        assert(key_ge(before[pos as int].updated_at, before[b - 1].updated_at));
                    }
                    if (b - 1) == pos as int {
                        assert(key_ge(x.updated_at, before[pos as int].updated_at));
                    }
                } else {
                    assert(a > pos);
                    assert(out@[a] == before[a - 1]);
                    assert(out@[b] == before[b - 1]);
                    assert(key_ge(before[a - 1].updated_at, before[b - 1].updated_at));
                }
            }
            // the multiset gains exactly x
            assert(before.subrange(0, pos as int) + before.subrange(pos as int, before.len() as int)
                =~= before);
            lemma_multiset_commutative(
                before.subrange(0, pos as int),
                before.subrange(pos as int, before.len() as int),
            );
            lemma_multiset_commutative(
                before.subrange(0, pos as int).push(x),
                before.subrange(pos as int, before.len() as int),
            );
            assert(before.subrange(0, pos as int).push(x).to_multiset() =~= before.subrange(
                0,
                pos as int,
            ).to_multiset().insert(x));
            assert(out@.to_multiset() =~= before.to_multiset().insert(x));
        }
    }
    proof {
        broadcast use vstd::seq_lib::group_to_multiset_ensures;

        assert(rest@ =~= Seq::<SessionInfo>::empty());
        assert(rest@.to_multiset() =~= Multiset::<SessionInfo>::empty());
        assert(out@.to_multiset() =~= orig.to_multiset());
    }
    out
}

/// Discover all sessions under the log root: keep the `.jsonl` files of
/// each project, summarize each with the scanner, and sort the inventory by
/// updated time descending, entries without an updated time last. An empty
/// root (no project directories) yields an empty inventory.
pub fn discover_sessions(projects: &Vec<ProjectListing>) -> (r: Vec<SessionInfo>)
    ensures
        sorted_desc(r@),
        r@.len() == sp_all_entries(projects@).len(),
        exists|es: Seq<SessionInfo>|
            {
                &&& es.len() == sp_all_entries(projects@).len()
                &&& (forall|k: int|
                    0 <= k < es.len() ==> info_matches(
                        es[k],
                        sp_all_entries(projects@)[k].0,
                        sp_all_entries(projects@)[k].1,
                    ))
                &&& r@.to_multiset() == #[trigger] es.to_multiset()
            },
        projects@.len() == 0 ==> r@.len() == 0,
{
    let collected = collect_sessions(projects);
    let ghost es0 = collected@;
    let r = sort_by_updated(collected);
    proof {
        assert({
            &&& es0.len() == sp_all_entries(projects@).len()
            &&& (forall|k: int|
                0 <= k < es0.len() ==> info_matches(
                    es0[k],
                    sp_all_entries(projects@)[k].0,
                    sp_all_entries(projects@)[k].1,
                ))
            &&& r@.to_multiset() == es0.to_multiset()
        });
    }
    r
}

/// Position of the first inventory entry with the given identifier.
pub open spec fn sp_find_session(s: Seq<SessionInfo>, id: Seq<char>) -> Option<int>
    decreases s.len(),
{
    if s.len() == 0 {
        None
    } else if s[0].id@ == id {
        Some(0)
    } else {
        match sp_find_session(s.drop_first(), id) {
            Some(k) => Some(k + 1),
            None => None,
        }
    }
}

/// The first inventory entry with the given identifier. An identifier that
/// no entry carries yields an absent result — a normal not-found outcome,
/// not an error.
pub fn find_session<'a>(sessions: &'a Vec<SessionInfo>, id: &str) -> (r: Option<&'a SessionInfo>)
    ensures
        match r {
            Some(info) => sp_find_session(sessions@, id@) matches Some(k) && *info == sessions@[k],
            None => sp_find_session(sessions@, id@) is None,
        },
{
    let n = sessions.len();
    let mut k: usize = 0;
    proof {
        assert(sessions@.skip(0) =~= sessions@);
    }
    while k < n
        invariant
            n == sessions@.len(),
            k <= n,
            forall|m: int| 0 <= m < k ==> sessions@[m].id@ != id@,
            match sp_find_session(sessions@.skip(k as int), id@) {
                Some(j) => sp_find_session(sessions@, id@) == Some(j + k),
                None => sp_find_session(sessions@, id@) is None,
            },
        decreases n - k,
    {
        proof {
            assert(sessions@.skip(k as int)[0] == sessions@[k as int]);
            assert(sessions@.skip(k as int).drop_first() =~= sessions@.skip(k as int + 1));
        }
        if crate::text::str_eq(sessions[k].id.as_str(), id) {
            return Some(&sessions[k]);
        }
        k += 1;
    }
    proof {
        assert(sessions@.skip(n as int) =~= Seq::<SessionInfo>::empty());
    }
    None
}

/// Whether an inventory entry belongs in a session list: it has a first
/// message (a session holding only snapshots or tool results is hidden),
/// and, when a project filter is given, its project name holds that text.
pub fn session_listed(info: &SessionInfo, project: Option<&str>) -> (r: bool)
    ensures
        r == (info.first_message is Some && match project {
            Some(p) => crate::text::sp_find(info.project@, p@) is Some,
            None => true,
        }),
{
    if info.first_message.is_none() {
        return false;
    }
    match project {
        None => true,
        Some(p) => {
            let hay = crate::text::str_to_chars(info.project.as_str());
            let needle = crate::text::str_to_chars(p);
            match crate::text::find_from(&hay, &needle, 0) {
                Some(_) => true,
                None => false,
            }
        },
    }
}

/// A line that yields an event: non-empty, parses as JSON, and decodes.
pub open spec fn sp_line_ok(line: Seq<char>) -> bool {
    &&& line.len() > 0
    &&& sp_parse_text(line) matches Some(v) && sp_decode_err(v) is None
}

/// The lines of a file that yield events, in file order.
pub open spec fn sp_kept_lines(lv: Seq<Seq<char>>) -> Seq<Seq<char>> {
    lv.filter(|l: Seq<char>| sp_line_ok(l))
}

/// Load all events from a session file's lines: every non-empty line is
/// decoded, and a line that fails to parse or decode is skipped; file order
/// is preserved.
pub fn load_session(lines: &Vec<String>) -> (r: Vec<Event>)
    ensures
        r@.len() == sp_kept_lines(lines_view(lines@)).len(),
        forall|k: int|
            0 <= k < r@.len() ==> (sp_parse_text(
                #[trigger] sp_kept_lines(lines_view(lines@))[k],
            ) matches Some(v) && event_matches(r@[k], v)),
{
    let ghost lv = lines_view(lines@);
    let n = lines.len();
    let mut out: Vec<Event> = Vec::new();
    let mut k: usize = 0;
    proof {
        reveal(Seq::filter);
        assert(lv.take(0) =~= Seq::<Seq<char>>::empty());
        assert(sp_kept_lines(lv.take(0)) =~= Seq::<Seq<char>>::empty());
    }
    while k < n
        invariant
            lv == lines_view(lines@),
            n == lv.len() == lines@.len(),
            forall|m: int| 0 <= m < n ==> lv[m] == lines@[m]@,
            k <= n,
            out@.len() == sp_kept_lines(lv.take(k as int)).len(),
            forall|m: int|
                0 <= m < out@.len() ==> (sp_parse_text(
                    #[trigger] sp_kept_lines(lv.take(k as int))[m],
                ) matches Some(v) && event_matches(out@[m], v)),
        decreases n - k,
    {
        proof {
            reveal(Seq::filter);
            assert(lv.take(k as int + 1).drop_last() =~= lv.take(k as int));
            assert(lv.take(k as int + 1).last() == lv[k as int]);
            assert(sp_kept_lines(lv.take(k as int + 1)) == (if sp_line_ok(lv[k as int]) {
                sp_kept_lines(lv.take(k as int)).push(lv[k as int])
            } else {
                sp_kept_lines(lv.take(k as int))
            }));
        }
        let line: &String = &lines[k];
        if !line.as_str().is_empty() {
            match crate::json::parse_json(line.as_str()) {
                Some(j) => {
                    match crate::events::decode_event(&j) {
                        Ok(ev) => {
                            out.push(ev);
                        },
                        Err(_) => {
                        },
                    }
                },
                None => {
                },
            }
        }
        k += 1;
    }
    proof {
        assert(lv.take(n as int) =~= lv);
    }
    out
}

/// One raw line of a session file, with its 1-based position among the
/// file's non-empty lines.
#[derive(Debug, PartialEq)]
pub struct SessionLogLine {
    pub line_number: usize,
    pub content: String,
}

/// A page of raw lines, with the file's total count of non-empty lines.
#[derive(Debug, PartialEq)]
pub struct SessionLogLines {
    pub lines: Vec<SessionLogLine>,
    pub total_lines: usize,
}

/// The non-empty lines of a file, in file order: the same line notion that
/// `message_count` uses.
pub open spec fn sp_nonempty_lines(lv: Seq<Seq<char>>) -> Seq<Seq<char>> {
    lv.filter(|l: Seq<char>| l.len() > 0)
}

/// Law: the scanner's count and the pager's total agree. The number of
/// non-empty lines that `message_count` reports equals the number of lines
/// the ranged reader paginates over, for every file.
pub proof fn lemma_counts_agree(lv: Seq<Seq<char>>)
    ensures
        count_nonempty(lv) == sp_nonempty_lines(lv).len(),
    decreases lv.len(),
{
    reveal(Seq::filter);
    if lv.len() > 0 {
        lemma_counts_agree(lv.drop_last());
    }
}

/// Return a page of the file's non-empty lines: those at zero-based
/// positions `offset` up to `offset + limit`, each with its 1-based line
/// number, together with the total count of non-empty lines. An offset at
/// or past the end yields an empty page.
pub fn load_session_lines(lines: &Vec<String>, offset: usize, limit: usize) -> (r: SessionLogLines)
    ensures
        ({
            let ne = sp_nonempty_lines(lines_view(lines@));
            &&& r.total_lines == ne.len()
            &&& r.lines@.len() == (if offset as int <= ne.len() {
                if limit as int <= ne.len() - offset {
                    limit as int
                } else {
                    ne.len() - offset
                }
            } else {
                0
            })
            &&& (forall|k: int|
                0 <= k < r.lines@.len() ==> r.lines@[k].line_number == offset + k + 1
                    && r.lines@[k].content@ == ne[offset + k])
        }),
{
    let ghost lv = lines_view(lines@);
    let n = lines.len();
    let mut kept: Vec<String> = Vec::new();
    let mut k: usize = 0;
    proof {
        reveal(Seq::filter);
        assert(lv.take(0) =~= Seq::<Seq<char>>::empty());
        assert(sp_nonempty_lines(lv.take(0)) =~= Seq::<Seq<char>>::empty());
    }
    while k < n
        invariant
            lv == lines_view(lines@),
            n == lv.len() == lines@.len(),
            forall|m: int| 0 <= m < n ==> lv[m] == lines@[m]@,
            k <= n,
            kept@.len() == sp_nonempty_lines(lv.take(k as int)).len(),
            forall|m: int|
                0 <= m < kept@.len() ==> kept@[m]@ == sp_nonempty_lines(lv.take(k as int))[m],
        decreases n - k,
    {
        proof {
            reveal(Seq::filter);
            assert(lv.take(k as int + 1).drop_last() =~= lv.take(k as int));
            assert(lv.take(k as int + 1).last() == lv[k as int]);
            assert(sp_nonempty_lines(lv.take(k as int + 1)) == (if lv[k as int].len() > 0 {
                sp_nonempty_lines(lv.take(k as int)).push(lv[k as int])
            } else {
                sp_nonempty_lines(lv.take(k as int))
            }));
        }
        let line: &String = &lines[k];
        if !line.as_str().is_empty() {
            kept.push(line.clone());
        }
        k += 1;
    }
    proof {
        assert(lv.take(n as int) =~= lv);
    }
    let total = kept.len();
    let mut page: Vec<SessionLogLine> = Vec::new();
    if offset >= total {
        return SessionLogLines { lines: page, total_lines: total };
    }
    let end = if limit > total - offset {
        total
    } else {
        offset + limit
    };
    let mut m: usize = offset;
    while m < end
        invariant
            total == kept@.len(),
            offset <= m <= end <= total,
            forall|q: int| 0 <= q < kept@.len() ==> kept@[q]@ == sp_nonempty_lines(lv)[q],
            sp_nonempty_lines(lv).len() == total,
            page@.len() == m - offset,
            forall|q: int|
                0 <= q < page@.len() ==> page@[q].line_number == offset + q + 1
                    && page@[q].content@ == sp_nonempty_lines(lv)[offset + q],
        decreases end - m,
    {
        page.push(SessionLogLine { line_number: m + 1, content: kept[m].clone() });
        m += 1;
    }
    SessionLogLines { lines: page, total_lines: total }
}

} // verus!
