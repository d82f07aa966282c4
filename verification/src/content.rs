//! A server's mods and plugins: the list shown on its dashboard, sorted by
//! file name, and which of a profile's mods are copied to a server (those
//! Modrinth does not report as client-only).
use vstd::prelude::*;
use crate::names::{is_copyable_mod_file, is_enabled_content, is_enabled_name, is_server_mod_file};
use crate::text::{chars_of, ends_with, same_text, vec_ends_with};
use crate::versions::str_views;

verus! {

/// A mod or plugin file of a server.
#[derive(Debug)]
pub struct ServerContentItem {
    pub file_name: String,
    pub title: Option<String>,
    pub version: Option<String>,
    pub icon_url: Option<String>,
    pub size: u64,
    pub enabled: bool,
}

/// What was copied when a server's content was synced from its profile.
#[derive(Debug)]
pub struct ProfileSyncReport {
    pub mods_copied: u32,
    pub mods_skipped_client_only: u32,
    pub config_copied: bool,
    pub world_copied: bool,
}

/// The list entry of a content file: enabled unless its name ends in
/// `.disabled`; the name, version and icon read from the jar are shown
/// for enabled files only.
pub fn make_content_item(
    file_name: String,
    size: u64,
    title: Option<String>,
    version: Option<String>,
    icon_url: Option<String>,
) -> (item: ServerContentItem)
    ensures
        item.file_name == file_name,
        item.size == size,
        item.enabled == is_enabled_name(file_name@),
        item.enabled ==> item.title == title && item.version == version && item.icon_url == icon_url,
        !item.enabled ==> item.title is None && item.version is None && item.icon_url is None,
{
    let enabled = is_enabled_content(file_name.as_str());
    if enabled {
        ServerContentItem { file_name, title, version, icon_url, size, enabled }
    } else {
        ServerContentItem { file_name, title: None, version: None, icon_url: None, size, enabled }
    }
}

/// Whether `a` comes no later than `b` in the order of their characters'
/// code points, which is the order in which `String`s compare.
pub open spec fn text_le(a: Seq<char>, b: Seq<char>) -> bool
    decreases a.len(),
{
    if a.len() == 0 {
        true
    } else if b.len() == 0 {
        false
    } else if a[0] != b[0] {
        a[0] < b[0]
    } else {
        text_le(a.drop_first(), b.drop_first())
    }
}

pub proof fn lemma_text_le_total(a: Seq<char>, b: Seq<char>)
    ensures
        text_le(a, b) || text_le(b, a),
    decreases a.len(),
{
    if a.len() > 0 && b.len() > 0 && a[0] == b[0] {
        lemma_text_le_total(a.drop_first(), b.drop_first());
    }
}

pub proof fn lemma_text_le_trans(a: Seq<char>, b: Seq<char>, c: Seq<char>)
    requires
        text_le(a, b),
        text_le(b, c),
    ensures
        text_le(a, c),
    decreases a.len(),
{
    if a.len() > 0 && b.len() > 0 && c.len() > 0 && a[0] == b[0] && b[0] == c[0] {
        lemma_text_le_trans(a.drop_first(), b.drop_first(), c.drop_first());
    }
}

proof fn lemma_text_le_skip(a: Seq<char>, b: Seq<char>, i: int)
    requires
        0 <= i <= a.len(),
        i <= b.len(),
        a.take(i) == b.take(i),
    ensures
        text_le(a, b) == text_le(a.skip(i), b.skip(i)),
    decreases i,
{
    if i > 0 {
        assert(a[0] == a.take(i)[0] && b[0] == b.take(i)[0]);
        assert(a.drop_first().take(i - 1) =~= a.take(i).drop_first());
        assert(b.drop_first().take(i - 1) =~= b.take(i).drop_first());
        lemma_text_le_skip(a.drop_first(), b.drop_first(), i - 1);
        assert(a.drop_first().skip(i - 1) =~= a.skip(i));
        assert(b.drop_first().skip(i - 1) =~= b.skip(i));
    } else {
        assert(a.skip(0) =~= a);
        assert(b.skip(0) =~= b);
    }
}

/// Compares two texts by their characters' code points.
pub fn text_less_eq(a: &str, b: &str) -> (r: bool)
    ensures
        r == text_le(a@, b@),
{
    let x = chars_of(a);
    let y = chars_of(b);
    let mut i: usize = 0;
    while i < x.len() && i < y.len() && x[i] == y[i]
        invariant
            i <= x.len(),
            i <= y.len(),
            x@.take(i as int) == y@.take(i as int),
        decreases x.len() - i,
    {
        assert(x@.take(i + 1) =~= x@.take(i as int).push(x@[i as int]));
        assert(y@.take(i + 1) =~= y@.take(i as int).push(y@[i as int]));
        i = i + 1;
    }
    proof {
        lemma_text_le_skip(x@, y@, i as int);
        if i < x.len() && i < y.len() {
            assert(x@.skip(i as int)[0] == x@[i as int]);
            assert(y@.skip(i as int)[0] == y@[i as int]);
        }
    }
    if i == x.len() {
        true
    } else if i == y.len() {
        false
    } else {
        x[i] < y[i]
    }
}

pub open spec fn names_sorted(items: Seq<ServerContentItem>) -> bool {
    forall|i: int, j: int|
        0 <= i < j < items.len() ==> text_le(
            #[trigger] items[i].file_name@,
            #[trigger] items[j].file_name@,
        )
}

/// The items named `n`, in their order.
pub open spec fn named(items: Seq<ServerContentItem>, n: Seq<char>) -> Seq<ServerContentItem> {
    items.filter(name_is(n))
}

/// Whether an item is named `n`.
pub open spec fn name_is(n: Seq<char>) -> spec_fn(ServerContentItem) -> bool {
    |it: ServerContentItem| it.file_name@ == n
}

/// Inserting `x` into a sorted list just before the first item whose name
/// comes after `x`'s appends `x` to the items of its own name and leaves
/// the other names' items as they were.
proof fn lemma_named_insert(before: Seq<ServerContentItem>, p: int, x: ServerContentItem, n: Seq<char>)
    requires
        0 <= p <= before.len(),
        names_sorted(before),
        p < before.len() ==> !text_le(before[p].file_name@, x.file_name@),
    ensures
        named(before.insert(p, x), n) == if x.file_name@ == n {
            named(before, n).push(x)
        } else {
            named(before, n)
        },
{
    let pred = name_is(n);
    let head = before.take(p);
    let tail = before.skip(p);
    assert(before =~= head + tail);
    assert(before.insert(p, x) =~= head + seq![x] + tail);
    Seq::filter_distributes_over_add(head, tail, pred);
    Seq::filter_distributes_over_add(head, seq![x], pred);
    Seq::filter_distributes_over_add(head + seq![x], tail, pred);
    head.lemma_filter_push(x, pred);
    assert(head + seq![x] =~= head.push(x));
    if x.file_name@ == n {
        assert forall|j: int| 0 <= j < tail.len() implies !pred(#[trigger] tail[j]) by {
            assert(tail[j] == before[p + j]);
            lemma_text_le_total(x.file_name@, x.file_name@);
            if text_le(before[p + j].file_name@, x.file_name@) {
                if j > 0 {
                    assert(text_le(before[p].file_name@, before[p + j].file_name@));
                    lemma_text_le_trans(
                        before[p].file_name@,
                        before[p + j].file_name@,
                        x.file_name@,
                    );
                }
            }
        }
        tail.lemma_all_neg_filter_empty(pred);
        assert(tail.filter(pred) =~= Seq::<ServerContentItem>::empty());
        assert(named(before, n) =~= head.filter(pred));
        assert(named(before.insert(p, x), n) =~= head.filter(pred).push(x));
    } else {
        assert(named(before.insert(p, x), n) =~= head.filter(pred) + tail.filter(pred));
    }
}

/// The content list sorted by file name (a stable sort): the same items,
/// ordered, and those of one name in the order they came in.
pub fn sort_content_items(items: Vec<ServerContentItem>) -> (r: Vec<ServerContentItem>)
    ensures
        r@.to_multiset() == items@.to_multiset(),
        names_sorted(r@),
        forall|n: Seq<char>| #[trigger] named(r@, n) == named(items@, n),
{
    broadcast use vstd::seq_lib::group_to_multiset_ensures;

    let mut r: Vec<ServerContentItem> = Vec::new();
    let ghost orig = items@;
    let ghost mut k: int = 0;
    let mut rest = items;
    assert(r@.to_multiset() =~= vstd::multiset::Multiset::empty());
    assert(r@.to_multiset().add(rest@.to_multiset()) =~= orig.to_multiset());
    assert(rest@ =~= orig.skip(0));
    assert forall|n: Seq<char>| #[trigger] named(r@, n) == named(orig.take(0), n) by {
        reveal(Seq::filter);
        assert(orig.take(0) =~= r@);
    }
    while rest.len() > 0
        invariant
            r@.to_multiset().add(rest@.to_multiset()) == orig.to_multiset(),
            names_sorted(r@),
            0 <= k <= orig.len(),
            rest@ == orig.skip(k),
            forall|n: Seq<char>| #[trigger] named(r@, n) == named(orig.take(k), n),
        decreases rest.len(),
    {
        let ghost before_rest = rest@;
        let x = rest.remove(0);
        assert(rest@ == before_rest.remove(0));
        let mut p: usize = 0;
        while p < r.len() && text_less_eq(r[p].file_name.as_str(), x.file_name.as_str())
            invariant
                p <= r.len(),
                forall|k: int| 0 <= k < p ==> text_le(#[trigger] r@[k].file_name@, x.file_name@),
            decreases r.len() - p,
        {
            p = p + 1;
        }
        let ghost before = r@;
        proof {
            if p < r.len() {
                lemma_text_le_total(r@[p as int].file_name@, x.file_name@);
            }
        }
        r.insert(p, x);
        proof {
            assert(r@ == before.insert(p as int, x));
            assert forall|i: int, j: int| 0 <= i < j < r@.len() implies text_le(
                #[trigger] r@[i].file_name@,
                #[trigger] r@[j].file_name@,
            ) by {
                if j < p {
                    assert(r@[i] == before[i] && r@[j] == before[j]);
                } else if j == p {
                    assert(r@[i] == before[i]);
                } else if i == p {
                    assert(r@[j] == before[j - 1]);
                    if j - 1 > p {
                        assert(text_le(before[p as int].file_name@, before[j - 1].file_name@));
                        lemma_text_le_trans(x.file_name@, before[p as int].file_name@, before[j
                            - 1].file_name@);
                    }
                } else if i < p {
                    assert(r@[i] == before[i] && r@[j] == before[j - 1]);
                } else {
                    assert(r@[i] == before[i - 1] && r@[j] == before[j - 1]);
                }
            }
            vstd::seq_lib::to_multiset_insert(before, p as int, x);
            vstd::seq_lib::to_multiset_remove(before_rest, 0);
            vstd::seq_lib::to_multiset_contains(before_rest, x);
            assert(before_rest[0] == x);
            assert(before_rest.to_multiset().count(x) > 0);
            assert(before_rest.to_multiset() =~= rest@.to_multiset().insert(x));
            assert(r@.to_multiset().add(rest@.to_multiset()) =~= before.to_multiset().add(
                before_rest.to_multiset(),
            ));
            assert(x == orig[k]);
            assert(orig.take(k + 1) =~= orig.take(k).push(x));
            assert forall|n: Seq<char>| #[trigger] named(r@, n) == named(orig.take(k + 1), n) by {
                lemma_named_insert(before, p as int, x, n);
                orig.take(k).lemma_filter_push(x, name_is(n));
            }
            assert(rest@ =~= orig.skip(k + 1));
            k = k + 1;
        }
    }
    assert(rest@.to_multiset() =~= vstd::multiset::Multiset::empty());
    assert(r@.to_multiset().add(rest@.to_multiset()) =~= r@.to_multiset());
    assert(orig.take(k) =~= orig);
    r
}

/// The Modrinth project of a mod file: the project id of the first listed
/// content entry whose key ends with the file name and has a non-empty
/// project id.
pub open spec fn project_of(projects: Seq<(Seq<char>, Option<Seq<char>>)>, name: Seq<char>) -> Option<
    Seq<char>,
>
    decreases projects.len(),
{
    if projects.len() == 0 {
        None
    } else if ends_with(projects[0].0, name) && (projects[0].1 matches Some(p) && p.len() > 0) {
        projects[0].1
    } else {
        project_of(projects.drop_first(), name)
    }
}

pub open spec fn project_views(p: Seq<(String, Option<String>)>) -> Seq<(Seq<char>, Option<Seq<char>>)> {
    p.map_values(|x: (String, Option<String>)| (x.0@, crate::metadata::opt_text(x.1)))
}

/// Looks up the Modrinth project of a mod file.
pub fn mod_project_id(projects: &Vec<(String, Option<String>)>, file_name: &str) -> (r: Option<
    String,
>)
    ensures
        crate::metadata::opt_text(r) == project_of(project_views(projects@), file_name@),
{
    let name = chars_of(file_name);
    let mut i: usize = 0;
    assert(project_views(projects@).skip(0) =~= project_views(projects@));
    while i < projects.len()
        invariant
            i <= projects.len(),
            name@ == file_name@,
            project_of(project_views(projects@), file_name@) == project_of(
                project_views(projects@).skip(i as int),
                file_name@,
            ),
        decreases projects.len() - i,
    {
        assert(project_views(projects@).skip(i as int).drop_first() =~= project_views(projects@).skip(
            i + 1,
        ));
        let key = chars_of(projects[i].0.as_str());
        if vec_ends_with(&key, &name) {
            match &projects[i].1 {
                Some(p) => {
                    if p.unicode_len() > 0 {
                        return Some(p.clone());
                    }
                },
                None => {},
            }
        }
        i = i + 1;
    }
    None
}

/// The mod files of a profile, sorted out for copying: files Modrinth does
/// not track (copied as they are), files with their Modrinth project, and
/// the projects to ask Modrinth about.
pub struct ModCandidates {
    pub unlisted: Vec<String>,
    pub listed: Vec<(String, String)>,
    pub project_ids: Vec<String>,
}

/// The mod files that are copied whatever Modrinth says: `.jar` files that
/// are not disabled and belong to no listed project, in order.
pub open spec fn unlisted_mods(names: Seq<Seq<char>>, projects: Seq<(Seq<char>, Option<Seq<char>>)>) -> Seq<
    Seq<char>,
>
    decreases names.len(),
{
    if names.len() == 0 {
        seq![]
    } else {
        let r = unlisted_mods(names.drop_last(), projects);
        let n = names.last();
        if is_server_mod_file(n) && project_of(projects, n) is None {
            r.push(n)
        } else {
            r
        }
    }
}

/// The mod files with a listed project, with that project, in order.
pub open spec fn listed_mods(names: Seq<Seq<char>>, projects: Seq<(Seq<char>, Option<Seq<char>>)>) -> Seq<
    (Seq<char>, Seq<char>),
>
    decreases names.len(),
{
    if names.len() == 0 {
        seq![]
    } else {
        let r = listed_mods(names.drop_last(), projects);
        let n = names.last();
        if is_server_mod_file(n) && project_of(projects, n) is Some {
            r.push((n, project_of(projects, n)->0))
        } else {
            r
        }
    }
}

/// `v` with each run of equal neighbours kept once, as `Vec::dedup` does.
pub open spec fn dedup_adjacent(v: Seq<Seq<char>>) -> Seq<Seq<char>>
    decreases v.len(),
{
    if v.len() <= 1 {
        v
    } else {
        let r = dedup_adjacent(v.drop_last());
        if v.last() == v[v.len() - 2] {
            r
        } else {
            r.push(v.last())
        }
    }
}

pub open spec fn pair_text(p: Seq<(String, String)>) -> Seq<(Seq<char>, Seq<char>)> {
    p.map_values(|x: (String, String)| (x.0@, x.1@))
}

/// Sorts a profile's mod files (by name, in folder order) into unlisted
/// and listed ones, and the projects to ask Modrinth about.
pub fn classify_mod_files(names: &Vec<String>, projects: &Vec<(String, Option<String>)>) -> (c:
    ModCandidates)
    ensures
        str_views(c.unlisted@) == unlisted_mods(str_views(names@), project_views(projects@)),
        pair_text(c.listed@) == listed_mods(str_views(names@), project_views(projects@)),
        str_views(c.project_ids@) == dedup_adjacent(
            listed_mods(str_views(names@), project_views(projects@)).map_values(
                |x: (Seq<char>, Seq<char>)| x.1,
            ),
        ),
{
    let ghost pv = project_views(projects@);
    let mut unlisted: Vec<String> = Vec::new();
    let mut listed: Vec<(String, String)> = Vec::new();
    let mut ids: Vec<String> = Vec::new();
    let mut i: usize = 0;
    while i < names.len()
        invariant
            i <= names.len(),
            pv == project_views(projects@),
            str_views(unlisted@) == unlisted_mods(str_views(names@).take(i as int), pv),
            pair_text(listed@) == listed_mods(str_views(names@).take(i as int), pv),
            str_views(ids@) == dedup_adjacent(
                listed_mods(str_views(names@).take(i as int), pv).map_values(
                    |x: (Seq<char>, Seq<char>)| x.1,
                ),
            ),
        decreases names.len() - i,
    {
        let ghost t = str_views(names@).take(i + 1);
        assert(t.drop_last() =~= str_views(names@).take(i as int));
        assert(t.last() == names@[i as int]@);
        let ghost u0 = unlisted@;
        let ghost t0 = listed@;
        let ghost i0 = ids@;
        let ghost pids0 = listed_mods(str_views(names@).take(i as int), pv).map_values(
            |x: (Seq<char>, Seq<char>)| x.1,
        );
        if is_copyable_mod_file(names[i].as_str()) {
            match mod_project_id(projects, names[i].as_str()) {
                Some(p) => {
                    let dup = ids.len() > 0 && same_text(ids[ids.len() - 1].as_str(), p.as_str());
                    proof {
                        let pids1 = listed_mods(t, pv).map_values(|x: (Seq<char>, Seq<char>)| x.1);
                        assert(pids1 =~= pids0.push(p@));
                        assert(pids1.drop_last() =~= pids0);
                        if pids0.len() > 0 {
                            lemma_dedup_last(pids0);
                            assert(pids1[pids1.len() - 2] == pids0.last());
                        } else {
                            assert(dedup_adjacent(pids0) =~= pids0);
                            assert(dedup_adjacent(pids1) == pids1);
                        }
                    }
                    if !dup {
                        ids.push(p.clone());
                        assert(str_views(ids@) =~= str_views(i0).push(p@));
                    }
                    listed.push((names[i].clone(), p));
                    assert(pair_text(listed@) =~= pair_text(t0).push((names@[i as int]@, p@)));
                },
                None => {
                    unlisted.push(names[i].clone());
                    assert(str_views(unlisted@) =~= str_views(u0).push(names@[i as int]@));
                },
            }
        }
        i = i + 1;
    }
    assert(str_views(names@).take(names.len() as int) =~= str_views(names@));
    ModCandidates { unlisted, listed, project_ids: ids }
}

/// The last entry of a de-duplicated list is the last entry of the list.
proof fn lemma_dedup_last(v: Seq<Seq<char>>)
    requires
        v.len() > 0,
    ensures
        dedup_adjacent(v).len() > 0,
        dedup_adjacent(v).last() == v.last(),
    decreases v.len(),
{
    if v.len() > 1 {
        lemma_dedup_last(v.drop_last());
    }
}

/// The projects Modrinth reports as client-only: those with an id whose
/// server side is `unsupported`, in reply order.
pub open spec fn client_only(replies: Seq<(Option<Seq<char>>, Option<Seq<char>>)>) -> Seq<Seq<char>>
    decreases replies.len(),
{
    if replies.len() == 0 {
        seq![]
    } else {
        let r = client_only(replies.drop_last());
        let x = replies.last();
        if x.1 == Some("unsupported"@) && x.0 is Some {
            r.push(x.0->0)
        } else {
            r
        }
    }
}

/// A project is reported client-only exactly when Modrinth's reply gives
/// its server side as `unsupported`: every project answered so is in the
/// list, and everything in the list is a project answered so (an answer of
/// `unknown`, `optional` or `required`, or none, does not count).
pub proof fn law_client_only(replies: Seq<(Option<Seq<char>>, Option<Seq<char>>)>)
    ensures
        forall|i: int|
            0 <= i < replies.len() && (#[trigger] replies[i]).0 is Some && replies[i].1 == Some(
                "unsupported"@,
            ) ==> client_only(replies).contains(replies[i].0->0),
        forall|x: Seq<char>|
            #[trigger] client_only(replies).contains(x) ==> exists|i: int|
                0 <= i < replies.len() && #[trigger] replies[i].0 == Some(x) && replies[i].1
                    == Some("unsupported"@),
    decreases replies.len(),
{
    if replies.len() > 0 {
        let init = replies.drop_last();
        law_client_only(init);
        let r = client_only(init);
        let last = replies.last();
        assert forall|i: int|
            0 <= i < replies.len() && (#[trigger] replies[i]).0 is Some && replies[i].1 == Some(
                "unsupported"@,
            ) implies client_only(replies).contains(replies[i].0->0) by {
            if i < replies.len() - 1 {
                assert(init[i] == replies[i]);
                let j = choose|j: int| 0 <= j < r.len() && r[j] == replies[i].0->0;
                if last.1 == Some("unsupported"@) && last.0 is Some {
                    assert(client_only(replies)[j] == r[j]);
                } else {
                    assert(client_only(replies)[j] == r[j]);
                }
            } else {
                assert(client_only(replies) == r.push(last.0->0));
                assert(client_only(replies)[r.len() as int] == replies[i].0->0);
            }
        }
        assert forall|x: Seq<char>| #[trigger] client_only(replies).contains(x) implies exists|i: int|
            0 <= i < replies.len() && #[trigger] replies[i].0 == Some(x) && replies[i].1 == Some(
                "unsupported"@,
            ) by {
            let c = client_only(replies);
            let j = choose|j: int| 0 <= j < c.len() && c[j] == x;
            if j < r.len() {
                assert(c[j] == r[j]);
                assert(r.contains(x));
                let i = choose|i: int|
                    0 <= i < init.len() && #[trigger] init[i].0 == Some(x) && init[i].1 == Some(
                        "unsupported"@,
                    );
                assert(replies[i] == init[i]);
            } else {
                assert(replies[replies.len() - 1] == last);
            }
        }
    }
}

pub open spec fn reply_views(p: Seq<(Option<String>, Option<String>)>) -> Seq<(Option<Seq<char>>, Option<Seq<char>>)> {
    p.map_values(|x: (Option<String>, Option<String>)| (crate::metadata::opt_text(x.0), crate::metadata::opt_text(x.1)))
}

/// The ids of the client-only projects of Modrinth's reply, given as
/// `(id, server_side)` pairs.
pub fn client_only_projects(replies: &Vec<(Option<String>, Option<String>)>) -> (r: Vec<String>)
    ensures
        str_views(r@) == client_only(reply_views(replies@)),
{
    let mut r: Vec<String> = Vec::new();
    let mut i: usize = 0;
    while i < replies.len()
        invariant
            i <= replies.len(),
            str_views(r@) == client_only(reply_views(replies@).take(i as int)),
        decreases replies.len() - i,
    {
        let ghost t = reply_views(replies@).take(i + 1);
        assert(t.drop_last() =~= reply_views(replies@).take(i as int));
        let ghost r0 = r@;
        let unsupported = match &replies[i].1 {
            Some(s) => same_text(s.as_str(), "unsupported"),
            None => false,
        };
        if unsupported {
            match &replies[i].0 {
                Some(id) => {
                    r.push(id.clone());
                    assert(str_views(r@) =~= str_views(r0).push(id@));
                },
                None => {},
            }
        }
        i = i + 1;
    }
    assert(reply_views(replies@).take(replies.len() as int) =~= reply_views(replies@));
    r
}

/// The listed mods that are copied: those whose project is not
/// client-only, in order.
pub open spec fn kept_listed(listed: Seq<(Seq<char>, Seq<char>)>, client: Seq<Seq<char>>) -> Seq<
    Seq<char>,
>
    decreases listed.len(),
{
    if listed.len() == 0 {
        seq![]
    } else {
        let r = kept_listed(listed.drop_last(), client);
        if client.contains(listed.last().1) {
            r
        } else {
            r.push(listed.last().0)
        }
    }
}

/// Whether one of `v` is `s`.
pub fn contains_text(v: &Vec<String>, s: &str) -> (b: bool)
    ensures
        b == str_views(v@).contains(s@),
{
    let mut i: usize = 0;
    while i < v.len()
        invariant
            i <= v.len(),
            forall|j: int| 0 <= j < i ==> v@[j]@ != s@,
        decreases v.len() - i,
    {
        if same_text(v[i].as_str(), s) {
            assert(str_views(v@)[i as int] == s@);
            return true;
        }
        i = i + 1;
    }
    proof {
        if str_views(v@).contains(s@) {
            let j = choose|j: int| 0 <= j < str_views(v@).len() && str_views(v@)[j] == s@;
            assert(v@[j]@ == s@);
        }
    }
    false
}

/// The mod files copied to the server (the unlisted ones, then the listed
/// ones whose project is not client-only) and how many were skipped as
/// client-only.
pub fn mods_to_copy(unlisted: Vec<String>, listed: &Vec<(String, String)>, client: &Vec<String>) -> (r:
    (Vec<String>, u32))
    requires
        listed@.len() <= u32::MAX,
    ensures
        str_views(r.0@) == str_views(unlisted@) + kept_listed(pair_text(listed@), str_views(client@)),
        r.0@.len() + r.1 == unlisted@.len() + listed@.len(),
{
    let mut out = unlisted;
    let ghost start = str_views(out@);
    let mut skipped: u32 = 0;
    let mut i: usize = 0;
    assert(str_views(out@) =~= start + kept_listed(
        pair_text(listed@).take(0),
        str_views(client@),
    ));
    while i < listed.len()
        invariant
            i <= listed.len(),
            listed@.len() <= u32::MAX,
            str_views(out@) == start + kept_listed(
                pair_text(listed@).take(i as int),
                str_views(client@),
            ),
            out@.len() + skipped == start.len() + i,
            skipped <= i,
        decreases listed.len() - i,
    {
        let ghost t = pair_text(listed@).take(i + 1);
        assert(t.drop_last() =~= pair_text(listed@).take(i as int));
        let ghost o0 = out@;
        if contains_text(client, listed[i].1.as_str()) {
            skipped = skipped + 1;
        } else {
            out.push(listed[i].0.clone());
            assert(str_views(out@) =~= str_views(o0).push(listed@[i as int].0@));
        }
        i = i + 1;
    }
    assert(pair_text(listed@).take(listed.len() as int) =~= pair_text(listed@));
    (out, skipped)
}

/// Each mod file of a profile is copied or skipped, never both and never
/// neither: the copied files and the skipped count add up to the mod files
/// (the enabled `.jar` files), and a skipped file is one with a client-only
/// project.
pub proof fn law_mod_files_accounted(
    names: Seq<Seq<char>>,
    projects: Seq<(Seq<char>, Option<Seq<char>>)>,
    client: Seq<Seq<char>>,
)
    ensures
        unlisted_mods(names, projects).len() + listed_mods(names, projects).len()
            == mod_count(names),
        kept_listed(listed_mods(names, projects), client).len() <= listed_mods(
            names,
            projects,
        ).len(),
    decreases names.len(),
{
    lemma_kept_len(listed_mods(names, projects), client);
    if names.len() > 0 {
        law_mod_files_accounted(names.drop_last(), projects, client);
    }
}

proof fn lemma_kept_len(listed: Seq<(Seq<char>, Seq<char>)>, client: Seq<Seq<char>>)
    ensures
        kept_listed(listed, client).len() <= listed.len(),
    decreases listed.len(),
{
    if listed.len() > 0 {
        lemma_kept_len(listed.drop_last(), client);
    }
}

/// How many of the files are mod files that a server takes.
pub open spec fn mod_count(names: Seq<Seq<char>>) -> int
    decreases names.len(),
{
    if names.len() == 0 {
        0
    } else {
        mod_count(names.drop_last()) + if is_server_mod_file(names.last()) {
            1int
        } else {
            0int
        }
    }
}

} // verus!
