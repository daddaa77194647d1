use vstd::prelude::*;
use crate::catalog::TitleId;
use crate::chars::{chars_of, lex_lt, str_lt, string_of};
use crate::fmt::{decimal, decimal2, decimal2_chars, decimal_chars, extend};
use crate::matcher::{key_view, KeyView, MatchedGroup};
use crate::media::{max_height, resolution};
use crate::scanner::DiscoveredFile;
use crate::chars::{lemma_lex_lt_irreflexive, lemma_lex_lt_transitive};
use crate::sort::{lemma_stable_sort_map, lemma_stable_sort_permutes, lemma_stable_sort_sorted, stable_sort, stable_sort_by, strict_order};

verus! {

/// Files that hold the same title at the same resolution.
#[derive(Debug, Clone, PartialEq, Eq)]
pub struct DuplicateCandidate {
    pub id: String,
    pub title: TitleId,
    pub paths: Vec<String>,
}

/// `:` and the year, when there is one.
pub open spec fn year_part(year: Option<u16>) -> Seq<char> {
    match year {
        Some(y) => seq![':'] + decimal(y as nat),
        None => Seq::empty(),
    }
}

/// `:sSSeEE` for an episode, when both numbers are known.
pub open spec fn episode_part(season: Option<u16>, episode: Option<u16>) -> Seq<char> {
    match (season, episode) {
        (Some(s), Some(e)) => seq![':', 's'] + decimal2(s as nat) + seq!['e'] + decimal2(e as nat),
        _ => Seq::empty(),
    }
}

/// The id a scanned title goes by before it is identified: `scan:`, its title key,
/// then its year and episode where known.
pub open spec fn synthetic_id(k: KeyView) -> Seq<char> {
    seq!['s', 'c', 'a', 'n', ':'] + k.0 + year_part(k.1) + episode_part(k.2, k.3)
}

/// The title a group stands for: an episode when its parse names season and episode,
/// else a movie, under its synthetic id.
pub fn synthetic_title_id(group: &MatchedGroup) -> (r: TitleId)
    ensures
        r.id_view() == synthetic_id(key_view(group.key)),
        (r is Episode) == group.parsed.episodic(),
{
    let key = &group.key;
    let mut id: Vec<char> = vec!['s', 'c', 'a', 'n', ':'];
    let slug = chars_of(key.title_slug.as_str());
    extend(&mut id, &slug);
    let ghost head = id@;
    match key.year {
        Some(y) => {
            id.push(':');
            let digits = decimal_chars(y as u64);
            extend(&mut id, &digits);
        },
        None => {},
    }
    assert(id@ =~= head + year_part(key.year));
    let ghost mid = id@;
    match (key.season, key.episode) {
        (Some(s), Some(e)) => {
            id.push(':');
            id.push('s');
            let sd = decimal2_chars(s as u64);
            extend(&mut id, &sd);
            id.push('e');
            let ed = decimal2_chars(e as u64);
            extend(&mut id, &ed);
        },
        _ => {},
    }
    assert(id@ =~= mid + episode_part(key.season, key.episode));
    assert(id@ =~= synthetic_id(key_view(group.key)));
    let text = string_of(&id);
    if group.parsed.is_episodic() {
        TitleId::Episode(text)
    } else {
        TitleId::Movie(text)
    }
}

/// Adds `path` at resolution `res` to buckets kept in ascending resolution order.
pub open spec fn bucket_insert(bs: Seq<(u32, Seq<String>)>, res: u32, path: String) -> Seq<(u32, Seq<String>)>
    decreases bs.len(),
{
    if bs.len() == 0 {
        seq![(res, seq![path])]
    } else if bs[0].0 == res {
        seq![(res, bs[0].1.push(path))] + bs.drop_first()
    } else if res < bs[0].0 {
        seq![(res, seq![path])] + bs
    } else {
        seq![bs[0]] + bucket_insert(bs.drop_first(), res, path)
    }
}

/// The paths of the first `n` files by resolution, in ascending resolution order,
/// each bucket in file order.
pub open spec fn buckets_spec(files: Seq<DiscoveredFile>, n: int) -> Seq<(u32, Seq<String>)>
    decreases n,
{
    if n <= 0 {
        Seq::empty()
    } else {
        bucket_insert(buckets_spec(files, n - 1), max_height(files[n - 1].probe.video@), files[n - 1].path)
    }
}

/// A candidate as plain values: id, whether its title is an episode, the title's id,
/// and the paths.
pub type CandView = (Seq<char>, bool, Seq<char>, Seq<String>);

/// Strings in their order.
pub open spec fn by_text() -> spec_fn(String, String) -> bool {
    |a: String, b: String| lex_lt(a@, b@)
}

/// `dup:`, the title's id, `:` and the resolution.
pub open spec fn dup_id(title_id: Seq<char>, res: u32) -> Seq<char> {
    seq!['d', 'u', 'p', ':'] + title_id + seq![':'] + decimal(res as nat)
}

/// The candidates of the first `n` buckets: each bucket of two or more files, its paths
/// sorted.
pub open spec fn bucket_cands(bs: Seq<(u32, Seq<String>)>, title_id: Seq<char>, episodic: bool, n: int) -> Seq<CandView>
    decreases n,
{
    if n <= 0 {
        Seq::empty()
    } else {
        let r = bucket_cands(bs, title_id, episodic, n - 1);
        if bs[n - 1].1.len() >= 2 {
            r.push((dup_id(title_id, bs[n - 1].0), episodic, title_id, stable_sort(bs[n - 1].1, by_text())))
        } else {
            r
        }
    }
}

/// The candidates of one group, in ascending resolution order.
pub open spec fn group_cands(g: MatchedGroup) -> Seq<CandView> {
    let bs = buckets_spec(g.files@, g.files@.len() as int);
    bucket_cands(bs, synthetic_id(key_view(g.key)), g.parsed.episodic(), bs.len() as int)
}

/// The candidates of the first `n` groups, group by group.
pub open spec fn all_cands(gs: Seq<MatchedGroup>, n: int) -> Seq<CandView>
    decreases n,
{
    if n <= 0 {
        Seq::empty()
    } else {
        all_cands(gs, n - 1) + group_cands(gs[n - 1])
    }
}

/// Candidates in the order of their ids.
pub open spec fn by_id() -> spec_fn(CandView, CandView) -> bool {
    |a: CandView, b: CandView| lex_lt(a.0, b.0)
}

pub open spec fn cand_view(c: DuplicateCandidate) -> CandView {
    (c.id@, c.title is Episode, c.title.id_view(), c.paths@)
}

pub open spec fn cand_by_id() -> spec_fn(DuplicateCandidate, DuplicateCandidate) -> bool {
    |a: DuplicateCandidate, b: DuplicateCandidate| lex_lt(a.id@, b.id@)
}

proof fn lemma_bucket_insert_at(bs: Seq<(u32, Seq<String>)>, res: u32, path: String, pos: int)
    requires
        0 <= pos <= bs.len(),
        forall|j: int| 0 <= j < pos ==> (#[trigger] bs[j]).0 < res,
        pos == bs.len() || bs[pos].0 >= res,
    ensures
        bucket_insert(bs, res, path) == (if pos < bs.len() && bs[pos].0 == res {
            bs.update(pos, (res, bs[pos].1.push(path)))
        } else {
            bs.insert(pos, (res, seq![path]))
        }),
    decreases pos,
{
    if pos == 0 {
        if bs.len() == 0 {
            assert(bs.insert(0, (res, seq![path])) =~= seq![(res, seq![path])]);
        } else if bs[0].0 == res {
            assert(seq![(res, bs[0].1.push(path))] + bs.drop_first() =~= bs.update(0, (res, bs[0].1.push(path))));
        } else {
            assert(seq![(res, seq![path])] + bs =~= bs.insert(0, (res, seq![path])));
        }
    } else {
        let rest = bs.drop_first();
        assert forall|j: int| 0 <= j < pos - 1 implies (#[trigger] rest[j]).0 < res by {
            assert(rest[j] == bs[j + 1]);
        }
        lemma_bucket_insert_at(rest, res, path, pos - 1);
        if pos < bs.len() && bs[pos].0 == res {
            assert(seq![bs[0]] + rest.update(pos - 1, (res, rest[pos - 1].1.push(path))) =~= bs.update(pos, (res, bs[pos].1.push(path))));
        } else {
            assert(seq![bs[0]] + rest.insert(pos - 1, (res, seq![path])) =~= bs.insert(pos, (res, seq![path])));
        }
    }
}

/// The buckets as plain values.
pub open spec fn buckets_view(bs: Seq<(u32, Vec<String>)>) -> Seq<(u32, Seq<String>)> {
    bs.map_values(|b: (u32, Vec<String>)| (b.0, b.1@))
}

fn group_buckets(files: &Vec<DiscoveredFile>) -> (r: Vec<(u32, Vec<String>)>)
    ensures
        buckets_view(r@) == buckets_spec(files@, files@.len() as int),
{
    let mut buckets: Vec<(u32, Vec<String>)> = Vec::new();
    let mut i: usize = 0;
    while i < files.len()
        invariant
            i <= files.len(),
            buckets_view(buckets@) == buckets_spec(files@, i as int),
        decreases files.len() - i,
    {
        let res = resolution(&files[i].probe);
        let ghost bv = buckets_view(buckets@);
        let mut pos: usize = 0;
        while pos < buckets.len() && buckets[pos].0 < res
            invariant
                pos <= buckets.len(),
                bv == buckets_view(buckets@),
                forall|j: int| 0 <= j < pos ==> (#[trigger] bv[j]).0 < res,
            decreases buckets.len() - pos,
        {
            pos += 1;
        }
        proof {
            lemma_bucket_insert_at(bv, res, files@[i as int].path, pos as int);
        }
        if pos < buckets.len() && buckets[pos].0 == res {
            let mut entry = buckets.remove(pos);
            entry.1.push(files[i].path.clone());
            buckets.insert(pos, entry);
            proof {
                assert(buckets_view(buckets@) =~= bv.update(pos as int, (res, bv[pos as int].1.push(files@[i as int].path))));
            }
        } else {
            let mut first: Vec<String> = Vec::new();
            first.push(files[i].path.clone());
            buckets.insert(pos, (res, first));
            proof {
                assert(first@ =~= seq![files@[i as int].path]);
                assert(buckets_view(buckets@) =~= bv.insert(pos as int, (res, seq![files@[i as int].path])));
            }
        }
        i += 1;
    }
    buckets
}

fn candidate_id(title_id: &str, res: u32) -> (r: String)
    ensures
        r@ == dup_id(title_id@, res),
{
    let mut id: Vec<char> = vec!['d', 'u', 'p', ':'];
    let t = chars_of(title_id);
    extend(&mut id, &t);
    id.push(':');
    let digits = decimal_chars(res as u64);
    extend(&mut id, &digits);
    assert(id@ =~= dup_id(title_id@, res));
    string_of(&id)
}

fn candidates_of(group: &MatchedGroup) -> (r: Vec<DuplicateCandidate>)
    ensures
        r@.map_values(|c: DuplicateCandidate| cand_view(c)) == group_cands(*group),
{
    let title = synthetic_title_id(group);
    let mut buckets = group_buckets(&group.files);
    let ghost bs = buckets_view(buckets@);
    let ghost total = bs.len();
    let mut out: Vec<DuplicateCandidate> = Vec::new();
    let mut done: usize = 0;
    assert(total == buckets.len());
    while buckets.len() > 0
        invariant
            done + buckets@.len() == total,
            total <= usize::MAX,
            total == bs.len(),
            bs == buckets_spec(group.files@, group.files@.len() as int),
            buckets_view(buckets@) == bs.skip(done as int),
            title.id_view() == synthetic_id(key_view(group.key)),
            (title is Episode) == group.parsed.episodic(),
            out@.map_values(|c: DuplicateCandidate| cand_view(c))
                == bucket_cands(bs, synthetic_id(key_view(group.key)), group.parsed.episodic(), done as int),
        decreases buckets.len(),
    {
        let ghost old_b = buckets@;
        let (res, paths) = buckets.remove(0);
        proof {
            assert(buckets_view(old_b)[0] == bs.skip(done as int)[0]);
            assert(bs[done as int] == (res, paths@));
            assert(buckets_view(buckets@) =~= buckets_view(old_b).drop_first());
            assert(bs.skip(done + 1) =~= bs.skip(done as int).drop_first());
        }
        let ghost before = out@;
        if paths.len() >= 2 {
            let before_text = |a: &String, b: &String| -> (r: bool)
                ensures
                    r == by_text()(*a, *b),
                { str_lt(a.as_str(), b.as_str()) };
            let sorted = stable_sort_by(paths, before_text, Ghost(by_text()));
            let cand = DuplicateCandidate { id: candidate_id(title.id(), res), title: title.copy(), paths: sorted };
            out.push(cand);
            proof {
                assert(out@.map_values(|c: DuplicateCandidate| cand_view(c))
                    =~= before.map_values(|c: DuplicateCandidate| cand_view(c)).push(cand_view(cand)));
            }
        }
        done += 1;
    }
    out
}

/// The files that hold one title at one resolution, two or more of them, across all
/// groups: one candidate per title and resolution, its paths sorted, the candidates in
/// the order of their ids.
pub fn find_duplicates(groups: &[MatchedGroup]) -> (r: Vec<DuplicateCandidate>)
    ensures
        r@.map_values(|c: DuplicateCandidate| cand_view(c)) == stable_sort(all_cands(groups@, groups@.len() as int), by_id()),
{
    let mut all: Vec<DuplicateCandidate> = Vec::new();
    let mut i: usize = 0;
    while i < groups.len()
        invariant
            i <= groups.len(),
            all@.map_values(|c: DuplicateCandidate| cand_view(c)) == all_cands(groups@, i as int),
        decreases groups.len() - i,
    {
        let mut found = candidates_of(&groups[i]);
        let ghost a = all@;
        let ghost b = found@;
        all.append(&mut found);
        proof {
            assert(all@ =~= a + b);
            assert(all@.map_values(|c: DuplicateCandidate| cand_view(c))
                =~= a.map_values(|c: DuplicateCandidate| cand_view(c)) + b.map_values(|c: DuplicateCandidate| cand_view(c)));
        }
        i += 1;
    }
    let ghost unsorted = all@;
    let before_id = |a: &DuplicateCandidate, b: &DuplicateCandidate| -> (r: bool)
        ensures
            r == cand_by_id()(*a, *b),
        { str_lt(a.id.as_str(), b.id.as_str()) };
    let sorted = stable_sort_by(all, before_id, Ghost(cand_by_id()));
    proof {
        lemma_stable_sort_map(unsorted, |c: DuplicateCandidate| cand_view(c), cand_by_id(), by_id());
    }
    sorted
}


proof fn lemma_bucket_cands_pairs(bs: Seq<(u32, Seq<String>)>, title_id: Seq<char>, episodic: bool, n: int)
    requires
        0 <= n <= bs.len(),
    ensures
        forall|j: int| 0 <= j < bucket_cands(bs, title_id, episodic, n).len()
            ==> (#[trigger] bucket_cands(bs, title_id, episodic, n)[j]).3.len() >= 2,
    decreases n,
{
    if n > 0 {
        lemma_bucket_cands_pairs(bs, title_id, episodic, n - 1);
        let prev = bucket_cands(bs, title_id, episodic, n - 1);
        let r = bucket_cands(bs, title_id, episodic, n);
        if bs[n - 1].1.len() >= 2 {
            lemma_stable_sort_permutes(bs[n - 1].1, by_text());
        }
        assert forall|j: int| 0 <= j < r.len() implies (#[trigger] r[j]).3.len() >= 2 by {
            if j < prev.len() {
                assert(r[j] == prev[j]);
            }
        }
    }
}

proof fn lemma_all_cands_pairs(gs: Seq<MatchedGroup>, n: int)
    requires
        0 <= n <= gs.len(),
    ensures
        forall|j: int| 0 <= j < all_cands(gs, n).len() ==> (#[trigger] all_cands(gs, n)[j]).3.len() >= 2,
    decreases n,
{
    if n > 0 {
        lemma_all_cands_pairs(gs, n - 1);
        let g = gs[n - 1];
        let bs = buckets_spec(g.files@, g.files@.len() as int);
        lemma_bucket_cands_pairs(bs, synthetic_id(key_view(g.key)), g.parsed.episodic(), bs.len() as int);
        let prev = all_cands(gs, n - 1);
        let r = all_cands(gs, n);
        assert forall|j: int| 0 <= j < r.len() implies (#[trigger] r[j]).3.len() >= 2 by {
            if j < prev.len() {
                assert(r[j] == prev[j]);
            } else {
                assert(r[j] == group_cands(g)[j - prev.len()]);
            }
        }
    }
}

/// Every duplicate candidate names at least two files, and the candidates come in the
/// order of their ids.
pub proof fn law_duplicates_pair_files_in_id_order(gs: Seq<MatchedGroup>)
    ensures
        ({
            let r = stable_sort(all_cands(gs, gs.len() as int), by_id());
            &&& forall|j: int| 0 <= j < r.len() ==> (#[trigger] r[j]).3.len() >= 2
            &&& forall|i: int, j: int| 0 <= i < j < r.len() ==> !lex_lt((#[trigger] r[j]).0, (#[trigger] r[i]).0)
        }),
{
    broadcast use vstd::seq_lib::group_to_multiset_ensures;
    let all = all_cands(gs, gs.len() as int);
    let r = stable_sort(all, by_id());
    lemma_all_cands_pairs(gs, gs.len() as int);
    lemma_stable_sort_permutes(all, by_id());
    assert forall|j: int| 0 <= j < r.len() implies (#[trigger] r[j]).3.len() >= 2 by {
        assert(r.to_multiset().count(r[j]) > 0);
        assert(all.contains(r[j]));
    }
    assert forall|a: CandView| !#[trigger] by_id()(a, a) by {
        lemma_lex_lt_irreflexive(a.0);
    }
    assert forall|a: CandView, b: CandView, c: CandView| #[trigger] by_id()(a, b) && #[trigger] by_id()(b, c) implies by_id()(a, c) by {
        lemma_lex_lt_transitive(a.0, b.0, c.0);
    }
    assert(strict_order(by_id()));
    lemma_stable_sort_sorted(all, by_id());
    assert forall|i: int, j: int| 0 <= i < j < r.len() implies !lex_lt((#[trigger] r[j]).0, (#[trigger] r[i]).0) by {
        assert(!by_id()(r[j], r[i]));
    }
}

/// The paths of the first `n` files whose resolution is `h`, in file order.
pub open spec fn paths_at(files: Seq<DiscoveredFile>, n: int, h: u32) -> Seq<String>
    decreases n,
{
    if n <= 0 {
        Seq::empty()
    } else if max_height(files[n - 1].probe.video@) == h {
        paths_at(files, n - 1, h).push(files[n - 1].path)
    } else {
        paths_at(files, n - 1, h)
    }
}

/// The paths a bucket list holds for resolution `h` (none when it has no such bucket).
pub open spec fn bucket_of(bs: Seq<(u32, Seq<String>)>, h: u32) -> Seq<String>
    decreases bs.len(),
{
    if bs.len() == 0 {
        Seq::empty()
    } else if bs[0].0 == h {
        bs[0].1
    } else {
        bucket_of(bs.drop_first(), h)
    }
}

/// Buckets in strictly ascending resolution, none of them empty.
pub open spec fn well_bucketed(bs: Seq<(u32, Seq<String>)>) -> bool {
    &&& forall|i: int, j: int| 0 <= i < j < bs.len() ==> (#[trigger] bs[i]).0 < (#[trigger] bs[j]).0
    &&& forall|i: int| 0 <= i < bs.len() ==> (#[trigger] bs[i]).1.len() > 0
}

proof fn lemma_bucket_of_entry(bs: Seq<(u32, Seq<String>)>, k: int)
    requires
        well_bucketed(bs),
        0 <= k < bs.len(),
    ensures
        bucket_of(bs, bs[k].0) == bs[k].1,
    decreases k,
{
    if k > 0 {
        let rest = bs.drop_first();
        assert(rest[k - 1] == bs[k]);
        assert(bs[0].0 < bs[k].0);
        assert forall|i: int, j: int| 0 <= i < j < rest.len() implies (#[trigger] rest[i]).0 < (#[trigger] rest[j]).0 by {
            assert(rest[i] == bs[i + 1] && rest[j] == bs[j + 1]);
        }
        assert forall|i: int| 0 <= i < rest.len() implies (#[trigger] rest[i]).1.len() > 0 by {
            assert(rest[i] == bs[i + 1]);
        }
        lemma_bucket_of_entry(rest, k - 1);
    }
}

proof fn lemma_bucket_of_absent(bs: Seq<(u32, Seq<String>)>, h: u32)
    requires
        forall|i: int| 0 <= i < bs.len() ==> (#[trigger] bs[i]).0 != h,
    ensures
        bucket_of(bs, h) == Seq::<String>::empty(),
    decreases bs.len(),
{
    if bs.len() > 0 {
        let rest = bs.drop_first();
        assert forall|i: int| 0 <= i < rest.len() implies (#[trigger] rest[i]).0 != h by {
            assert(rest[i] == bs[i + 1]);
        }
        lemma_bucket_of_absent(rest, h);
    }
}

proof fn lemma_bucket_insert_keeps(bs: Seq<(u32, Seq<String>)>, res: u32, path: String)
    requires
        well_bucketed(bs),
    ensures
        well_bucketed(bucket_insert(bs, res, path)),
        forall|h: u32| #[trigger] bucket_of(bucket_insert(bs, res, path), h)
            == if h == res { bucket_of(bs, h).push(path) } else { bucket_of(bs, h) },
        forall|i: int| 0 <= i < bucket_insert(bs, res, path).len() ==> (#[trigger] bucket_insert(bs, res, path)[i]).0 == res
            || exists|j: int| 0 <= j < bs.len() && bs[j].0 == bucket_insert(bs, res, path)[i].0,
    decreases bs.len(),
{
    let r = bucket_insert(bs, res, path);
    if bs.len() == 0 {
        assert forall|h: u32| #[trigger] bucket_of(r, h) == if h == res { bucket_of(bs, h).push(path) } else { bucket_of(bs, h) } by {
            assert(r == seq![(res, seq![path])]);
            assert(r.drop_first().len() == 0);
            assert(bucket_of(bs, h) == Seq::<String>::empty());
            assert(bucket_of(r.drop_first(), h) == Seq::<String>::empty());
            if h == res {
                assert(seq![path] =~= Seq::<String>::empty().push(path));
            }
        }
    } else if bs[0].0 == res {
        let rest = bs.drop_first();
        assert(r.drop_first() =~= rest);
        assert forall|i: int, j: int| 0 <= i < j < r.len() implies (#[trigger] r[i]).0 < (#[trigger] r[j]).0 by {
            assert(r[i].0 == bs[i].0 && r[j].0 == bs[j].0);
        }
        assert forall|i: int| 0 <= i < r.len() implies (#[trigger] r[i]).1.len() > 0 by {
            if i > 0 {
                assert(r[i] == bs[i]);
            }
        }
        assert forall|h: u32| #[trigger] bucket_of(r, h) == if h == res { bucket_of(bs, h).push(path) } else { bucket_of(bs, h) } by {
            if h != res {
                assert(bucket_of(r, h) == bucket_of(r.drop_first(), h));
            }
        }
        assert forall|i: int| 0 <= i < r.len() implies (#[trigger] r[i]).0 == res
            || exists|j: int| 0 <= j < bs.len() && bs[j].0 == r[i].0 by {
            assert(r[i].0 == bs[i].0);
        }
    } else if res < bs[0].0 {
        assert(r.drop_first() =~= bs);
        assert forall|i: int, j: int| 0 <= i < j < r.len() implies (#[trigger] r[i]).0 < (#[trigger] r[j]).0 by {
            if i > 0 {
                assert(r[i] == bs[i - 1]);
            }
            assert(r[j] == bs[j - 1]);
            if i == 0 && j > 1 {
                assert(bs[0].0 < bs[j - 1].0);
            }
        }
        assert forall|i: int| 0 <= i < r.len() implies (#[trigger] r[i]).1.len() > 0 by {
            if i > 0 {
                assert(r[i] == bs[i - 1]);
            }
        }
        assert forall|i: int| 0 <= i < bs.len() implies (#[trigger] bs[i]).0 != res by {
            if i > 0 {
                assert(bs[0].0 < bs[i].0);
            }
        }
        lemma_bucket_of_absent(bs, res);
        assert forall|h: u32| #[trigger] bucket_of(r, h) == if h == res { bucket_of(bs, h).push(path) } else { bucket_of(bs, h) } by {
            if h == res {
                assert(seq![path] =~= Seq::<String>::empty().push(path));
            } else {
                assert(bucket_of(r, h) == bucket_of(r.drop_first(), h));
            }
        }
        assert forall|i: int| 0 <= i < r.len() implies (#[trigger] r[i]).0 == res
            || exists|j: int| 0 <= j < bs.len() && bs[j].0 == r[i].0 by {
            if i > 0 {
                assert(r[i] == bs[i - 1]);
            }
        }
    } else {
        let rest = bs.drop_first();
        assert forall|i: int, j: int| 0 <= i < j < rest.len() implies (#[trigger] rest[i]).0 < (#[trigger] rest[j]).0 by {
            assert(rest[i] == bs[i + 1] && rest[j] == bs[j + 1]);
        }
        assert forall|i: int| 0 <= i < rest.len() implies (#[trigger] rest[i]).1.len() > 0 by {
            assert(rest[i] == bs[i + 1]);
        }
        lemma_bucket_insert_keeps(rest, res, path);
        let t = bucket_insert(rest, res, path);
        assert(r =~= seq![bs[0]] + t);
        assert(r.drop_first() =~= t);
        assert forall|i: int| 0 <= i < t.len() implies bs[0].0 < (#[trigger] t[i]).0 by {
            if t[i].0 != res {
                let j = choose|j: int| 0 <= j < rest.len() && rest[j].0 == t[i].0;
                assert(rest[j] == bs[j + 1]);
            }
        }
        assert forall|i: int, j: int| 0 <= i < j < r.len() implies (#[trigger] r[i]).0 < (#[trigger] r[j]).0 by {
            assert(r[j] == t[j - 1]);
            if i > 0 {
                assert(r[i] == t[i - 1]);
            }
        }
        assert forall|i: int| 0 <= i < r.len() implies (#[trigger] r[i]).1.len() > 0 by {
            if i > 0 {
                assert(r[i] == t[i - 1]);
            }
        }
        assert forall|h: u32| #[trigger] bucket_of(r, h) == if h == res { bucket_of(bs, h).push(path) } else { bucket_of(bs, h) } by {
            if h != bs[0].0 {
                assert(bucket_of(r, h) == bucket_of(t, h));
                assert(bucket_of(bs, h) == bucket_of(rest, h));
            }
        }
        assert forall|i: int| 0 <= i < r.len() implies (#[trigger] r[i]).0 == res
            || exists|j: int| 0 <= j < bs.len() && bs[j].0 == r[i].0 by {
            if i == 0 {
                assert(bs[0].0 == r[0].0);
            } else {
                assert(r[i] == t[i - 1]);
                if t[i - 1].0 != res {
                    let j = choose|j: int| 0 <= j < rest.len() && rest[j].0 == t[i - 1].0;
                    assert(rest[j] == bs[j + 1]);
                }
            }
        }
    }
}

/// The buckets of a group's files: in strictly ascending resolution, none empty, and
/// the bucket of each resolution holds exactly the paths of the files of that
/// resolution, in file order.
pub proof fn law_buckets_hold_the_files_of_each_resolution(files: Seq<DiscoveredFile>, n: int)
    requires
        0 <= n <= files.len(),
    ensures
        well_bucketed(buckets_spec(files, n)),
        forall|h: u32| #[trigger] bucket_of(buckets_spec(files, n), h) == paths_at(files, n, h),
    decreases n,
{
    if n > 0 {
        law_buckets_hold_the_files_of_each_resolution(files, n - 1);
        lemma_bucket_insert_keeps(buckets_spec(files, n - 1), max_height(files[n - 1].probe.video@), files[n - 1].path);
    }
}

proof fn lemma_bucket_of_key(bs: Seq<(u32, Seq<String>)>, h: u32)
    ensures
        bucket_of(bs, h).len() > 0 ==> exists|i: int| 0 <= i < bs.len() && (#[trigger] bs[i]).0 == h && bs[i].1 == bucket_of(bs, h),
    decreases bs.len(),
{
    if bs.len() > 0 && bs[0].0 != h {
        let rest = bs.drop_first();
        lemma_bucket_of_key(rest, h);
        if bucket_of(bs, h).len() > 0 {
            let i = choose|i: int| 0 <= i < rest.len() && (#[trigger] rest[i]).0 == h && rest[i].1 == bucket_of(rest, h);
            assert(bs[i + 1] == rest[i]);
        }
    }
}

/// The candidate a bucket of a title's files makes.
pub open spec fn bucket_cand(b: (u32, Seq<String>), title_id: Seq<char>, episodic: bool) -> CandView {
    (dup_id(title_id, b.0), episodic, title_id, stable_sort(b.1, by_text()))
}

/// Whether `c` is the candidate of one of the first `m` buckets that holds two or more paths.
spec fn from_bucket(bs: Seq<(u32, Seq<String>)>, title_id: Seq<char>, episodic: bool, m: int, c: CandView) -> bool {
    exists|i: int| 0 <= i < m && (#[trigger] bs[i]).1.len() >= 2 && c == bucket_cand(bs[i], title_id, episodic)
}

proof fn lemma_bucket_cands_index(bs: Seq<(u32, Seq<String>)>, title_id: Seq<char>, episodic: bool, m: int)
    requires
        0 <= m <= bs.len(),
    ensures
        forall|k: int| 0 <= k < bucket_cands(bs, title_id, episodic, m).len() ==> from_bucket(bs, title_id, episodic, m,
            #[trigger] bucket_cands(bs, title_id, episodic, m)[k]),
        forall|i: int| 0 <= i < m && (#[trigger] bs[i]).1.len() >= 2 ==> bucket_cands(bs, title_id, episodic, m).contains(bucket_cand(bs[i], title_id, episodic)),
    decreases m,
{
    if m > 0 {
        lemma_bucket_cands_index(bs, title_id, episodic, m - 1);
        let prev = bucket_cands(bs, title_id, episodic, m - 1);
        let cur = bucket_cands(bs, title_id, episodic, m);
        assert forall|k: int| 0 <= k < bucket_cands(bs, title_id, episodic, m).len() implies from_bucket(bs, title_id, episodic, m,
            #[trigger] bucket_cands(bs, title_id, episodic, m)[k]) by {
            if k < prev.len() {
                assert(cur[k] == prev[k]);
                assert(from_bucket(bs, title_id, episodic, m - 1, prev[k]));
                let i = choose|i: int| 0 <= i < m - 1 && (#[trigger] bs[i]).1.len() >= 2 && prev[k] == bucket_cand(bs[i], title_id, episodic);
                assert(bs[i].1.len() >= 2);
            } else {
                assert(cur[k] == bucket_cand(bs[m - 1], title_id, episodic));
                assert(bs[m - 1].1.len() >= 2);
            }
        }
        assert forall|i: int| 0 <= i < m && (#[trigger] bs[i]).1.len() >= 2 implies cur.contains(bucket_cand(bs[i], title_id, episodic)) by {
            if i < m - 1 {
                let k = choose|k: int| 0 <= k < prev.len() && prev[k] == bucket_cand(bs[i], title_id, episodic);
                assert(cur[k] == prev[k]);
            } else {
                assert(cur[cur.len() - 1] == bucket_cand(bs[i], title_id, episodic));
            }
        }
    }
}

/// Whether two or more of a group's files have resolution `h`.
pub open spec fn shares_resolution(g: MatchedGroup, h: u32) -> bool {
    paths_at(g.files@, g.files@.len() as int, h).len() >= 2
}

/// The candidate for the files of a group that have resolution `h`: id
/// `dup:<title id>:<h>`, the title's kind and id, and those files' paths, sorted.
pub open spec fn candidate_at(g: MatchedGroup, h: u32) -> CandView {
    let tid = synthetic_id(key_view(g.key));
    (dup_id(tid, h), g.parsed.episodic(), tid, stable_sort(paths_at(g.files@, g.files@.len() as int, h), by_text()))
}

/// Whether `c` is the candidate of some resolution that two or more of a group's files share.
pub open spec fn is_shared_candidate(g: MatchedGroup, c: CandView) -> bool {
    exists|h: u32| #[trigger] shares_resolution(g, h) && c == candidate_at(g, h)
}

/// A group's duplicate candidates are, one for each resolution that two or more of its
/// files share, the candidate `dup:<title id>:<resolution>` naming those files' paths,
/// sorted; there is no other.
pub proof fn law_one_candidate_per_shared_resolution(g: MatchedGroup)
    ensures
        forall|k: int| 0 <= k < group_cands(g).len() ==> is_shared_candidate(g, #[trigger] group_cands(g)[k]),
        forall|h: u32| #[trigger] shares_resolution(g, h) ==> group_cands(g).contains(candidate_at(g, h)),
{
    let files = g.files@;
    let n = files.len() as int;
    let tid = synthetic_id(key_view(g.key));
    let ep = g.parsed.episodic();
    let bs = buckets_spec(files, n);
    law_buckets_hold_the_files_of_each_resolution(files, n);
    lemma_bucket_cands_index(bs, tid, ep, bs.len() as int);
    let cands = group_cands(g);
    let bc = bucket_cands(bs, tid, ep, bs.len() as int);
    assert(cands == bc);
    assert forall|k: int| 0 <= k < group_cands(g).len() implies is_shared_candidate(g, #[trigger] group_cands(g)[k]) by {
        assert(0 <= k < bc.len());
        assert(bc[k] == cands[k]);
        assert(from_bucket(bs, tid, ep, bs.len() as int, bc[k]));
        let i = choose|i: int| 0 <= i < bs.len() && (#[trigger] bs[i]).1.len() >= 2 && bc[k] == bucket_cand(bs[i], tid, ep);
        lemma_bucket_of_entry(bs, i);
        let h = bs[i].0;
        assert(bucket_of(bs, h) == paths_at(files, n, h));
        assert(paths_at(files, n, h) == bs[i].1);
        assert(shares_resolution(g, h));
        assert(cands[k] == candidate_at(g, h));
    }
    assert forall|h: u32| #[trigger] shares_resolution(g, h) implies group_cands(g).contains(candidate_at(g, h)) by {
        assert(bucket_of(bs, h) == paths_at(files, n, h));
        lemma_bucket_of_key(bs, h);
        let i = choose|i: int| 0 <= i < bs.len() && (#[trigger] bs[i]).0 == h && bs[i].1 == bucket_of(bs, h);
        assert(bs[i].1.len() >= 2);
        assert(bc.contains(bucket_cand(bs[i], tid, ep)));
        assert(bucket_cand(bs[i], tid, ep) == candidate_at(g, h));
    }
}
} // verus!
