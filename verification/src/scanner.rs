use vstd::prelude::*;
use crate::chars::chars_of;
use crate::media::ProbeResult;
use crate::paths::{
    default_extension_list, default_extensions, dir_of, dir_of_spec, has_extension_in, hidden_spec,
    is_hidden, is_media_candidate, is_subtitle_file, strings_view, subtitle_extensions,
};

verus! {

/// How many probes run at once unless told otherwise.
pub const DEFAULT_PROBE_CONCURRENCY: usize = 8;

/// A scan reports progress after every this many probed files.
pub const PROGRESS_EVERY: usize = 200;

/// A file a walk of a library root found.
#[derive(Debug, Clone, PartialEq, Eq)]
pub struct WalkedEntry {
    pub path: String,
    pub size_bytes: u64,
}

/// A media file that was probed.
#[derive(Debug, Clone, PartialEq, Eq)]
pub struct DiscoveredFile {
    pub library: String,
    pub path: String,
    pub size_bytes: u64,
    pub probe: ProbeResult,
    pub subtitle_siblings: Vec<String>,
}

/// Why a candidate did not make it into a scan.
#[derive(Debug, Clone, PartialEq, Eq)]
pub enum SkipReason {
    ProbeFailed(String),
}

#[derive(Debug, Clone, PartialEq, Eq)]
pub struct SkippedFile {
    pub path: String,
    pub reason: SkipReason,
}

/// What a scan found.
#[derive(Debug, Clone, PartialEq, Eq)]
pub struct ScanReport {
    pub discovered: Vec<DiscoveredFile>,
    pub skipped: Vec<SkippedFile>,
    pub total_candidates: usize,
}

/// The walked files of a scan, in walk order: media candidates to probe, and
/// subtitle files to attach to them.
#[derive(Debug, Clone, PartialEq, Eq)]
pub struct ScanPlan {
    pub candidates: Vec<WalkedEntry>,
    pub subtitles: Vec<String>,
}

/// Walks library roots and probes the media files it finds.
pub struct Scanner<W, P> {
    walker: W,
    probe: P,
    extensions: Vec<String>,
    probe_concurrency: usize,
}

/// The `i`-th walked file is kept: not hidden, and not walked before.
pub open spec fn kept(es: Seq<WalkedEntry>, i: int) -> bool {
    &&& !hidden_spec(es[i].path@)
    &&& forall|j: int| 0 <= j < i ==> (#[trigger] es[j]).path@ != es[i].path@
}

/// The kept media files, in walk order.
pub open spec fn candidates_spec(es: Seq<WalkedEntry>, exts: Seq<Seq<char>>) -> Seq<WalkedEntry>
    decreases es.len(),
{
    if es.len() == 0 {
        Seq::empty()
    } else {
        let prev = candidates_spec(es.drop_last(), exts);
        let i = es.len() - 1;
        if kept(es, i) && has_extension_in(es[i].path@, exts) {
            prev.push(es[i])
        } else {
            prev
        }
    }
}

/// The kept subtitle files that are not media files, in walk order.
pub open spec fn subtitles_spec(es: Seq<WalkedEntry>, exts: Seq<Seq<char>>) -> Seq<Seq<char>>
    decreases es.len(),
{
    if es.len() == 0 {
        Seq::empty()
    } else {
        let prev = subtitles_spec(es.drop_last(), exts);
        let i = es.len() - 1;
        if kept(es, i) && !has_extension_in(es[i].path@, exts) && has_extension_in(es[i].path@, subtitle_extensions()) {
            prev.push(es[i].path@)
        } else {
            prev
        }
    }
}

/// The subtitle files that sit in the directory of `path`, in walk order.
pub open spec fn siblings_spec(subs: Seq<Seq<char>>, path: Seq<char>) -> Seq<Seq<char>>
    decreases subs.len(),
{
    if subs.len() == 0 {
        Seq::empty()
    } else {
        let prev = siblings_spec(subs.drop_last(), path);
        if dir_of_spec(subs.last()) == dir_of_spec(path) {
            prev.push(subs.last())
        } else {
            prev
        }
    }
}

impl<W, P> Scanner<W, P> {
    pub closed spec fn walker_spec(&self) -> W {
        self.walker
    }

    pub closed spec fn probe_spec(&self) -> P {
        self.probe
    }

    pub closed spec fn extensions_spec(&self) -> Seq<Seq<char>> {
        strings_view(self.extensions@)
    }

    pub closed spec fn concurrency_spec(&self) -> usize {
        self.probe_concurrency
    }

    /// A scanner that ingests the default media extensions and runs eight probes at once.
    pub fn new(walker: W, probe: P) -> (r: Self)
        ensures
            r.walker_spec() == walker,
            r.probe_spec() == probe,
            r.extensions_spec() == default_extension_list(),
            r.concurrency_spec() == DEFAULT_PROBE_CONCURRENCY,
    {
        Scanner { walker, probe, extensions: default_extensions(), probe_concurrency: DEFAULT_PROBE_CONCURRENCY }
    }

    /// Sets how many probes run at once; zero counts as one.
    pub fn with_probe_concurrency(self, probes: usize) -> (r: Self)
        ensures
            r.walker_spec() == self.walker_spec(),
            r.probe_spec() == self.probe_spec(),
            r.extensions_spec() == self.extensions_spec(),
            r.concurrency_spec() == (if probes < 1 { 1 } else { probes }),
    {
        let probe_concurrency = if probes < 1 { 1 } else { probes };
        Scanner { probe_concurrency, ..self }
    }

    /// A scanner that ingests the given extensions in place of the defaults.
    pub fn with_extensions(walker: W, probe: P, extensions: Vec<String>) -> (r: Self)
        ensures
            r.walker_spec() == walker,
            r.probe_spec() == probe,
            r.extensions_spec() == strings_view(extensions@),
            r.concurrency_spec() == DEFAULT_PROBE_CONCURRENCY,
    {
        Scanner { walker, probe, extensions, probe_concurrency: DEFAULT_PROBE_CONCURRENCY }
    }

    pub fn walker(&self) -> (r: &W)
        ensures
            *r == self.walker_spec(),
    {
        &self.walker
    }

    pub fn probe(&self) -> (r: &P)
        ensures
            *r == self.probe_spec(),
    {
        &self.probe
    }

    pub fn probe_concurrency(&self) -> (r: usize)
        ensures
            r == self.concurrency_spec(),
    {
        self.probe_concurrency
    }

    /// Sorts the walked files of all roots (in walk order) into media candidates
    /// and subtitle files: hidden files and files already walked are dropped.
    pub fn plan(&self, entries: &Vec<WalkedEntry>) -> (r: ScanPlan)
        ensures
            r.candidates@ == candidates_spec(entries@, self.extensions_spec()),
            strings_view(r.subtitles@) == subtitles_spec(entries@, self.extensions_spec()),
    {
        let mut candidates: Vec<WalkedEntry> = Vec::new();
        let mut subtitles: Vec<String> = Vec::new();
        let mut i: usize = 0;
        while i < entries.len()
            invariant
                i <= entries.len(),
                candidates@ == candidates_spec(entries@.subrange(0, i as int), self.extensions_spec()),
                strings_view(subtitles@) == subtitles_spec(entries@.subrange(0, i as int), self.extensions_spec()),
            decreases entries.len() - i,
        {
            let ghost pre = entries@.subrange(0, i + 1);
            proof {
                assert(pre.drop_last() =~= entries@.subrange(0, i as int));
                assert(pre[i as int] == entries@[i as int]);
            }
            let entry = &entries[i];
            let hidden = is_hidden(entry.path.as_str());
            let mut seen = false;
            let mut j: usize = 0;
            while j < i
                invariant
                    i < entries.len(),
                    j <= i,
                    pre == entries@.subrange(0, i + 1),
                    *entry == entries@[i as int],
                    seen ==> exists|k: int| 0 <= k < j && (#[trigger] pre[k]).path@ == pre[i as int].path@,
                    !seen ==> forall|k: int| 0 <= k < j ==> (#[trigger] pre[k]).path@ != pre[i as int].path@,
                decreases i - j,
            {
                proof {
                    assert(pre[j as int] == entries@[j as int]);
                    assert(pre[i as int] == entries@[i as int]);
                }
                let same = string_eq(&entries[j].path, &entry.path);
                if same {
                    seen = true;
                    proof {
                        assert(pre[j as int].path@ == pre[i as int].path@);
                    }
                }
                j += 1;
            }
            proof {
                if seen {
                    let k = choose|k: int| 0 <= k < i && (#[trigger] pre[k]).path@ == pre[i as int].path@;
                    assert(!kept(pre, i as int));
                } else {
                    assert(forall|k: int| 0 <= k < i ==> (#[trigger] pre[k]).path@ != pre[i as int].path@);
                }
            }
            if !hidden && !seen {
                let ghost before = strings_view(subtitles@);
                if is_media_candidate(entry.path.as_str(), &self.extensions) {
                    candidates.push(entry.clone_entry());
                } else if is_subtitle_file(entry.path.as_str()) {
                    subtitles.push(entry.path.clone());
                    proof {
                        assert(strings_view(subtitles@) =~= before.push(entry.path@));
                    }
                }
            }
            i += 1;
        }
        proof {
            assert(entries@.subrange(0, entries@.len() as int) =~= entries@);
        }
        ScanPlan { candidates, subtitles }
    }
}

/// The files the walks of a library's roots found, root after root, in walk order; or
/// the error of the first root whose walk failed.
pub open spec fn walked_spec(walks: Seq<Result<Vec<WalkedEntry>, String>>) -> Result<Seq<WalkedEntry>, Seq<char>>
    decreases walks.len(),
{
    if walks.len() == 0 {
        Ok(Seq::empty())
    } else {
        match walked_spec(walks.drop_last()) {
            Err(e) => Err(e),
            Ok(before) => match walks.last() {
                Err(e) => Err(e@),
                Ok(es) => Ok(before + es@),
            },
        }
    }
}

/// The files that the walks of all of a library's roots found, root after root; or the
/// error of the first root whose walk failed. No file is probed before every root has
/// been walked, so a failed walk ends the scan with nothing probed.
pub fn gather_walks(walks: &Vec<Result<Vec<WalkedEntry>, String>>) -> (r: Result<Vec<WalkedEntry>, String>)
    ensures
        match walked_spec(walks@) {
            Ok(es) => r matches Ok(v) && v@ == es,
            Err(e) => r matches Err(m) && m@ == e,
        },
{
    let mut all: Vec<WalkedEntry> = Vec::new();
    let mut i: usize = 0;
    while i < walks.len()
        invariant
            i <= walks.len(),
            walked_spec(walks@.subrange(0, i as int)) == Ok::<Seq<WalkedEntry>, Seq<char>>(all@),
        decreases walks.len() - i,
    {
        let ghost pre = walks@.subrange(0, i + 1);
        proof {
            assert(pre.drop_last() =~= walks@.subrange(0, i as int));
            assert(pre.last() == walks@[i as int]);
        }
        match &walks[i] {
            Err(e) => {
                proof {
                    lemma_walk_error_stays(walks@, i + 1, e@);
                    assert(walks@.subrange(0, walks@.len() as int) =~= walks@);
                }
                return Err(e.clone());
            },
            Ok(es) => {
                let ghost before = all@;
                let mut j: usize = 0;
                while j < es.len()
                    invariant
                        j <= es.len(),
                        all@ == before + es@.subrange(0, j as int),
                    decreases es.len() - j,
                {
                    all.push(es[j].clone_entry());
                    proof {
                        assert(es@.subrange(0, j + 1) =~= es@.subrange(0, j as int).push(es@[j as int]));
                    }
                    j += 1;
                }
                proof {
                    assert(es@.subrange(0, es@.len() as int) =~= es@);
                }
            },
        }
        i += 1;
    }
    proof {
        assert(walks@.subrange(0, walks@.len() as int) =~= walks@);
    }
    Ok(all)
}

proof fn lemma_walk_error_stays(walks: Seq<Result<Vec<WalkedEntry>, String>>, n: int, e: Seq<char>)
    requires
        0 < n <= walks.len(),
        walked_spec(walks.subrange(0, n)) == Err::<Seq<WalkedEntry>, Seq<char>>(e),
    ensures
        walked_spec(walks.subrange(0, walks.len() as int)) == Err::<Seq<WalkedEntry>, Seq<char>>(e),
    decreases walks.len() - n,
{
    if n < walks.len() {
        assert(walks.subrange(0, n + 1).drop_last() =~= walks.subrange(0, n));
        lemma_walk_error_stays(walks, n + 1, e);
    }
}

/// How many more probes start when `started` of `total` candidates have been handed to
/// the probe and `finished` have come back: as many as keep at most `limit` in flight,
/// and no more than there are candidates left.
pub open spec fn probe_starts(started: int, finished: int, total: int, limit: int) -> int {
    if total - started < limit - (started - finished) { total - started } else { limit - (started - finished) }
}

/// How many more probes a scan starts when `started` of `total` candidates have been
/// handed to the probe and `finished` of them have come back (see [`probe_starts`]).
pub fn probes_to_start(started: usize, finished: usize, total: usize, limit: usize) -> (r: usize)
    requires
        finished <= started <= total,
        started - finished <= limit,
    ensures
        r == probe_starts(started as int, finished as int, total as int, limit as int),
        started + r <= total,
        started + r - finished <= limit,
{
    let room = limit - (started - finished);
    let left = total - started;
    if left < room { left } else { room }
}

/// Whether a scan's probing stands in a state it can be in: no more probes started than
/// candidates, none finished that was not started, at most `limit` in flight.
pub open spec fn probe_window_ok(started: int, finished: int, total: int, limit: int) -> bool {
    0 <= finished <= started <= total && started - finished <= limit
}

/// A scan that starts probes as [`probes_to_start`] says, then waits for the oldest one,
/// never has more than its probe concurrency in flight and never stalls: from any state
/// it can be in with candidates still unprobed, the probes started leave at least one
/// in flight to wait for, at most `limit`, and the state after that probe comes back is
/// again one it can be in. With the concurrency at least one (see
/// `Scanner::with_probe_concurrency`), this holds from the start, nothing started.
pub proof fn law_probes_stay_within_the_concurrency(started: int, finished: int, total: int, limit: int)
    requires
        limit >= 1,
        probe_window_ok(started, finished, total, limit),
        finished < total,
    ensures
        ({
            let now_started = started + probe_starts(started, finished, total, limit);
            &&& finished < now_started
            &&& now_started - finished <= limit
            &&& probe_window_ok(now_started, finished + 1, total, limit)
        }),
        probe_window_ok(0, 0, total, limit),
{
}

/// Whether a scan that has probed `done` of `total` candidates reports progress now:
/// at every `PROGRESS_EVERY` files, but not at the last one, which the caller reports.
pub fn progress_due(done: usize, total: usize) -> (r: bool)
    ensures
        r == (done % PROGRESS_EVERY == 0 && done < total),
{
    done % PROGRESS_EVERY == 0 && done < total
}

/// The subtitle files of a plan that sit in the directory of `path`, in walk order.
pub fn siblings_for(plan: &ScanPlan, path: &str) -> (r: Vec<String>)
    ensures
        strings_view(r@) == siblings_spec(strings_view(plan.subtitles@), path@),
{
    let dir = chars_of(dir_of(path));
    let mut r: Vec<String> = Vec::new();
    let mut i: usize = 0;
    let ghost subs = strings_view(plan.subtitles@);
    while i < plan.subtitles.len()
        invariant
            i <= plan.subtitles.len(),
            subs == strings_view(plan.subtitles@),
            dir@ == dir_of_spec(path@),
            strings_view(r@) == siblings_spec(subs.subrange(0, i as int), path@),
        decreases plan.subtitles.len() - i,
    {
        proof {
            assert(subs.subrange(0, i + 1).drop_last() =~= subs.subrange(0, i as int));
            assert(subs[i as int] == plan.subtitles@[i as int]@);
        }
        let sub_dir = chars_of(dir_of(plan.subtitles[i].as_str()));
        if crate::chars::chars_eq(&sub_dir, &dir) {
            let ghost before = strings_view(r@);
            r.push(plan.subtitles[i].clone());
            proof {
                assert(strings_view(r@) =~= before.push(plan.subtitles@[i as int]@));
            }
        }
        i += 1;
    }
    proof {
        assert(subs.subrange(0, subs.len() as int) =~= subs);
    }
    r
}

/// A discovered file as plain values: library, path, size, probe, subtitle siblings.
pub open spec fn discovered_view(d: DiscoveredFile) -> (Seq<char>, Seq<char>, u64, ProbeResult, Seq<Seq<char>>) {
    (d.library@, d.path@, d.size_bytes, d.probe, strings_view(d.subtitle_siblings@))
}

/// A skipped file as plain values: path and the probe's error.
pub open spec fn skipped_view(s: SkippedFile) -> (Seq<char>, Seq<char>) {
    match s.reason {
        SkipReason::ProbeFailed(msg) => (s.path@, msg@),
    }
}

/// The candidates whose probe succeeded, with their siblings, in candidate order.
pub open spec fn discovered_spec(
    library: Seq<char>,
    cands: Seq<WalkedEntry>,
    subs: Seq<Seq<char>>,
    results: Seq<Result<ProbeResult, String>>,
) -> Seq<(Seq<char>, Seq<char>, u64, ProbeResult, Seq<Seq<char>>)>
    decreases cands.len(),
{
    if cands.len() == 0 || results.len() < cands.len() {
        Seq::empty()
    } else {
        let n = cands.len() - 1;
        let prev = discovered_spec(library, cands.drop_last(), subs, results.subrange(0, n));
        match results[n] {
            Ok(probe) => prev.push((library, cands[n].path@, cands[n].size_bytes, probe, siblings_spec(subs, cands[n].path@))),
            Err(_) => prev,
        }
    }
}

/// The candidates whose probe failed, with the error, in candidate order.
pub open spec fn skipped_spec(cands: Seq<WalkedEntry>, results: Seq<Result<ProbeResult, String>>) -> Seq<(Seq<char>, Seq<char>)>
    decreases cands.len(),
{
    if cands.len() == 0 || results.len() < cands.len() {
        Seq::empty()
    } else {
        let n = cands.len() - 1;
        let prev = skipped_spec(cands.drop_last(), results.subrange(0, n));
        match results[n] {
            Ok(_) => prev,
            Err(msg) => prev.push((cands[n].path@, msg@)),
        }
    }
}

/// The report of a scan from its plan and the probe of each candidate, in
/// candidate order: probed files are discovered with the subtitle files of their
/// directory, failed probes are skipped with the probe's error.
pub fn scan_report(library: &String, plan: ScanPlan, results: Vec<Result<ProbeResult, String>>) -> (r: ScanReport)
    requires
        results.len() == plan.candidates.len(),
    ensures
        r.total_candidates == plan.candidates.len(),
        r.discovered@.map_values(|d: DiscoveredFile| discovered_view(d))
            == discovered_spec(library@, plan.candidates@, strings_view(plan.subtitles@), results@),
        r.skipped@.map_values(|s: SkippedFile| skipped_view(s)) == skipped_spec(plan.candidates@, results@),
{
    let total = plan.candidates.len();
    let ghost cands = plan.candidates@;
    let ghost all = results@;
    let ghost subs = strings_view(plan.subtitles@);
    let mut discovered: Vec<DiscoveredFile> = Vec::new();
    let mut skipped: Vec<SkippedFile> = Vec::new();
    let mut rest = results;
    let mut i: usize = 0;
    while i < total
        invariant
            total == cands.len() == all.len(),
            cands == plan.candidates@,
            subs == strings_view(plan.subtitles@),
            i <= total,
            rest@ == all.subrange(i as int, total as int),
            discovered@.map_values(|d: DiscoveredFile| discovered_view(d))
                == discovered_spec(library@, cands.subrange(0, i as int), subs, all.subrange(0, i as int)),
            skipped@.map_values(|s: SkippedFile| skipped_view(s))
                == skipped_spec(cands.subrange(0, i as int), all.subrange(0, i as int)),
        decreases total - i,
    {
        proof {
            assert(cands.subrange(0, i + 1).drop_last() =~= cands.subrange(0, i as int));
            assert(all.subrange(0, i + 1).subrange(0, i as int) =~= all.subrange(0, i as int));
            assert(rest@[0] == all[i as int]);
        }
        let result = rest.remove(0);
        let entry = &plan.candidates[i];
        let ghost d_before = discovered@.map_values(|d: DiscoveredFile| discovered_view(d));
        let ghost s_before = skipped@.map_values(|s: SkippedFile| skipped_view(s));
        match result {
            Ok(probe) => {
                let siblings = siblings_for(&plan, entry.path.as_str());
                let file = DiscoveredFile {
                    library: library.clone(),
                    path: entry.path.clone(),
                    size_bytes: entry.size_bytes,
                    probe,
                    subtitle_siblings: siblings,
                };
                discovered.push(file);
                proof {
                    assert(discovered@.map_values(|d: DiscoveredFile| discovered_view(d)) =~= d_before.push(discovered_view(discovered@.last())));
                }
            },
            Err(message) => {
                skipped.push(SkippedFile { path: entry.path.clone(), reason: SkipReason::ProbeFailed(message) });
                proof {
                    assert(skipped@.map_values(|s: SkippedFile| skipped_view(s)) =~= s_before.push(skipped_view(skipped@.last())));
                }
            },
        }
        proof {
            assert(rest@ =~= all.subrange(i + 1, total as int));
        }
        i += 1;
    }
    proof {
        assert(cands.subrange(0, total as int) =~= cands);
        assert(all.subrange(0, total as int) =~= all);
    }
    ScanReport { discovered, skipped, total_candidates: total }
}

impl WalkedEntry {
    pub fn clone_entry(&self) -> (r: WalkedEntry)
        ensures
            r == *self,
    {
        WalkedEntry { path: self.path.clone(), size_bytes: self.size_bytes }
    }
}

pub fn string_eq(a: &String, b: &String) -> (r: bool)
    ensures
        r == (a@ == b@),
{
    *a == *b
}


/// Every candidate of a scan is reported once: discovered when its probe succeeded,
/// skipped when it failed.
pub proof fn law_scan_reports_every_candidate(
    library: Seq<char>,
    cands: Seq<WalkedEntry>,
    subs: Seq<Seq<char>>,
    results: Seq<Result<ProbeResult, String>>,
)
    requires
        results.len() == cands.len(),
    ensures
        discovered_spec(library, cands, subs, results).len() + skipped_spec(cands, results).len() == cands.len(),
    decreases cands.len(),
{
    if cands.len() > 0 {
        let n = cands.len() - 1;
        law_scan_reports_every_candidate(library, cands.drop_last(), subs, results.subrange(0, n));
    }
}

/// Whether a discovered list holds a file at path `p`.
pub open spec fn discovered_at(d: Seq<(Seq<char>, Seq<char>, u64, ProbeResult, Seq<Seq<char>>)>, p: Seq<char>) -> bool {
    exists|j: int| 0 <= j < d.len() && (#[trigger] d[j]).1 == p
}

/// Whether a skipped list holds a file at path `p`.
pub open spec fn skipped_at(s: Seq<(Seq<char>, Seq<char>)>, p: Seq<char>) -> bool {
    exists|j: int| 0 <= j < s.len() && (#[trigger] s[j]).0 == p
}

/// Whether some candidate at path `p` was probed with the outcome `ok`.
pub open spec fn probed_at(cands: Seq<WalkedEntry>, results: Seq<Result<ProbeResult, String>>, p: Seq<char>, ok: bool) -> bool {
    exists|i: int| 0 <= i < cands.len() && (#[trigger] cands[i]).path@ == p && (results[i] is Ok) == ok
}

/// A scan reports each candidate where its probe put it: among the discovered files
/// when the probe succeeded, among the skipped ones when it failed; and it reports no
/// file that is not such a candidate. With the candidates distinct (see
/// [`law_candidates_are_visible_and_distinct`]) and the count law above, the paths of
/// the discovered and the skipped files are the candidates' paths, each once.
pub proof fn law_scan_puts_each_candidate_where_its_probe_put_it(
    library: Seq<char>,
    cands: Seq<WalkedEntry>,
    subs: Seq<Seq<char>>,
    results: Seq<Result<ProbeResult, String>>,
)
    requires
        results.len() == cands.len(),
    ensures
        forall|i: int| 0 <= i < cands.len() && results[i] is Ok
            ==> discovered_at(discovered_spec(library, cands, subs, results), (#[trigger] cands[i]).path@),
        forall|i: int| 0 <= i < cands.len() && results[i] is Err
            ==> skipped_at(skipped_spec(cands, results), (#[trigger] cands[i]).path@),
        forall|j: int| 0 <= j < discovered_spec(library, cands, subs, results).len()
            ==> probed_at(cands, results, (#[trigger] discovered_spec(library, cands, subs, results)[j]).1, true),
        forall|j: int| 0 <= j < skipped_spec(cands, results).len()
            ==> probed_at(cands, results, (#[trigger] skipped_spec(cands, results)[j]).0, false),
    decreases cands.len(),
{
    if cands.len() > 0 {
        let n = cands.len() - 1;
        let pc = cands.drop_last();
        let pr = results.subrange(0, n);
        law_scan_puts_each_candidate_where_its_probe_put_it(library, pc, subs, pr);
        let d = discovered_spec(library, cands, subs, results);
        let pd = discovered_spec(library, pc, subs, pr);
        let sk = skipped_spec(cands, results);
        let ps = skipped_spec(pc, pr);
        assert forall|i: int| 0 <= i < cands.len() && results[i] is Ok implies discovered_at(d, (#[trigger] cands[i]).path@) by {
            if i < n {
                assert(pc[i] == cands[i] && pr[i] == results[i]);
                assert(discovered_at(pd, pc[i].path@));
                let j = choose|j: int| 0 <= j < pd.len() && (#[trigger] pd[j]).1 == pc[i].path@;
                assert(d[j] == pd[j]);
            } else {
                assert(d[d.len() - 1].1 == cands[i].path@);
            }
        }
        assert forall|i: int| 0 <= i < cands.len() && results[i] is Err implies skipped_at(sk, (#[trigger] cands[i]).path@) by {
            if i < n {
                assert(pc[i] == cands[i] && pr[i] == results[i]);
                assert(skipped_at(ps, pc[i].path@));
                let j = choose|j: int| 0 <= j < ps.len() && (#[trigger] ps[j]).0 == pc[i].path@;
                assert(sk[j] == ps[j]);
            } else {
                assert(sk[sk.len() - 1].0 == cands[i].path@);
            }
        }
        assert forall|j: int| 0 <= j < d.len() implies probed_at(cands, results, (#[trigger] d[j]).1, true) by {
            if j < pd.len() {
                assert(d[j] == pd[j]);
                assert(probed_at(pc, pr, pd[j].1, true));
                let i = choose|i: int| 0 <= i < pc.len() && (#[trigger] pc[i]).path@ == pd[j].1 && (pr[i] is Ok) == true;
                assert(pc[i] == cands[i] && pr[i] == results[i]);
            } else {
                assert(cands[n].path@ == d[j].1);
            }
        }
        assert forall|j: int| 0 <= j < sk.len() implies probed_at(cands, results, (#[trigger] sk[j]).0, false) by {
            if j < ps.len() {
                assert(sk[j] == ps[j]);
                assert(probed_at(pc, pr, ps[j].0, false));
                let i = choose|i: int| 0 <= i < pc.len() && (#[trigger] pc[i]).path@ == ps[j].0 && (pr[i] is Ok) == false;
                assert(pc[i] == cands[i] && pr[i] == results[i]);
            } else {
                assert(cands[n].path@ == sk[j].0);
            }
        }
    }
}

/// A scan probes no hidden file and no path twice.
pub proof fn law_candidates_are_visible_and_distinct(es: Seq<WalkedEntry>, exts: Seq<Seq<char>>)
    ensures
        forall|i: int| 0 <= i < candidates_spec(es, exts).len()
            ==> !hidden_spec((#[trigger] candidates_spec(es, exts)[i]).path@),
        forall|i: int, j: int| 0 <= i < j < candidates_spec(es, exts).len()
            ==> (#[trigger] candidates_spec(es, exts)[i]).path@ != (#[trigger] candidates_spec(es, exts)[j]).path@,
    decreases es.len(),
{
    if es.len() > 0 {
        let prev_es = es.drop_last();
        law_candidates_are_visible_and_distinct(prev_es, exts);
        lemma_candidates_come_from(prev_es, exts);
        let r = candidates_spec(es, exts);
        let prev = candidates_spec(prev_es, exts);
        let last = es.len() - 1;
        assert forall|i: int| 0 <= i < r.len() implies !hidden_spec((#[trigger] r[i]).path@) by {
            if i < prev.len() {
                assert(r[i] == prev[i]);
            }
        }
        assert forall|i: int, j: int| 0 <= i < j < r.len() implies (#[trigger] r[i]).path@ != (#[trigger] r[j]).path@ by {
            if j < prev.len() {
                assert(r[i] == prev[i] && r[j] == prev[j]);
            } else {
                assert(r[i] == prev[i]);
                let k = choose|k: int| 0 <= k < prev_es.len() && prev_es[k] == prev[i];
                assert(es[k] == prev_es[k]);
                assert(r[j] == es[last]);
            }
        }
    }
}

proof fn lemma_candidates_come_from(es: Seq<WalkedEntry>, exts: Seq<Seq<char>>)
    ensures
        forall|i: int| 0 <= i < candidates_spec(es, exts).len()
            ==> exists|k: int| 0 <= k < es.len() && es[k] == #[trigger] candidates_spec(es, exts)[i],
    decreases es.len(),
{
    if es.len() > 0 {
        let prev_es = es.drop_last();
        lemma_candidates_come_from(prev_es, exts);
        let r = candidates_spec(es, exts);
        let prev = candidates_spec(prev_es, exts);
        assert forall|i: int| 0 <= i < r.len() implies exists|k: int| 0 <= k < es.len() && es[k] == #[trigger] r[i] by {
            if i < prev.len() {
                assert(r[i] == prev[i]);
                let k = choose|k: int| 0 <= k < prev_es.len() && prev_es[k] == prev[i];
                assert(es[k] == prev_es[k]);
            } else {
                assert(es[es.len() - 1] == r[i]);
            }
        }
    }
}

/// The paths a scan saw on disk: every discovered file's, then every skipped file's.
pub open spec fn present_spec(report: ScanReport) -> Seq<Seq<char>> {
    report.discovered@.map_values(|f: DiscoveredFile| f.path@) + report.skipped@.map_values(|f: SkippedFile| f.path@)
}

/// The paths that the library's stored versions, duplicates and unmatched files are
/// reconciled against after a scan: a file skipped on the way is still on disk.
pub fn present_paths(report: &ScanReport) -> (r: Vec<String>)
    ensures
        r@.map_values(|s: String| s@) == present_spec(*report),
{
    let mut out: Vec<String> = Vec::new();
    let mut i: usize = 0;
    while i < report.discovered.len()
        invariant
            i <= report.discovered.len(),
            out@.map_values(|s: String| s@) == report.discovered@.subrange(0, i as int).map_values(|f: DiscoveredFile| f.path@),
        decreases report.discovered.len() - i,
    {
        let ghost prev = out@.map_values(|s: String| s@);
        let p = report.discovered[i].path.clone();
        assert(p@ == report.discovered@[i as int].path@);
        out.push(p);
        assert(out@.map_values(|s: String| s@) =~= prev.push(p@));
        assert(report.discovered@.subrange(0, i + 1).map_values(|f: DiscoveredFile| f.path@)
            =~= report.discovered@.subrange(0, i as int).map_values(|f: DiscoveredFile| f.path@).push(p@));
        i = i + 1;
    }
    assert(report.discovered@.subrange(0, i as int) =~= report.discovered@);
    let ghost head = out@.map_values(|s: String| s@);
    let mut j: usize = 0;
    while j < report.skipped.len()
        invariant
            j <= report.skipped.len(),
            head == report.discovered@.map_values(|f: DiscoveredFile| f.path@),
            out@.map_values(|s: String| s@) == head + report.skipped@.subrange(0, j as int).map_values(|f: SkippedFile| f.path@),
        decreases report.skipped.len() - j,
    {
        let ghost prev = out@.map_values(|s: String| s@);
        let p = report.skipped[j].path.clone();
        assert(p@ == report.skipped@[j as int].path@);
        out.push(p);
        assert(out@.map_values(|s: String| s@) =~= prev.push(p@));
        assert(report.skipped@.subrange(0, j + 1).map_values(|f: SkippedFile| f.path@)
            =~= report.skipped@.subrange(0, j as int).map_values(|f: SkippedFile| f.path@).push(p@));
        j = j + 1;
    }
    assert(report.skipped@.subrange(0, j as int) =~= report.skipped@);
    out
}
} // verus!
