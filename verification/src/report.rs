//! The run report: per-entry outcomes, the builder methods that accumulate
//! them, and the aggregation the rendered summary is made of.

use vstd::prelude::*;

verus! {

/// One per-entry outcome: the entry's file name, whether it was copied, and
/// whether it is disk-bearing.
#[derive(Debug, Clone)]
pub struct ReportDetailEntry {
    pub rom_name: String,
    pub moved: bool,
    pub is_chd: bool,
}

/// Mathematical value of a `ReportDetailEntry`.
pub struct ReportDetailEntryV {
    pub rom_name: Seq<char>,
    pub moved: bool,
    pub is_chd: bool,
}

impl View for ReportDetailEntry {
    type V = ReportDetailEntryV;

    open spec fn view(&self) -> ReportDetailEntryV {
        ReportDetailEntryV { rom_name: self.rom_name@, moved: self.moved, is_chd: self.is_chd }
    }
}

/// The accumulated report data of a run.
#[derive(Debug)]
pub struct Report {
    pub total_working: i32,
    pub total_other: i32,
    pub source_dir: String,
    pub destination_dir: String,
    pub roms_working: Vec<ReportDetailEntry>,
    pub roms_other: Vec<ReportDetailEntry>,
    pub all_ok: bool,
}

/// Mathematical value of a `Report`.
pub struct ReportV {
    pub total_working: i32,
    pub total_other: i32,
    pub source_dir: Seq<char>,
    pub destination_dir: Seq<char>,
    pub roms_working: Seq<ReportDetailEntryV>,
    pub roms_other: Seq<ReportDetailEntryV>,
    pub all_ok: bool,
}

impl View for Report {
    type V = ReportV;

    open spec fn view(&self) -> ReportV {
        ReportV {
            total_working: self.total_working,
            total_other: self.total_other,
            source_dir: self.source_dir@,
            destination_dir: self.destination_dir@,
            roms_working: self.roms_working@.map_values(|e: ReportDetailEntry| e@),
            roms_other: self.roms_other@.map_values(|e: ReportDetailEntry| e@),
            all_ok: self.all_ok,
        }
    }
}

/// The report before anything is recorded.
pub open spec fn empty_report() -> ReportV {
    ReportV {
        total_working: 0,
        total_other: 0,
        source_dir: Seq::empty(),
        destination_dir: Seq::empty(),
        roms_working: Seq::empty(),
        roms_other: Seq::empty(),
        all_ok: false,
    }
}

/// How many entries were copied.
pub open spec fn count_moved(s: Seq<ReportDetailEntryV>) -> nat
    decreases s.len(),
{
    if s.len() == 0 {
        0
    } else {
        count_moved(s.drop_last()) + if s.last().moved {
            1nat
        } else {
            0
        }
    }
}

/// How many entries were copied and are disk-bearing.
pub open spec fn count_moved_chd(s: Seq<ReportDetailEntryV>) -> nat
    decreases s.len(),
{
    if s.len() == 0 {
        0
    } else {
        count_moved_chd(s.drop_last()) + if s.last().moved && s.last().is_chd {
            1nat
        } else {
            0
        }
    }
}

/// How many entries failed to copy.
pub open spec fn count_not_moved(s: Seq<ReportDetailEntryV>) -> nat
    decreases s.len(),
{
    if s.len() == 0 {
        0
    } else {
        count_not_moved(s.drop_last()) + if s.last().moved {
            0nat
        } else {
            1
        }
    }
}

/// The entries whose `moved` flag equals `m`, in order.
pub open spec fn entries_with_moved_spec(s: Seq<ReportDetailEntryV>, m: bool) -> Seq<
    ReportDetailEntryV,
>
    decreases s.len(),
{
    if s.len() == 0 {
        Seq::empty()
    } else {
        let rest = entries_with_moved_spec(s.drop_last(), m);
        if s.last().moved == m {
            rest.push(s.last())
        } else {
            rest
        }
    }
}

/// The figures of the rendered summary section.
#[derive(Debug, PartialEq, Eq)]
pub struct ReportSummary {
    pub moved_to_working_folder: usize,
    pub moved_to_working_folder_chd: usize,
    pub moved_to_other_folder: usize,
    pub moved_to_other_folder_chd: usize,
    pub roms_failed_to_move: usize,
}

fn entry_clone(e: &ReportDetailEntry) -> (r: ReportDetailEntry)
    ensures
        r@ == e@,
{
    ReportDetailEntry { rom_name: e.rom_name.clone(), moved: e.moved, is_chd: e.is_chd }
}

fn entries_clone(v: &Vec<ReportDetailEntry>) -> (r: Vec<ReportDetailEntry>)
    ensures
        r@.map_values(|e: ReportDetailEntry| e@) == v@.map_values(|e: ReportDetailEntry| e@),
{
    let n = v.len();
    let mut out: Vec<ReportDetailEntry> = Vec::new();
    let mut i: usize = 0;
    while i < n
        invariant
            n == v@.len(),
            i <= n,
            out@.len() == i,
            forall|j: int| 0 <= j < i ==> (#[trigger] out@[j])@ == v@[j]@,
        decreases n - i,
    {
        out.push(entry_clone(&v[i]));
        i += 1;
    }
    proof {
        assert(out@.map_values(|e: ReportDetailEntry| e@) =~= v@.map_values(
            |e: ReportDetailEntry| e@,
        ));
    }
    out
}

fn count_entries(v: &Vec<ReportDetailEntry>) -> (r: (usize, usize, usize))
    ensures
        r.0 == count_moved(v@.map_values(|e: ReportDetailEntry| e@)),
        r.1 == count_moved_chd(v@.map_values(|e: ReportDetailEntry| e@)),
        r.2 == count_not_moved(v@.map_values(|e: ReportDetailEntry| e@)),
{
    let ghost s = v@.map_values(|e: ReportDetailEntry| e@);
    let n = v.len();
    let mut moved: usize = 0;
    let mut moved_chd: usize = 0;
    let mut failed: usize = 0;
    let mut i: usize = 0;
    proof {
        assert(s.take(0) =~= Seq::<ReportDetailEntryV>::empty());
    }
    while i < n
        invariant
            n == v@.len(),
            s == v@.map_values(|e: ReportDetailEntry| e@),
            i <= n,
            moved <= i,
            moved_chd <= i,
            failed <= i,
            moved == count_moved(s.take(i as int)),
            moved_chd == count_moved_chd(s.take(i as int)),
            failed == count_not_moved(s.take(i as int)),
        decreases n - i,
    {
        proof {
            assert(s.take(i + 1).drop_last() =~= s.take(i as int));
            assert(s.take(i + 1).last() == s[i as int]);
        }
        let e = &v[i];
        if e.moved {
            moved += 1;
            if e.is_chd {
                moved_chd += 1;
            }
        } else {
            failed += 1;
        }
        i += 1;
    }
    proof {
        assert(s.take(n as int) =~= s);
    }
    (moved, moved_chd, failed)
}

impl Report {
    pub fn new() -> (r: Report)
        ensures
            r@ == empty_report(),
    {
        let r = Report {
            total_working: 0,
            total_other: 0,
            source_dir: String::new(),
            destination_dir: String::new(),
            roms_working: Vec::new(),
            roms_other: Vec::new(),
            all_ok: false,
        };
        proof {
            assert(r@.roms_working =~= Seq::<ReportDetailEntryV>::empty());
            assert(r@.roms_other =~= Seq::<ReportDetailEntryV>::empty());
        }
        r
    }

    /// A copy of the accumulated report.
    pub fn build(&self) -> (r: Report)
        ensures
            r@ == self@,
    {
        Report {
            total_working: self.total_working,
            total_other: self.total_other,
            source_dir: self.source_dir.clone(),
            destination_dir: self.destination_dir.clone(),
            roms_working: entries_clone(&self.roms_working),
            roms_other: entries_clone(&self.roms_other),
            all_ok: self.all_ok,
        }
    }

    pub fn total_working(&mut self, value: i32)
        ensures
            final(self)@ == (ReportV { total_working: value, ..old(self)@ }),
    {
        self.total_working = value;
    }

    pub fn total_other(&mut self, value: i32)
        ensures
            final(self)@ == (ReportV { total_other: value, ..old(self)@ }),
    {
        self.total_other = value;
    }

    pub fn source_dir(&mut self, value: String)
        ensures
            final(self)@ == (ReportV { source_dir: value@, ..old(self)@ }),
    {
        self.source_dir = value;
    }

    pub fn destination_dir(&mut self, value: String)
        ensures
            final(self)@ == (ReportV { destination_dir: value@, ..old(self)@ }),
    {
        self.destination_dir = value;
    }

    /// Records the outcome of an entry routed to a working folder.
    pub fn add_rom_working(&mut self, value: ReportDetailEntry)
        ensures
            final(self)@ == (ReportV {
                roms_working: old(self)@.roms_working.push(value@),
                ..old(self)@
            }),
    {
        let ghost v = value@;
        let ghost before = self.roms_working@;
        self.roms_working.push(value);
        proof {
            assert(self.roms_working@.map_values(|e: ReportDetailEntry| e@) =~= before.map_values(
                |e: ReportDetailEntry| e@,
            ).push(v));
        }
    }

    /// Records the outcome of an entry routed to an other folder.
    pub fn add_rom_other(&mut self, value: ReportDetailEntry)
        ensures
            final(self)@ == (ReportV {
                roms_other: old(self)@.roms_other.push(value@),
                ..old(self)@
            }),
    {
        let ghost v = value@;
        let ghost before = self.roms_other@;
        self.roms_other.push(value);
        proof {
            assert(self.roms_other@.map_values(|e: ReportDetailEntry| e@) =~= before.map_values(
                |e: ReportDetailEntry| e@,
            ).push(v));
        }
    }

    pub fn all_ok(&mut self, value: bool)
        ensures
            final(self)@ == (ReportV { all_ok: value, ..old(self)@ }),
    {
        self.all_ok = value;
    }

    /// The summary figures: entries copied to working and other folders, the
    /// disk-bearing ones among them, and the entries that failed to copy.
    pub fn build_summary(&self) -> (r: ReportSummary)
        requires
            self@.roms_working.len() + self@.roms_other.len() <= usize::MAX,
        ensures
            r.moved_to_working_folder == count_moved(self@.roms_working),
            r.moved_to_working_folder_chd == count_moved_chd(self@.roms_working),
            r.moved_to_other_folder == count_moved(self@.roms_other),
            r.moved_to_other_folder_chd == count_moved_chd(self@.roms_other),
            r.roms_failed_to_move == count_not_moved(self@.roms_working) + count_not_moved(
                self@.roms_other,
            ),
    {
        let (w_moved, w_chd, w_failed) = count_entries(&self.roms_working);
        let (o_moved, o_chd, o_failed) = count_entries(&self.roms_other);
        proof {
            lemma_counts_bounded(self@.roms_working);
            lemma_counts_bounded(self@.roms_other);
        }
        ReportSummary {
            moved_to_working_folder: w_moved,
            moved_to_working_folder_chd: w_chd,
            moved_to_other_folder: o_moved,
            moved_to_other_folder_chd: o_chd,
            roms_failed_to_move: w_failed + o_failed,
        }
    }

    /// The detail entries with the given `moved` outcome, in report order.
    pub fn entries_with_moved(entries: &Vec<ReportDetailEntry>, moved: bool) -> (r: Vec<
        ReportDetailEntry,
    >)
        ensures
            r@.map_values(|e: ReportDetailEntry| e@) == entries_with_moved_spec(
                entries@.map_values(|e: ReportDetailEntry| e@),
                moved,
            ),
    {
        let ghost s = entries@.map_values(|e: ReportDetailEntry| e@);
        let n = entries.len();
        let mut out: Vec<ReportDetailEntry> = Vec::new();
        let mut i: usize = 0;
        proof {
            assert(s.take(0) =~= Seq::<ReportDetailEntryV>::empty());
            assert(out@.map_values(|e: ReportDetailEntry| e@) =~= entries_with_moved_spec(
                s.take(0),
                moved,
            ));
        }
        while i < n
            invariant
                n == entries@.len(),
                s == entries@.map_values(|e: ReportDetailEntry| e@),
                i <= n,
                out@.map_values(|e: ReportDetailEntry| e@) == entries_with_moved_spec(
                    s.take(i as int),
                    moved,
                ),
            decreases n - i,
        {
            proof {
                assert(s.take(i + 1).drop_last() =~= s.take(i as int));
                assert(s.take(i + 1).last() == s[i as int]);
            }
            let e = &entries[i];
            if e.moved == moved {
                let c = entry_clone(e);
                proof {
                    assert(out@.push(c).map_values(|x: ReportDetailEntry| x@) =~= out@.map_values(
                        |x: ReportDetailEntry| x@,
                    ).push(c@));
                }
                out.push(c);
            }
            i += 1;
        }
        proof {
            assert(s.take(n as int) =~= s);
        }
        out
    }
}

/// Each count is bounded by the number of entries.
pub proof fn lemma_counts_bounded(s: Seq<ReportDetailEntryV>)
    ensures
        count_moved(s) <= s.len(),
        count_moved_chd(s) <= s.len(),
        count_not_moved(s) <= s.len(),
        count_moved(s) + count_not_moved(s) == s.len(),
    decreases s.len(),
{
    if s.len() > 0 {
        lemma_counts_bounded(s.drop_last());
    }
}

/// An empty outcome sequence yields a report whose summary counts are all
/// zero and whose detail sections are empty.
pub proof fn lemma_empty_report()
    ensures
        empty_report().roms_working.len() == 0,
        empty_report().roms_other.len() == 0,
        count_moved(empty_report().roms_working) == 0,
        count_moved_chd(empty_report().roms_working) == 0,
        count_moved(empty_report().roms_other) == 0,
        count_moved_chd(empty_report().roms_other) == 0,
        count_not_moved(empty_report().roms_working) + count_not_moved(empty_report().roms_other)
            == 0,
        entries_with_moved_spec(empty_report().roms_working, true) == Seq::<
            ReportDetailEntryV,
        >::empty(),
        entries_with_moved_spec(empty_report().roms_working, false) == Seq::<
            ReportDetailEntryV,
        >::empty(),
{
}

} // verus!
