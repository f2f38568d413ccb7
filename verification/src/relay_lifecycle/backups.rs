//! Which backups are old enough to go.
use crate::text::{
    chars_of, cut_texts_join_again, find_char, first_of, lemma_views_push, lines, parse_i64,
    split_once, string_range, text_lines, text_parse_i64, text_split_once, views,
};
use crate::time::Timestamp;
use vstd::prelude::*;

verus! {

/// Age in days from which a backup may go.
pub const BACKUP_RETENTION_DAYS: i64 = 7;

/// Number of backups that stay whatever their age.
pub const MIN_RETAINED_BACKUPS: usize = 3;

/// A backup directory and the second of its last change.
#[derive(Debug, PartialEq, Eq)]
pub struct BackupEntry<T = String> {
    pub epoch: i64,
    pub path: T,
}

/// The view of a [`BackupEntry`].
pub type BackupView = BackupEntry<Seq<char>>;

impl View for BackupEntry {
    type V = BackupEntry<Seq<char>>;

    open spec fn view(&self) -> BackupEntry<Seq<char>> {
        BackupEntry { epoch: self.epoch, path: self.path@ }
    }
}

impl Clone for BackupEntry {
    fn clone(&self) -> (r: BackupEntry)
        ensures
            r == *self,
    {
        BackupEntry { epoch: self.epoch, path: self.path.clone() }
    }
}

/// The part of a text before its first dot.
pub open spec fn before_dot(s: Seq<char>) -> Seq<char> {
    s.take(first_of(s, '.') as int)
}

/// One line of the listing: seconds with a fraction, a tab, and the path.
pub open spec fn parse_entry(line: Seq<char>) -> Option<BackupView> {
    match split_once(line, '\t') {
        Some((stamp, path)) => match parse_i64(before_dot(stamp)) {
            Some(epoch) => Some(BackupEntry { epoch, path }),
            None => None,
        },
        None => None,
    }
}

/// The entries of those lines that hold one.
pub open spec fn parse_entries(rows: Seq<Seq<char>>) -> Seq<BackupView>
    decreases rows.len(),
{
    if rows.len() == 0 {
        seq![]
    } else {
        let before = parse_entries(rows.drop_last());
        match parse_entry(rows.last()) {
            Some(entry) => before.push(entry),
            None => before,
        }
    }
}

fn read_entry(line: &str) -> (r: Option<BackupEntry>)
    ensures
        match r {
            Some(entry) => parse_entry(line@) == Some(entry@),
            None => parse_entry(line@) is None,
        },
{
    match text_split_once(line, '\t') {
        Some((stamp, path)) => {
            let chars = chars_of(stamp.as_str());
            assert(chars@.skip(0) =~= stamp@);
            let dot = find_char(&chars, 0, '.');
            let whole = string_range(&chars, 0, dot);
            match text_parse_i64(whole.as_str()) {
                Some(epoch) => Some(BackupEntry { epoch, path }),
                None => None,
            }
        },
        None => None,
    }
}

/// Reads the listing of the backup directories; lines of another form are passed over.
pub fn parse_backup_listing(raw: &str) -> (out: Vec<BackupEntry>)
    ensures
        views(out@) == parse_entries(lines(raw@)),
{
    let rows = text_lines(raw);
    let mut out: Vec<BackupEntry> = Vec::new();
    let mut i: usize = 0;
    assert(views(out@) =~= parse_entries(views(rows@).take(0)));
    while i < rows.len()
        invariant
            i <= rows@.len(),
            views(out@) == parse_entries(views(rows@).take(i as int)),
        decreases rows@.len() - i,
    {
        let ghost before = out@;
        let ghost next = views(rows@).take(i + 1);
        assert(next.drop_last() =~= views(rows@).take(i as int));
        assert(next.last() == rows@[i as int]@);
        match read_entry(rows[i].as_str()) {
            Some(entry) => {
                out.push(entry);
                proof {
                    lemma_views_push(before, entry);
                }
            },
            None => {},
        }
        i += 1;
    }
    assert(views(rows@).take(i as int) =~= views(rows@));
    out
}

/// Where an entry goes in a list that stands newest first: behind all that are not older.
pub open spec fn place_of(sorted: Seq<BackupView>, epoch: i64) -> nat
    decreases sorted.len(),
{
    if sorted.len() == 0 || sorted.last().epoch >= epoch {
        sorted.len()
    } else {
        place_of(sorted.drop_last(), epoch)
    }
}

/// The entries newest first; those of one second stay in their order.
pub open spec fn newest_first(entries: Seq<BackupView>) -> Seq<BackupView>
    decreases entries.len(),
{
    if entries.len() == 0 {
        seq![]
    } else {
        let sorted = newest_first(entries.drop_last());
        let entry = entries.last();
        sorted.insert(place_of(sorted, entry.epoch) as int, entry)
    }
}

proof fn lemma_place_bound(sorted: Seq<BackupView>, epoch: i64)
    ensures
        place_of(sorted, epoch) <= sorted.len(),
        place_of(sorted, epoch) > 0 ==> sorted[place_of(sorted, epoch) - 1].epoch >= epoch,
        forall|j: int|
            place_of(sorted, epoch) <= j < sorted.len() ==> (#[trigger] sorted[j]).epoch < epoch,
    decreases sorted.len(),
{
    if sorted.len() > 0 && sorted.last().epoch < epoch {
        lemma_place_bound(sorted.drop_last(), epoch);
        assert forall|j: int| place_of(sorted, epoch) <= j < sorted.len() implies (
        #[trigger] sorted[j]).epoch < epoch by {
            if j < sorted.len() - 1 {
                assert(sorted.drop_last()[j] == sorted[j]);
            }
        }
    }
}

/// Sorting changes neither which entries there are nor how many, and puts no entry before a
/// newer one.
pub proof fn newest_first_sorts(entries: Seq<BackupView>)
    ensures
        newest_first(entries).len() == entries.len(),
        newest_first(entries).to_multiset() == entries.to_multiset(),
        forall|i: int, j: int|
            0 <= i < j < entries.len() ==> (#[trigger] newest_first(entries)[i]).epoch >= (
            #[trigger] newest_first(entries)[j]).epoch,
    decreases entries.len(),
{
    broadcast use vstd::seq_lib::group_to_multiset_ensures;

    if entries.len() > 0 {
        newest_first_sorts(entries.drop_last());
        let sorted = newest_first(entries.drop_last());
        let entry = entries.last();
        let at = place_of(sorted, entry.epoch) as int;
        lemma_place_bound(sorted, entry.epoch);
        vstd::seq_lib::to_multiset_insert(sorted, at, entry);
        assert(entries =~= entries.drop_last().push(entry));
        let out = sorted.insert(at, entry);
        assert forall|i: int, j: int| 0 <= i < j < entries.len() implies (
        #[trigger] newest_first(entries)[i]).epoch >= (#[trigger] newest_first(
            entries,
        )[j]).epoch by {
            assert(out[i] == if i < at { sorted[i] } else if i == at { entry } else { sorted[i - 1] });
            assert(out[j] == if j < at { sorted[j] } else if j == at { entry } else { sorted[j - 1] });
            if i < at && j == at && i < at - 1 {
                assert(sorted[i].epoch >= sorted[at - 1].epoch);
            }
        }
    }
}

/// The entries of one second, in their order.
pub open spec fn of_second(entries: Seq<BackupView>, epoch: i64) -> Seq<BackupView>
    decreases entries.len(),
{
    if entries.len() == 0 {
        seq![]
    } else if entries.last().epoch == epoch {
        of_second(entries.drop_last(), epoch).push(entries.last())
    } else {
        of_second(entries.drop_last(), epoch)
    }
}

proof fn lemma_of_second_insert(sorted: Seq<BackupView>, entry: BackupView, epoch: i64)
    ensures
        of_second(sorted.insert(place_of(sorted, entry.epoch) as int, entry), epoch) == if entry.epoch
            == epoch {
            of_second(sorted, epoch).push(entry)
        } else {
            of_second(sorted, epoch)
        },
    decreases sorted.len(),
{
    let at = place_of(sorted, entry.epoch) as int;
    lemma_place_bound(sorted, entry.epoch);
    let out = sorted.insert(at, entry);
    if at == sorted.len() {
        assert(out =~= sorted.push(entry));
        assert(out.drop_last() =~= sorted);
    } else {
        let rest = sorted.drop_last();
        lemma_of_second_insert(rest, entry, epoch);
        assert(out.drop_last() =~= rest.insert(at, entry));
        assert(out.last() == sorted.last());
    }
}

/// Sorting keeps entries of one second in their order.
pub proof fn newest_first_is_stable(entries: Seq<BackupView>, epoch: i64)
    ensures
        of_second(newest_first(entries), epoch) == of_second(entries, epoch),
    decreases entries.len(),
{
    if entries.len() > 0 {
        newest_first_is_stable(entries.drop_last(), epoch);
        lemma_of_second_insert(newest_first(entries.drop_last()), entries.last(), epoch);
    }
}

fn insert_newest_first(sorted: &mut Vec<BackupEntry>, entry: BackupEntry)
    ensures
        views(final(sorted)@) == views(old(sorted)@).insert(
            place_of(views(old(sorted)@), entry.epoch) as int,
            entry@,
        ),
{
    let ghost start = views(sorted@);
    let mut at: usize = sorted.len();
    assert(start.take(at as int) =~= start);
    while at > 0 && sorted[at - 1].epoch < entry.epoch
        invariant
            at <= sorted@.len(),
            start == views(sorted@),
            place_of(start, entry.epoch) == place_of(start.take(at as int), entry.epoch),
        decreases at,
    {
        assert(start.take(at as int).last() == sorted@[at - 1]@);
        assert(start.take(at as int).drop_last() =~= start.take(at - 1));
        at -= 1;
    }
    proof {
        if at > 0 {
            assert(start.take(at as int).last() == sorted@[at - 1]@);
        }
    }
    sorted.insert(at, entry);
    assert(views(sorted@) =~= start.insert(at as int, entry@));
}

/// Sorts entries newest first.
pub fn sort_newest_first(entries: &Vec<BackupEntry>) -> (out: Vec<BackupEntry>)
    ensures
        views(out@) == newest_first(views(entries@)),
{
    let mut out: Vec<BackupEntry> = Vec::new();
    let mut i: usize = 0;
    assert(views(out@) =~= newest_first(views(entries@).take(0)));
    while i < entries.len()
        invariant
            i <= entries@.len(),
            views(out@) == newest_first(views(entries@).take(i as int)),
        decreases entries@.len() - i,
    {
        let ghost next = views(entries@).take(i + 1);
        assert(next.drop_last() =~= views(entries@).take(i as int));
        assert(next.last() == entries@[i as int]@);
        insert_newest_first(&mut out, entries[i].clone());
        i += 1;
    }
    assert(views(entries@).take(i as int) =~= views(entries@));
    out
}

/// The second before which a backup may go.
pub open spec fn cutoff_at(now_secs: i64) -> int {
    now_secs - 7 * 24 * 3600
}

/// The paths that go, of entries that stand newest first: all but the first three, as far as they
/// are older than the cutoff.
pub open spec fn expired_of(sorted: Seq<BackupView>, cutoff: int) -> Seq<Seq<char>>
    decreases sorted.len(),
{
    if sorted.len() <= MIN_RETAINED_BACKUPS {
        seq![]
    } else {
        let before = expired_of(sorted.drop_last(), cutoff);
        if sorted.last().epoch < cutoff {
            before.push(sorted.last().path)
        } else {
            before
        }
    }
}

proof fn lemma_expired(sorted: Seq<BackupView>, cutoff: int)
    ensures
        expired_of(sorted, cutoff).len() + MIN_RETAINED_BACKUPS <= sorted.len() || expired_of(
            sorted,
            cutoff,
        ).len() == 0,
        forall|k: int|
            0 <= k < expired_of(sorted, cutoff).len() ==> exists|i: int|
                MIN_RETAINED_BACKUPS <= i < sorted.len() && sorted[i].epoch < cutoff
                    && sorted[i].path == #[trigger] expired_of(sorted, cutoff)[k],
        forall|i: int|
            MIN_RETAINED_BACKUPS <= i < sorted.len() && (#[trigger] sorted[i]).epoch < cutoff
                ==> expired_of(sorted, cutoff).contains(sorted[i].path),
    decreases sorted.len(),
{
    if sorted.len() > MIN_RETAINED_BACKUPS {
        let rest = sorted.drop_last();
        lemma_expired(rest, cutoff);
        let before = expired_of(rest, cutoff);
        let now = expired_of(sorted, cutoff);
        assert forall|k: int| 0 <= k < now.len() implies exists|i: int|
            MIN_RETAINED_BACKUPS <= i < sorted.len() && sorted[i].epoch < cutoff && sorted[i].path
                == #[trigger] now[k] by {
            if k < before.len() {
                assert(now[k] == before[k]);
                let i = choose|i: int|
                    MIN_RETAINED_BACKUPS <= i < rest.len() && rest[i].epoch < cutoff && rest[i].path
                        == before[k];
                assert(sorted[i] == rest[i]);
            } else {
                assert(sorted[sorted.len() - 1].path == now[k]);
            }
        }
        assert forall|i: int|
            MIN_RETAINED_BACKUPS <= i < sorted.len() && (#[trigger] sorted[i]).epoch
                < cutoff implies now.contains(sorted[i].path) by {
            if i < rest.len() {
                assert(rest[i] == sorted[i]);
                let k = choose|k: int| 0 <= k < before.len() && before[k] == rest[i].path;
                assert(now[k] == sorted[i].path);
            } else {
                assert(now[now.len() - 1] == sorted[i].path);
            }
        }
    }
}

/// Of the backups, newest first, the first three stay whatever their age, and so does everything
/// that is younger than the retention time; all else goes, and nothing else does.
pub proof fn collection_keeps_recent_backups(entries: Seq<BackupView>, now_secs: i64)
    ensures
        ({
            let sorted = newest_first(entries);
            let gone = expired_of(sorted, cutoff_at(now_secs));
            &&& gone.len() == 0 || gone.len() + MIN_RETAINED_BACKUPS <= entries.len()
            &&& forall|k: int|
                0 <= k < gone.len() ==> exists|i: int|
                    MIN_RETAINED_BACKUPS <= i < sorted.len() && sorted[i].epoch < cutoff_at(
                        now_secs,
                    ) && sorted[i].path == #[trigger] gone[k]
            &&& forall|i: int|
                MIN_RETAINED_BACKUPS <= i < sorted.len() && (#[trigger] sorted[i]).epoch
                    < cutoff_at(now_secs) ==> gone.contains(sorted[i].path)
        }),
{
    newest_first_sorts(entries);
    lemma_expired(newest_first(entries), cutoff_at(now_secs));
}

/// The paths of a listing that go at an instant.
pub open spec fn expired_in(raw: Seq<char>, now_secs: i64) -> Seq<Seq<char>> {
    expired_of(newest_first(parse_entries(lines(raw))), cutoff_at(now_secs))
}

/// Which backups of a listing go at an instant, in the order in which they go.
pub fn expired_backups(raw: &str, now: Timestamp) -> (out: Vec<String>)
    ensures
        views(out@) == expired_in(raw@, now.spec_secs()),
{
    let entries = parse_backup_listing(raw);
    let sorted = sort_newest_first(&entries);
    let now_secs: i64 = now.secs();
    let cutoff: i64 = now_secs - BACKUP_RETENTION_DAYS * 24 * 3600;
    let mut out: Vec<String> = Vec::new();
    let mut i: usize = 0;
    assert(views(out@) =~= expired_of(views(sorted@).take(0), cutoff as int));
    while i < sorted.len()
        invariant
            i <= sorted@.len(),
            views(out@) == expired_of(views(sorted@).take(i as int), cutoff as int),
        decreases sorted@.len() - i,
    {
        let ghost next = views(sorted@).take(i + 1);
        assert(next.drop_last() =~= views(sorted@).take(i as int));
        assert(next.last() == sorted@[i as int]@);
        let ghost before = out@;
        if i >= MIN_RETAINED_BACKUPS && sorted[i].epoch < cutoff {
            let path = sorted[i].path.clone();
            out.push(path);
            proof {
                lemma_views_push(before, path);
            }
        } else if i < MIN_RETAINED_BACKUPS {
            assert(i == 0 || views(sorted@).take(i as int).len() == i);
            assert(views(out@) =~= Seq::empty());
        }
        i += 1;
    }
    assert(views(sorted@).take(i as int) =~= views(sorted@));
    out
}

/// Whether a line of a listing says of a path in which second it was last changed: the seconds
/// stand in front, as far as the first dot, and the path behind the first tab.
pub open spec fn says_of(line: Seq<char>, path: Seq<char>, epoch: i64) -> bool {
    exists|stamp: Seq<char>|
        {
            &&& #[trigger] stamp.push('\t') + path == line
            &&& !stamp.contains('\t')
            &&& parse_i64(stamp.take(first_of(stamp, '.') as int)) == Some(epoch)
        }
}

proof fn lemma_parse_entry(line: Seq<char>)
    ensures
        parse_entry(line) matches Some(entry) ==> says_of(line, entry.path, entry.epoch),
{
    if let Some(entry) = parse_entry(line) {
        cut_texts_join_again(line, '\t');
        let (stamp, path) = split_once(line, '\t')->0;
        assert(stamp.push('\t') + path == line);
    }
}

proof fn lemma_parse_entries(rows: Seq<Seq<char>>)
    ensures
        forall|k: int|
            0 <= k < parse_entries(rows).len() ==> exists|i: int|
                0 <= i < rows.len() && parse_entry(#[trigger] rows[i]) == Some(
                    #[trigger] parse_entries(rows)[k],
                ),
        parse_entries(rows).len() <= rows.len(),
    decreases rows.len(),
{
    if rows.len() > 0 {
        let rest = rows.drop_last();
        lemma_parse_entries(rest);
        let before = parse_entries(rest);
        let now = parse_entries(rows);
        assert forall|k: int| 0 <= k < now.len() implies exists|i: int|
            0 <= i < rows.len() && parse_entry(#[trigger] rows[i]) == Some(#[trigger] now[k]) by {
            if k < before.len() {
                assert(now[k] == before[k]);
                let i = choose|i: int|
                    0 <= i < rest.len() && parse_entry(#[trigger] rest[i]) == Some(before[k]);
                assert(rows[i] == rest[i]);
            } else {
                assert(rows[rows.len() - 1] == rows.last());
            }
        }
    }
}

/// A backup goes only where a line of the listing says of its path that it was last changed more
/// than seven days before, and where there are three others at least as new. So the three newest
/// stay whatever their age.
pub proof fn only_old_backups_go(raw: &str, now: Timestamp, r: Vec<String>)
    requires
        call_ensures(expired_backups, (raw, now), r),
    ensures
        ({
            let rows = lines(raw@);
            let gone = views(r@);
            let all = newest_first(parse_entries(rows));
            &&& forall|k: int|
                0 <= k < gone.len() ==> exists|i: int, epoch: i64|
                    {
                        &&& 0 <= i < rows.len()
                        &&& says_of(#[trigger] rows[i], #[trigger] gone[k], epoch)
                        &&& #[trigger] is_past(epoch, now.spec_secs() - 604_800)
                    }
            &&& gone.len() == 0 || gone.len() + 3 <= all.len()
            &&& forall|k: int|
                0 <= k < gone.len() ==> exists|i: int|
                    3 <= i < all.len() && (#[trigger] all[i]).path == #[trigger] gone[k]
        }),
{
    broadcast use vstd::seq_lib::group_to_multiset_ensures;

    let rows = lines(raw@);
    let gone = views(r@);
    let entries = parse_entries(rows);
    let all = newest_first(entries);
    collection_keeps_recent_backups(entries, now.spec_secs());
    newest_first_sorts(entries);
    lemma_parse_entries(rows);
    assert forall|k: int| 0 <= k < gone.len() implies exists|i: int, epoch: i64|
        {
            &&& 0 <= i < rows.len()
            &&& says_of(#[trigger] rows[i], #[trigger] gone[k], epoch)
            &&& #[trigger] is_past(epoch, now.spec_secs() - 604_800)
        } by {
        let j = choose|j: int|
            MIN_RETAINED_BACKUPS <= j < all.len() && all[j].epoch < cutoff_at(now.spec_secs())
                && all[j].path == gone[k];
        assert(all.contains(all[j]));
        assert(entries.to_multiset().count(all[j]) > 0);
        assert(entries.contains(all[j]));
        let m = choose|m: int| 0 <= m < entries.len() && entries[m] == all[j];
        let i = choose|i: int|
            0 <= i < rows.len() && parse_entry(#[trigger] rows[i]) == Some(entries[m]);
        lemma_parse_entry(rows[i]);
        assert(says_of(rows[i], gone[k], all[j].epoch));
        assert(is_past(all[j].epoch, now.spec_secs() - 604_800));
    }
}

/// Whether a second lies before another.
pub open spec fn is_past(epoch: i64, cutoff: int) -> bool {
    epoch < cutoff
}

} // verus!
