//! What the places kept while loading say about the entries: a key is
//! reported exactly when entries at different places share it.

use crate::index::{
    conflict_message, conflicts, groups_ordered, has_key, has_location, key_index, keys_distinct,
    lemma_key_index, lemma_placed, lemma_recorded, sites_of, sites_sorted, tally_of, GroupView,
    SiteView, SourceFileView,
};
use crate::location::LocationView;
use crate::manifest::{
    hash_key, name_key, records_by, url_key, LoadedView, ManifestsView,
};
use crate::order::lemma_location_before_strict;
use vstd::prelude::*;

verus! {

/// A key with a site.
pub type Record = (Seq<char>, SiteView);

/// Whether one of `records` has `key` and stands at `location`.
pub open spec fn declared_at(records: Seq<Record>, key: Seq<char>, location: LocationView) -> bool {
    exists|i: int|
        0 <= i < records.len() && (#[trigger] records[i]).0 == key && records[i].1.location
            == location
}

/// The groups that records leave are ordered.
pub proof fn lemma_tally_ordered(records: Seq<Record>)
    ensures
        groups_ordered(tally_of(records)),
    decreases records.len(),
{
    if records.len() > 0 {
        lemma_tally_ordered(records.drop_last());
        lemma_recorded(tally_of(records.drop_last()), records.last().0, records.last().1);
    }
}

/// The sites kept for a key are at the places at which records declare the
/// key, and at no other.
pub proof fn lemma_tally_sites(records: Seq<Record>, key: Seq<char>, location: LocationView)
    ensures
        has_location(sites_of(tally_of(records), key), location) <==> declared_at(
            records,
            key,
            location,
        ),
    decreases records.len(),
{
    if records.len() > 0 {
        let front = records.drop_last();
        let last = records.last();
        lemma_tally_sites(front, key, location);
        lemma_tally_ordered(front);
        lemma_recorded(tally_of(front), last.0, last.1);
        if last.0 == key {
            lemma_key_sorted(tally_of(front), key);
            lemma_placed(sites_of(tally_of(front), key), last.1);
        }
        if declared_at(records, key, location) {
            let i = choose|i: int|
                0 <= i < records.len() && (#[trigger] records[i]).0 == key
                    && records[i].1.location == location;
            if i < records.len() - 1 {
                assert(front[i] == records[i]);
            }
        }
        if declared_at(front, key, location) {
            let i = choose|i: int|
                0 <= i < front.len() && (#[trigger] front[i]).0 == key && front[i].1.location
                    == location;
        }
        if last.0 == key && last.1.location == location {
            assert(records[records.len() - 1] == last);
        }
    }
}

/// In ordered groups the sites of every key are in listing order.
pub proof fn lemma_key_sorted(groups: Seq<GroupView>, key: Seq<char>)
    requires
        groups_ordered(groups),
    ensures
        sites_sorted(sites_of(groups, key)),
{
    if has_key(groups, key) {
        let g = key_index(groups, key);
        assert(sites_sorted(groups[g].sites));
    }
}

/// The keys that `groups` report: those with more than one site, in the
/// order of the groups.
pub open spec fn conflict_keys(groups: Seq<GroupView>) -> Seq<Seq<char>>
    decreases groups.len(),
{
    if groups.len() == 0 {
        Seq::empty()
    } else {
        let rest = conflict_keys(groups.drop_last());
        if groups.last().sites.len() > 1 {
            rest.push(groups.last().key)
        } else {
            rest
        }
    }
}

/// The messages are one to a reported key: the message of index `k` is the
/// one for the key of index `k`, and lists the sites kept for it. No key is
/// reported twice, and a key is reported exactly when more than one site is
/// kept for it.
pub proof fn lemma_conflicts_by_key(
    groups: Seq<GroupView>,
    label: Seq<char>,
    table: Seq<SourceFileView>,
)
    requires
        keys_distinct(groups),
    ensures
        conflicts(groups, label, table).len() == conflict_keys(groups).len(),
        forall|k: int|
            0 <= k < conflict_keys(groups).len() ==> #[trigger] conflicts(groups, label, table)[k]
                == conflict_message(
                label,
                conflict_keys(groups)[k],
                sites_of(groups, conflict_keys(groups)[k]),
                table,
            ),
        conflict_keys(groups).no_duplicates(),
        forall|key: Seq<char>|
            conflict_keys(groups).contains(key) <==> sites_of(groups, key).len() > 1,
    decreases groups.len(),
{
    let keys = conflict_keys(groups);
    if groups.len() == 0 {
        assert forall|key: Seq<char>| keys.contains(key) <==> sites_of(groups, key).len()
            > 1 by {
            if has_key(groups, key) {
                let g = key_index(groups, key);
            }
        }
    } else {
        let front = groups.drop_last();
        let last = groups.last();
        let n = front.len() as int;
        assert(keys_distinct(front)) by {
            assert forall|a: int, b: int| 0 <= a < b < front.len() implies #[trigger] front[a].key
                != #[trigger] front[b].key by {
                assert(front[a] == groups[a] && front[b] == groups[b]);
            }
        }
        lemma_conflicts_by_key(front, label, table);
        let old_keys = conflict_keys(front);
        // The sites of a key of the front are the same in the whole, and
        // the last key is none of the front.
        assert forall|key: Seq<char>| has_key(front, key) implies sites_of(groups, key)
            == sites_of(front, key) && key != last.key by {
            let g = key_index(front, key);
            lemma_key_index(groups, g);
        }
        assert(!has_key(front, last.key)) by {
            if has_key(front, last.key) {
                let g = key_index(front, last.key);
            }
        }
        lemma_key_index(groups, n);
        assert forall|key: Seq<char>| !has_key(front, key) && key != last.key implies sites_of(
            groups,
            key,
        ).len() == 0 by {
            if has_key(groups, key) {
                let g = key_index(groups, key);
                if g < n {
                    assert(front[g].key == key);
                }
            }
        }
        assert forall|key: Seq<char>| old_keys.contains(key) implies has_key(front, key) by {
            if !has_key(front, key) {
                assert(sites_of(front, key).len() == 0);
            }
        }
        assert forall|k: int| 0 <= k < keys.len() implies #[trigger] conflicts(
            groups,
            label,
            table,
        )[k] == conflict_message(label, keys[k], sites_of(groups, keys[k]), table) by {
            if k < old_keys.len() {
                assert(keys[k] == old_keys[k]);
            }
        }
        assert(keys.no_duplicates()) by {
            assert forall|a: int, b: int| 0 <= a < keys.len() && 0 <= b < keys.len() && a
                != b implies keys[a] != keys[b] by {
                if a < old_keys.len() && b < old_keys.len() {
                    assert(keys[a] == old_keys[a] && keys[b] == old_keys[b]);
                } else if a < old_keys.len() {
                    assert(old_keys.contains(old_keys[a]));
                } else if b < old_keys.len() {
                    assert(old_keys.contains(old_keys[b]));
                }
            }
        }
        assert forall|key: Seq<char>| keys.contains(key) <==> sites_of(groups, key).len()
            > 1 by {
            if keys.contains(key) {
                let k = choose|k: int| 0 <= k < keys.len() && keys[k] == key;
                if k < old_keys.len() {
                    assert(old_keys[k] == key);
                }
            }
            if sites_of(groups, key).len() > 1 {
                if key == last.key {
                    assert(keys[keys.len() - 1] == key);
                } else {
                    assert(old_keys.contains(key));
                    let k = choose|k: int| 0 <= k < old_keys.len() && old_keys[k] == key;
                    assert(keys[k] == key);
                }
            }
        }
    }
}

/// Where records that share a key always stand at one place, nothing is
/// reported. This holds in particular where no two records share a key.
pub proof fn lemma_no_shared_key_no_conflict(
    records: Seq<Record>,
    label: Seq<char>,
    table: Seq<SourceFileView>,
)
    requires
        forall|i: int, j: int|
            0 <= i < records.len() && 0 <= j < records.len() && (#[trigger] records[i]).0
                == (#[trigger] records[j]).0 ==> records[i].1.location == records[j].1.location,
    ensures
        conflicts(tally_of(records), label, table) == Seq::<Seq<char>>::empty(),
{
    let groups = tally_of(records);
    lemma_tally_ordered(records);
    lemma_conflicts_by_key(groups, label, table);
    let keys = conflict_keys(groups);
    if keys.len() > 0 {
        let key = keys[0];
        assert(keys.contains(key));
        let sites = sites_of(groups, key);
        lemma_key_sorted(groups, key);
        let a = sites[0].location;
        let b = sites[1].location;
        lemma_tally_sites(records, key, a);
        lemma_tally_sites(records, key, b);
        lemma_location_before_strict(a, b, b);
    }
}

/// Where two records share a key and stand at different places, the key is
/// reported, in exactly one message, and the message lists both places.
pub proof fn lemma_shared_key_one_conflict(
    records: Seq<Record>,
    label: Seq<char>,
    table: Seq<SourceFileView>,
    i: int,
    j: int,
)
    requires
        0 <= i < records.len(),
        0 <= j < records.len(),
        records[i].0 == records[j].0,
        records[i].1.location != records[j].1.location,
    ensures
        has_location(sites_of(tally_of(records), records[i].0), records[i].1.location),
        has_location(sites_of(tally_of(records), records[i].0), records[j].1.location),
        conflict_keys(tally_of(records)).no_duplicates(),
        exists|k: int|
            0 <= k < conflicts(tally_of(records), label, table).len() && conflict_keys(
                tally_of(records),
            )[k] == records[i].0 && #[trigger] conflicts(tally_of(records), label, table)[k]
                == conflict_message(
                label,
                records[i].0,
                sites_of(tally_of(records), records[i].0),
                table,
            ),
{
    let groups = tally_of(records);
    let key = records[i].0;
    let sites = sites_of(groups, key);
    lemma_tally_ordered(records);
    lemma_conflicts_by_key(groups, label, table);
    lemma_tally_sites(records, key, records[i].1.location);
    lemma_tally_sites(records, key, records[j].1.location);
    let a = choose|a: int| 0 <= a < sites.len() && #[trigger] sites[a].location
        == records[i].1.location;
    let b = choose|b: int| 0 <= b < sites.len() && #[trigger] sites[b].location
        == records[j].1.location;
    assert(a != b);
    let keys = conflict_keys(groups);
    assert(keys.contains(key));
    let k = choose|k: int| 0 <= k < keys.len() && keys[k] == key;
    assert(conflicts(groups, label, table)[k] == conflict_message(label, key, sites, table));
}

/// The records that a key selector gives are those of the entries for
/// which it gives a key.
pub proof fn lemma_records_by(
    entries: Seq<LoadedView>,
    key_of: spec_fn(LoadedView) -> Option<Seq<char>>,
    key: Seq<char>,
    location: LocationView,
)
    ensures
        declared_at(records_by(entries, key_of), key, location) <==> exists|e: int|
            0 <= e < entries.len() && key_of(#[trigger] entries[e]) == Some(key)
                && entries[e].site.location == location,
    decreases entries.len(),
{
    let records = records_by(entries, key_of);
    if entries.len() > 0 {
        let front = entries.drop_last();
        let last = entries.last();
        let rest = records_by(front, key_of);
        lemma_records_by(front, key_of, key, location);
        if declared_at(records, key, location) {
            let i = choose|i: int|
                0 <= i < records.len() && (#[trigger] records[i]).0 == key
                    && records[i].1.location == location;
            if i < rest.len() {
                let e = choose|e: int|
                    0 <= e < front.len() && key_of(#[trigger] front[e]) == Some(key)
                        && front[e].site.location == location;
            } else {
                assert(entries[entries.len() - 1] == last);
            }
        }
        if exists|e: int|
            0 <= e < entries.len() && key_of(#[trigger] entries[e]) == Some(key)
                && entries[e].site.location == location {
            let e = choose|e: int|
                0 <= e < entries.len() && key_of(#[trigger] entries[e]) == Some(key)
                    && entries[e].site.location == location;
            if e < front.len() {
                assert(front[e] == entries[e]);
                let i = choose|i: int|
                    0 <= i < rest.len() && (#[trigger] rest[i]).0 == key && rest[i].1.location
                        == location;
                assert(records[i] == rest[i]);
            } else {
                assert(records[records.len() - 1] == (key, last.site));
            }
        }
    }
}

/// Whether no two validated entries among `entries` have the same name,
/// the same hash or the same URL.
pub open spec fn all_distinct(entries: Seq<LoadedView>) -> bool {
    forall|i: int, j: int|
        0 <= i < entries.len() && 0 <= j < entries.len() && i != j ==> {
            &&& name_key(#[trigger] entries[i]) is Some ==> name_key(entries[i]) != name_key(
                #[trigger] entries[j],
            )
            &&& hash_key(entries[i]) is Some ==> hash_key(entries[i]) != hash_key(entries[j])
            &&& url_key(entries[i]) is Some ==> url_key(entries[i]) != url_key(entries[j])
        }
}

proof fn lemma_distinct_by(
    entries: Seq<LoadedView>,
    key_of: spec_fn(LoadedView) -> Option<Seq<char>>,
    label: Seq<char>,
    table: Seq<SourceFileView>,
)
    requires
        forall|i: int, j: int|
            0 <= i < entries.len() && 0 <= j < entries.len() && i != j && key_of(
                #[trigger] entries[i],
            ) is Some ==> key_of(entries[i]) != key_of(#[trigger] entries[j]),
    ensures
        conflicts(tally_of(records_by(entries, key_of)), label, table) == Seq::<
            Seq<char>,
        >::empty(),
{
    let records = records_by(entries, key_of);
    assert forall|i: int, j: int|
        0 <= i < records.len() && 0 <= j < records.len() && (#[trigger] records[i]).0
            == (#[trigger] records[j]).0 implies records[i].1.location
        == records[j].1.location by {
        let key = records[i].0;
        let a = records[i].1.location;
        let b = records[j].1.location;
        lemma_records_by(entries, key_of, key, a);
        lemma_records_by(entries, key_of, key, b);
        let x = choose|e: int|
            0 <= e < entries.len() && key_of(#[trigger] entries[e]) == Some(key)
                && entries[e].site.location == a;
        let y = choose|e: int|
            0 <= e < entries.len() && key_of(#[trigger] entries[e]) == Some(key)
                && entries[e].site.location == b;
        if x != y {
            assert(key_of(entries[x]) != key_of(entries[y]));
        }
    }
    lemma_no_shared_key_no_conflict(records, label, table);
}

/// Where no two validated entries share a name, a hash or a URL, loading
/// reports no collision: all that is wrong is wrong with entries by
/// themselves.
pub proof fn lemma_distinct_entries_no_conflicts(state: ManifestsView)
    requires
        state.wf(),
        all_distinct(state.entries),
    ensures
        state.all_errors() == state.errors,
{
    lemma_distinct_by(
        state.entries,
        |entry: LoadedView| name_key(entry),
        "CDN path"@,
        state.sources,
    );
    lemma_distinct_by(state.entries, |entry: LoadedView| url_key(entry), "URL"@, state.sources);
    lemma_distinct_by(state.entries, |entry: LoadedView| hash_key(entry), "hash"@, state.sources);
}

/// Where two of `entries` at different places have the same key, the key
/// is reported, in exactly one message, which lists the places of both.
pub proof fn lemma_shared_key_reported_once(
    entries: Seq<LoadedView>,
    key_of: spec_fn(LoadedView) -> Option<Seq<char>>,
    label: Seq<char>,
    table: Seq<SourceFileView>,
    i: int,
    j: int,
)
    requires
        0 <= i < entries.len(),
        0 <= j < entries.len(),
        key_of(entries[i]) is Some,
        key_of(entries[i]) == key_of(entries[j]),
        entries[i].site.location != entries[j].site.location,
    ensures
        ({
            let groups = tally_of(records_by(entries, key_of));
            let key = key_of(entries[i])->0;
            &&& has_location(sites_of(groups, key), entries[i].site.location)
            &&& has_location(sites_of(groups, key), entries[j].site.location)
            &&& sites_sorted(sites_of(groups, key))
            &&& conflict_keys(groups).no_duplicates()
            &&& exists|k: int|
                0 <= k < conflicts(groups, label, table).len() && conflict_keys(groups)[k] == key
                    && #[trigger] conflicts(groups, label, table)[k] == conflict_message(
                    label,
                    key,
                    sites_of(groups, key),
                    table,
                )
        }),
{
    let records = records_by(entries, key_of);
    let key = key_of(entries[i])->0;
    let a = entries[i].site.location;
    let b = entries[j].site.location;
    lemma_records_by(entries, key_of, key, a);
    lemma_records_by(entries, key_of, key, b);
    let x = choose|x: int|
        0 <= x < records.len() && (#[trigger] records[x]).0 == key && records[x].1.location == a;
    let y = choose|y: int|
        0 <= y < records.len() && (#[trigger] records[y]).0 == key && records[y].1.location == b;
    lemma_shared_key_one_conflict(records, label, table, x, y);
    lemma_tally_ordered(records);
    lemma_key_sorted(tally_of(records), key);
}

/// Where two validated entries at different places have the same name, the
/// name is reported as a shared CDN path, in exactly one message, and the
/// message lists the places of both.
pub proof fn lemma_shared_name_reported_once(state: ManifestsView, i: int, j: int)
    requires
        state.wf(),
        0 <= i < state.entries.len(),
        0 <= j < state.entries.len(),
        state.entries[i].validated,
        state.entries[j].validated,
        state.entries[i].file.name == state.entries[j].file.name,
        state.entries[i].site.location != state.entries[j].site.location,
    ensures
        has_location(
            sites_of(state.seen_paths, state.entries[i].file.name),
            state.entries[i].site.location,
        ),
        has_location(
            sites_of(state.seen_paths, state.entries[i].file.name),
            state.entries[j].site.location,
        ),
        conflict_keys(state.seen_paths).no_duplicates(),
        exists|k: int|
            0 <= k < conflicts(state.seen_paths, "CDN path"@, state.sources).len()
                && conflict_keys(state.seen_paths)[k] == state.entries[i].file.name
                && #[trigger] conflicts(state.seen_paths, "CDN path"@, state.sources)[k]
                == conflict_message(
                "CDN path"@,
                state.entries[i].file.name,
                sites_of(state.seen_paths, state.entries[i].file.name),
                state.sources,
            ),
{
    lemma_shared_key_reported_once(
        state.entries,
        |entry: LoadedView| name_key(entry),
        "CDN path"@,
        state.sources,
        i,
        j,
    );
}

/// Where two validated entries at different places have the same hash, the
/// hash is reported, in exactly one message, and the message lists the
/// places of both.
pub proof fn lemma_shared_hash_reported_once(state: ManifestsView, i: int, j: int)
    requires
        state.wf(),
        0 <= i < state.entries.len(),
        0 <= j < state.entries.len(),
        state.entries[i].validated,
        state.entries[j].validated,
        state.entries[i].file.sha256 == state.entries[j].file.sha256,
        state.entries[i].site.location != state.entries[j].site.location,
    ensures
        has_location(
            sites_of(state.seen_hashes, state.entries[i].file.sha256),
            state.entries[i].site.location,
        ),
        has_location(
            sites_of(state.seen_hashes, state.entries[i].file.sha256),
            state.entries[j].site.location,
        ),
        conflict_keys(state.seen_hashes).no_duplicates(),
        exists|k: int|
            0 <= k < conflicts(state.seen_hashes, "hash"@, state.sources).len() && conflict_keys(
                state.seen_hashes,
            )[k] == state.entries[i].file.sha256 && #[trigger] conflicts(
                state.seen_hashes,
                "hash"@,
                state.sources,
            )[k] == conflict_message(
                "hash"@,
                state.entries[i].file.sha256,
                sites_of(state.seen_hashes, state.entries[i].file.sha256),
                state.sources,
            ),
{
    lemma_shared_key_reported_once(
        state.entries,
        |entry: LoadedView| hash_key(entry),
        "hash"@,
        state.sources,
        i,
        j,
    );
}

/// Where two validated entries at different places are fetched from the
/// same URL, the URL is reported, in exactly one message, and the message
/// lists the places of both.
pub proof fn lemma_shared_url_reported_once(state: ManifestsView, i: int, j: int)
    requires
        state.wf(),
        0 <= i < state.entries.len(),
        0 <= j < state.entries.len(),
        url_key(state.entries[i]) is Some,
        url_key(state.entries[i]) == url_key(state.entries[j]),
        state.entries[i].site.location != state.entries[j].site.location,
    ensures
        has_location(
            sites_of(state.seen_urls, url_key(state.entries[i])->0),
            state.entries[i].site.location,
        ),
        has_location(
            sites_of(state.seen_urls, url_key(state.entries[i])->0),
            state.entries[j].site.location,
        ),
        conflict_keys(state.seen_urls).no_duplicates(),
        exists|k: int|
            0 <= k < conflicts(state.seen_urls, "URL"@, state.sources).len() && conflict_keys(
                state.seen_urls,
            )[k] == url_key(state.entries[i])->0 && #[trigger] conflicts(
                state.seen_urls,
                "URL"@,
                state.sources,
            )[k] == conflict_message(
                "URL"@,
                url_key(state.entries[i])->0,
                sites_of(state.seen_urls, url_key(state.entries[i])->0),
                state.sources,
            ),
{
    lemma_shared_key_reported_once(
        state.entries,
        |entry: LoadedView| url_key(entry),
        "URL"@,
        state.sources,
        i,
        j,
    );
}

} // verus!
