//! The places at which each name, hash and URL was declared, and the
//! messages for those declared more than once.

use crate::location::{push_site_block, site_block_of, span_fits, Location, LocationView};
use crate::order::{
    lemma_location_before_strict, lemma_location_before_total, location_before, rank_locations,
    Rank,
};
use crate::text::same_text;
use vstd::prelude::*;
use vstd::string::*;

verus! {

/// A manifest that was loaded: its path and its text.
#[derive(Debug, PartialEq, Eq)]
pub struct SourceFile {
    pub path: String,
    pub text: String,
}

/// What a [`SourceFile`] stands for.
pub struct SourceFileView {
    pub path: Seq<char>,
    pub text: Seq<char>,
}

impl DeepView for SourceFile {
    type V = SourceFileView;

    open spec fn deep_view(&self) -> SourceFileView {
        SourceFileView { path: self.path@, text: self.text@ }
    }
}

/// The place of an entry: its location, and which of the loaded manifests
/// the location lies in.
#[derive(Debug, PartialEq, Eq)]
pub struct Site {
    pub location: Location,
    pub source: usize,
}

/// What a [`Site`] stands for.
pub struct SiteView {
    pub location: LocationView,
    pub source: nat,
}

impl DeepView for Site {
    type V = SiteView;

    open spec fn deep_view(&self) -> SiteView {
        SiteView { location: self.location.deep_view(), source: self.source as nat }
    }
}

impl Clone for Site {
    fn clone(&self) -> (r: Self)
        ensures
            r == *self,
    {
        Site { location: self.location.clone(), source: self.source }
    }
}

/// The places at which one key was declared, in listing order.
#[derive(Debug, PartialEq, Eq)]
pub struct Group {
    pub key: String,
    pub sites: Vec<Site>,
}

/// What a [`Group`] stands for.
pub struct GroupView {
    pub key: Seq<char>,
    pub sites: Seq<SiteView>,
}

impl DeepView for Group {
    type V = GroupView;

    open spec fn deep_view(&self) -> GroupView {
        GroupView { key: self.key@, sites: self.sites.deep_view() }
    }
}

/// Whether `site` points into a manifest of `table`, by the path it names,
/// at a span that can be cut out of that manifest.
pub open spec fn site_fits(site: SiteView, table: Seq<SourceFileView>) -> bool {
    &&& site.source < table.len()
    &&& table[site.source as int].path == site.location.file
    &&& span_fits(
        table[site.source as int].text,
        site.location.start as int,
        site.location.end as int,
    )
}

/// Whether `sites` are in listing order, each location once.
pub open spec fn sites_sorted(sites: Seq<SiteView>) -> bool {
    forall|i: int, j: int|
        0 <= i < j < sites.len() ==> location_before(
            #[trigger] sites[i].location,
            #[trigger] sites[j].location,
        )
}

/// Whether `sites` hold a site at `location`.
pub open spec fn has_location(sites: Seq<SiteView>, location: LocationView) -> bool {
    exists|i: int| 0 <= i < sites.len() && #[trigger] sites[i].location == location
}

/// Whether `k` is where a site at `location` goes into `sites`: after all
/// that are listed before it, before all that it is listed before.
pub open spec fn is_slot(sites: Seq<SiteView>, location: LocationView, k: int) -> bool {
    &&& 0 <= k <= sites.len()
    &&& forall|j: int| 0 <= j < k ==> location_before(#[trigger] sites[j].location, location)
    &&& forall|j: int|
        k <= j < sites.len() ==> location_before(location, #[trigger] sites[j].location)
}

/// Where a site at `location` goes into `sites`.
pub open spec fn slot(sites: Seq<SiteView>, location: LocationView) -> int {
    choose|k: int| is_slot(sites, location, k)
}

/// `sites` with `site` among them: unchanged where a site at the same
/// location is there already, else with `site` at its place in the order.
pub open spec fn placed(sites: Seq<SiteView>, site: SiteView) -> Seq<SiteView> {
    if has_location(sites, site.location) {
        sites
    } else {
        sites.insert(slot(sites, site.location), site)
    }
}

/// A site has at most one slot.
pub proof fn lemma_slot_unique(sites: Seq<SiteView>, location: LocationView, a: int, b: int)
    requires
        is_slot(sites, location, a),
        is_slot(sites, location, b),
    ensures
        a == b,
{
    if a < b {
        lemma_location_before_strict(sites[a].location, location, location);
    } else if b < a {
        lemma_location_before_strict(sites[b].location, location, location);
    }
}

/// In sorted sites every new location has a slot.
pub proof fn lemma_slot_exists(sites: Seq<SiteView>, location: LocationView)
    requires
        sites_sorted(sites),
        !has_location(sites, location),
    ensures
        is_slot(sites, location, slot(sites, location)),
    decreases sites.len(),
{
    if sites.len() == 0 {
        assert(is_slot(sites, location, 0));
    } else {
        let front = sites.drop_last();
        let last = sites.last();
        assert(sites_sorted(front)) by {
            assert forall|i: int, j: int| 0 <= i < j < front.len() implies location_before(
                #[trigger] front[i].location,
                #[trigger] front[j].location,
            ) by {
                assert(front[i] == sites[i] && front[j] == sites[j]);
            }
        }
        assert(!has_location(front, location)) by {
            if has_location(front, location) {
                let i = choose|i: int| 0 <= i < front.len() && #[trigger] front[i].location
                    == location;
                assert(sites[i].location == location);
            }
        }
        lemma_slot_exists(front, location);
        let k = slot(front, location);
        lemma_location_before_total(last.location, location);
        if location_before(last.location, location) {
            assert forall|j: int| 0 <= j < sites.len() implies location_before(
                #[trigger] sites[j].location,
                location,
            ) by {
                if j < sites.len() - 1 {
                    lemma_location_before_strict(sites[j].location, last.location, location);
                }
            }
            assert(is_slot(sites, location, sites.len() as int));
        } else {
            assert forall|j: int| 0 <= j < k implies location_before(
                #[trigger] sites[j].location,
                location,
            ) by {
                assert(front[j] == sites[j]);
            }
            assert forall|j: int| k <= j < sites.len() implies location_before(
                location,
                #[trigger] sites[j].location,
            ) by {
                if j < sites.len() - 1 {
                    assert(front[j] == sites[j]);
                }
            }
            assert(is_slot(sites, location, k));
        }
    }
}

/// Placing a site keeps sites sorted, adds at most the one site, and leaves
/// those that were there.
pub proof fn lemma_placed(sites: Seq<SiteView>, site: SiteView)
    requires
        sites_sorted(sites),
    ensures
        sites_sorted(placed(sites, site)),
        has_location(placed(sites, site), site.location),
        forall|l: LocationView|
            has_location(placed(sites, site), l) <==> has_location(sites, l) || l == site.location,
        placed(sites, site).len() == if has_location(sites, site.location) {
            sites.len()
        } else {
            sites.len() + 1
        },
        forall|s: SiteView| placed(sites, site).contains(s) ==> sites.contains(s) || s == site,
{
    let after = placed(sites, site);
    if !has_location(sites, site.location) {
        lemma_slot_exists(sites, site.location);
        let k = slot(sites, site.location);
        assert forall|i: int, j: int| 0 <= i < j < after.len() implies location_before(
            #[trigger] after[i].location,
            #[trigger] after[j].location,
        ) by {
            if i < k && j > k {
                assert(after[i] == sites[i] && after[j] == sites[j - 1]);
            } else if i < k && j < k {
                assert(after[i] == sites[i] && after[j] == sites[j]);
            } else if i > k {
                assert(after[i] == sites[i - 1] && after[j] == sites[j - 1]);
            } else if i == k {
                assert(after[j] == sites[j - 1]);
            } else {
                assert(after[i] == sites[i]);
            }
        }
        assert(after[k].location == site.location);
        assert forall|l: LocationView| has_location(after, l) <==> has_location(sites, l) || l
            == site.location by {
            if has_location(after, l) {
                let i = choose|i: int| 0 <= i < after.len() && #[trigger] after[i].location == l;
                if i < k {
                    assert(sites[i].location == l);
                } else if i > k {
                    assert(sites[i - 1].location == l);
                }
            }
            if has_location(sites, l) {
                let i = choose|i: int| 0 <= i < sites.len() && #[trigger] sites[i].location == l;
                if i < k {
                    assert(after[i].location == l);
                } else {
                    assert(after[i + 1].location == l);
                }
            }
        }
        assert forall|s: SiteView| after.contains(s) implies sites.contains(s) || s == site by {
            let i = choose|i: int| 0 <= i < after.len() && after[i] == s;
            if i < k {
                assert(sites[i] == s);
            } else if i > k {
                assert(sites[i - 1] == s);
            }
        }
    } else {
        let i = choose|i: int| 0 <= i < sites.len() && #[trigger] sites[i].location
            == site.location;
        assert(after[i].location == site.location);
    }
}

/// Whether `groups` hold a group for `key`.
pub open spec fn has_key(groups: Seq<GroupView>, key: Seq<char>) -> bool {
    exists|i: int| 0 <= i < groups.len() && #[trigger] groups[i].key == key
}

/// Where the group for `key` stands in `groups`.
pub open spec fn key_index(groups: Seq<GroupView>, key: Seq<char>) -> int {
    choose|i: int| 0 <= i < groups.len() && #[trigger] groups[i].key == key
}

/// Whether no two of `groups` have the same key.
pub open spec fn keys_distinct(groups: Seq<GroupView>) -> bool {
    forall|i: int, j: int|
        0 <= i < j < groups.len() ==> #[trigger] groups[i].key != #[trigger] groups[j].key
}

/// `groups` after `site` was recorded under `key`: placed in the group of
/// that key, or in a new group at the end where the key is new.
pub open spec fn recorded(groups: Seq<GroupView>, key: Seq<char>, site: SiteView) -> Seq<
    GroupView,
> {
    if has_key(groups, key) {
        let i = key_index(groups, key);
        groups.update(i, GroupView { key, sites: placed(groups[i].sites, site) })
    } else {
        groups.push(GroupView { key, sites: seq![site] })
    }
}

/// Whether `groups` have one group to a key, each with at least one site
/// and its sites in listing order.
pub open spec fn groups_ordered(groups: Seq<GroupView>) -> bool {
    &&& keys_distinct(groups)
    &&& forall|i: int|
        0 <= i < groups.len() ==> (#[trigger] groups[i]).sites.len() > 0 && sites_sorted(
            groups[i].sites,
        )
}

/// The sites kept for `key`; none where the key was never recorded.
pub open spec fn sites_of(groups: Seq<GroupView>, key: Seq<char>) -> Seq<SiteView> {
    if has_key(groups, key) {
        groups[key_index(groups, key)].sites
    } else {
        Seq::empty()
    }
}

/// Whether `groups` are as recording leaves them, with every site pointing
/// into `table`.
pub open spec fn groups_wf(groups: Seq<GroupView>, table: Seq<SourceFileView>) -> bool {
    &&& groups_ordered(groups)
    &&& forall|i: int, j: int|
        0 <= i < groups.len() && 0 <= j < groups[i].sites.len() ==> site_fits(
            #[trigger] groups[i].sites[j],
            table,
        )
}

/// The groups that recording `records`, each a key and a site, one after
/// the other leaves.
pub open spec fn tally_of(records: Seq<(Seq<char>, SiteView)>) -> Seq<GroupView>
    decreases records.len(),
{
    if records.len() == 0 {
        Seq::empty()
    } else {
        recorded(tally_of(records.drop_last()), records.last().0, records.last().1)
    }
}

/// The groups after one more record are those before with it recorded.
pub proof fn lemma_tally_push(records: Seq<(Seq<char>, SiteView)>, key: Seq<char>, site: SiteView)
    ensures
        tally_of(records.push((key, site))) == recorded(tally_of(records), key, site),
{
    assert(records.push((key, site)).drop_last() =~= records);
}

/// In groups with one group to a key, the group with a key is the group of
/// that key.
pub proof fn lemma_key_index(groups: Seq<GroupView>, g: int)
    requires
        keys_distinct(groups),
        0 <= g < groups.len(),
    ensures
        has_key(groups, groups[g].key),
        key_index(groups, groups[g].key) == g,
{
    let key = groups[g].key;
    let c = key_index(groups, key);
    if c < g {
        assert(groups[c].key != groups[g].key);
    } else if g < c {
        assert(groups[g].key != groups[c].key);
    }
}

/// Recording keeps groups ordered, places the site among those of its key,
/// and leaves the sites of every other key alone.
pub proof fn lemma_recorded(groups: Seq<GroupView>, key: Seq<char>, site: SiteView)
    requires
        groups_ordered(groups),
    ensures
        groups_ordered(recorded(groups, key, site)),
        has_key(recorded(groups, key, site), key),
        sites_of(recorded(groups, key, site), key) == placed(sites_of(groups, key), site),
        forall|other: Seq<char>|
            other != key ==> sites_of(recorded(groups, key, site), other) == sites_of(
                groups,
                other,
            ),
{
    let after = recorded(groups, key, site);
    if has_key(groups, key) {
        let i = key_index(groups, key);
        lemma_placed(groups[i].sites, site);
        assert forall|a: int, b: int| 0 <= a < b < after.len() implies #[trigger] after[a].key
            != #[trigger] after[b].key by {
            assert(after[a].key == groups[a].key && after[b].key == groups[b].key);
        }
        assert forall|g: int| 0 <= g < after.len() implies (#[trigger] after[g]).sites.len() > 0
            && sites_sorted(after[g].sites) by {
            if g != i {
                assert(after[g] == groups[g]);
            }
        }
        lemma_key_index(after, i);
        assert forall|other: Seq<char>| other != key implies sites_of(after, other) == sites_of(
            groups,
            other,
        ) by {
            if has_key(groups, other) {
                let g = key_index(groups, other);
                lemma_key_index(after, g);
            } else if has_key(after, other) {
                let g = key_index(after, other);
            }
        }
    } else {
        let n = groups.len() as int;
        assert forall|a: int, b: int| 0 <= a < b < after.len() implies #[trigger] after[a].key
            != #[trigger] after[b].key by {
            if b == n {
                assert(after[a] == groups[a]);
            } else {
                assert(after[a] == groups[a] && after[b] == groups[b]);
            }
        }
        assert forall|g: int| 0 <= g < after.len() implies (#[trigger] after[g]).sites.len() > 0
            && sites_sorted(after[g].sites) by {
            if g < n {
                assert(after[g] == groups[g]);
            }
        }
        lemma_key_index(after, n);
        lemma_placed(Seq::<SiteView>::empty(), site);
        assert(placed(Seq::<SiteView>::empty(), site) =~= seq![site]) by {
            let p = placed(Seq::<SiteView>::empty(), site);
            assert(p.len() == 1);
        }
        assert forall|other: Seq<char>| other != key implies sites_of(after, other) == sites_of(
            groups,
            other,
        ) by {
            if has_key(groups, other) {
                let g = key_index(groups, other);
                lemma_key_index(after, g);
            } else if has_key(after, other) {
                let g = key_index(after, other);
                if g < n {
                    assert(groups[g].key == other);
                }
            }
        }
    }
}

/// Recording a site that points into `table` keeps the groups well formed.
pub proof fn lemma_recorded_wf(
    groups: Seq<GroupView>,
    key: Seq<char>,
    site: SiteView,
    table: Seq<SourceFileView>,
)
    requires
        groups_wf(groups, table),
        site_fits(site, table),
    ensures
        groups_wf(recorded(groups, key, site), table),
{
    let after = recorded(groups, key, site);
    lemma_recorded(groups, key, site);
    assert forall|g: int, j: int|
        0 <= g < after.len() && 0 <= j < after[g].sites.len() implies site_fits(
        #[trigger] after[g].sites[j],
        table,
    ) by {
        let s = after[g].sites[j];
        if has_key(groups, key) && g == key_index(groups, key) {
            lemma_placed(groups[g].sites, site);
            assert(after[g].sites == placed(groups[g].sites, site));
            assert(after[g].sites.contains(s));
            if s != site {
                assert(groups[g].sites.contains(s));
                let k = choose|k: int| 0 <= k < groups[g].sites.len() && groups[g].sites[k] == s;
                assert(site_fits(groups[g].sites[k], table));
            }
        } else if g < groups.len() {
            assert(after[g] == groups[g]);
            assert(site_fits(groups[g].sites[j], table));
        } else {
            assert(after[g].sites == seq![site]);
        }
    }
}

/// Sites that point into a table point into every table that goes on from it.
pub proof fn lemma_groups_wf_grows(
    groups: Seq<GroupView>,
    table: Seq<SourceFileView>,
    longer: Seq<SourceFileView>,
)
    requires
        groups_wf(groups, table),
        table.len() <= longer.len(),
        forall|i: int| 0 <= i < table.len() ==> table[i] == longer[i],
    ensures
        groups_wf(groups, longer),
{
    assert forall|i: int, j: int|
        0 <= i < groups.len() && 0 <= j < groups[i].sites.len() implies site_fits(
        #[trigger] groups[i].sites[j],
        longer,
    ) by {
        assert(site_fits(groups[i].sites[j], table));
    }
}

/// Puts `site` among `sites`, at its place in the listing order; leaves
/// `sites` as they are where one at the same location is there already.
pub fn place(sites: &mut Vec<Site>, site: Site)
    requires
        sites_sorted(old(sites).deep_view()),
    ensures
        final(sites).deep_view() == placed(old(sites).deep_view(), site.deep_view()),
{
    let ghost before = sites.deep_view();
    let ghost at = site.deep_view().location;
    let mut k: usize = 0;
    while k < sites.len()
        invariant
            k <= sites.len(),
            sites.deep_view() == before,
            at == site.deep_view().location,
            sites_sorted(before),
            forall|j: int| 0 <= j < k ==> location_before(#[trigger] before[j].location, at),
        ensures
            k < before.len() ==> location_before(at, before[k as int].location),
        decreases sites.len() - k,
    {
        assert(before[k as int].location == sites[k as int].location.deep_view());
        match rank_locations(&site.location, &sites[k].location) {
            Rank::Same => {
                return ;
            },
            Rank::Before => {
                break ;
            },
            Rank::After => {
                k += 1;
            },
        }
    }
    proof {
        assert forall|j: int| k <= j < before.len() implies location_before(
            at,
            #[trigger] before[j].location,
        ) by {
            if j > k {
                lemma_location_before_strict(at, before[k as int].location, before[j].location);
            }
        }
        assert(!has_location(before, at)) by {
            lemma_location_before_strict(at, at, at);
        }
        lemma_slot_exists(before, at);
        lemma_slot_unique(before, at, k as int, slot(before, at));
    }
    sites.insert(k, site);
}

/// Records `site` under `key`.
pub fn record(groups: &mut Vec<Group>, key: &str, site: Site)
    requires
        groups_ordered(old(groups).deep_view()),
    ensures
        final(groups).deep_view() == recorded(old(groups).deep_view(), key@, site.deep_view()),
{
    let ghost before = groups.deep_view();
    let mut i: usize = 0;
    while i < groups.len()
        invariant
            i <= groups.len(),
            groups.deep_view() == before,
            forall|j: int| 0 <= j < i ==> (#[trigger] before[j]).key != key@,
        ensures
            i < before.len() ==> before[i as int].key == key@,
        decreases groups.len() - i,
    {
        if same_text(groups[i].key.as_str(), key) {
            break ;
        }
        i += 1;
    }
    if i < groups.len() {
        proof {
            let c = key_index(before, key@);
            if c < i {
                assert(before[c].key != key@);
            } else if i < c {
                assert(before[i as int].key != before[c].key);
            }
        }
        let mut group = groups.remove(i);
        place(&mut group.sites, site);
        groups.insert(i, group);
    } else {
        proof {
            if has_key(before, key@) {
                let c = key_index(before, key@);
                assert(before[c].key != key@);
            }
        }
        let mut sites: Vec<Site> = Vec::new();
        sites.push(site);
        assert(sites.deep_view() =~= seq![site.deep_view()]);
        groups.push(Group { key: String::from_str(key), sites });
    }
}

/// The blocks that show `sites`, one after the other, a blank line after each.
pub open spec fn site_blocks(sites: Seq<SiteView>, table: Seq<SourceFileView>) -> Seq<char>
    decreases sites.len(),
{
    if sites.len() == 0 {
        Seq::empty()
    } else {
        site_blocks(sites.drop_last(), table) + site_block_of(
            table[sites.last().source as int].text,
            sites.last().location,
        ) + "\n"@
    }
}

/// The message for a key that was declared at several places. `label` says
/// what kind of key it is.
pub open spec fn conflict_message(
    label: Seq<char>,
    key: Seq<char>,
    sites: Seq<SiteView>,
    table: Seq<SourceFileView>,
) -> Seq<char> {
    "The following entries share the same "@ + label + " `"@ + key + "`:\n"@ + site_blocks(
        sites,
        table,
    )
}

/// The messages for `groups`: one for each key that was declared at more
/// than one place, in the order of the groups.
pub open spec fn conflicts(
    groups: Seq<GroupView>,
    label: Seq<char>,
    table: Seq<SourceFileView>,
) -> Seq<Seq<char>>
    decreases groups.len(),
{
    if groups.len() == 0 {
        Seq::empty()
    } else {
        let rest = conflicts(groups.drop_last(), label, table);
        let last = groups.last();
        if last.sites.len() > 1 {
            rest.push(conflict_message(label, last.key, last.sites, table))
        } else {
            rest
        }
    }
}

/// The message for `group`, whose key was declared at several places.
pub fn conflict_text(group: &Group, label: &str, table: &Vec<SourceFile>) -> (r: String)
    requires
        forall|j: int|
            0 <= j < group.sites.len() ==> site_fits(
                #[trigger] group.deep_view().sites[j],
                table.deep_view(),
            ),
    ensures
        r@ == conflict_message(label@, group.key@, group.deep_view().sites, table.deep_view()),
{
    let mut out = String::from_str("The following entries share the same ");
    out.append(label);
    out.append(" `");
    out.append(group.key.as_str());
    out.append("`:\n");
    let ghost head = out@;
    let ghost sites = group.deep_view().sites;
    let ghost files = table.deep_view();
    let mut j: usize = 0;
    while j < group.sites.len()
        invariant
            j <= group.sites.len(),
            sites == group.deep_view().sites,
            files == table.deep_view(),
            forall|k: int| 0 <= k < sites.len() ==> site_fits(#[trigger] sites[k], files),
            out@ == head + site_blocks(sites.take(j as int), files),
        decreases group.sites.len() - j,
    {
        let site = &group.sites[j];
        proof {
            assert(site.deep_view() == sites[j as int]);
            assert(sites.take(j + 1).drop_last() =~= sites.take(j as int));
        }
        push_site_block(&mut out, table[site.source].text.as_str(), &site.location);
        out.append("\n");
        j += 1;
    }
    assert(sites.take(j as int) =~= sites);
    out
}

/// Appends to `errors` the messages for the keys of `groups` that were
/// declared at more than one place.
pub fn push_conflicts(
    groups: &Vec<Group>,
    label: &str,
    table: &Vec<SourceFile>,
    errors: &mut Vec<String>,
)
    requires
        groups_wf(groups.deep_view(), table.deep_view()),
    ensures
        final(errors).deep_view() == old(errors).deep_view() + conflicts(
            groups.deep_view(),
            label@,
            table.deep_view(),
        ),
{
    let ghost all = groups.deep_view();
    let ghost files = table.deep_view();
    let ghost start = errors.deep_view();
    let mut i: usize = 0;
    while i < groups.len()
        invariant
            i <= groups.len(),
            all == groups.deep_view(),
            files == table.deep_view(),
            groups_wf(all, files),
            errors.deep_view() == start + conflicts(all.take(i as int), label@, files),
        decreases groups.len() - i,
    {
        let group = &groups[i];
        proof {
            assert(group.deep_view() == all[i as int]);
            assert(all.take(i + 1).drop_last() =~= all.take(i as int));
        }
        if group.sites.len() > 1 {
            let text = conflict_text(group, label, table);
            let ghost held = errors.deep_view();
            errors.push(text);
            assert(errors.deep_view() =~= held.push(text@));
        }
        i += 1;
    }
    assert(all.take(i as int) =~= all);
}

} // verus!
