use vstd::prelude::*;

use std::collections::HashMap;

use indexmap::IndexMap;

use crate::models::{
    AppConfig, DataLevel, DatasetEntry, DatasetRagAnalysis, Diversity, GeoDimension, Granularity,
    PlatformLevel, PortalQualityAssessment, QualityReport, TimeDimension, WebsiteReport,
};
use crate::text::{decimal, lemma_decimal_injective, push_decimal};
use crate::urls::{url_host, url_host_of};

verus! {

// ──────────────────────────────────────────────
// Names
// ──────────────────────────────────────────────

/// The name under which a site's datasets are credited: the host of its root
/// URL, or `Unknown`.
pub open spec fn site_name_of(root_url: Seq<char>) -> Seq<char> {
    match url_host_of(root_url) {
        Some(Some(h)) => h,
        _ => "Unknown"@,
    }
}

pub fn site_name(root_url: &str) -> (r: String)
    ensures
        r@ == site_name_of(root_url@),
{
    match url_host(root_url) {
        Some(Some(h)) => h,
        _ => String::from_str("Unknown"),
    }
}

/// A dataset's name: the model's suggestion when it is not empty, else the title.
pub open spec fn dataset_name_of(suggested: Option<Seq<char>>, title: Seq<char>) -> Seq<char> {
    match suggested {
        Some(n) => if n.len() > 0 { n } else { title },
        None => title,
    }
}

pub fn choose_dataset_name(suggested: &Option<String>, title: &str) -> (r: String)
    ensures
        r@ == dataset_name_of(crate::crawler::opt_view(*suggested), title@),
{
    match suggested {
        Some(n) => {
            if !n.as_str().is_empty() {
                n.clone()
            } else {
                String::from_str(title)
            }
        },
        None => String::from_str(title),
    }
}

// ──────────────────────────────────────────────
// Granularity suggestions
// ──────────────────────────────────────────────

pub open spec fn or_keep(suggested: Option<u8>, current: u8) -> u8 {
    match suggested {
        Some(v) => v,
        None => current,
    }
}

/// The data level with each granularity flag the model suggested taken over.
pub open spec fn with_rag_granularity(d: DataLevel, rag: DatasetRagAnalysis) -> DataLevel {
    DataLevel {
        granularity: Granularity {
            time_dimension: TimeDimension {
                day: or_keep(rag.granularity_day, d.granularity.time_dimension.day),
                month: or_keep(rag.granularity_month, d.granularity.time_dimension.month),
                year: or_keep(rag.granularity_year, d.granularity.time_dimension.year),
            },
            geo_dimension: GeoDimension {
                union: or_keep(rag.granularity_union, d.granularity.geo_dimension.union),
                upazila: or_keep(rag.granularity_upazila, d.granularity.geo_dimension.upazila),
                zila: or_keep(rag.granularity_zila, d.granularity.geo_dimension.zila),
            },
        },
        ..d
    }
}

/// Takes over the granularity flags that the model suggested.
pub fn apply_rag_granularity(level: &mut DataLevel, rag: &DatasetRagAnalysis)
    ensures
        *final(level) == with_rag_granularity(*old(level), *rag),
{
    if let Some(v) = rag.granularity_day {
        level.granularity.time_dimension.day = v;
    }
    if let Some(v) = rag.granularity_month {
        level.granularity.time_dimension.month = v;
    }
    if let Some(v) = rag.granularity_year {
        level.granularity.time_dimension.year = v;
    }
    if let Some(v) = rag.granularity_union {
        level.granularity.geo_dimension.union = v;
    }
    if let Some(v) = rag.granularity_upazila {
        level.granularity.geo_dimension.upazila = v;
    }
    if let Some(v) = rag.granularity_zila {
        level.granularity.geo_dimension.zila = v;
    }
}

// ──────────────────────────────────────────────
// The report
// ──────────────────────────────────────────────

/// The entries of a map from dataset keys to datasets, in the map's order.
pub uninterp spec fn dataset_map_entries(m: IndexMap<String, DatasetEntry>) -> Seq<(Seq<char>, DatasetEntry)>;

/// The position of the first entry with key `key`, if any.
pub open spec fn key_position(entries: Seq<(Seq<char>, DatasetEntry)>, key: Seq<char>) -> Option<int> {
    if exists|i: int| 0 <= i < entries.len() && #[trigger] entries[i].0 == key {
        Some(choose|i: int| 0 <= i < entries.len() && #[trigger] entries[i].0 == key && forall|j: int| 0 <= j < i ==> entries[j].0 != key)
    } else {
        None
    }
}

/// `IndexMap::new`: the new map has no entries.
#[verifier::external_body]
fn new_dataset_map() -> (m: IndexMap<String, DatasetEntry>)
    ensures
        dataset_map_entries(m) == Seq::<(Seq<char>, DatasetEntry)>::empty(),
{
    IndexMap::new()
}

/// `IndexMap::insert`: a key already present keeps its place and takes the new
/// value; a new key goes last with its value.
#[verifier::external_body]
fn insert_dataset(m: &mut IndexMap<String, DatasetEntry>, key: String, entry: DatasetEntry)
    ensures
        match key_position(dataset_map_entries(*old(m)), key@) {
            Some(i) => dataset_map_entries(*final(m)) == dataset_map_entries(*old(m)).update(i, (key@, entry)),
            None => dataset_map_entries(*final(m)) == dataset_map_entries(*old(m)).push((key@, entry)),
        },
{
    m.insert(key, entry);
}

/// The category map with no category.
pub open spec fn no_categories() -> Map<String, IndexMap<String, DatasetEntry>> {
    Map::empty()
}

/// `HashMap::insert` into an empty map: the map then holds that one entry.
#[verifier::external_body]
fn insert_category(m: &mut HashMap<String, IndexMap<String, DatasetEntry>>, name: String, datasets: IndexMap<String, DatasetEntry>)
    requires
        old(m)@ == no_categories(),
    ensures
        final(m)@ == no_categories().insert(name, datasets),
{
    m.insert(name, datasets);
}

/// The key of the `n`-th dataset (counting from one): `dataset` + `n`.
pub open spec fn dataset_key_view(n: nat) -> Seq<char> {
    "dataset"@ + decimal(n)
}

/// The key of the dataset at `index` (counting from zero).
pub fn dataset_key(index: usize) -> (r: String)
    requires
        index < usize::MAX,
    ensures
        r@ == dataset_key_view(index as nat + 1),
{
    let mut s = String::from_str("dataset");
    push_decimal(&mut s, index as u64 + 1);
    s
}

/// Different datasets get different keys.
pub proof fn law_dataset_keys_distinct(m: nat, n: nat)
    requires
        m != n,
    ensures
        dataset_key_view(m) != dataset_key_view(n),
{
    let p = "dataset"@;
    if dataset_key_view(m) == dataset_key_view(n) {
        assert((p + decimal(m)).skip(p.len() as int) =~= decimal(m));
        assert((p + decimal(n)).skip(p.len() as int) =~= decimal(n));
        lemma_decimal_injective(m, n);
    }
}

/// The datasets keyed `dataset1`, `dataset2`, ... in order.
pub open spec fn keyed_entries(entries: Seq<DatasetEntry>) -> Seq<(Seq<char>, DatasetEntry)> {
    Seq::new(entries.len(), |i: int| (dataset_key_view((i + 1) as nat), entries[i]))
}

/// The platform level with the number of datasets filled in (as a `u32`,
/// wrapping as `as` does).
pub open spec fn with_dataset_count(p: PlatformLevel, n: nat) -> PlatformLevel {
    PlatformLevel { diversity: Diversity { number_of_dataset: n as u32, ..p.diversity }, ..p }
}

/// The report of a site: its root URL, its platform level with the number of
/// datasets, and its datasets under the one category, keyed in order.
pub fn assemble_report(config: &AppConfig, platform: PlatformLevel, entries: Vec<DatasetEntry>) -> (r: QualityReport)
    ensures
        r.website.url == config.root_url,
        r.website.portal_quality_assessment.platform_level == with_dataset_count(platform, entries@.len()),
        r.website.category@.dom() == set![config.category_name],
        dataset_map_entries(r.website.category@[config.category_name]) == keyed_entries(entries@),
{
    let n = entries.len();
    let mut platform_level = platform;
    platform_level.diversity.number_of_dataset = n as u32;

    let mut datasets = new_dataset_map();
    let mut rest = entries;
    let ghost all = rest@;
    let mut i: usize = 0;
    while i < n
        invariant
            i <= n,
            n == all.len(),
            rest@ == all.skip(i as int),
            dataset_map_entries(datasets) == keyed_entries(all.take(i as int)),
        decreases n - i,
    {
        let entry = rest.remove(0);
        let key = dataset_key(i);
        proof {
            let before = dataset_map_entries(datasets);
            if key_position(before, key@) is Some {
                let j = choose|j: int| 0 <= j < before.len() && #[trigger] before[j].0 == key@;
                assert(before[j].0 == dataset_key_view((j + 1) as nat));
                law_dataset_keys_distinct((j + 1) as nat, (i + 1) as nat);
            }
        }
        insert_dataset(&mut datasets, key, entry);
        proof {
            assert(keyed_entries(all.take(i + 1)) =~= keyed_entries(all.take(i as int)).push((dataset_key_view((i + 1) as nat), all[i as int])));
            assert(all.skip(i as int).remove(0) =~= all.skip(i + 1));
        }
        i += 1;
    }
    assert(all.take(n as int) =~= all);

    let mut category: HashMap<String, IndexMap<String, DatasetEntry>> = HashMap::new();
    insert_category(&mut category, config.category_name.clone(), datasets);

    QualityReport {
        website: WebsiteReport {
            url: config.root_url.clone(),
            portal_quality_assessment: PortalQualityAssessment { platform_level },
            category,
        },
    }
}

} // verus!
