//! The modules that an entry module can require by name.

use indexmap::IndexMap;
use vstd::prelude::*;

verus! {

/// The insertion-ordered map of the `indexmap` crate.
#[verifier::external_type_specification]
#[verifier::external_body]
#[verifier::reject_recursive_types(K)]
#[verifier::reject_recursive_types(V)]
#[verifier::reject_recursive_types(S)]
pub struct ExIndexMap<K, V, S>(IndexMap<K, V, S>);

/// The pairs of a map from names to asset handles, in the order of the map.
pub uninterp spec fn asset_entries(assets: IndexMap<String, u64>) -> Seq<(Seq<char>, u64)>;

/// Whether one of the pairs has the key `name`.
pub open spec fn has_name(entries: Seq<(Seq<char>, u64)>, name: Seq<char>) -> bool {
    exists|i: int| 0 <= i < entries.len() && (#[trigger] entries[i]).0 == name
}

/// Calls `IndexMap::with_capacity`: the new map holds no pair. The capacity is
/// kept small, since a capacity whose bytes cannot be counted panics.
#[verifier::external_body]
fn assets_with_capacity(capacity: usize) -> (assets: IndexMap<String, u64>)
    requires
        capacity <= 64,
    ensures
        asset_entries(assets) == Seq::<(Seq<char>, u64)>::empty(),
{
    IndexMap::with_capacity(capacity)
}

/// Calls `IndexMap::insert`. A name that the map does not hold is added with its
/// handle, last in order, and `None` is returned. For a name that the map holds,
/// the pair keeps its place and gets the new handle, and the former handle is
/// returned.
#[verifier::external_body]
fn insert_asset(assets: &mut IndexMap<String, u64>, name: String, asset: u64) -> (former: Option<
    u64,
>)
    ensures
        !has_name(asset_entries(*old(assets)), name@) ==> former is None && asset_entries(
            *final(assets),
        ) == asset_entries(*old(assets)).push((name@, asset)),
        forall|i: int|
            0 <= i < asset_entries(*old(assets)).len() && (#[trigger] asset_entries(
                *old(assets),
            )[i]).0 == name@ ==> former == Some(asset_entries(*old(assets))[i].1) && asset_entries(
                *final(assets),
            ) == asset_entries(*old(assets)).update(i, (name@, asset)),
{
    assets.insert(name, asset)
}

/// The names that the entry module requires, each with its asset: `INNER` is the
/// module to evaluate, `RUNTIME` is the code that talks to this process.
pub fn inner_assets(module_asset: u64, runtime_asset: u64) -> (assets: IndexMap<String, u64>)
    ensures
        asset_entries(assets) == seq![("INNER"@, module_asset), ("RUNTIME"@, runtime_asset)],
{
    let mut assets = assets_with_capacity(2);
    insert_asset(&mut assets, "INNER".to_owned(), module_asset);
    proof {
        reveal_strlit("INNER");
        reveal_strlit("RUNTIME");
        assert("INNER"@.len() != "RUNTIME"@.len());
        assert(asset_entries(assets)[0] == ("INNER"@, module_asset));
    }
    insert_asset(&mut assets, "RUNTIME".to_owned(), runtime_asset);
    proof {
        assert(asset_entries(assets) =~= seq![
            ("INNER"@, module_asset),
            ("RUNTIME"@, runtime_asset),
        ]);
    }
    assets
}

} // verus!
