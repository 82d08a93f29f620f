//! Which of the preset plugins a run installs.

use crate::report::{result_views, PreinstallResult, ResultView};
use crate::text::string_views;
use vstd::hash_map::StringHashMap;
use vstd::prelude::*;

verus! {

/// A plugin that is offered for installation.
#[derive(Debug, Clone)]
pub struct PreinstallPluginInfo {
    pub id: String,
    pub name: String,
    /// The package, as it is handed to the package manager.
    pub spec: String,
}

/// The model of a plugin on offer.
pub struct PluginView {
    pub id: Seq<char>,
    pub name: Seq<char>,
    pub spec: Seq<char>,
}

impl View for PreinstallPluginInfo {
    type V = PluginView;

    open spec fn view(&self) -> PluginView {
        PluginView { id: self.id@, name: self.name@, spec: self.spec@ }
    }
}

/// What a sequence of plugins holds.
pub open spec fn plugin_views(plugins: Seq<PreinstallPluginInfo>) -> Seq<PluginView> {
    plugins.map_values(|p: PreinstallPluginInfo| p@)
}

/// The preset with a given id: the last one, should several share it.
pub open spec fn preset_for(presets: Seq<PluginView>, id: Seq<char>) -> Option<PluginView>
    decreases presets.len(),
{
    if presets.len() == 0 {
        None
    } else if presets.last().id == id {
        Some(presets.last())
    } else {
        preset_for(presets.drop_last(), id)
    }
}

/// The chosen plugins: the presets for `ids`, in this order, unknown ids left out.
pub open spec fn chosen(presets: Seq<PluginView>, ids: Seq<Seq<char>>) -> Seq<PluginView>
    decreases ids.len(),
{
    if ids.len() == 0 {
        Seq::empty()
    } else {
        match preset_for(presets, ids.last()) {
            Some(preset) => chosen(presets, ids.drop_last()).push(preset),
            None => chosen(presets, ids.drop_last()),
        }
    }
}

/// The result for an id that no preset has.
pub open spec fn unknown_result(id: Seq<char>) -> ResultView {
    ResultView {
        id,
        name: id,
        success: false,
        error: Some("PREINSTALL_INVALID_ID: unknown plugin id "@ + id),
    }
}

/// The results for those of `ids` that no preset has, in this order.
pub open spec fn rejected(presets: Seq<PluginView>, ids: Seq<Seq<char>>) -> Seq<ResultView>
    decreases ids.len(),
{
    if ids.len() == 0 {
        Seq::empty()
    } else {
        match preset_for(presets, ids.last()) {
            Some(_) => rejected(presets, ids.drop_last()),
            None => rejected(presets, ids.drop_last()).push(unknown_result(ids.last())),
        }
    }
}

/// A run's work: the plugins that are still to be installed, and the results so
/// far.
pub struct Batch {
    pub queue: Vec<PreinstallPluginInfo>,
    pub results: Vec<PreinstallResult>,
}

/// The model of a batch.
pub struct BatchView {
    pub queue: Seq<PluginView>,
    pub results: Seq<ResultView>,
}

impl View for Batch {
    type V = BatchView;

    open spec fn view(&self) -> BatchView {
        BatchView { queue: plugin_views(self.queue@), results: result_views(self.results@) }
    }
}

/// The batch that a choice makes: the chosen plugins wait, and the unknown ids
/// have failed.
pub open spec fn batch_of(presets: Seq<PluginView>, ids: Seq<Seq<char>>) -> BatchView {
    BatchView { queue: chosen(presets, ids), results: rejected(presets, ids) }
}

/// What the table of presets holds once the first `n` presets are in: for each
/// id the place of the last preset that has it.
spec fn table_of(presets: Seq<PluginView>, table: Map<Seq<char>, usize>, n: int) -> bool {
    forall|id: Seq<char>|
        #![trigger table.contains_key(id)]
        #![trigger preset_for(presets.take(n), id)]
        match preset_for(presets.take(n), id) {
            Some(preset) => table.contains_key(id) && table[id] < n && presets[table[id] as int]
                == preset,
            None => !table.contains_key(id),
        }
}

/// The places of the presets, by id.
fn preset_table(presets: &[PreinstallPluginInfo]) -> (table: StringHashMap<usize>)
    ensures
        table_of(plugin_views(presets@), table@, presets@.len() as int),
{
    let mut table: StringHashMap<usize> = StringHashMap::new();
    let ghost views = plugin_views(presets@);
    for i in 0..presets.len()
        invariant
            views == plugin_views(presets@),
            table_of(views, table@, i as int),
    {
        let ghost earlier = table@;
        table.insert(presets[i].id.clone(), i);
        proof {
            let n = i as int;
            assert(views.take(n + 1).drop_last() == views.take(n));
            assert(views.take(n + 1).last() == views[n]);
            assert(views[n] == presets@[n]@);
            assert forall|id: Seq<char>|
                #![trigger table@.contains_key(id)]
                #![trigger preset_for(views.take(n + 1), id)]
                match preset_for(views.take(n + 1), id) {
                    Some(preset) => table@.contains_key(id) && table@[id] < n + 1
                        && views[table@[id] as int] == preset,
                    None => !table@.contains_key(id),
                } by {
                let before = preset_for(views.take(n), id);
                assert(earlier.contains_key(id) == (before is Some));
            }
        }
    }
    table
}

/// Looks the chosen ids up. Those that no preset has fail at once, and stop none
/// of the others.
pub fn select(ids: &[String], presets: &[PreinstallPluginInfo]) -> (batch: Batch)
    ensures
        batch@ == batch_of(plugin_views(presets@), string_views(ids@)),
{
    let table = preset_table(presets);
    let mut queue: Vec<PreinstallPluginInfo> = Vec::new();
    let mut results: Vec<PreinstallResult> = Vec::new();
    let ghost offered = plugin_views(presets@);
    let ghost wanted = string_views(ids@);
    assert(offered.take(offered.len() as int) == offered);
    assert(wanted.take(0) == Seq::<Seq<char>>::empty());
    assert(plugin_views(queue@) == chosen(offered, wanted.take(0)));
    assert(result_views(results@) == rejected(offered, wanted.take(0)));
    for i in 0..ids.len()
        invariant
            offered == plugin_views(presets@),
            wanted == string_views(ids@),
            offered.take(offered.len() as int) == offered,
            table_of(offered, table@, offered.len() as int),
            plugin_views(queue@) == chosen(offered, wanted.take(i as int)),
            result_views(results@) == rejected(offered, wanted.take(i as int)),
    {
        let ghost waiting = plugin_views(queue@);
        let ghost refused = result_views(results@);
        assert(wanted.take(i + 1).drop_last() == wanted.take(i as int));
        assert(wanted.take(i + 1).last() == ids@[i as int]@);
        assert(table@.contains_key(ids@[i as int]@) == (preset_for(offered, ids@[i as int]@)
            is Some));
        match table.get(ids[i].as_str()) {
            Some(place) => {
                let preset = &presets[*place];
                assert(offered[*place as int] == preset@);
                let plugin = PreinstallPluginInfo {
                    id: preset.id.clone(),
                    name: preset.name.clone(),
                    spec: preset.spec.clone(),
                };
                queue.push(plugin);
                assert(plugin_views(queue@) == waiting.push(plugin@));
            },
            None => {
                let result = PreinstallResult {
                    id: ids[i].clone(),
                    name: ids[i].clone(),
                    success: false,
                    error: Some(
                        "PREINSTALL_INVALID_ID: unknown plugin id ".to_string().concat(
                            ids[i].as_str(),
                        ),
                    ),
                };
                results.push(result);
                assert(result_views(results@) == refused.push(result@));
            },
        }
    }
    assert(wanted.take(wanted.len() as int) == wanted);
    Batch { queue, results }
}

/// The preset for an id is the last one that has it; there is none where no preset
/// has it.
pub proof fn law_last_preset_with_an_id_counts(
    before: Seq<PluginView>,
    preset: PluginView,
    after: Seq<PluginView>,
    id: Seq<char>,
)
    requires
        forall|i: int| 0 <= i < after.len() ==> (#[trigger] after[i]).id != id,
    ensures
        preset.id == id ==> preset_for(before.push(preset) + after, id) == Some(preset),
        preset_for(after, id) is None,
    decreases after.len(),
{
    let whole = before.push(preset) + after;
    if after.len() > 0 {
        let less = after.drop_last();
        assert forall|i: int| 0 <= i < less.len() implies (#[trigger] less[i]).id != id by {
            assert(less[i] == after[i]);
        }
        law_last_preset_with_an_id_counts(before, preset, less, id);
        assert(after.last() == after[after.len() - 1]);
        assert(whole.last() == after.last());
        assert(whole.drop_last() == before.push(preset) + less);
    } else {
        assert(whole == before.push(preset));
        assert(whole.last() == preset);
    }
}

/// The ids are taken one by one, in order: one that a preset has is queued with
/// that preset, and one that none has is a result.
pub proof fn law_ids_are_taken_one_by_one(
    presets: Seq<PluginView>,
    ids: Seq<Seq<char>>,
    id: Seq<char>,
)
    ensures
        batch_of(presets, Seq::<Seq<char>>::empty()) == (BatchView {
            queue: Seq::empty(),
            results: Seq::empty(),
        }),
        preset_for(presets, id) matches Some(preset) ==> batch_of(presets, ids.push(id)) == (
        BatchView {
            queue: batch_of(presets, ids).queue.push(preset),
            results: batch_of(presets, ids).results,
        }),
        preset_for(presets, id) is None ==> batch_of(presets, ids.push(id)) == (BatchView {
            queue: batch_of(presets, ids).queue,
            results: batch_of(presets, ids).results.push(unknown_result(id)),
        }),
{
    assert(ids.push(id).drop_last() == ids);
}

/// The result for an unknown id is a failure that names it.
pub proof fn law_unknown_id_is_named(id: Seq<char>)
    ensures
        unknown_result(id).id == id,
        unknown_result(id).name == id,
        !unknown_result(id).success,
        unknown_result(id).error == Some("PREINSTALL_INVALID_ID: unknown plugin id "@ + id),
{
}

/// The views of plugins and batches are what they hold, one by one.
pub proof fn law_batches_are_seen_whole(
    plugin: PreinstallPluginInfo,
    plugins: Seq<PreinstallPluginInfo>,
    batch: Batch,
)
    ensures
        plugin@.id == plugin.id@ && plugin@.name == plugin.name@ && plugin@.spec == plugin.spec@,
        plugin_views(plugins).len() == plugins.len(),
        forall|i: int| 0 <= i < plugins.len() ==> #[trigger] plugin_views(plugins)[i] == plugins[i]@,
        batch@.queue == plugin_views(batch.queue@),
        batch@.results == result_views(batch.results@),
{
}

} // verus!
