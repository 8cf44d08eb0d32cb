//! The machine-local store of action grants.

use vstd::prelude::*;

use crate::plugin::digest::{
    digest_text, is_digest_text, law_digest_text_round_trip, BundleDigest,
};
use crate::plugin::error::PluginPackageError;
use crate::plugin::ident::{ActionScope, PluginId};
use crate::plugin::package::{BundleView, PluginBundle};
use crate::plugin::scopes::{
    ascending, lemma_listing_is_determined, lemma_push_to_set, scope_texts, ScopeSet,
};
use crate::text::{
    bytes_before, is_bytes_before, is_text_before, lemma_bytes_before_irreflexive,
    lemma_bytes_before_total, lemma_bytes_before_transitive, lemma_text_before_irreflexive,
    lemma_text_before_total, lemma_text_before_transitive, text_before,
};

verus! {

pub const GRANT_STORE_VERSION: u32 = 1;

/// Result of matching a verified bundle against the machine-local grant store.
#[derive(Debug, PartialEq, Eq)]
pub enum GrantDecision {
    Granted,
    ApprovalRequired {
        missing: ScopeSet,
        /// True when this plugin was approved before, but its exact bytes changed.
        content_changed: bool,
    },
}

/// The model of a decision.
pub ghost enum DecisionView {
    Granted,
    ApprovalRequired { missing: Set<Seq<char>>, content_changed: bool },
}

impl View for GrantDecision {
    type V = DecisionView;

    open spec fn view(&self) -> DecisionView {
        match self {
            GrantDecision::Granted => DecisionView::Granted,
            GrantDecision::ApprovalRequired { missing, content_changed } =>
                DecisionView::ApprovalRequired {
                missing: missing@,
                content_changed: *content_changed,
            },
        }
    }
}

#[derive(Debug)]
pub struct GrantStore {
    records: Vec<GrantRecord>,
}

#[derive(Debug)]
struct GrantRecord {
    plugin: PluginId,
    digest: BundleDigest,
    invoke_actions: ScopeSet,
}

/// The model of one grant: these actions, for these exact bytes of this plugin.
pub ghost struct GrantView {
    pub plugin: Seq<char>,
    pub digest: Seq<u8>,
    pub actions: Set<Seq<char>>,
}

/// A grant store as it is written in its file.
#[derive(Debug)]
pub struct RawGrantStore {
    pub version: u32,
    pub grants: Vec<RawGrantRecord>,
}

#[derive(Debug)]
pub struct RawGrantRecord {
    pub plugin: PluginId,
    pub digest: String,
    pub invoke_actions: Vec<ActionScope>,
}

#[derive(Debug, PartialEq, Eq)]
pub enum GrantError {
    UnsupportedVersion(u32),
    InvalidDigest(PluginPackageError),
    DuplicateRecord { plugin: PluginId, digest: BundleDigest },
    DuplicateActionScope(ActionScope),
    /// The plugin did not request the action.
    ActionNotRequested(ActionScope),
}

impl View for GrantRecord {
    type V = GrantView;

    closed spec fn view(&self) -> GrantView {
        GrantView { plugin: self.plugin@, digest: self.digest@, actions: self.invoke_actions@ }
    }
}

impl View for GrantStore {
    type V = Seq<GrantView>;

    closed spec fn view(&self) -> Seq<GrantView> {
        self.records@.map_values(|record: GrantRecord| record@)
    }
}

/// No plugin has two grants for the same bytes.
pub open spec fn distinct_grants(grants: Seq<GrantView>) -> bool {
    forall|i: int, j: int|
        0 <= i < j < grants.len() ==> (#[trigger] grants[i]).plugin != (#[trigger] grants[j]).plugin
            || grants[i].digest != grants[j].digest
}

/// The actions granted to these exact bytes of this plugin, by the first grant
/// for them.
pub open spec fn granted_actions(grants: Seq<GrantView>, plugin: Seq<char>, digest: Seq<u8>) -> Option<
    Set<Seq<char>>,
>
    decreases grants.len(),
{
    if grants.len() == 0 {
        None
    } else {
        match granted_actions(grants.drop_last(), plugin, digest) {
            Some(actions) => Some(actions),
            None => if grants.last().plugin == plugin && grants.last().digest == digest {
                Some(grants.last().actions)
            } else {
                None
            },
        }
    }
}

/// Whether the plugin has any grant.
pub open spec fn is_known(grants: Seq<GrantView>, plugin: Seq<char>) -> bool {
    exists|i: int| 0 <= i < grants.len() && (#[trigger] grants[i]).plugin == plugin
}

/// The decision on a bundle.
pub open spec fn decide(grants: Seq<GrantView>, bundle: BundleView) -> DecisionView {
    let requested = bundle.manifest.invoke_actions;
    let plugin = bundle.manifest.id;
    if requested == Set::<Seq<char>>::empty() {
        DecisionView::Granted
    } else {
        match granted_actions(grants, plugin, bundle.digest) {
            Some(granted) => if requested.difference(granted) == Set::<Seq<char>>::empty() {
                DecisionView::Granted
            } else {
                DecisionView::ApprovalRequired {
                    missing: requested.difference(granted),
                    content_changed: false,
                }
            },
            None => DecisionView::ApprovalRequired {
                missing: requested,
                content_changed: is_known(grants, plugin),
            },
        }
    }
}

/// The grants that remain when all of one plugin are withdrawn.
pub open spec fn without_plugin(grants: Seq<GrantView>, plugin: Seq<char>) -> Seq<GrantView> {
    grants.filter(|grant: GrantView| grant.plugin != plugin)
}

/// The grants after a bundle was approved for some actions.
pub open spec fn with_approval(
    grants: Seq<GrantView>,
    bundle: BundleView,
    actions: Set<Seq<char>>,
) -> Seq<GrantView> {
    without_plugin(grants, bundle.manifest.id).push(
        GrantView { plugin: bundle.manifest.id, digest: bundle.digest, actions },
    )
}

proof fn lemma_filter_members(grants: Seq<GrantView>, plugin: Seq<char>)
    ensures
        forall|i: int|
            0 <= i < without_plugin(grants, plugin).len() ==> (#[trigger] without_plugin(
                grants,
                plugin,
            )[i]).plugin != plugin && grants.contains(without_plugin(grants, plugin)[i]),
        distinct_grants(grants) ==> distinct_grants(without_plugin(grants, plugin)),
    decreases grants.len(),
{
    reveal(Seq::filter);
    let kept = without_plugin(grants, plugin);
    if grants.len() > 0 {
        let head = grants.drop_last();
        lemma_filter_members(head, plugin);
        let kept_head = without_plugin(head, plugin);
        assert forall|i: int| 0 <= i < kept.len() implies (#[trigger] kept[i]).plugin != plugin
            && grants.contains(kept[i]) by {
            if i < kept_head.len() {
                assert(kept[i] == kept_head[i]);
                let j = choose|j: int| 0 <= j < head.len() && head[j] == kept_head[i];
                assert(grants[j] == kept[i]);
            } else {
                assert(grants[grants.len() - 1] == kept[i]);
            }
        }
        if distinct_grants(grants) {
            assert forall|i: int, j: int| 0 <= i < j < head.len() implies (
            #[trigger] head[i]).plugin != (#[trigger] head[j]).plugin || head[i].digest
                != head[j].digest by {
                assert(grants[i] == head[i] && grants[j] == head[j]);
            }
            assert forall|i: int, j: int| 0 <= i < j < kept.len() implies (
            #[trigger] kept[i]).plugin != (#[trigger] kept[j]).plugin || kept[i].digest
                != kept[j].digest by {
                assert(kept[i] == kept_head[i]);
                if j < kept_head.len() {
                    assert(kept[j] == kept_head[j]);
                } else {
                    let k = choose|k: int| 0 <= k < head.len() && head[k] == kept_head[i];
                    assert(grants[k] == kept[i] && grants[grants.len() - 1] == kept[j]);
                }
            }
        }
    }
}

proof fn lemma_filter_lookup(
    grants: Seq<GrantView>,
    plugin: Seq<char>,
    other: Seq<char>,
    digest: Seq<u8>,
)
    ensures
        other == plugin ==> granted_actions(without_plugin(grants, plugin), other, digest) is None,
        other != plugin ==> granted_actions(without_plugin(grants, plugin), other, digest)
            == granted_actions(grants, other, digest),
        is_known(without_plugin(grants, plugin), other) <==> other != plugin && is_known(
            grants,
            other,
        ),
    decreases grants.len(),
{
    reveal(Seq::filter);
    let kept = without_plugin(grants, plugin);
    if grants.len() > 0 {
        let head = grants.drop_last();
        lemma_filter_lookup(head, plugin, other, digest);
        let kept_head = without_plugin(head, plugin);
        if grants.last().plugin != plugin {
            assert(kept =~= kept_head.push(grants.last()));
            assert(kept.drop_last() =~= kept_head);
        }
        if is_known(kept, other) {
            let i = choose|i: int| 0 <= i < kept.len() && (#[trigger] kept[i]).plugin == other;
            if i < kept_head.len() {
                assert(kept_head[i] == kept[i]);
                assert(is_known(head, other));
                let j = choose|j: int| 0 <= j < head.len() && (#[trigger] head[j]).plugin == other;
                assert(grants[j].plugin == other);
            } else {
                assert(grants[grants.len() - 1].plugin == other);
            }
        }
        if other != plugin && is_known(grants, other) {
            let i = choose|i: int| 0 <= i < grants.len() && (#[trigger] grants[i]).plugin == other;
            if i < head.len() {
                assert(head[i].plugin == other);
                let j = choose|j: int|
                    0 <= j < kept_head.len() && (#[trigger] kept_head[j]).plugin == other;
                assert(kept[j] == kept_head[j]);
            } else {
                assert(kept[kept.len() - 1] == grants.last());
            }
        }
    } else {
        assert(kept =~= Seq::<GrantView>::empty());
    }
}

/// After an approval, the same bytes lack exactly the requested actions that were
/// not approved.
pub proof fn law_approval_grants_what_was_approved(
    grants: Seq<GrantView>,
    bundle: BundleView,
    actions: Set<Seq<char>>,
)
    ensures
        granted_actions(
            with_approval(grants, bundle, actions),
            bundle.manifest.id,
            bundle.digest,
        ) == Some(actions),
        decide(with_approval(grants, bundle, actions), bundle) == (if bundle.manifest.invoke_actions.difference(
            actions,
        ) == Set::<Seq<char>>::empty() {
            DecisionView::Granted
        } else {
            DecisionView::ApprovalRequired {
                missing: bundle.manifest.invoke_actions.difference(actions),
                content_changed: false,
            }
        }),
{
    let plugin = bundle.manifest.id;
    let after = with_approval(grants, bundle, actions);
    lemma_filter_lookup(grants, plugin, plugin, bundle.digest);
    assert(after.drop_last() =~= without_plugin(grants, plugin));
    if bundle.manifest.invoke_actions == Set::<Seq<char>>::empty() {
        assert(bundle.manifest.invoke_actions.difference(actions) =~= Set::<Seq<char>>::empty());
    }
}

/// Changed bytes never inherit a grant: after an approval, every other package of
/// the same plugin that requests anything must be approved anew, for everything
/// it requests.
pub proof fn law_changed_bytes_never_inherit(
    grants: Seq<GrantView>,
    approved: BundleView,
    actions: Set<Seq<char>>,
    changed: BundleView,
)
    requires
        changed.manifest.id == approved.manifest.id,
        changed.digest != approved.digest,
        changed.manifest.invoke_actions != Set::<Seq<char>>::empty(),
    ensures
        decide(with_approval(grants, approved, actions), changed)
            == (DecisionView::ApprovalRequired {
            missing: changed.manifest.invoke_actions,
            content_changed: true,
        }),
{
    let plugin = approved.manifest.id;
    let after = with_approval(grants, approved, actions);
    lemma_filter_lookup(grants, plugin, plugin, changed.digest);
    assert(after.drop_last() =~= without_plugin(grants, plugin));
    assert(after[after.len() - 1].plugin == plugin);
}

/// A revoked plugin is as unknown as one that was never approved.
pub proof fn law_revocation_forgets(grants: Seq<GrantView>, bundle: BundleView)
    requires
        bundle.manifest.invoke_actions != Set::<Seq<char>>::empty(),
    ensures
        decide(without_plugin(grants, bundle.manifest.id), bundle)
            == (DecisionView::ApprovalRequired {
            missing: bundle.manifest.invoke_actions,
            content_changed: false,
        }),
{
    lemma_filter_lookup(grants, bundle.manifest.id, bundle.manifest.id, bundle.digest);
}

/// Approving or revoking one plugin leaves the decisions on all others alone.
pub proof fn law_other_plugins_are_unaffected(
    grants: Seq<GrantView>,
    bundle: BundleView,
    actions: Set<Seq<char>>,
    other: BundleView,
)
    requires
        other.manifest.id != bundle.manifest.id,
    ensures
        decide(with_approval(grants, bundle, actions), other) == decide(grants, other),
        decide(without_plugin(grants, bundle.manifest.id), other) == decide(grants, other),
{
    let plugin = bundle.manifest.id;
    let after = with_approval(grants, bundle, actions);
    let kept = without_plugin(grants, plugin);
    lemma_filter_lookup(grants, plugin, other.manifest.id, other.digest);
    assert(after.drop_last() =~= kept);
    assert(is_known(after, other.manifest.id) == is_known(kept, other.manifest.id)) by {
        if is_known(after, other.manifest.id) {
            let i = choose|i: int|
                0 <= i < after.len() && (#[trigger] after[i]).plugin == other.manifest.id;
            assert(kept[i] == after[i]);
        }
        if is_known(kept, other.manifest.id) {
            let i = choose|i: int|
                0 <= i < kept.len() && (#[trigger] kept[i]).plugin == other.manifest.id;
            assert(kept[i] == after[i]);
        }
    }
}

/// Nothing is granted without a grant for the exact bytes that covers every
/// requested action.
pub proof fn law_granted_only_by_exact_grant(grants: Seq<GrantView>, bundle: BundleView)
    requires
        decide(grants, bundle) == DecisionView::Granted,
        bundle.manifest.invoke_actions != Set::<Seq<char>>::empty(),
    ensures
        exists|i: int|
            0 <= i < grants.len() && (#[trigger] grants[i]).plugin == bundle.manifest.id
                && grants[i].digest == bundle.digest && bundle.manifest.invoke_actions.subset_of(
                grants[i].actions,
            ),
{
    lemma_lookup_is_a_grant(grants, bundle.manifest.id, bundle.digest);
    let granted = granted_actions(grants, bundle.manifest.id, bundle.digest)->Some_0;
    assert forall|action: Seq<char>| bundle.manifest.invoke_actions.contains(
        action,
    ) implies granted.contains(action) by {
        assert(!bundle.manifest.invoke_actions.difference(granted).contains(action));
    }
}

proof fn lemma_lookup_is_a_grant(grants: Seq<GrantView>, plugin: Seq<char>, digest: Seq<u8>)
    ensures
        granted_actions(grants, plugin, digest) is Some <==> exists|i: int|
            0 <= i < grants.len() && (#[trigger] grants[i]).plugin == plugin && grants[i].digest
                == digest,
        granted_actions(grants, plugin, digest) matches Some(actions) ==> exists|i: int|
            0 <= i < grants.len() && (#[trigger] grants[i]).plugin == plugin && grants[i].digest
                == digest && grants[i].actions == actions,
    decreases grants.len(),
{
    if grants.len() > 0 {
        let head = grants.drop_last();
        lemma_lookup_is_a_grant(head, plugin, digest);
        if let Some(actions) = granted_actions(head, plugin, digest) {
            let i = choose|i: int|
                0 <= i < head.len() && (#[trigger] head[i]).plugin == plugin && head[i].digest
                    == digest && head[i].actions == actions;
            assert(grants[i] == head[i]);
        } else {
            assert forall|i: int| 0 <= i < head.len() implies !((#[trigger] grants[i]).plugin
                == plugin && grants[i].digest == digest) by {
                assert(grants[i] == head[i]);
            }
            assert(grants[grants.len() - 1] == grants.last());
        }
    }
}

/// The order in which grants are saved: by plugin, then by digest.
pub open spec fn grant_before(left: GrantView, right: GrantView) -> bool {
    text_before(left.plugin, right.plugin) || (left.plugin == right.plugin && bytes_before(
        left.digest,
        right.digest,
    ))
}

/// Inserts a grant into a sorted sequence, behind all that it does not come
/// before.
pub open spec fn insert_grant(sorted: Seq<GrantView>, grant: GrantView) -> Seq<GrantView>
    decreases sorted.len(),
{
    if sorted.len() > 0 && grant_before(grant, sorted.last()) {
        insert_grant(sorted.drop_last(), grant).push(sorted.last())
    } else {
        sorted.push(grant)
    }
}

/// The grants in the order in which they are saved.
pub open spec fn sort_grants(grants: Seq<GrantView>) -> Seq<GrantView>
    decreases grants.len(),
{
    if grants.len() == 0 {
        grants
    } else {
        insert_grant(sort_grants(grants.drop_last()), grants.last())
    }
}

pub open spec fn strictly_sorted(grants: Seq<GrantView>) -> bool {
    forall|i: int, j: int|
        0 <= i < j < grants.len() ==> grant_before(#[trigger] grants[i], #[trigger] grants[j])
}

/// A grant and the record that stands for it in the file.
pub open spec fn grant_written(grant: GrantView, raw: RawGrantRecord) -> bool {
    &&& raw.plugin@ == grant.plugin
    &&& raw.digest@ == digest_text(grant.digest)
    &&& scope_texts(raw.invoke_actions@).to_set() == grant.actions
    &&& ascending(scope_texts(raw.invoke_actions@))
}

/// A grant and the record that it was read from.
pub open spec fn grant_read(raw: RawGrantRecord, grant: GrantView) -> bool {
    &&& grant.plugin == raw.plugin@
    &&& grant.digest.len() == 32
    &&& digest_text(grant.digest) == raw.digest@
    &&& grant.actions == scope_texts(raw.invoke_actions@).to_set()
}

/// What is saved of a store.
pub open spec fn store_written(grants: Seq<GrantView>, raw: RawGrantStore) -> bool {
    let sorted = sort_grants(grants);
    &&& raw.version == GRANT_STORE_VERSION
    &&& raw.grants@.len() == sorted.len()
    &&& forall|i: int| 0 <= i < sorted.len() ==> grant_written(#[trigger] sorted[i], raw.grants@[i])
}

/// What is loaded from a file.
pub open spec fn store_read(raw: RawGrantStore, grants: Seq<GrantView>) -> bool {
    &&& grants.len() == raw.grants@.len()
    &&& forall|i: int|
        0 <= i < grants.len() ==> grant_read(#[trigger] raw.grants@[i], grants[i])
}

/// No earlier record is for the same bytes of the same plugin.
pub open spec fn record_is_new(records: Seq<RawGrantRecord>, index: int) -> bool {
    forall|i: int|
        0 <= i < index ==> (#[trigger] records[i]).plugin@ != records[index].plugin@
            || records[i].digest@ != records[index].digest@
}

pub open spec fn scope_is_new(scopes: Seq<Seq<char>>, index: int) -> bool {
    forall|i: int| 0 <= i < index ==> #[trigger] scopes[i] != scopes[index]
}

pub open spec fn scopes_distinct(scopes: Seq<Seq<char>>, count: int) -> bool {
    forall|i: int| 0 <= i < count ==> #[trigger] scope_is_new(scopes, i)
}

pub open spec fn record_accepted(records: Seq<RawGrantRecord>, index: int) -> bool {
    let scopes = scope_texts(records[index].invoke_actions@);
    &&& is_digest_text(records[index].digest@)
    &&& record_is_new(records, index)
    &&& scopes_distinct(scopes, scopes.len() as int)
}

pub open spec fn records_accepted(records: Seq<RawGrantRecord>, count: int) -> bool {
    forall|i: int| 0 <= i < count ==> #[trigger] record_accepted(records, i)
}

/// The file is accepted as a grant store.
pub open spec fn raw_store_accepted(raw: RawGrantStore) -> bool {
    raw.version == GRANT_STORE_VERSION && records_accepted(raw.grants@, raw.grants@.len() as int)
}

/// The file is refused for this reason, and everything before it is in order.
pub open spec fn raw_store_refused(raw: RawGrantStore, error: GrantError) -> bool {
    let records = raw.grants@;
    match error {
        GrantError::UnsupportedVersion(version) => raw.version != GRANT_STORE_VERSION && version
            == raw.version,
        GrantError::InvalidDigest(cause) => {
            &&& raw.version == GRANT_STORE_VERSION
            &&& exists|i: int|
                0 <= i < records.len() && records_accepted(records, i) && !is_digest_text(
                    (#[trigger] records[i]).digest@,
                ) && (cause matches PluginPackageError::InvalidDigest(text) && text@
                    == records[i].digest@)
        },
        GrantError::DuplicateRecord { plugin, digest } => {
            &&& raw.version == GRANT_STORE_VERSION
            &&& exists|i: int|
                0 <= i < records.len() && records_accepted(records, i) && is_digest_text(
                    (#[trigger] records[i]).digest@,
                ) && !record_is_new(records, i) && plugin@ == records[i].plugin@ && digest_text(
                    digest@,
                ) == records[i].digest@
        },
        GrantError::DuplicateActionScope(scope) => {
            &&& raw.version == GRANT_STORE_VERSION
            &&& exists|i: int, k: int|
                0 <= i < records.len() && records_accepted(records, i) && is_digest_text(
                    (#[trigger] records[i]).digest@,
                ) && record_is_new(records, i) && #[trigger] first_repeated_scope(
                    scope_texts(records[i].invoke_actions@),
                    k,
                ) && scope@ == scope_texts(records[i].invoke_actions@)[k]
        },
        _ => false,
    }
}

/// The scope at `index` is the first that was listed before.
pub open spec fn first_repeated_scope(scopes: Seq<Seq<char>>, index: int) -> bool {
    0 <= index < scopes.len() && scopes_distinct(scopes, index) && !scope_is_new(scopes, index)
}

impl GrantRecord {
    spec fn wf(&self) -> bool {
        self.invoke_actions.wf()
    }

    fn duplicate(&self) -> (copy: GrantRecord)
        ensures
            copy@ == self@,
            self.wf() ==> copy.wf(),
    {
        let invoke_actions = self.invoke_actions.clone();
        GrantRecord { plugin: self.plugin.clone(), digest: self.digest, invoke_actions }
    }

    fn before(&self, other: &GrantRecord) -> (before: bool)
        ensures
            before == grant_before(self@, other@),
    {
        proof {
            lemma_text_before_irreflexive(self.plugin@);
        }
        is_text_before(self.plugin.as_str(), other.plugin.as_str()) || (self.plugin.same(
            &other.plugin,
        ) && is_bytes_before(self.digest.as_bytes(), other.digest.as_bytes()))
    }
}

impl Default for GrantStore {
    fn default() -> (store: Self)
        ensures
            store.wf(),
            store@ == Seq::<GrantView>::empty(),
    {
        let store = GrantStore { records: Vec::new() };
        proof {
            assert(store@ =~= Seq::<GrantView>::empty());
        }
        store
    }
}

impl GrantStore {
    /// No plugin has two grants for the same bytes.
    pub closed spec fn wf(&self) -> bool {
        &&& distinct_grants(self@)
        &&& forall|i: int| 0 <= i < self.records@.len() ==> (#[trigger] self.records@[i]).wf()
    }

    /// No plugin has two grants for the same bytes in a store, and every grant is for
    /// a digest of full length.
    pub proof fn law_grants_are_distinct(&self)
        requires
            self.wf(),
        ensures
            distinct_grants(self@),
            forall|i: int| 0 <= i < self@.len() ==> (#[trigger] self@[i]).digest.len() == 32,
    {
        assert forall|i: int| 0 <= i < self@.len() implies (#[trigger] self@[i]).digest.len()
            == 32 by {
            assert(self@[i] == self.records@[i]@);
            self.records@[i].digest.law_digest_has_full_length();
        }
    }

    /// The decision on a bundle: whether it may run, and what it lacks if not.
    pub fn decision(&self, bundle: &PluginBundle) -> (decision: GrantDecision)
        requires
            self.wf(),
            bundle.wf(),
        ensures
            decision@ == decide(self@, bundle@),
            decision matches GrantDecision::ApprovalRequired { missing, .. } ==> missing.wf(),
    {
        let requested = bundle.manifest().invoke_actions();
        if requested.is_empty() {
            return GrantDecision::Granted;
        }
        let id = bundle.manifest().id();
        let digest = bundle.digest();
        let mut known: bool = false;
        let mut index: usize = 0;
        proof {
            assert(self@.take(0) =~= Seq::<GrantView>::empty());
        }
        while index < self.records.len()
            invariant
                index <= self.records@.len(),
                self.wf(),
                requested.wf(),
                requested@ == bundle@.manifest.invoke_actions,
                requested@ != Set::<Seq<char>>::empty(),
                id@ == bundle@.manifest.id,
                digest@ == bundle@.digest,
                granted_actions(self@.take(index as int), id@, digest@) is None,
                known == is_known(self@.take(index as int), id@),
            decreases self.records@.len() - index,
        {
            let record = &self.records[index];
            let ghost seen = self@.take(index as int);
            let ghost next = self@.take(index + 1);
            proof {
                assert(next.drop_last() =~= seen);
                assert(next.last() == record@);
                assert(self@[index as int] == record@);
            }
            let same_plugin = record.plugin.same(id);
            if same_plugin && record.digest.same(&digest) {
                proof {
                    lemma_lookup_prefix(self@, index + 1, id@, digest@);
                }
                let missing = requested.difference(&record.invoke_actions);
                if missing.is_empty() {
                    return GrantDecision::Granted;
                }
                return GrantDecision::ApprovalRequired { missing, content_changed: false };
            }
            proof {
                assert(is_known(next, id@) == (is_known(seen, id@) || same_plugin)) by {
                    if is_known(next, id@) {
                        let i = choose|i: int|
                            0 <= i < next.len() && (#[trigger] next[i]).plugin == id@;
                        if i < index {
                            assert(seen[i] == next[i]);
                        }
                    }
                    if is_known(seen, id@) {
                        let i = choose|i: int|
                            0 <= i < seen.len() && (#[trigger] seen[i]).plugin == id@;
                        assert(next[i] == seen[i]);
                    }
                    if same_plugin {
                        assert(next[index as int].plugin == id@);
                    }
                }
            }
            known = known || same_plugin;
            index += 1;
        }
        proof {
            assert(self@.take(self@.len() as int) =~= self@);
        }
        GrantDecision::ApprovalRequired { missing: requested.clone(), content_changed: known }
    }

    /// Withdraws every grant of a plugin.
    pub fn revoke(&mut self, plugin: &PluginId)
        requires
            old(self).wf(),
        ensures
            final(self).wf(),
            final(self)@ == without_plugin(old(self)@, plugin@),
    {
        let ghost grants = self@;
        let ghost original = self.records@;
        let ghost mut done: int = 0;
        let mut index: usize = 0;
        proof {
            reveal(Seq::filter);
            assert(grants.take(0) =~= Seq::<GrantView>::empty());
            assert(without_plugin(grants.take(0), plugin@) =~= Seq::<GrantView>::empty());
            assert(self@.take(0) =~= Seq::<GrantView>::empty());
            assert(original.skip(0) =~= original);
        }
        while index < self.records.len()
            invariant
                index <= self.records@.len(),
                0 <= done <= original.len(),
                grants == original.map_values(|record: GrantRecord| record@),
                self.records@.len() - index == original.len() - done,
                self.records@.skip(index as int) =~= original.skip(done),
                self@.take(index as int) == without_plugin(grants.take(done), plugin@),
                forall|i: int|
                    0 <= i < self.records@.len() ==> (#[trigger] self.records@[i]).wf(),
            decreases self.records@.len() - index,
        {
            let ghost before = self.records@;
            proof {
                reveal(Seq::filter);
                assert(before.skip(index as int)[0] == original.skip(done)[0]);
                assert(before[index as int] == original[done]);
                assert(grants.take(done + 1).drop_last() =~= grants.take(done));
                assert(grants.take(done + 1).last() == original[done]@);
            }
            if self.records[index].plugin.same(plugin) {
                self.records.remove(index);
                proof {
                    assert(self.records@.skip(index as int) =~= original.skip(done + 1)) by {
                        assert forall|i: int|
                            0 <= i < self.records@.skip(index as int).len() implies self.records@.skip(
                            index as int,
                        )[i] == original.skip(done + 1)[i] by {
                            assert(before.skip(index as int)[i + 1] == original.skip(done)[i + 1]);
                        }
                    }
                    assert(self@.take(index as int) =~= before.map_values(
                        |record: GrantRecord| record@,
                    ).take(index as int));
                    assert(without_plugin(grants.take(done + 1), plugin@) =~= without_plugin(
                        grants.take(done),
                        plugin@,
                    ));
                }
            } else {
                index += 1;
                proof {
                    assert(self.records@.skip(index as int) =~= original.skip(done + 1)) by {
                        assert forall|i: int|
                            0 <= i < self.records@.skip(index as int).len() implies self.records@.skip(
                            index as int,
                        )[i] == original.skip(done + 1)[i] by {
                            assert(before.skip(index - 1)[i + 1] == original.skip(done)[i + 1]);
                        }
                    }
                    assert(self@.take(index as int) =~= self@.take(index - 1).push(
                        original[done]@,
                    ));
                }
            }
            proof {
                done = done + 1;
            }
        }
        proof {
            assert(self@.take(self@.len() as int) =~= self@);
            assert(grants.take(grants.len() as int) =~= grants);
            lemma_filter_members(grants, plugin@);
        }
    }

    /// Replace all earlier grants for this plugin with scopes for this exact
    /// verified bundle. A subset supports least-privilege approval; the first scope
    /// that the bundle does not request is refused.
    pub fn approve(&mut self, bundle: &PluginBundle, invoke_actions: ScopeSet) -> (result: Result<
        (),
        GrantError,
    >)
        requires
            old(self).wf(),
            bundle.wf(),
            invoke_actions.wf(),
        ensures
            final(self).wf(),
            match result {
                Ok(()) => {
                    &&& invoke_actions@.subset_of(bundle@.manifest.invoke_actions)
                    &&& final(self)@ == with_approval(old(self)@, bundle@, invoke_actions@)
                },
                Err(error) => {
                    &&& final(self)@ == old(self)@
                    &&& error matches GrantError::ActionNotRequested(scope) && {
                        &&& invoke_actions@.contains(scope@)
                        &&& !bundle@.manifest.invoke_actions.contains(scope@)
                        &&& forall|other: Seq<char>|
                            invoke_actions@.contains(other)
                                && !bundle@.manifest.invoke_actions.contains(other) && other
                                != scope@ ==> #[trigger] text_before(scope@, other)
                    }
                },
            },
    {
        let extra = invoke_actions.difference(bundle.manifest().invoke_actions());
        if extra.len() > 0 {
            let scope = extra.items()[0].clone();
            proof {
                assert(extra.listed()[0] == scope@);
                assert(extra@.contains(scope@));
                assert forall|other: Seq<char>|
                    invoke_actions@.contains(other)
                        && !bundle@.manifest.invoke_actions.contains(other) && other
                        != scope@ implies #[trigger] text_before(scope@, other) by {
                    assert(extra@.contains(other));
                    let i = choose|i: int| 0 <= i < extra.listed().len() && extra.listed()[i] == other;
                    assert(text_before(extra.listed()[0], extra.listed()[i]));
                }
            }
            return Err(GrantError::ActionNotRequested(scope));
        }
        proof {
            assert(extra@ =~= Set::<Seq<char>>::empty());
            assert forall|action: Seq<char>| invoke_actions@.contains(
                action,
            ) implies bundle@.manifest.invoke_actions.contains(action) by {
                assert(!extra@.contains(action));
            }
        }
        self.revoke(bundle.manifest().id());
        let ghost kept = self@;
        let record = GrantRecord {
            plugin: bundle.manifest().id().clone(),
            digest: bundle.digest(),
            invoke_actions,
        };
        proof {
            lemma_filter_members(old(self)@, bundle@.manifest.id);
        }
        self.records.push(record);
        proof {
            assert(self@ =~= kept.push(record@));
        }
        Ok(())
    }
}

/// The scopes of one record as a set, or the first that is listed twice.
fn read_scopes(scopes: &Vec<ActionScope>) -> (result: Result<ScopeSet, ActionScope>)
    ensures
        match result {
            Ok(set) => {
                &&& set.wf()
                &&& set@ == scope_texts(scopes@).to_set()
                &&& scopes_distinct(scope_texts(scopes@), scopes@.len() as int)
            },
            Err(scope) => exists|k: int| #[trigger]
                first_repeated_scope(scope_texts(scopes@), k) && scope@ == scope_texts(scopes@)[k],
        },
{
    let ghost texts = scope_texts(scopes@);
    let mut set = ScopeSet::new();
    let mut index: usize = 0;
    proof {
        assert(texts.take(0).to_set() =~= Set::<Seq<char>>::empty());
    }
    while index < scopes.len()
        invariant
            index <= scopes@.len(),
            texts == scope_texts(scopes@),
            set.wf(),
            set@ == texts.take(index as int).to_set(),
            scopes_distinct(texts, index as int),
        decreases scopes@.len() - index,
    {
        let ghost seen = texts.take(index as int);
        let ghost current = texts[index as int];
        proof {
            assert(texts.take(index + 1) =~= seen.push(current));
            lemma_push_to_set(seen, current);
            assert(seen.to_set().contains(current) <==> !scope_is_new(texts, index as int)) by {
                if seen.to_set().contains(current) {
                    let i = choose|i: int| 0 <= i < seen.len() && seen[i] == current;
                    assert(texts[i] == current);
                }
                if !scope_is_new(texts, index as int) {
                    let i = choose|i: int| 0 <= i < index && #[trigger] texts[i] == current;
                    assert(seen[i] == current);
                }
            }
        }
        if !set.insert(scopes[index].clone()) {
            proof {
                assert(first_repeated_scope(texts, index as int));
            }
            return Err(scopes[index].clone());
        }
        index += 1;
    }
    proof {
        assert(texts.take(texts.len() as int) =~= texts);
    }
    Ok(set)
}

impl GrantStore {
    /// Loads a grant store, or gives the first reason to refuse the file.
    pub fn from_raw(raw: &RawGrantStore) -> (result: Result<GrantStore, GrantError>)
        ensures
            match result {
                Ok(store) => {
                    &&& raw_store_accepted(*raw)
                    &&& store.wf()
                    &&& store_read(*raw, store@)
                },
                Err(error) => !raw_store_accepted(*raw) && raw_store_refused(*raw, error),
            },
    {
        if raw.version != GRANT_STORE_VERSION {
            return Err(GrantError::UnsupportedVersion(raw.version));
        }
        let mut store = GrantStore { records: Vec::new() };
        let mut index: usize = 0;
        while index < raw.grants.len()
            invariant
                raw.version == GRANT_STORE_VERSION,
                index <= raw.grants@.len(),
                store@.len() == index,
                store.records@.len() == index,
                records_accepted(raw.grants@, index as int),
                store.wf(),
                forall|i: int|
                    0 <= i < index ==> grant_read(#[trigger] raw.grants@[i], store@[i]),
            decreases raw.grants@.len() - index,
        {
            let record = &raw.grants[index];
            let digest = match BundleDigest::from_text(record.digest.as_str()) {
                Ok(digest) => digest,
                Err(error) => {
                    proof {
                        assert(!is_digest_text(raw.grants@[index as int].digest@));
                        assert(!record_accepted(raw.grants@, index as int));
                    }
                    return Err(GrantError::InvalidDigest(error));
                },
            };
            let mut earlier: usize = 0;
            while earlier < store.records.len()
                invariant
                    index < raw.grants@.len(),
                    raw.version == GRANT_STORE_VERSION,
                    earlier <= store.records@.len(),
                    store.records@.len() == index,
                    store@.len() == index,
                    store.wf(),
                    record == raw.grants@[index as int],
                    is_digest_text(record.digest@),
                    digest_text(digest@) == record.digest@,
                    records_accepted(raw.grants@, index as int),
                    forall|i: int|
                        0 <= i < index ==> grant_read(#[trigger] raw.grants@[i], store@[i]),
                    forall|i: int|
                        0 <= i < earlier ==> (#[trigger] raw.grants@[i]).plugin@ != record.plugin@
                            || raw.grants@[i].digest@ != record.digest@,
                decreases store.records@.len() - earlier,
            {
                let existing = &store.records[earlier];
                proof {
                    assert(store@[earlier as int] == existing@);
                    assert(grant_read(raw.grants@[earlier as int], store@[earlier as int]));
                    law_digest_text_round_trip(existing@.digest, digest@);
                }
                if existing.plugin.same(&record.plugin) && existing.digest.same(&digest) {
                    proof {
                        assert(!record_is_new(raw.grants@, index as int));
                        assert(!record_accepted(raw.grants@, index as int));
                        assert(is_digest_text(raw.grants@[index as int].digest@));
                    }
                    return Err(
                        GrantError::DuplicateRecord { plugin: record.plugin.clone(), digest },
                    );
                }
                earlier += 1;
            }
            proof {
                assert(record_is_new(raw.grants@, index as int));
            }
            let invoke_actions = match read_scopes(&record.invoke_actions) {
                Ok(scopes) => scopes,
                Err(scope) => {
                    proof {
                        let texts = scope_texts(record.invoke_actions@);
                        let k = choose|k: int| #[trigger]
                            first_repeated_scope(texts, k) && scope@ == texts[k];
                        assert(first_repeated_scope(
                            scope_texts(raw.grants@[index as int].invoke_actions@),
                            k,
                        ));
                        assert(is_digest_text(raw.grants@[index as int].digest@));
                        assert(!scope_is_new(texts, k));
                        assert(!record_accepted(raw.grants@, index as int));
                    }
                    return Err(GrantError::DuplicateActionScope(scope));
                },
            };
            let ghost before = store@;
            let added = GrantRecord { plugin: record.plugin.clone(), digest, invoke_actions };
            store.records.push(added);
            proof {
                assert(store@ =~= before.push(added@));
                assert(record_accepted(raw.grants@, index as int));
                assert forall|i: int, j: int| 0 <= i < j < store@.len() implies (
                #[trigger] store@[i]).plugin != (#[trigger] store@[j]).plugin || store@[i].digest
                    != store@[j].digest by {
                    if j == index {
                        assert(grant_read(raw.grants@[i], before[i]));
                        assert(raw.grants@[i].plugin@ != record.plugin@ || raw.grants@[i].digest@
                            != record.digest@);
                    }
                }
                assert forall|i: int| 0 <= i < index + 1 implies grant_read(
                    #[trigger] raw.grants@[i],
                    store@[i],
                ) by {
                    if i < index {
                        assert(store@[i] == before[i]);
                    } else {
                        assert(store@[i] == added@);
                    }
                }
            }
            index += 1;
        }
        Ok(store)
    }

    /// What to write to the file: the grants in order, each with its scopes in
    /// order.
    pub fn to_raw(&self) -> (raw: RawGrantStore)
        requires
            self.wf(),
        ensures
            store_written(self@, raw),
    {
        let mut sorted: Vec<GrantRecord> = Vec::new();
        let mut index: usize = 0;
        proof {
            assert(record_views(sorted@) =~= sort_grants(self@.take(0)));
        }
        while index < self.records.len()
            invariant
                self.wf(),
                index <= self.records@.len(),
                record_views(sorted@) == sort_grants(self@.take(index as int)),
                forall|i: int| 0 <= i < sorted@.len() ==> (#[trigger] sorted@[i]).wf(),
            decreases self.records@.len() - index,
        {
            let record = self.records[index].duplicate();
            let ghost before = record_views(sorted@);
            proof {
                assert(self@.take(index + 1).drop_last() =~= self@.take(index as int));
                assert(self@.take(index + 1).last() == record@);
            }
            let mut place: usize = sorted.len();
            proof {
                assert(before.take(before.len() as int) =~= before);
                assert(before.skip(before.len() as int) =~= Seq::<GrantView>::empty());
                assert(insert_grant(before, record@) =~= insert_grant(
                    before.take(before.len() as int),
                    record@,
                ) + before.skip(before.len() as int));
            }
            while place > 0 && record.before(&sorted[place - 1])
                invariant
                    place <= sorted@.len(),
                    before == record_views(sorted@),
                    insert_grant(before, record@) == insert_grant(
                        before.take(place as int),
                        record@,
                    ) + before.skip(place as int),
                decreases place,
            {
                proof {
                    let shorter = before.take(place as int).drop_last();
                    assert(shorter =~= before.take(place - 1));
                    assert(before.take(place as int).last() == sorted@[place - 1]@);
                    assert(insert_grant(shorter, record@).push(before[place - 1]) + before.skip(
                        place as int,
                    ) =~= insert_grant(shorter, record@) + before.skip(place - 1));
                }
                place -= 1;
            }
            sorted.insert(place, record);
            proof {
                if place > 0 {
                    assert(before.take(place as int).last() == before[place - 1]);
                }
                assert(insert_grant(before.take(place as int), record@) == before.take(
                    place as int,
                ).push(record@));
                assert(record_views(sorted@) =~= before.take(place as int).push(record@)
                    + before.skip(place as int));
            }
            index += 1;
        }
        proof {
            assert(self@.take(self@.len() as int) =~= self@);
        }
        let mut grants: Vec<RawGrantRecord> = Vec::new();
        let mut next: usize = 0;
        while next < sorted.len()
            invariant
                next <= sorted@.len(),
                grants@.len() == next,
                forall|i: int| 0 <= i < sorted@.len() ==> (#[trigger] sorted@[i]).wf(),
                forall|i: int|
                    0 <= i < next ==> grant_written(#[trigger] record_views(sorted@)[i], grants@[i]),
            decreases sorted@.len() - next,
        {
            let record = &sorted[next];
            let invoke_actions = record.invoke_actions.items().clone();
            proof {
                assert(scope_texts(invoke_actions@) =~= record.invoke_actions.listed());
                assert(record_views(sorted@)[next as int] == record@);
                assert(record.wf());
            }
            grants.push(
                RawGrantRecord {
                    plugin: record.plugin.clone(),
                    digest: record.digest.to_string(),
                    invoke_actions,
                },
            );
            next += 1;
        }
        RawGrantStore { version: GRANT_STORE_VERSION, grants }
    }
}

spec fn record_views(records: Seq<GrantRecord>) -> Seq<GrantView> {
    records.map_values(|record: GrantRecord| record@)
}

proof fn lemma_grant_order_transitive(a: GrantView, b: GrantView, c: GrantView)
    requires
        grant_before(a, b),
        grant_before(b, c),
    ensures
        grant_before(a, c),
{
    if text_before(a.plugin, b.plugin) {
        if text_before(b.plugin, c.plugin) {
            lemma_text_before_transitive(a.plugin, b.plugin, c.plugin);
        }
    } else if text_before(b.plugin, c.plugin) {
    } else {
        lemma_bytes_before_transitive(a.digest, b.digest, c.digest);
    }
}

proof fn lemma_grant_order_total(a: GrantView, b: GrantView)
    ensures
        (a.plugin == b.plugin && a.digest == b.digest) || grant_before(a, b) || grant_before(b, a),
        grant_before(a, b) ==> !(a.plugin == b.plugin && a.digest == b.digest),
        !(grant_before(a, b) && grant_before(b, a)),
{
    lemma_text_before_total(a.plugin, b.plugin);
    lemma_bytes_before_total(a.digest, b.digest);
    lemma_text_before_irreflexive(a.plugin);
    lemma_bytes_before_irreflexive(a.digest);
    if grant_before(a, b) && grant_before(b, a) {
        lemma_grant_order_transitive(a, b, a);
    }
}

proof fn lemma_insert_grant(sorted: Seq<GrantView>, grant: GrantView)
    requires
        strictly_sorted(sorted),
        forall|i: int|
            0 <= i < sorted.len() ==> (#[trigger] sorted[i]).plugin != grant.plugin
                || sorted[i].digest != grant.digest,
    ensures
        strictly_sorted(insert_grant(sorted, grant)),
        insert_grant(sorted, grant).len() == sorted.len() + 1,
        insert_grant(sorted, grant).to_set() == sorted.to_set().insert(grant),
    decreases sorted.len(),
{
    let result = insert_grant(sorted, grant);
    if sorted.len() > 0 && grant_before(grant, sorted.last()) {
        let head = sorted.drop_last();
        assert forall|i: int, j: int| 0 <= i < j < head.len() implies grant_before(
            #[trigger] head[i],
            #[trigger] head[j],
        ) by {
            assert(head[i] == sorted[i] && head[j] == sorted[j]);
        }
        assert forall|i: int| 0 <= i < head.len() implies (#[trigger] head[i]).plugin
            != grant.plugin || head[i].digest != grant.digest by {
            assert(head[i] == sorted[i]);
        }
        lemma_insert_grant(head, grant);
        let shorter = insert_grant(head, grant);
        assert forall|i: int, j: int| 0 <= i < j < result.len() implies grant_before(
            #[trigger] result[i],
            #[trigger] result[j],
        ) by {
            assert(result[i] == shorter[i]);
            if j < shorter.len() {
                assert(result[j] == shorter[j]);
            } else {
                assert(shorter.to_set().contains(shorter[i]));
                if shorter[i] != grant {
                    assert(head.to_set().contains(shorter[i]));
                    let k = choose|k: int| 0 <= k < head.len() && head[k] == shorter[i];
                    assert(sorted[k] == shorter[i]);
                    assert(grant_before(sorted[k], sorted[sorted.len() - 1]));
                }
            }
        }
        lemma_push_to_set(shorter, sorted.last());
        lemma_push_to_set(head, sorted.last());
        assert(sorted =~= head.push(sorted.last()));
        assert(result.to_set() =~= sorted.to_set().insert(grant));
    } else {
        assert forall|i: int, j: int| 0 <= i < j < result.len() implies grant_before(
            #[trigger] result[i],
            #[trigger] result[j],
        ) by {
            if j == sorted.len() {
                let last = sorted[sorted.len() - 1];
                lemma_grant_order_total(grant, last);
                assert(grant_before(last, grant));
                if i < sorted.len() - 1 {
                    assert(grant_before(sorted[i], last));
                    lemma_grant_order_transitive(sorted[i], last, grant);
                }
            }
        }
        lemma_push_to_set(sorted, grant);
    }
}

/// Sorting keeps the grants and puts them in strictly ascending order.
proof fn lemma_sort_grants(grants: Seq<GrantView>)
    requires
        distinct_grants(grants),
    ensures
        strictly_sorted(sort_grants(grants)),
        sort_grants(grants).len() == grants.len(),
        sort_grants(grants).to_set() == grants.to_set(),
    decreases grants.len(),
{
    if grants.len() > 0 {
        let head = grants.drop_last();
        let last = grants.last();
        assert forall|i: int, j: int| 0 <= i < j < head.len() implies (#[trigger] head[i]).plugin
            != (#[trigger] head[j]).plugin || head[i].digest != head[j].digest by {
            assert(head[i] == grants[i] && head[j] == grants[j]);
        }
        lemma_sort_grants(head);
        let sorted = sort_grants(head);
        assert forall|i: int| 0 <= i < sorted.len() implies (#[trigger] sorted[i]).plugin
            != last.plugin || sorted[i].digest != last.digest by {
            assert(sorted.to_set().contains(sorted[i]));
            assert(head.to_set().contains(sorted[i]));
            let k = choose|k: int| 0 <= k < head.len() && head[k] == sorted[i];
            assert(grants[k] == sorted[i] && grants[grants.len() - 1] == last);
        }
        lemma_insert_grant(sorted, last);
        lemma_push_to_set(head, last);
        assert(grants =~= head.push(last));
    }
}

/// Stores with the same grants decide alike, in whatever order they hold them.
pub proof fn law_decision_ignores_order(
    left: Seq<GrantView>,
    right: Seq<GrantView>,
    bundle: BundleView,
)
    requires
        distinct_grants(left),
        distinct_grants(right),
        left.to_set() == right.to_set(),
    ensures
        decide(left, bundle) == decide(right, bundle),
{
    let plugin = bundle.manifest.id;
    let digest = bundle.digest;
    lemma_lookup_is_a_grant(left, plugin, digest);
    lemma_lookup_is_a_grant(right, plugin, digest);
    lemma_same_grants_known(left, right, plugin);
    lemma_same_grants_known(right, left, plugin);
    if exists|i: int|
        0 <= i < left.len() && (#[trigger] left[i]).plugin == plugin && left[i].digest == digest {
        let i = choose|i: int|
            0 <= i < left.len() && (#[trigger] left[i]).plugin == plugin && left[i].digest
                == digest && left[i].actions == granted_actions(left, plugin, digest)->Some_0;
        assert(right.to_set().contains(left[i])) by {
            assert(left.to_set().contains(left[i]));
        }
        let j = choose|j: int| 0 <= j < right.len() && right[j] == left[i];
        assert(right[j].plugin == plugin && right[j].digest == digest);
        let k = choose|k: int|
            0 <= k < right.len() && (#[trigger] right[k]).plugin == plugin && right[k].digest
                == digest && right[k].actions == granted_actions(right, plugin, digest)->Some_0;
        assert(j == k) by {
            if j < k {
                assert(right[j].plugin != right[k].plugin || right[j].digest != right[k].digest);
            }
            if k < j {
                assert(right[k].plugin != right[j].plugin || right[k].digest != right[j].digest);
            }
        }
    } else {
        assert forall|j: int| 0 <= j < right.len() implies !((#[trigger] right[j]).plugin == plugin
            && right[j].digest == digest) by {
            assert(right.to_set().contains(right[j]));
            let i = choose|i: int| 0 <= i < left.len() && left[i] == right[j];
            assert(left[i] == right[j]);
        }
    }
}

proof fn lemma_same_grants_known(left: Seq<GrantView>, right: Seq<GrantView>, plugin: Seq<char>)
    requires
        left.to_set() == right.to_set(),
    ensures
        is_known(left, plugin) ==> is_known(right, plugin),
{
    if is_known(left, plugin) {
        let i = choose|i: int| 0 <= i < left.len() && (#[trigger] left[i]).plugin == plugin;
        assert(left.to_set().contains(left[i]));
        let j = choose|j: int| 0 <= j < right.len() && right[j] == left[i];
        assert(right[j].plugin == plugin);
    }
}

proof fn lemma_sorted_digests(grants: Seq<GrantView>)
    requires
        distinct_grants(grants),
        forall|i: int| 0 <= i < grants.len() ==> (#[trigger] grants[i]).digest.len() == 32,
    ensures
        forall|i: int|
            0 <= i < sort_grants(grants).len() ==> (#[trigger] sort_grants(grants)[i]).digest.len()
                == 32,
{
    let sorted = sort_grants(grants);
    lemma_sort_grants(grants);
    assert forall|i: int| 0 <= i < sorted.len() implies (#[trigger] sorted[i]).digest.len()
        == 32 by {
        assert(sorted.to_set().contains(sorted[i]));
        let k = choose|k: int| 0 <= k < grants.len() && grants[k] == sorted[i];
        assert(grants[k].digest.len() == 32);
    }
}

/// What is saved of a store is accepted when it is loaded.
pub proof fn law_saved_store_is_accepted(grants: Seq<GrantView>, raw: RawGrantStore)
    requires
        distinct_grants(grants),
        forall|i: int| 0 <= i < grants.len() ==> (#[trigger] grants[i]).digest.len() == 32,
        store_written(grants, raw),
    ensures
        raw_store_accepted(raw),
{
    let sorted = sort_grants(grants);
    lemma_sort_grants(grants);
    lemma_sorted_digests(grants);
    lemma_sorted_is_distinct(sorted);
    assert forall|i: int| 0 <= i < raw.grants@.len() implies #[trigger] record_accepted(
        raw.grants@,
        i,
    ) by {
        assert(grant_written(sorted[i], raw.grants@[i]));
        law_digest_text_round_trip(sorted[i].digest, sorted[i].digest);
        let scopes = scope_texts(raw.grants@[i].invoke_actions@);
        assert forall|k: int| 0 <= k < scopes.len() implies #[trigger] scope_is_new(scopes, k) by {
            assert forall|l: int| 0 <= l < k implies #[trigger] scopes[l] != scopes[k] by {
                assert(text_before(scopes[l], scopes[k]));
                lemma_text_before_irreflexive(scopes[k]);
            }
        }
        assert forall|j: int| 0 <= j < i implies (#[trigger] raw.grants@[j]).plugin@
            != raw.grants@[i].plugin@ || raw.grants@[j].digest@ != raw.grants@[i].digest@ by {
            assert(grant_written(sorted[j], raw.grants@[j]));
            assert(sorted[j].plugin != sorted[i].plugin || sorted[j].digest != sorted[i].digest);
            law_digest_text_round_trip(sorted[j].digest, sorted[i].digest);
        }
    }
}

/// Saving and loading a grant store round-trips: the file is accepted, what is
/// loaded holds the same grants and makes the same decisions, and saving it again
/// writes the same records in the same order.
pub proof fn law_store_round_trip(
    grants: Seq<GrantView>,
    raw: RawGrantStore,
    loaded: Seq<GrantView>,
    again: RawGrantStore,
    bundle: BundleView,
)
    requires
        distinct_grants(grants),
        forall|i: int| 0 <= i < grants.len() ==> (#[trigger] grants[i]).digest.len() == 32,
        store_written(grants, raw),
        store_read(raw, loaded),
        store_written(loaded, again),
    ensures
        raw_store_accepted(raw),
        loaded == sort_grants(grants),
        loaded.to_set() == grants.to_set(),
        decide(loaded, bundle) == decide(grants, bundle),
        written_alike(raw, again),
{
    let sorted = sort_grants(grants);
    lemma_sort_grants(grants);
    lemma_sorted_digests(grants);
    law_saved_store_is_accepted(grants, raw);
    assert forall|i: int| 0 <= i < sorted.len() implies #[trigger] loaded[i] == sorted[i] by {
        assert(grant_written(sorted[i], raw.grants@[i]));
        assert(grant_read(raw.grants@[i], loaded[i]));
        law_digest_text_round_trip(sorted[i].digest, loaded[i].digest);
    }
    assert(loaded =~= sorted);
    lemma_sorted_is_distinct(sorted);
    law_decision_ignores_order(loaded, grants, bundle);
    law_same_grants_are_written_alike(grants, loaded, raw, again);
}

/// Two saved stores hold the same records in the same order, each with the same
/// scopes in the same order.
pub open spec fn written_alike(left: RawGrantStore, right: RawGrantStore) -> bool {
    &&& left.version == right.version
    &&& left.grants@.len() == right.grants@.len()
    &&& forall|i: int|
        0 <= i < left.grants@.len() ==> (#[trigger] left.grants@[i]).plugin@
            == right.grants@[i].plugin@ && left.grants@[i].digest@ == right.grants@[i].digest@
            && scope_texts(left.grants@[i].invoke_actions@) == scope_texts(
            right.grants@[i].invoke_actions@,
        )
}

/// Stores with the same grants are saved alike, in whatever order they hold them.
pub proof fn law_same_grants_are_written_alike(
    left: Seq<GrantView>,
    right: Seq<GrantView>,
    left_raw: RawGrantStore,
    right_raw: RawGrantStore,
)
    requires
        distinct_grants(left),
        distinct_grants(right),
        left.to_set() == right.to_set(),
        store_written(left, left_raw),
        store_written(right, right_raw),
    ensures
        written_alike(left_raw, right_raw),
{
    let sorted = sort_grants(left);
    lemma_sort_grants(left);
    lemma_sort_grants(right);
    lemma_order_is_determined(sorted, sort_grants(right));
    assert forall|i: int| 0 <= i < left_raw.grants@.len() implies (
    #[trigger] left_raw.grants@[i]).plugin@ == right_raw.grants@[i].plugin@
        && left_raw.grants@[i].digest@ == right_raw.grants@[i].digest@ && scope_texts(
        left_raw.grants@[i].invoke_actions@,
    ) == scope_texts(right_raw.grants@[i].invoke_actions@) by {
        assert(grant_written(sorted[i], left_raw.grants@[i]));
        assert(grant_written(sorted[i], right_raw.grants@[i]));
        lemma_listing_is_determined(
            scope_texts(left_raw.grants@[i].invoke_actions@),
            scope_texts(right_raw.grants@[i].invoke_actions@),
        );
    }
}

/// Each grant of a store is saved once, in strictly ascending order of plugin and
/// digest, with its scopes in strictly ascending order.
pub proof fn law_grants_are_saved_in_order(grants: Seq<GrantView>, raw: RawGrantStore)
    requires
        distinct_grants(grants),
        store_written(grants, raw),
    ensures
        raw.grants@.len() == grants.len(),
        sort_grants(grants).to_set() == grants.to_set(),
        strictly_sorted(sort_grants(grants)),
        forall|i: int|
            0 <= i < raw.grants@.len() ==> grant_written(
                sort_grants(grants)[i],
                #[trigger] raw.grants@[i],
            ) && ascending(scope_texts(raw.grants@[i].invoke_actions@)),
{
    lemma_sort_grants(grants);
    assert forall|i: int| 0 <= i < raw.grants@.len() implies grant_written(
        sort_grants(grants)[i],
        #[trigger] raw.grants@[i],
    ) && ascending(scope_texts(raw.grants@[i].invoke_actions@)) by {
        assert(grant_written(sort_grants(grants)[i], raw.grants@[i]));
    }
}

/// Grants have only one strictly ascending order.
proof fn lemma_order_is_determined(left: Seq<GrantView>, right: Seq<GrantView>)
    requires
        strictly_sorted(left),
        strictly_sorted(right),
        left.to_set() == right.to_set(),
    ensures
        left == right,
    decreases left.len(),
{
    if left.len() == 0 {
        if right.len() > 0 {
            assert(right.to_set().contains(right[0]));
        }
        assert(left =~= right);
    } else {
        assert(left.to_set().contains(left[0]));
        assert(right.len() > 0);
        assert(right.to_set().contains(right[0]));
        let i = choose|i: int| 0 <= i < right.len() && right[i] == left[0];
        let j = choose|j: int| 0 <= j < left.len() && left[j] == right[0];
        if i > 0 {
            assert(grant_before(right[0], right[i]));
            if j > 0 {
                assert(grant_before(left[0], left[j]));
            }
            lemma_grant_order_total(left[0], right[0]);
        }
        assert(left[0] == right[0]);
        lemma_rest_is_contained(left, right);
        lemma_rest_is_contained(right, left);
        let left_rest = left.drop_first();
        let right_rest = right.drop_first();
        assert(left_rest.to_set() =~= right_rest.to_set());
        assert(strictly_sorted(left_rest)) by {
            assert forall|k: int, l: int| 0 <= k < l < left_rest.len() implies grant_before(
                #[trigger] left_rest[k],
                #[trigger] left_rest[l],
            ) by {
                assert(grant_before(left[k + 1], left[l + 1]));
            }
        }
        assert(strictly_sorted(right_rest)) by {
            assert forall|k: int, l: int| 0 <= k < l < right_rest.len() implies grant_before(
                #[trigger] right_rest[k],
                #[trigger] right_rest[l],
            ) by {
                assert(grant_before(right[k + 1], right[l + 1]));
            }
        }
        lemma_order_is_determined(left_rest, right_rest);
        assert(left =~= seq![left[0]] + left_rest);
        assert(right =~= seq![right[0]] + right_rest);
    }
}

proof fn lemma_rest_is_contained(left: Seq<GrantView>, right: Seq<GrantView>)
    requires
        strictly_sorted(left),
        left.to_set() == right.to_set(),
        left.len() > 0,
        right.len() > 0,
        left[0] == right[0],
    ensures
        forall|member: GrantView|
            left.drop_first().to_set().contains(member) ==> right.drop_first().to_set().contains(
                member,
            ),
{
    assert forall|member: GrantView| left.drop_first().to_set().contains(
        member,
    ) implies right.drop_first().to_set().contains(member) by {
        let k = choose|k: int|
            0 <= k < left.drop_first().len() && left.drop_first()[k] == member;
        assert(left[k + 1] == member);
        assert(grant_before(left[0], left[k + 1]));
        lemma_grant_order_total(left[0], member);
        assert(left.to_set().contains(member));
        let l = choose|l: int| 0 <= l < right.len() && right[l] == member;
        assert(right.drop_first()[l - 1] == member);
    }
}

proof fn lemma_sorted_is_distinct(grants: Seq<GrantView>)
    requires
        strictly_sorted(grants),
    ensures
        distinct_grants(grants),
{
    assert forall|i: int, j: int| 0 <= i < j < grants.len() implies (#[trigger] grants[i]).plugin
        != (#[trigger] grants[j]).plugin || grants[i].digest != grants[j].digest by {
        assert(grant_before(grants[i], grants[j]));
        lemma_grant_order_total(grants[i], grants[j]);
    }
}

proof fn lemma_lookup_prefix(
    grants: Seq<GrantView>,
    count: int,
    plugin: Seq<char>,
    digest: Seq<u8>,
)
    requires
        0 <= count <= grants.len(),
        granted_actions(grants.take(count), plugin, digest) is Some,
    ensures
        granted_actions(grants, plugin, digest) == granted_actions(
            grants.take(count),
            plugin,
            digest,
        ),
    decreases grants.len() - count,
{
    if count < grants.len() {
        assert(grants.take(count + 1).drop_last() =~= grants.take(count));
        lemma_lookup_prefix(grants, count + 1, plugin, digest);
    } else {
        assert(grants.take(count) =~= grants);
    }
}

/// Grants are saved by their plugins, in the order of the plugins' texts, and those of one
/// plugin by the bytes of their digests.
pub proof fn law_plugins_come_before_digests(left: GrantView, right: GrantView)
    ensures
        left.plugin != right.plugin ==> (grant_before(left, right) <==> text_before(
            left.plugin,
            right.plugin,
        )),
        left.plugin == right.plugin ==> (grant_before(left, right) <==> bytes_before(
            left.digest,
            right.digest,
        )),
        !(grant_before(left, right) && grant_before(right, left)),
        left.plugin == right.plugin && left.digest == right.digest || grant_before(left, right)
            || grant_before(right, left),
{
    lemma_text_before_irreflexive(left.plugin);
    lemma_text_before_total(left.plugin, right.plugin);
    lemma_bytes_before_total(left.digest, right.digest);
    lemma_bytes_before_irreflexive(left.digest);
    if text_before(left.plugin, right.plugin) && text_before(right.plugin, left.plugin) {
        lemma_text_before_transitive(left.plugin, right.plugin, left.plugin);
    }
    if bytes_before(left.digest, right.digest) && bytes_before(right.digest, left.digest) {
        lemma_bytes_before_transitive(left.digest, right.digest, left.digest);
    }
}

/// A package that asks for nothing needs no grant. What one that is not known lacks is
/// everything that it asks for, and its content counts as changed exactly if the plugin
/// has a grant for other bytes.
pub proof fn law_decisions_tell_what_is_missing(
    grants: Seq<GrantView>,
    bundle: BundleView,
    scope: Seq<char>,
)
    ensures
        bundle.manifest.invoke_actions == Set::<Seq<char>>::empty() ==> decide(grants, bundle)
            == DecisionView::Granted,
        decide(grants, bundle) matches DecisionView::ApprovalRequired { missing, content_changed }
            ==> {
            let granted = granted_actions(grants, bundle.manifest.id, bundle.digest);
            &&& missing.contains(scope) ==> bundle.manifest.invoke_actions.contains(scope)
            &&& granted is None ==> missing == bundle.manifest.invoke_actions
            &&& granted matches Some(actions) ==> (missing.contains(scope)
                <==> bundle.manifest.invoke_actions.contains(scope) && !actions.contains(scope))
            &&& content_changed <==> granted is None && is_known(grants, bundle.manifest.id)
        },
{
}

/// What is saved of a grant is its plugin, the text of its digest and its scopes, in a
/// store of the first version; and what is read back is the same.
pub proof fn law_grants_are_written_as_they_are(
    grant: GrantView,
    written: RawGrantRecord,
    read: GrantView,
    grants: Seq<GrantView>,
    raw: RawGrantStore,
    scope: Seq<char>,
)
    ensures
        grant_written(grant, written) ==> written.plugin@ == grant.plugin && written.digest@
            == digest_text(grant.digest) && (scope_texts(written.invoke_actions@).contains(scope)
            <==> grant.actions.contains(scope)),
        grant_read(written, read) ==> read.plugin == written.plugin@ && digest_text(read.digest)
            == written.digest@,
        grant.digest.len() == 32 && grant_written(grant, written) && grant_read(written, read)
            ==> read.plugin == grant.plugin && read.digest == grant.digest && read.actions
            == grant.actions,
        store_written(grants, raw) ==> raw.version == 1,
        raw_store_accepted(raw) ==> raw.version == 1,
{
    if grant.digest.len() == 32 && grant_written(grant, written) && grant_read(written, read) {
        law_digest_text_round_trip(grant.digest, read.digest);
    }
}

/// A store that is refused is not accepted, and each refusal names what it is about: the
/// version that was found, or a record that is there.
pub proof fn law_refused_stores_are_not_accepted(raw: RawGrantStore, error: GrantError)
    requires
        raw_store_refused(raw, error),
    ensures
        !raw_store_accepted(raw),
        error matches GrantError::UnsupportedVersion(version) ==> version == raw.version && version
            != 1,
        !(error is UnsupportedVersion) ==> raw.version == 1,
        !(error is ActionNotRequested),
{
    let records = raw.grants@;
    if raw_store_accepted(raw) {
        match error {
            GrantError::InvalidDigest(cause) => {
                let i = choose|i: int|
                    0 <= i < records.len() && records_accepted(records, i) && !is_digest_text(
                        (#[trigger] records[i]).digest@,
                    ) && (cause matches PluginPackageError::InvalidDigest(text) && text@
                        == records[i].digest@);
                assert(record_accepted(records, i));
            },
            GrantError::DuplicateRecord { plugin, digest } => {
                let i = choose|i: int|
                    0 <= i < records.len() && records_accepted(records, i) && is_digest_text(
                        (#[trigger] records[i]).digest@,
                    ) && !record_is_new(records, i) && plugin@ == records[i].plugin@ && digest_text(
                        digest@,
                    ) == records[i].digest@;
                assert(record_accepted(records, i));
            },
            GrantError::DuplicateActionScope(scope) => {
                let (i, k) = choose|i: int, k: int|
                    0 <= i < records.len() && records_accepted(records, i) && is_digest_text(
                        (#[trigger] records[i]).digest@,
                    ) && record_is_new(records, i) && #[trigger] first_repeated_scope(
                        scope_texts(records[i].invoke_actions@),
                        k,
                    ) && scope@ == scope_texts(records[i].invoke_actions@)[k];
                assert(record_accepted(records, i));
                assert(scope_is_new(scope_texts(records[i].invoke_actions@), k));
            },
            _ => {},
        }
    }
}

} // verus!
