//! The catalogue of pre-trained models and their loading cache.
use vstd::prelude::*;

verus! {

broadcast use vstd::string::group_string_axioms;

/// Pre-trained model enumeration
#[derive(Debug, Clone, Copy, PartialEq, Eq, Structural, Hash)]
pub enum PreTrainedModel {
    /// Binary classifier for fingerprint authenticity
    AuthenticityClassifier,
    /// Multi-class classifier for browser type
    BrowserTypeClassifier,
    /// Anomaly detector for behavior analysis
    BehaviorAnomalyDetector,
    /// OS type classifier
    OSClassifier,
    /// Device type classifier (mobile/desktop/tablet)
    DeviceTypeClassifier,
}

/// Name of a model.
pub open spec fn model_name(m: PreTrainedModel) -> Seq<char> {
    match m {
        PreTrainedModel::AuthenticityClassifier => "authenticity_classifier"@,
        PreTrainedModel::BrowserTypeClassifier => "browser_type_classifier"@,
        PreTrainedModel::BehaviorAnomalyDetector => "behavior_anomaly_detector"@,
        PreTrainedModel::OSClassifier => "os_classifier"@,
        PreTrainedModel::DeviceTypeClassifier => "device_type_classifier"@,
    }
}

/// Version of a model.
pub open spec fn model_version(m: PreTrainedModel) -> Seq<char> {
    match m {
        PreTrainedModel::AuthenticityClassifier => "2.1.0"@,
        PreTrainedModel::BrowserTypeClassifier => "2.1.0"@,
        PreTrainedModel::BehaviorAnomalyDetector => "2.0.0"@,
        PreTrainedModel::OSClassifier => "2.1.0"@,
        PreTrainedModel::DeviceTypeClassifier => "1.5.0"@,
    }
}

/// Approximate memory a loaded model takes, in bytes.
pub open spec fn model_size(m: PreTrainedModel) -> nat {
    match m {
        PreTrainedModel::AuthenticityClassifier => 24 * 1024 * 1024,
        PreTrainedModel::BrowserTypeClassifier => 32 * 1024 * 1024,
        PreTrainedModel::BehaviorAnomalyDetector => 28 * 1024 * 1024,
        PreTrainedModel::OSClassifier => 20 * 1024 * 1024,
        PreTrainedModel::DeviceTypeClassifier => 18 * 1024 * 1024,
    }
}

impl PreTrainedModel {
    /// All models.
    pub fn all() -> (r: [PreTrainedModel; 5])
        ensures
            r@ == seq![
                PreTrainedModel::AuthenticityClassifier,
                PreTrainedModel::BrowserTypeClassifier,
                PreTrainedModel::BehaviorAnomalyDetector,
                PreTrainedModel::OSClassifier,
                PreTrainedModel::DeviceTypeClassifier,
            ],
    {
        let r = [
            PreTrainedModel::AuthenticityClassifier,
            PreTrainedModel::BrowserTypeClassifier,
            PreTrainedModel::BehaviorAnomalyDetector,
            PreTrainedModel::OSClassifier,
            PreTrainedModel::DeviceTypeClassifier,
        ];
        assert(r@ =~= seq![
            PreTrainedModel::AuthenticityClassifier,
            PreTrainedModel::BrowserTypeClassifier,
            PreTrainedModel::BehaviorAnomalyDetector,
            PreTrainedModel::OSClassifier,
            PreTrainedModel::DeviceTypeClassifier,
        ]);
        r
    }

    /// Model name
    pub fn name(&self) -> (r: &'static str)
        ensures
            r@ == model_name(*self),
    {
        match self {
            PreTrainedModel::AuthenticityClassifier => "authenticity_classifier",
            PreTrainedModel::BrowserTypeClassifier => "browser_type_classifier",
            PreTrainedModel::BehaviorAnomalyDetector => "behavior_anomaly_detector",
            PreTrainedModel::OSClassifier => "os_classifier",
            PreTrainedModel::DeviceTypeClassifier => "device_type_classifier",
        }
    }

    /// Model version
    pub fn version(&self) -> (r: &'static str)
        ensures
            r@ == model_version(*self),
    {
        match self {
            PreTrainedModel::AuthenticityClassifier => "2.1.0",
            PreTrainedModel::BrowserTypeClassifier => "2.1.0",
            PreTrainedModel::BehaviorAnomalyDetector => "2.0.0",
            PreTrainedModel::OSClassifier => "2.1.0",
            PreTrainedModel::DeviceTypeClassifier => "1.5.0",
        }
    }

    /// Approximate in-memory footprint used by the loaded model artifact.
    pub fn estimated_size_bytes(&self) -> (r: usize)
        ensures
            r == model_size(*self),
    {
        match self {
            PreTrainedModel::AuthenticityClassifier => 24 * 1024 * 1024,
            PreTrainedModel::BrowserTypeClassifier => 32 * 1024 * 1024,
            PreTrainedModel::BehaviorAnomalyDetector => 28 * 1024 * 1024,
            PreTrainedModel::OSClassifier => 20 * 1024 * 1024,
            PreTrainedModel::DeviceTypeClassifier => 18 * 1024 * 1024,
        }
    }
}

/// Statistics of the model cache.
#[derive(Debug, Clone)]
pub struct ModelCacheStats {
    pub capacity: usize,
    pub loaded_models: usize,
    pub loaded_bytes: usize,
    pub evictions: usize,
}

/// Possible anomaly classifications
#[derive(Debug, Clone, PartialEq)]
pub enum AnomalyClassification {
    /// Normal behavior
    Normal,
    /// Suspicious but not confirmed
    Suspicious,
    /// Clearly anomalous
    Anomalous,
    /// Critical security threat
    Critical,
    /// Uncertain classification
    Uncertain,
}

/// Behavior classification
#[derive(Debug, Clone, PartialEq)]
pub enum BehaviorClass {
    /// Human user
    Human,
    /// Normal behavior
    Normal,
    /// Suspicious behavior
    Suspicious,
    /// Bot
    Bot,
    /// Unknown
    Unknown,
}

/// Default number of models the cache keeps loaded.
pub const DEFAULT_MODEL_CACHE_CAPACITY: usize = 3;

/// Whether a model occurs among the entries.
pub open spec fn holds_model(s: Seq<(PreTrainedModel, usize)>, m: PreTrainedModel) -> bool {
    exists|i: int| 0 <= i < s.len() && #[trigger] s[i].0 == m
}

/// Total size of the entries.
pub open spec fn total_size(s: Seq<(PreTrainedModel, usize)>) -> nat
    decreases s.len(),
{
    if s.len() == 0 {
        0
    } else {
        total_size(s.drop_last()) + s.last().1 as nat
    }
}

/// The entries with the one at index `i` moved to the end (most recent).
pub open spec fn move_to_end(s: Seq<(PreTrainedModel, usize)>, i: int) -> Seq<(PreTrainedModel, usize)> {
    s.remove(i).push(s[i])
}

/// Cache of loaded models, least recently used first, evicting the least
/// recently used model when full.
pub struct ModelCache {
    /// Loaded models with their sizes, least recently used first.
    loaded: Vec<(PreTrainedModel, usize)>,
    capacity: usize,
    loaded_bytes: usize,
    evictions: usize,
}

impl ModelCache {
    /// The loaded models with their sizes, least recently used first.
    pub closed spec fn entries(&self) -> Seq<(PreTrainedModel, usize)> {
        self.loaded@
    }

    /// Most models kept loaded.
    pub closed spec fn cap(&self) -> nat {
        self.capacity as nat
    }

    /// Number of evictions so far.
    pub closed spec fn eviction_count(&self) -> nat {
        self.evictions as nat
    }

    /// At least one model fits; no model twice; no more than the capacity;
    /// the byte count is the total size.
    pub closed spec fn wf(&self) -> bool {
        &&& self.capacity >= 1
        &&& self.loaded@.len() <= self.capacity
        &&& forall|i: int, j: int| 0 <= i < j < self.loaded@.len() ==> #[trigger] self.loaded@[i].0 != #[trigger] self.loaded@[j].0
        &&& self.loaded_bytes == total_size(self.loaded@)
    }

    /// An empty cache for `capacity` models (at least one).
    pub fn new(capacity: usize) -> (r: Self)
        ensures
            r.wf(),
            r.entries() == Seq::<(PreTrainedModel, usize)>::empty(),
            r.cap() == if capacity < 1 { 1 } else { capacity },
            r.eviction_count() == 0,
    {
        let cap: usize = if capacity < 1 { 1 } else { capacity };
        let r = ModelCache { loaded: Vec::new(), capacity: cap, loaded_bytes: 0, evictions: 0 };
        assert(r.loaded@ =~= Seq::<(PreTrainedModel, usize)>::empty());
        r
    }

    /// Index of a loaded model.
    fn position(&self, model: PreTrainedModel) -> (r: Option<usize>)
        ensures
            r matches Some(i) ==> i < self.entries().len() && self.entries()[i as int].0 == model,
            r is None <==> !holds_model(self.entries(), model),
    {
        let mut i: usize = 0;
        while i < self.loaded.len()
            invariant
                i <= self.loaded@.len(),
                forall|k: int| 0 <= k < i ==> #[trigger] self.loaded@[k].0 != model,
            decreases self.loaded@.len() - i,
        {
            if self.loaded[i].0 == model {
                return Some(i);
            }
            i = i + 1;
        }
        None
    }

    /// Whether a model is loaded.
    pub fn is_loaded(&self, model: PreTrainedModel) -> (r: bool)
        ensures
            r == holds_model(self.entries(), model),
    {
        self.position(model).is_some()
    }

    /// Marks a loaded model as the most recently used; says whether it was
    /// loaded.
    pub fn get(&mut self, model: PreTrainedModel) -> (r: bool)
        requires
            old(self).wf(),
        ensures
            final(self).wf(),
            r == holds_model(old(self).entries(), model),
            final(self).cap() == old(self).cap(),
            final(self).eviction_count() == old(self).eviction_count(),
            !r ==> final(self).entries() == old(self).entries(),
            r ==> exists|i: int| 0 <= i < old(self).entries().len() && old(self).entries()[i].0 == model
                && final(self).entries() == #[trigger] move_to_end(old(self).entries(), i),
    {
        let ghost s = self.loaded@;
        match self.position(model) {
            Some(i) => {
                let e = self.loaded.remove(i);
                self.loaded.push(e);
                assert(self.loaded@ =~= move_to_end(s, i as int));
                proof { self.lemma_move_keeps(s, i as int); }
                true
            },
            None => false,
        }
    }

    /// Moving an entry to the end keeps keys distinct and the total size.
    proof fn lemma_move_keeps(&self, s: Seq<(PreTrainedModel, usize)>, i: int)
        requires
            0 <= i < s.len(),
            self.loaded@ == move_to_end(s, i),
            forall|a: int, b: int| 0 <= a < b < s.len() ==> #[trigger] s[a].0 != #[trigger] s[b].0,
        ensures
            forall|a: int, b: int| 0 <= a < b < self.loaded@.len() ==> #[trigger] self.loaded@[a].0 != #[trigger] self.loaded@[b].0,
            total_size(self.loaded@) == total_size(s),
    {
        let t = self.loaded@;
        assert forall|a: int, b: int| 0 <= a < b < t.len() implies #[trigger] t[a].0 != #[trigger] t[b].0 by {
            let ia = if a < i { a } else { a + 1 };
            if b == t.len() - 1 {
                assert(t[b] == s[i]);
                assert(t[a] == s[ia]);
            } else {
                let ib = if b < i { b } else { b + 1 };
                assert(t[a] == s[ia] && t[b] == s[ib]);
            }
        }
        lemma_total_size_remove(s, i);
        lemma_total_size_push(s.remove(i), s[i]);
    }

    /// Evicts the least recently used model, if any.
    fn evict_oldest(&mut self)
        requires
            old(self).wf(),
            old(self).eviction_count() < usize::MAX,
        ensures
            final(self).wf(),
            final(self).cap() == old(self).cap(),
            old(self).entries().len() == 0 ==> final(self).entries() == old(self).entries()
                && final(self).eviction_count() == old(self).eviction_count(),
            old(self).entries().len() > 0 ==> final(self).entries() == old(self).entries().drop_first()
                && final(self).eviction_count() == old(self).eviction_count() + 1,
    {
        if self.loaded.len() > 0 {
            let ghost s = self.loaded@;
            let (_m, size) = self.loaded.remove(0);
            proof {
                lemma_total_size_remove(s, 0);
                assert(s.remove(0) =~= s.drop_first());
            }
            self.loaded_bytes = self.loaded_bytes - size;
            self.evictions = self.evictions + 1;
            assert forall|a: int, b: int| 0 <= a < b < self.loaded@.len() implies #[trigger] self.loaded@[a].0 != #[trigger] self.loaded@[b].0 by {
                assert(self.loaded@[a] == s[a + 1] && self.loaded@[b] == s[b + 1]);
            }
        }
    }

    /// Loads a model that is not loaded, evicting the least recently used
    /// one when the cache is full; the model becomes the most recent.
    pub fn insert(&mut self, model: PreTrainedModel, size: usize)
        requires
            old(self).wf(),
            !holds_model(old(self).entries(), model),
            old(self).eviction_count() < usize::MAX,
            total_size(old(self).entries()) + size <= usize::MAX,
        ensures
            final(self).wf(),
            final(self).cap() == old(self).cap(),
            old(self).entries().len() < old(self).cap() ==> final(self).entries() == old(self).entries().push((model, size))
                && final(self).eviction_count() == old(self).eviction_count(),
            old(self).entries().len() >= old(self).cap() ==> final(self).entries() == old(self).entries().drop_first().push(
                (model, size),
            ) && final(self).eviction_count() == old(self).eviction_count() + 1,
    {
        let ghost s0 = self.loaded@;
        if self.loaded.len() >= self.capacity {
            self.evict_oldest();
            proof {
                lemma_total_size_remove(s0, 0);
                assert(s0.remove(0) =~= s0.drop_first());
            }
        }
        let ghost s = self.loaded@;
        self.loaded_bytes = self.loaded_bytes + size;
        self.loaded.push((model, size));
        proof { lemma_total_size_push(s, (model, size)); }
        assert forall|a: int, b: int| 0 <= a < b < self.loaded@.len() implies #[trigger] self.loaded@[a].0 != #[trigger] self.loaded@[b].0 by {
            if b == self.loaded@.len() - 1 {
                assert(self.loaded@[a] == s[a]);
                if s0.len() >= self.capacity {
                    assert(s[a] == s0[a + 1]);
                } else {
                    assert(s[a] == s0[a]);
                }
            } else {
                assert(self.loaded@[a] == s[a] && self.loaded@[b] == s[b]);
            }
        }
    }

    /// Loads a model through the cache: a hit marks it most recent, a miss
    /// inserts it; says whether it was a hit.
    pub fn load(&mut self, model: PreTrainedModel, size: usize) -> (r: bool)
        requires
            old(self).wf(),
            old(self).eviction_count() < usize::MAX,
            total_size(old(self).entries()) + size <= usize::MAX,
        ensures
            final(self).wf(),
            r == holds_model(old(self).entries(), model),
            holds_model(final(self).entries(), model),
            final(self).entries().last().0 == model,
            final(self).entries().len() <= final(self).cap(),
            final(self).cap() == old(self).cap(),
            r ==> final(self).eviction_count() == old(self).eviction_count() && exists|i: int|
                0 <= i < old(self).entries().len() && old(self).entries()[i].0 == model
                && final(self).entries() == #[trigger] move_to_end(old(self).entries(), i),
            !r && old(self).entries().len() < old(self).cap() ==> final(self).entries()
                == old(self).entries().push((model, size)) && final(self).eviction_count()
                == old(self).eviction_count(),
            !r && old(self).entries().len() >= old(self).cap() ==> final(self).entries()
                == old(self).entries().drop_first().push((model, size)) && final(self).eviction_count()
                == old(self).eviction_count() + 1,
    {
        let hit: bool = self.get(model);
        if !hit {
            self.insert(model, size);
        }
        proof {
            let t = self.loaded@;
            assert(t[t.len() - 1].0 == model);
        }
        hit
    }

    /// Capacity, loaded models, loaded bytes and evictions.
    pub fn stats(&self) -> (r: ModelCacheStats)
        requires
            self.wf(),
        ensures
            r.capacity == self.cap(),
            r.loaded_models == self.entries().len(),
            r.loaded_bytes == total_size(self.entries()),
            r.evictions == self.eviction_count(),
    {
        ModelCacheStats {
            capacity: self.capacity,
            loaded_models: self.loaded.len(),
            loaded_bytes: self.loaded_bytes,
            evictions: self.evictions,
        }
    }
}

/// Removing an entry takes its size off the total.
pub proof fn lemma_total_size_remove(s: Seq<(PreTrainedModel, usize)>, i: int)
    requires
        0 <= i < s.len(),
    ensures
        total_size(s.remove(i)) + s[i].1 == total_size(s),
    decreases s.len(),
{
    if i < s.len() - 1 {
        lemma_total_size_remove(s.drop_last(), i);
        assert(s.remove(i).drop_last() =~= s.drop_last().remove(i));
        assert(s.remove(i).last() == s.last());
    } else {
        assert(s.remove(i) =~= s.drop_last());
    }
}

/// Appending an entry adds its size to the total.
pub proof fn lemma_total_size_push(s: Seq<(PreTrainedModel, usize)>, e: (PreTrainedModel, usize))
    ensures
        total_size(s.push(e)) == total_size(s) + e.1,
{
    assert(s.push(e).drop_last() =~= s);
}

/// A cache hit reorders the loaded models without changing which models
/// are loaded or how many.
pub proof fn lemma_hit_keeps_models(s: Seq<(PreTrainedModel, usize)>, i: int)
    requires
        0 <= i < s.len(),
    ensures
        forall|x: PreTrainedModel| holds_model(move_to_end(s, i), x) <==> holds_model(s, x),
        move_to_end(s, i).len() == s.len(),
{
    let t = move_to_end(s, i);
    assert forall|x: PreTrainedModel| holds_model(t, x) <==> holds_model(s, x) by {
        if holds_model(t, x) {
            let k = choose|k: int| 0 <= k < t.len() && #[trigger] t[k].0 == x;
            if k == t.len() - 1 {
                assert(s[i].0 == x);
            } else if k < i {
                assert(s[k].0 == x);
            } else {
                assert(s[k + 1].0 == x);
            }
        }
        if holds_model(s, x) {
            let k = choose|k: int| 0 <= k < s.len() && #[trigger] s[k].0 == x;
            if k == i {
                assert(t[t.len() - 1].0 == x);
            } else if k < i {
                assert(t[k].0 == x);
            } else {
                assert(t[k - 1].0 == x);
            }
        }
    }
}

} // verus!
