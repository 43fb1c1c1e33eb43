//! The proxy's configuration, and how the configured request-matching
//! options become the match policy the dispatcher applies.

use vstd::prelude::*;
use crate::fingerprint::MatchConfig;
use crate::fingerprint::MatchConfigModel;
use crate::matching::KeyListMap;

verus! {

/// Whether the proxy forwards misses upstream or answers only from the
/// store.
pub enum ServerMode {
    /// Forward cache misses to the backend and persist the responses.
    Collect,
    /// Answer exclusively from the persisted cache; a miss is an error.
    Serve,
}

/// Where the real inference server listens.
pub struct TargetServer {
    pub host: String,
}

/// Where the proxy itself listens.
pub struct Server {
    pub host: String,
    pub port: u16,
}

/// How a level of parameter maps is compared.
pub enum ParameterMatching {
    /// Parameters put no restriction on a match.
    Disable,
    /// Exactly the listed keys must agree.
    MatchKeys,
    /// Every key except the listed ones must agree.
    IgnoreKeys,
}

/// The configured equivalence options over requests.
pub struct RequestMatching {
    /// When true, a cached request answers only a request with an equal id.
    pub match_id: bool,
    /// How the top-level parameters are compared.
    pub parameter_matching: ParameterMatching,
    /// The keys the top-level comparison is about.
    pub parameter_keys: Vec<String>,
    /// How each input tensor's parameters are compared.
    pub input_parameter_matching: ParameterMatching,
    /// The keys per input tensor name.
    pub input_parameter_keys: KeyListMap,
    /// How each requested output's parameters are compared.
    pub output_parameter_matching: ParameterMatching,
    /// The keys per output name.
    pub output_parameter_keys: KeyListMap,
    /// When true, an entry with a superset of the requested outputs still
    /// matches.
    pub match_pruned_output: bool,
}

/// Where entries are stored on disk.
pub struct RequestCollection {
    pub path: String,
}

/// The proxy's whole configuration.
pub struct Settings {
    pub debug: bool,
    pub mode: ServerMode,
    pub server: Server,
    pub target_server: TargetServer,
    pub request_matching: RequestMatching,
    pub request_collection: RequestCollection,
}

/// The match policy a configuration denotes. Disabled matching is the
/// same as matching an empty key list: no restriction at all. Listed keys
/// restrict the comparison to those keys; ignored keys exempt exactly
/// those keys from an otherwise full comparison.
pub open spec fn spec_match_config(s: Settings) -> MatchConfigModel {
    MatchConfigModel {
        match_id: s.request_matching.match_id,
        parameter_keys: if s.request_matching.parameter_matching is Disable {
            Seq::empty()
        } else {
            s.request_matching.parameter_keys.deep_view()
        },
        exclude_parameters: s.request_matching.parameter_matching is IgnoreKeys,
        input_parameter_keys: if s.request_matching.input_parameter_matching is Disable {
            Seq::empty()
        } else {
            s.request_matching.input_parameter_keys@
        },
        exclude_input_parameters: s.request_matching.input_parameter_matching is IgnoreKeys,
        output_parameter_keys: if s.request_matching.output_parameter_matching is Disable {
            Seq::empty()
        } else {
            s.request_matching.output_parameter_keys@
        },
        exclude_output_parameters: s.request_matching.output_parameter_matching is IgnoreKeys,
        match_pruned_output: s.request_matching.match_pruned_output,
    }
}

/// A copy of a key list; its model is unchanged.
pub fn duplicate_keys(keys: &Vec<String>) -> (r: Vec<String>)
    ensures
        r.deep_view() == keys.deep_view(),
{
    let n: usize = keys.len();
    let mut out: Vec<String> = Vec::new();
    let mut i: usize = 0;
    while i < n
        invariant
            n == keys@.len(),
            i <= n,
            out@.len() == i,
            forall|j: int| 0 <= j < i ==> (#[trigger] out@[j])@ == keys@[j]@,
        decreases n - i,
    {
        out.push(keys[i].clone());
        i = i + 1;
    }
    proof {
        assert(out.deep_view() =~= keys.deep_view());
    }
    out
}

/// A copy of a name-to-keys mapping; its model is unchanged.
pub fn duplicate_key_lists(m: &KeyListMap) -> (r: KeyListMap)
    ensures
        r@ == m@,
{
    let n: usize = m.entries.len();
    let mut out = KeyListMap::new();
    let mut i: usize = 0;
    while i < n
        invariant
            n == m@.len(),
            m@.len() == m.entries@.len(),
            i <= n,
            out@ == m@.subrange(0, i as int),
        decreases n - i,
    {
        let name = m.entries[i].name.clone();
        let keys = duplicate_keys(&m.entries[i].keys);
        proof {
            assert(m@[i as int] == m.entries@[i as int].deep_view());
        }
        out.push(name, keys);
        proof {
            assert(out@ =~= m@.subrange(0, i as int + 1));
        }
        i = i + 1;
    }
    proof {
        assert(m@.subrange(0, n as int) =~= m@);
    }
    out
}

impl Settings {
    /// The match policy this configuration denotes; see
    /// [`spec_match_config`].
    pub fn get_match_config(&self) -> (r: MatchConfig)
        ensures
            r@ == spec_match_config(*self),
    {
        let parameter_keys: Vec<String> = match self.request_matching.parameter_matching {
            ParameterMatching::Disable => Vec::new(),
            _ => duplicate_keys(&self.request_matching.parameter_keys),
        };
        let input_parameter_keys: KeyListMap = match self.request_matching
            .input_parameter_matching {
            ParameterMatching::Disable => KeyListMap::new(),
            _ => duplicate_key_lists(&self.request_matching.input_parameter_keys),
        };
        let output_parameter_keys: KeyListMap = match self.request_matching
            .output_parameter_matching {
            ParameterMatching::Disable => KeyListMap::new(),
            _ => duplicate_key_lists(&self.request_matching.output_parameter_keys),
        };
        let exclude_parameters: bool = match self.request_matching.parameter_matching {
            ParameterMatching::IgnoreKeys => true,
            _ => false,
        };
        let exclude_input_parameters: bool = match self.request_matching.input_parameter_matching {
            ParameterMatching::IgnoreKeys => true,
            _ => false,
        };
        let exclude_output_parameters: bool = match self.request_matching
            .output_parameter_matching {
            ParameterMatching::IgnoreKeys => true,
            _ => false,
        };
        let r = MatchConfig {
            match_id: self.request_matching.match_id,
            parameter_keys,
            exclude_parameters,
            input_parameter_keys,
            exclude_input_parameters,
            output_parameter_keys,
            exclude_output_parameters,
            match_pruned_output: self.request_matching.match_pruned_output,
        };
        proof {
            if self.request_matching.parameter_matching is Disable {
                assert(r@.parameter_keys =~= Seq::<Seq<char>>::empty());
            }
            assert(r@ == spec_match_config(*self));
        }
        r
    }
}

} // verus!
