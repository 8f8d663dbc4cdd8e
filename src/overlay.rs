//! Mergeable `{arguments, environment}` configuration fragments.

use vstd::prelude::*;

verus! {

/// The mathematical content of a [`CommandConfig`].
pub struct ConfigModel {
    pub arguments: Option<Seq<Seq<char>>>,
    pub environment: Option<Map<Seq<char>, Seq<char>>>,
}

/// The view of a list of strings as a sequence of character sequences.
pub open spec fn strings_view(v: Seq<String>) -> Seq<Seq<char>> {
    v.map_values(|s: String| s@)
}

/// The variables set by a list of assignments: a later assignment of a key
/// replaces an earlier one.
pub open spec fn env_map(entries: Seq<(String, String)>) -> Map<Seq<char>, Seq<char>>
    decreases entries.len(),
{
    if entries.len() == 0 {
        Map::empty()
    } else {
        env_map(entries.drop_last()).insert(entries.last().0@, entries.last().1@)
    }
}

/// The configuration that sets nothing.
pub open spec fn empty_model() -> ConfigModel {
    ConfigModel { arguments: None, environment: None }
}

/// `base` overlaid with `over`: arguments are concatenated (base first),
/// environments are united with `over` winning on a shared key.
pub open spec fn merge_models(base: ConfigModel, over: ConfigModel) -> ConfigModel {
    ConfigModel {
        arguments: match (base.arguments, over.arguments) {
            (Some(a), Some(b)) => Some(a + b),
            (Some(a), None) => Some(a),
            (None, b) => b,
        },
        environment: match (base.environment, over.environment) {
            (Some(a), Some(b)) => Some(a.union_prefer_right(b)),
            (Some(a), None) => Some(a),
            (None, b) => b,
        },
    }
}

/// Arguments appended to a command, and environment variables set for it.
/// The environment is a list of assignments in which a later entry for a
/// key overrides an earlier one, as when they are applied to a process in
/// order; its keys need not be unique, since its meaning is the map
/// [`env_map`], which has one value per key.
#[derive(Debug)]
pub struct CommandConfig {
    pub arguments: Option<Vec<String>>,
    pub environment: Option<Vec<(String, String)>>,
}

impl View for CommandConfig {
    type V = ConfigModel;

    open spec fn view(&self) -> ConfigModel {
        ConfigModel {
            arguments: match self.arguments {
                Some(a) => Some(strings_view(a@)),
                None => None,
            },
            environment: match self.environment {
                Some(e) => Some(env_map(e@)),
                None => None,
            },
        }
    }
}

proof fn lemma_env_map_concat(a: Seq<(String, String)>, b: Seq<(String, String)>)
    ensures
        env_map(a + b) == env_map(a).union_prefer_right(env_map(b)),
    decreases b.len(),
{
    if b.len() == 0 {
        assert(a + b =~= a);
        assert(env_map(a).union_prefer_right(env_map(b)) =~= env_map(a));
    } else {
        lemma_env_map_concat(a, b.drop_last());
        assert((a + b).drop_last() =~= a + b.drop_last());
        assert(env_map(a + b) =~= env_map(a).union_prefer_right(env_map(b)));
    }
}

/// Copies a list of strings.
pub(crate) fn copy_strings(v: &Vec<String>) -> (r: Vec<String>)
    ensures
        r@ == v@,
{
    let mut r: Vec<String> = Vec::new();
    let mut i: usize = 0;
    while i < v.len()
        invariant
            i <= v.len(),
            r@ == v@.subrange(0, i as int),
        decreases v.len() - i,
    {
        r.push(v[i].clone());
        i += 1;
        assert(r@ =~= v@.subrange(0, i as int));
    }
    assert(r@ =~= v@);
    r
}

/// Copies a list of assignments.
pub(crate) fn copy_assignments(v: &Vec<(String, String)>) -> (r: Vec<(String, String)>)
    ensures
        r@ == v@,
{
    let mut r: Vec<(String, String)> = Vec::new();
    let mut i: usize = 0;
    while i < v.len()
        invariant
            i <= v.len(),
            r@ == v@.subrange(0, i as int),
        decreases v.len() - i,
    {
        r.push((v[i].0.clone(), v[i].1.clone()));
        i += 1;
        assert(r@ =~= v@.subrange(0, i as int));
    }
    assert(r@ =~= v@);
    r
}

impl CommandConfig {
    /// The configuration that sets nothing.
    pub fn empty() -> (r: CommandConfig)
        ensures
            r@ == empty_model(),
    {
        CommandConfig { arguments: None, environment: None }
    }

    /// Copies this configuration.
    pub fn duplicate(&self) -> (r: CommandConfig)
        ensures
            r@ == self@,
    {
        CommandConfig {
            arguments: match &self.arguments {
                Some(a) => Some(copy_strings(a)),
                None => None,
            },
            environment: match &self.environment {
                Some(e) => Some(copy_assignments(e)),
                None => None,
            },
        }
    }

    /// This configuration overlaid with `other`, which wins where both set
    /// the same environment variable; `other`'s arguments follow ours.
    pub fn merge(&self, other: &Self) -> (r: Self)
        ensures
            r@ == merge_models(self@, other@),
    {
        let arguments = match (&self.arguments, &other.arguments) {
            (Some(sa), Some(oa)) => {
                let mut all = copy_strings(sa);
                let mut rest = copy_strings(oa);
                all.append(&mut rest);
                assert(strings_view(all@) =~= strings_view(sa@) + strings_view(oa@));
                Some(all)
            },
            (Some(sa), None) => Some(copy_strings(sa)),
            (None, Some(oa)) => Some(copy_strings(oa)),
            (None, None) => None,
        };
        let environment = match (&self.environment, &other.environment) {
            (Some(se), Some(oe)) => {
                let mut all = copy_assignments(se);
                let mut rest = copy_assignments(oe);
                all.append(&mut rest);
                proof {
                    lemma_env_map_concat(se@, oe@);
                }
                Some(all)
            },
            (Some(se), None) => Some(copy_assignments(se)),
            (None, Some(oe)) => Some(copy_assignments(oe)),
            (None, None) => None,
        };
        CommandConfig { arguments, environment }
    }
}

impl Default for CommandConfig {
    fn default() -> (r: CommandConfig)
        ensures
            r@ == empty_model(),
    {
        CommandConfig::empty()
    }
}

/// Merging never loses what the override sets: its arguments come last and
/// each of its variables keeps its value; the empty configuration is a
/// neutral element on either side.
pub proof fn lemma_merge_prefers_override(a: ConfigModel, b: ConfigModel)
    ensures
        merge_models(a, empty_model()) == a,
        merge_models(empty_model(), b) == b,
        b.arguments is Some ==> ({
            let m = merge_models(a, b).arguments->Some_0;
            let n = b.arguments->Some_0;
            &&& m.len() >= n.len()
            &&& m.subrange(m.len() - n.len(), m.len() as int) == n
        }),
        b.environment is Some ==> forall|k: Seq<char>| #[trigger]
            b.environment->Some_0.contains_key(k) ==> merge_models(a, b).environment->Some_0.contains_key(k)
                && merge_models(a, b).environment->Some_0[k] == b.environment->Some_0[k],
{
    if b.arguments is Some {
        let m = merge_models(a, b).arguments->Some_0;
        let n = b.arguments->Some_0;
        if a.arguments is Some {
            assert(m.subrange(m.len() - n.len(), m.len() as int) =~= n);
        } else {
            assert(m.subrange(0, m.len() as int) =~= n);
        }
    }
}

} // verus!
