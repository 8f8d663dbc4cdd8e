//! The resolved tree: groups of parts, parts holding a command and cases;
//! finding one case by a path of names, or every case below a path.

use vstd::prelude::*;

use crate::case::{CaseModel, ChallengeCase};
use crate::command::{ChallengeCommand, CommandModel};
use crate::errors::ChallengeCaseError;
use crate::overlay::{merge_models, strings_view, CommandConfig, ConfigModel};

verus! {

/// A node that only holds other nodes.
#[derive(Debug)]
pub struct ChallengeConfigGroup {
    pub name: String,
    pub parts: Vec<ChallengeConfig>,
}

/// A node with the command that all of its cases run.
#[derive(Debug)]
pub struct ChallengeConfigPart {
    pub name: String,
    pub command: ChallengeCommand,
    pub cases: Vec<ChallengeCase>,
}

/// A node of the resolved tree.
#[derive(Debug)]
pub enum ChallengeConfig {
    Group(ChallengeConfigGroup),
    Part(ChallengeConfigPart),
}

/// The name of a node.
pub open spec fn node_name(c: ChallengeConfig) -> Seq<char> {
    match c {
        ChallengeConfig::Group(g) => g.name@,
        ChallengeConfig::Part(p) => p.name@,
    }
}

/// `i` is the first position among `parts` of a node named `n`.
pub open spec fn is_first_child(parts: Seq<ChallengeConfig>, n: Seq<char>, i: int) -> bool {
    &&& 0 <= i < parts.len()
    &&& node_name(parts[i]) == n
    &&& forall|j: int| 0 <= j < i ==> node_name(#[trigger] parts[j]) != n
}

/// `i` is the first position among `cases` of a case named `n`.
pub open spec fn is_first_case(cases: Seq<ChallengeCase>, n: Seq<char>, i: int) -> bool {
    &&& 0 <= i < cases.len()
    &&& cases[i].name@ == n
    &&& forall|j: int| 0 <= j < i ==> (#[trigger] cases[j]).name@ != n
}

/// A case as handed out by a lookup in the part named `part`: owned by that
/// part, with a caller's overlay merged last, over its own configuration.
pub open spec fn with_overlay(c: CaseModel, part: Seq<char>, inv: ConfigModel) -> CaseModel {
    CaseModel { parent_name: part, config: merge_models(c.config, inv), ..c }
}

/// The outcome of a walk down the tree by a path of names.
pub enum Walk<T> {
    Found(T),
    NotEnoughCases,
    /// The name that was not found, and the node it was looked for in.
    CaseNotFound(Seq<char>, Seq<char>),
}

/// The command and case that `path` names below `node`, with `inv` merged
/// into the case's configuration.
pub open spec fn locate(node: ChallengeConfig, path: Seq<Seq<char>>, inv: ConfigModel) -> Walk<
    (CommandModel, CaseModel),
>
    decreases path.len(),
{
    if path.len() == 0 {
        Walk::NotEnoughCases
    } else {
        match node {
            ChallengeConfig::Group(g) => if exists|i: int| is_first_child(g.parts@, path[0], i) {
                let i = choose|i: int| is_first_child(g.parts@, path[0], i);
                locate(g.parts@[i], path.drop_first(), inv)
            } else {
                Walk::CaseNotFound(path[0], g.name@)
            },
            ChallengeConfig::Part(p) => if exists|i: int| is_first_case(p.cases@, path[0], i) {
                let i = choose|i: int| is_first_case(p.cases@, path[0], i);
                Walk::Found((p.command@, with_overlay(p.cases@[i]@, p.name@, inv)))
            } else {
                Walk::CaseNotFound(path[0], p.name@)
            },
        }
    }
}

/// Every case below `node`, in tree order, each with its part's command and
/// with `inv` merged into its configuration.
pub open spec fn leaves(node: ChallengeConfig, inv: ConfigModel) -> Seq<(CommandModel, CaseModel)>
    decreases node, 0int,
{
    match node {
        ChallengeConfig::Group(g) => leaves_upto(g.parts@, g.parts@.len() as int, inv),
        ChallengeConfig::Part(p) => p.cases@.map_values(
            |c: ChallengeCase| (p.command@, with_overlay(c@, p.name@, inv)),
        ),
    }
}

/// The cases below the first `k` of `parts`.
pub open spec fn leaves_upto(parts: Seq<ChallengeConfig>, k: int, inv: ConfigModel) -> Seq<
    (CommandModel, CaseModel),
>
    decreases parts, k,
{
    if k <= 0 || k > parts.len() {
        Seq::empty()
    } else {
        leaves_upto(parts, k - 1, inv) + leaves(parts[k - 1], inv)
    }
}

/// The cases that `path` selects below `node` for a batch run: where the
/// path ends at a node, every case below it.
pub open spec fn locate_all(node: ChallengeConfig, path: Seq<Seq<char>>, inv: ConfigModel) -> Walk<
    Seq<(CommandModel, CaseModel)>,
>
    decreases path.len(),
{
    if path.len() == 0 {
        Walk::Found(leaves(node, inv))
    } else {
        match node {
            ChallengeConfig::Group(g) => if exists|i: int| is_first_child(g.parts@, path[0], i) {
                let i = choose|i: int| is_first_child(g.parts@, path[0], i);
                locate_all(g.parts@[i], path.drop_first(), inv)
            } else {
                Walk::CaseNotFound(path[0], g.name@)
            },
            ChallengeConfig::Part(p) => if exists|i: int| is_first_case(p.cases@, path[0], i) {
                let i = choose|i: int| is_first_case(p.cases@, path[0], i);
                Walk::Found(seq![(p.command@, with_overlay(p.cases@[i]@, p.name@, inv))])
            } else {
                Walk::CaseNotFound(path[0], p.name@)
            },
        }
    }
}

/// The view of selected pairs.
pub open spec fn pairs_view(v: Seq<(ChallengeCommand, ChallengeCase)>) -> Seq<(CommandModel, CaseModel)> {
    v.map_values(|x: (ChallengeCommand, ChallengeCase)| (x.0@, x.1@))
}

/// `r` is what the walk `w` describes.
pub open spec fn walk_matches<T, U>(w: Walk<U>, r: Result<T, ChallengeCaseError>, found: spec_fn(T, U) -> bool) -> bool {
    match w {
        Walk::Found(x) => r is Ok && found(r->Ok_0, x),
        Walk::NotEnoughCases => r is Err && r->Err_0 is NotEnoughCases,
        Walk::CaseNotFound(n, c) => r is Err && match r->Err_0 {
            ChallengeCaseError::CaseNotFound { case, config_name } => case@ == n && config_name@
                == c,
            _ => false,
        },
    }
}

/// `r` is the one pair that `w` found.
pub open spec fn located_pair(r: (ChallengeCommand, ChallengeCase), w: (CommandModel, CaseModel)) -> bool {
    r.0@ == w.0 && r.1@ == w.1
}

/// `r` holds the pairs that `w` found.
pub open spec fn located_pairs(r: Vec<(ChallengeCommand, ChallengeCase)>, w: Seq<(CommandModel, CaseModel)>) -> bool {
    pairs_view(r@) == w
}

fn not_found(name: &String, container: &String) -> (r: ChallengeCaseError)
    ensures
        match r {
            ChallengeCaseError::CaseNotFound { case, config_name } => case == *name && config_name
                == *container,
            _ => false,
        },
{
    ChallengeCaseError::CaseNotFound { case: name.clone(), config_name: container.clone() }
}

fn first_child(parts: &Vec<ChallengeConfig>, n: &String) -> (r: Option<usize>)
    ensures
        match r {
            Some(i) => is_first_child(parts@, n@, i as int),
            None => !exists|i: int| is_first_child(parts@, n@, i),
        },
{
    let mut i: usize = 0;
    while i < parts.len()
        invariant
            i <= parts.len(),
            forall|j: int| 0 <= j < i ==> node_name(#[trigger] parts@[j]) != n@,
        decreases parts.len() - i,
    {
        if *parts[i].name_ref() == *n {
            return Some(i);
        }
        i += 1;
    }
    None
}

fn first_case(cases: &Vec<ChallengeCase>, n: &String) -> (r: Option<usize>)
    ensures
        match r {
            Some(i) => is_first_case(cases@, n@, i as int),
            None => !exists|i: int| is_first_case(cases@, n@, i),
        },
{
    let mut i: usize = 0;
    while i < cases.len()
        invariant
            i <= cases.len(),
            forall|j: int| 0 <= j < i ==> (#[trigger] cases@[j]).name@ != n@,
        decreases cases.len() - i,
    {
        if cases[i].name == *n {
            return Some(i);
        }
        i += 1;
    }
    None
}

proof fn lemma_first_child_unique(parts: Seq<ChallengeConfig>, n: Seq<char>, i: int)
    requires
        is_first_child(parts, n, i),
    ensures
        (choose|k: int| is_first_child(parts, n, k)) == i,
{
    let k = choose|k: int| is_first_child(parts, n, k);
    assert(is_first_child(parts, n, k));
    if k < i {
        assert(node_name(parts[k]) != n);
    } else if k > i {
        assert(node_name(parts[i]) != n);
    }
}

proof fn lemma_first_case_unique(cases: Seq<ChallengeCase>, n: Seq<char>, i: int)
    requires
        is_first_case(cases, n, i),
    ensures
        (choose|k: int| is_first_case(cases, n, k)) == i,
{
    let k = choose|k: int| is_first_case(cases, n, k);
    assert(is_first_case(cases, n, k));
    if k < i {
        assert(cases[k].name@ != n);
    } else if k > i {
        assert(cases[i].name@ != n);
    }
}

impl ChallengeCase {
    /// This case, owned by the part `part`, with `inv` merged over its
    /// configuration.
    fn overlaid(&self, part: &String, inv: &CommandConfig) -> (r: ChallengeCase)
        ensures
            r@ == with_overlay(self@, part@, inv@),
    {
        let mut c = self.duplicate();
        c.parent_name = part.clone();
        c.config = self.config.merge(inv);
        c
    }
}

impl ChallengeConfig {
    fn name_ref(&self) -> (r: &String)
        ensures
            r@ == node_name(*self),
    {
        match self {
            ChallengeConfig::Group(c) => &c.name,
            ChallengeConfig::Part(c) => &c.name,
        }
    }

    /// The name of this node.
    pub fn get_name(&self) -> (r: &str)
        ensures
            r@ == node_name(*self),
    {
        self.name_ref().as_str()
    }

    fn locate_from(&self, path: &Vec<String>, pos: usize, inv: &CommandConfig) -> (r: Result<
        (ChallengeCommand, ChallengeCase),
        ChallengeCaseError,
    >)
        requires
            pos <= path.len(),
        ensures
            walk_matches(
                locate(*self, strings_view(path@).subrange(pos as int, path.len() as int), inv@),
                r,
                |r: (ChallengeCommand, ChallengeCase), w: (CommandModel, CaseModel)|
                    located_pair(r, w),
            ),
        decreases path.len() - pos,
    {
        let ghost rest = strings_view(path@).subrange(pos as int, path.len() as int);
        if pos == path.len() {
            return Err(ChallengeCaseError::NotEnoughCases);
        }
        assert(rest[0] == path@[pos as int]@);
        assert(rest.drop_first() =~= strings_view(path@).subrange(pos + 1, path.len() as int));
        let next = &path[pos];
        match self {
            ChallengeConfig::Group(g) => match first_child(&g.parts, next) {
                Some(i) => {
                    proof {
                        lemma_first_child_unique(g.parts@, next@, i as int);
                    }
                    g.parts[i].locate_from(path, pos + 1, inv)
                },
                None => Err(not_found(next, &g.name)),
            },
            ChallengeConfig::Part(p) => match first_case(&p.cases, next) {
                Some(i) => {
                    proof {
                        lemma_first_case_unique(p.cases@, next@, i as int);
                    }
                    Ok((p.command.duplicate(), p.cases[i].overlaid(&p.name, inv)))
                },
                None => Err(not_found(next, &p.name)),
            },
        }
    }

    /// The command and case that the names of `cases` lead to, one name per
    /// level, with `config` merged last into the case's configuration.
    pub fn resolve_case(&self, cases: Vec<String>, config: CommandConfig) -> (r: Result<
        (ChallengeCommand, ChallengeCase),
        ChallengeCaseError,
    >)
        ensures
            walk_matches(
                locate(*self, strings_view(cases@), config@),
                r,
                |r: (ChallengeCommand, ChallengeCase), w: (CommandModel, CaseModel)|
                    located_pair(r, w),
            ),
    {
        assert(strings_view(cases@).subrange(0, cases.len() as int) =~= strings_view(cases@));
        self.locate_from(&cases, 0, &config)
    }

    /// The command and case that the names of `cases` lead to, with the
    /// case's own configuration.
    pub fn get_case(&self, cases: Vec<String>) -> (r: Result<
        (ChallengeCommand, ChallengeCase),
        ChallengeCaseError,
    >)
        ensures
            walk_matches(
                locate(*self, strings_view(cases@), ConfigModel { arguments: None, environment: None }),
                r,
                |r: (ChallengeCommand, ChallengeCase), w: (CommandModel, CaseModel)|
                    located_pair(r, w),
            ),
    {
        self.resolve_case(cases, CommandConfig::empty())
    }
}


impl ChallengeConfig {
    /// Appends every case below this node, in tree order, with its part's
    /// command and with `inv` merged into its configuration.
    fn collect_all(&self, inv: &CommandConfig, out: &mut Vec<(ChallengeCommand, ChallengeCase)>)
        ensures
            pairs_view(final(out)@) == pairs_view(old(out)@) + leaves(*self, inv@),
        decreases self,
    {
        let ghost start = pairs_view(out@);
        match self {
            ChallengeConfig::Group(g) => {
                let mut i: usize = 0;
                assert(start + leaves_upto(g.parts@, 0, inv@) =~= start);
                while i < g.parts.len()
                    invariant
                        i <= g.parts.len(),
                        *self == ChallengeConfig::Group(*g),
                        pairs_view(out@) == start + leaves_upto(g.parts@, i as int, inv@),
                    decreases g.parts.len() - i,
                {
                    proof {
                        assert(decreases_to!(g.parts => g.parts[i as int])) by {
                            broadcast use vstd::std_specs::vec::axiom_vec_index_decreases;
                        }
                        assert(decreases_to!(*self => self->Group_0));
                        assert(decreases_to!(self->Group_0 => self->Group_0.parts));
                    }
                    g.parts[i].collect_all(inv, out);
                    assert(leaves_upto(g.parts@, i + 1, inv@) == leaves_upto(g.parts@, i as int, inv@)
                        + leaves(g.parts@[i as int], inv@));
                    assert(start + leaves_upto(g.parts@, i + 1, inv@) =~= start + leaves_upto(
                        g.parts@,
                        i as int,
                        inv@,
                    ) + leaves(g.parts@[i as int], inv@));
                    i += 1;
                }
            },
            ChallengeConfig::Part(p) => {
                let ghost all = leaves(*self, inv@);
                let mut i: usize = 0;
                assert(start + all.subrange(0, 0) =~= start);
                while i < p.cases.len()
                    invariant
                        i <= p.cases.len(),
                        all == leaves(*self, inv@),
                        all.len() == p.cases.len(),
                        *self == ChallengeConfig::Part(*p),
                        pairs_view(out@) == start + all.subrange(0, i as int),
                    decreases p.cases.len() - i,
                {
                    let pair = (p.command.duplicate(), p.cases[i].overlaid(&p.name, inv));
                    let ghost pv = (pair.0@, pair.1@);
                    assert(all[i as int] == pv);
                    let ghost before = out@;
                    out.push(pair);
                    assert(pairs_view(out@) =~= pairs_view(before).push(pv));
                    assert(start + all.subrange(0, i + 1) =~= (start + all.subrange(0, i as int)).push(pv));
                    i += 1;
                }
                assert(all.subrange(0, i as int) =~= all);
            },
        }
    }

    fn collect_from(&self, path: &Vec<String>, pos: usize, inv: &CommandConfig) -> (r: Result<
        Vec<(ChallengeCommand, ChallengeCase)>,
        ChallengeCaseError,
    >)
        requires
            pos <= path.len(),
        ensures
            walk_matches(
                locate_all(*self, strings_view(path@).subrange(pos as int, path.len() as int), inv@),
                r,
                |r: Vec<(ChallengeCommand, ChallengeCase)>, w: Seq<(CommandModel, CaseModel)>|
                    located_pairs(r, w),
            ),
        decreases path.len() - pos,
    {
        let ghost rest = strings_view(path@).subrange(pos as int, path.len() as int);
        if pos == path.len() {
            let mut out: Vec<(ChallengeCommand, ChallengeCase)> = Vec::new();
            self.collect_all(inv, &mut out);
            assert(pairs_view(Seq::<(ChallengeCommand, ChallengeCase)>::empty()) + leaves(*self, inv@)
                =~= leaves(*self, inv@));
            return Ok(out);
        }
        assert(rest[0] == path@[pos as int]@);
        assert(rest.drop_first() =~= strings_view(path@).subrange(pos + 1, path.len() as int));
        let next = &path[pos];
        match self {
            ChallengeConfig::Group(g) => match first_child(&g.parts, next) {
                Some(i) => {
                    proof {
                        lemma_first_child_unique(g.parts@, next@, i as int);
                    }
                    g.parts[i].collect_from(path, pos + 1, inv)
                },
                None => Err(not_found(next, &g.name)),
            },
            ChallengeConfig::Part(p) => match first_case(&p.cases, next) {
                Some(i) => {
                    proof {
                        lemma_first_case_unique(p.cases@, next@, i as int);
                    }
                    let pair = (p.command.duplicate(), p.cases[i].overlaid(&p.name, inv));
                    let ghost pv = (pair.0@, pair.1@);
                    let out = vec![pair];
                    assert(pairs_view(out@) =~= seq![pv]);
                    Ok(out)
                },
                None => Err(not_found(next, &p.name)),
            },
        }
    }

    /// Every case that the names of `cases` select, for a batch run: where
    /// the names end at a group or a part, every case below it; where they
    /// name a case, that case. `config` is merged last into each case.
    pub fn resolve_cases(&self, cases: Vec<String>, config: CommandConfig) -> (r: Result<
        Vec<(ChallengeCommand, ChallengeCase)>,
        ChallengeCaseError,
    >)
        ensures
            walk_matches(
                locate_all(*self, strings_view(cases@), config@),
                r,
                |r: Vec<(ChallengeCommand, ChallengeCase)>, w: Seq<(CommandModel, CaseModel)>|
                    located_pairs(r, w),
            ),
    {
        assert(strings_view(cases@).subrange(0, cases.len() as int) =~= strings_view(cases@));
        self.collect_from(&cases, 0, &config)
    }
}

/// The parts of a group all hold `m` cases.
pub open spec fn uniform_parts(parts: Seq<ChallengeConfig>, m: nat) -> bool {
    forall|i: int|
        0 <= i < parts.len() ==> (#[trigger] parts[i]) is Part && parts[i]->Part_0.cases.len() == m
}

proof fn lemma_uniform_leaves(parts: Seq<ChallengeConfig>, m: nat, k: int, inv: ConfigModel)
    requires
        uniform_parts(parts, m),
        0 <= k <= parts.len(),
    ensures
        leaves_upto(parts, k, inv).len() == k * m,
        forall|i: int, j: int|
            0 <= i < k && 0 <= j < m ==> #[trigger] leaves_upto(parts, k, inv)[i * m + j] == (
                parts[i]->Part_0.command@,
                with_overlay(parts[i]->Part_0.cases@[j]@, parts[i]->Part_0.name@, inv),
            ),
    decreases k,
{
    if k > 0 {
        lemma_uniform_leaves(parts, m, k - 1, inv);
        let prev = leaves_upto(parts, k - 1, inv);
        let last = leaves(parts[k - 1], inv);
        assert(parts[k - 1] is Part);
        assert(last.len() == m);
        assert(leaves_upto(parts, k, inv) == prev + last);
        assert((k - 1) * m + m == k * m) by (nonlinear_arith);
        assert forall|i: int, j: int| 0 <= i < k && 0 <= j < m implies #[trigger] leaves_upto(
            parts,
            k,
            inv,
        )[i * m + j] == (
            parts[i]->Part_0.command@,
            with_overlay(parts[i]->Part_0.cases@[j]@, parts[i]->Part_0.name@, inv),
        ) by {
            if i < k - 1 {
                assert(i * m + j < (k - 1) * m) by (nonlinear_arith)
                    requires
                        0 <= i < k - 1,
                        0 <= j < m,
                ;
                assert(0 <= i * m) by (nonlinear_arith)
                    requires
                        0 <= i,
                        0 <= m,
                ;
                assert(prev[i * m + j] == (
                    parts[i]->Part_0.command@,
                    with_overlay(parts[i]->Part_0.cases@[j]@, parts[i]->Part_0.name@, inv),
                ));
            } else {
                assert(i * m + j == (k - 1) * m + j);
                assert(last[j] == (
                    parts[i]->Part_0.command@,
                    with_overlay(parts[i]->Part_0.cases@[j]@, parts[i]->Part_0.name@, inv),
                ));
            }
        }
    }
}

/// A batch run over a group of `n` parts with `m` cases each selects all
/// `n * m` cases: the `j`-th case of the `i`-th part comes at `i * m + j`,
/// with its part's command.
pub proof fn lemma_batch_covers_every_case(g: ChallengeConfigGroup, m: nat, inv: ConfigModel)
    requires
        uniform_parts(g.parts@, m),
    ensures
        locate_all(ChallengeConfig::Group(g), Seq::empty(), inv) == Walk::Found(
            leaves(ChallengeConfig::Group(g), inv),
        ),
        leaves(ChallengeConfig::Group(g), inv).len() == g.parts.len() * m,
        forall|i: int, j: int|
            0 <= i < g.parts.len() && 0 <= j < m ==> #[trigger] leaves(
                ChallengeConfig::Group(g),
                inv,
            )[i * m + j] == (
                g.parts@[i]->Part_0.command@,
                with_overlay(g.parts@[i]->Part_0.cases@[j]@, g.parts@[i]->Part_0.name@, inv),
            ),
{
    lemma_uniform_leaves(g.parts@, m, g.parts@.len() as int, inv);
}

} // verus!
