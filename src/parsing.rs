//! The tree as written in a challenge document, and its resolution:
//! commands and overlays are inherited from the root down.

use vstd::prelude::*;

use crate::case::{ChallengeCase, ChallengeExpectation, StringReference};
use crate::command::{ChallengeCommand, ChallengeCommandScript, CommandModel, ScriptModel};
use crate::errors::ChallengeParseError;
use crate::overlay::{copy_strings, empty_model, merge_models, strings_view, CommandConfig, ConfigModel};
use crate::tree::{
    is_first_case, is_first_child, locate, node_name, ChallengeConfig, ChallengeConfigGroup,
    ChallengeConfigPart,
};

verus! {

/// An expectation as written.
#[derive(Debug)]
pub struct ChallengeExpectationData {
    pub stdout: StringReference,
}

/// A case as written: its own overlay, input and expectation.
#[derive(Debug)]
pub struct ChallengeCaseData {
    pub config: CommandConfig,
    pub stdin: Option<StringReference>,
    pub expected: Option<ChallengeExpectationData>,
}

/// The script of a command written as an object.
#[derive(Debug)]
pub enum ChallengeCommandScriptData {
    Shell(String),
    Exec(Vec<String>),
}

/// A command written as an object: a script, and whether to template it
/// (by default it is templated).
#[derive(Debug)]
pub struct ChallengeCommandObjectData {
    pub script: ChallengeCommandScriptData,
    pub template: Option<bool>,
}

/// A command in one of its three written forms.
#[derive(Debug)]
pub enum ChallengeCommandData {
    Shell(String),
    Exec(Vec<String>),
    Object(ChallengeCommandObjectData),
}

/// A group as written: an optional command, an overlay, and named children.
/// Children read from a document have distinct names, since they come from
/// a mapping; where a name occurs twice, lookups take the first child of
/// that name, and resolution keeps both.
#[derive(Debug)]
pub struct ChallengeConfigGroupData {
    pub command: Option<ChallengeCommandData>,
    pub config: CommandConfig,
    pub parts: Vec<(String, ChallengeConfigNode)>,
}

/// A part as written: an optional command, an overlay, and named cases.
/// Cases read from a document have distinct names; where a name occurs
/// twice, lookups take the first case of that name.
#[derive(Debug)]
pub struct ChallengeConfigPartData {
    pub command: Option<ChallengeCommandData>,
    pub config: CommandConfig,
    pub cases: Vec<(String, ChallengeCaseData)>,
}

/// A node as written.
#[derive(Debug)]
pub enum ChallengeConfigNode {
    Group(ChallengeConfigGroupData),
    Part(ChallengeConfigPartData),
}

/// A whole challenge document: the root's name and the root node.
#[derive(Debug)]
pub struct ChallengeConfigData {
    pub name: String,
    pub node: ChallengeConfigNode,
}

/// The command a written command stands for.
pub open spec fn command_model(d: ChallengeCommandData) -> CommandModel {
    match d {
        ChallengeCommandData::Shell(s) => CommandModel { script: ScriptModel::Shell(s@), template: true },
        ChallengeCommandData::Exec(l) => CommandModel {
            script: ScriptModel::Exec(strings_view(l@)),
            template: true,
        },
        ChallengeCommandData::Object(o) => CommandModel {
            script: match o.script {
                ChallengeCommandScriptData::Shell(s) => ScriptModel::Shell(s@),
                ChallengeCommandScriptData::Exec(l) => ScriptModel::Exec(strings_view(l@)),
            },
            template: match o.template {
                Some(t) => t,
                None => true,
            },
        },
    }
}

/// A node's own command where it declares one, else the inherited one.
pub open spec fn own_or_inherited(own: Option<ChallengeCommandData>, inherited: Option<CommandModel>) -> Option<
    CommandModel,
> {
    match own {
        Some(c) => Some(command_model(c)),
        None => inherited,
    }
}

/// The view of an optional command.
pub open spec fn command_opt(c: Option<ChallengeCommand>) -> Option<CommandModel> {
    match c {
        Some(x) => Some(x@),
        None => None,
    }
}

/// The expectation that a written one stands for.
pub open spec fn expectation_of(e: Option<ChallengeExpectationData>) -> Option<ChallengeExpectation> {
    match e {
        Some(x) => Some(ChallengeExpectation { stdout: x.stdout }),
        None => None,
    }
}

/// `out` is the case `raw`, named `name`, of the part `part`, whose
/// overlay so far is `cfg`.
pub open spec fn case_resolved(
    raw: ChallengeCaseData,
    name: Seq<char>,
    part: Seq<char>,
    cfg: ConfigModel,
    out: ChallengeCase,
) -> bool {
    &&& out.name@ == name
    &&& out.parent_name@ == part
    &&& out.config@ == merge_models(cfg, raw.config@)
    &&& out.stdin == raw.stdin
    &&& out.expected == expectation_of(raw.expected)
}

/// `out` is `node`, named `name`, resolved below ancestors that handed down
/// the command `cmd` and the overlay `cfg`.
pub open spec fn resolves_to(
    node: ChallengeConfigNode,
    name: Seq<char>,
    cmd: Option<CommandModel>,
    cfg: ConfigModel,
    out: ChallengeConfig,
) -> bool
    decreases node,
{
    match node {
        ChallengeConfigNode::Group(g) => {
            let cmd2 = own_or_inherited(g.command, cmd);
            let cfg2 = merge_models(cfg, g.config@);
            &&& out is Group
            &&& out->Group_0.name@ == name
            &&& out->Group_0.parts.len() == g.parts.len()
            &&& forall|i: int|
                0 <= i < g.parts.len() ==> resolves_to(
                    g.parts@[i].1,
                    g.parts@[i].0@,
                    cmd2,
                    cfg2,
                    #[trigger] out->Group_0.parts@[i],
                )
        },
        ChallengeConfigNode::Part(p) => {
            let cmd2 = own_or_inherited(p.command, cmd);
            let cfg2 = merge_models(cfg, p.config@);
            &&& cmd2 is Some
            &&& out is Part
            &&& out->Part_0.name@ == name
            &&& out->Part_0.command@ == cmd2->Some_0
            &&& out->Part_0.cases.len() == p.cases.len()
            &&& forall|i: int|
                0 <= i < p.cases.len() ==> case_resolved(
                    p.cases@[i].1,
                    p.cases@[i].0@,
                    name,
                    cfg2,
                    #[trigger] out->Part_0.cases@[i],
                )
        },
    }
}

/// Every part below `node` has a command, its own or an ancestor's;
/// `inherited` tells whether an ancestor declared one.
pub open spec fn commanded(node: ChallengeConfigNode, inherited: bool) -> bool
    decreases node,
{
    match node {
        ChallengeConfigNode::Group(g) => forall|i: int|
            0 <= i < g.parts.len() ==> commanded(
                #[trigger] g.parts@[i].1,
                inherited || g.command is Some,
            ),
        ChallengeConfigNode::Part(p) => inherited || p.command is Some,
    }
}

/// `missing` names a part below `node` (named `name`) without a command.
pub open spec fn lacks_command(
    node: ChallengeConfigNode,
    name: Seq<char>,
    inherited: bool,
    missing: Seq<char>,
) -> bool
    decreases node,
{
    match node {
        ChallengeConfigNode::Group(g) => exists|i: int|
            0 <= i < g.parts.len() && lacks_command(
                #[trigger] g.parts@[i].1,
                g.parts@[i].0@,
                inherited || g.command is Some,
                missing,
            ),
        ChallengeConfigNode::Part(p) => !inherited && p.command is None && missing == name,
    }
}

/// `r` is the resolution of `node`, named `name`, below ancestors that
/// handed down `cmd` and `cfg`: it succeeds exactly when every part has a
/// command, and otherwise names a part without one.
pub open spec fn resolution(
    node: ChallengeConfigNode,
    name: Seq<char>,
    cmd: Option<CommandModel>,
    cfg: ConfigModel,
    r: Result<ChallengeConfig, ChallengeParseError>,
) -> bool {
    &&& r is Ok <==> commanded(node, cmd is Some)
    &&& r is Ok ==> resolves_to(node, name, cmd, cfg, r->Ok_0)
    &&& r is Err ==> match r->Err_0 {
        ChallengeParseError::NoCommandFound(n) => lacks_command(node, name, cmd is Some, n@),
        _ => false,
    }
}

fn copy_command(c: &Option<ChallengeCommand>) -> (r: Option<ChallengeCommand>)
    ensures
        command_opt(r) == command_opt(*c),
{
    match c {
        Some(x) => Some(x.duplicate()),
        None => None,
    }
}

impl ChallengeCommandScript {
    /// The script that a written one stands for.
    pub fn from_data(d: &ChallengeCommandScriptData) -> (r: ChallengeCommandScript)
        ensures
            r@ == match *d {
                ChallengeCommandScriptData::Shell(s) => ScriptModel::Shell(s@),
                ChallengeCommandScriptData::Exec(l) => ScriptModel::Exec(strings_view(l@)),
            },
    {
        match d {
            ChallengeCommandScriptData::Shell(s) => ChallengeCommandScript::Shell(s.clone()),
            ChallengeCommandScriptData::Exec(l) => ChallengeCommandScript::Exec(copy_strings(l)),
        }
    }
}

impl ChallengeCommand {
    /// The command that a written one stands for; the bare string and list
    /// forms are templated.
    pub fn from_data(d: &ChallengeCommandData) -> (r: ChallengeCommand)
        ensures
            r@ == command_model(*d),
    {
        match d {
            ChallengeCommandData::Shell(s) => ChallengeCommand {
                script: ChallengeCommandScript::Shell(s.clone()),
                template: true,
            },
            ChallengeCommandData::Exec(l) => ChallengeCommand {
                script: ChallengeCommandScript::Exec(copy_strings(l)),
                template: true,
            },
            ChallengeCommandData::Object(o) => ChallengeCommand {
                script: ChallengeCommandScript::from_data(&o.script),
                template: match o.template {
                    Some(t) => t,
                    None => true,
                },
            },
        }
    }
}

impl ChallengeExpectationData {
    /// The expectation this stands for.
    pub fn to_expectation(&self) -> (r: ChallengeExpectation)
        ensures
            r == (ChallengeExpectation { stdout: self.stdout }),
    {
        ChallengeExpectation { stdout: self.stdout.duplicate() }
    }
}

impl ChallengeCaseData {
    /// The case this stands for, named `case_name`, in the part
    /// `parent_name`, whose overlay so far is `inherit_config`.
    pub fn try_resolve(&self, case_name: String, parent_name: String, inherit_config: &CommandConfig) -> (r:
        ChallengeCase)
        ensures
            case_resolved(*self, case_name@, parent_name@, inherit_config@, r),
    {
        ChallengeCase {
            name: case_name,
            parent_name,
            config: inherit_config.merge(&self.config),
            stdin: match &self.stdin {
                Some(s) => Some(s.duplicate()),
                None => None,
            },
            expected: match &self.expected {
                Some(e) => Some(e.to_expectation()),
                None => None,
            },
        }
    }
}

/// A resolution result of a group, as a node.
pub open spec fn as_group(r: Result<ChallengeConfigGroup, ChallengeParseError>) -> Result<
    ChallengeConfig,
    ChallengeParseError,
> {
    match r {
        Ok(g) => Ok(ChallengeConfig::Group(g)),
        Err(e) => Err(e),
    }
}

/// A resolution result of a part, as a node.
pub open spec fn as_part(r: Result<ChallengeConfigPart, ChallengeParseError>) -> Result<
    ChallengeConfig,
    ChallengeParseError,
> {
    match r {
        Ok(p) => Ok(ChallengeConfig::Part(p)),
        Err(e) => Err(e),
    }
}

impl ChallengeConfigPartData {
    /// Resolves this part, named `name`, below ancestors that handed down
    /// `inherit_command` and `inherit_config`.
    pub fn try_resolve(
        &self,
        name: String,
        inherit_command: &Option<ChallengeCommand>,
        inherit_config: &CommandConfig,
    ) -> (r: Result<ChallengeConfigPart, ChallengeParseError>)
        ensures
            resolution(
                ChallengeConfigNode::Part(*self),
                name@,
                command_opt(*inherit_command),
                inherit_config@,
                as_part(r),
            ),
    {
        let command = match &self.command {
            Some(c) => ChallengeCommand::from_data(c),
            None => match inherit_command {
                Some(c) => c.duplicate(),
                None => {
                    return Err(ChallengeParseError::NoCommandFound(name));
                },
            },
        };
        let config = inherit_config.merge(&self.config);
        let mut cases: Vec<ChallengeCase> = Vec::new();
        let mut i: usize = 0;
        while i < self.cases.len()
            invariant
                i <= self.cases.len(),
                cases.len() == i,
                config@ == merge_models(inherit_config@, self.config@),
                forall|j: int|
                    0 <= j < i ==> case_resolved(
                        self.cases@[j].1,
                        self.cases@[j].0@,
                        name@,
                        config@,
                        #[trigger] cases@[j],
                    ),
            decreases self.cases.len() - i,
        {
            let c = self.cases[i].1.try_resolve(self.cases[i].0.clone(), name.clone(), &config);
            cases.push(c);
            i += 1;
        }
        Ok(ChallengeConfigPart { name, command, cases })
    }
}

impl ChallengeConfigGroupData {
    /// Resolves this group, named `name`, and every node below it, below
    /// ancestors that handed down `inherit_command` and `inherit_config`.
    pub fn try_resolve(
        &self,
        name: String,
        inherit_command: &Option<ChallengeCommand>,
        inherit_config: &CommandConfig,
    ) -> (r: Result<ChallengeConfigGroup, ChallengeParseError>)
        ensures
            resolution(
                ChallengeConfigNode::Group(*self),
                name@,
                command_opt(*inherit_command),
                inherit_config@,
                as_group(r),
            ),
        decreases self,
    {
        let command = match &self.command {
            Some(c) => Some(ChallengeCommand::from_data(c)),
            None => copy_command(inherit_command),
        };
        let ghost cmd2 = own_or_inherited(self.command, command_opt(*inherit_command));
        let config = inherit_config.merge(&self.config);
        let mut parts: Vec<ChallengeConfig> = Vec::new();
        let mut i: usize = 0;
        while i < self.parts.len()
            invariant
                i <= self.parts.len(),
                parts.len() == i,
                command_opt(command) == cmd2,
                cmd2 == own_or_inherited(self.command, command_opt(*inherit_command)),
                config@ == merge_models(inherit_config@, self.config@),
                forall|j: int|
                    0 <= j < i ==> resolves_to(
                        self.parts@[j].1,
                        self.parts@[j].0@,
                        cmd2,
                        config@,
                        #[trigger] parts@[j],
                    ),
                forall|j: int|
                    0 <= j < i ==> commanded(
                        #[trigger] self.parts@[j].1,
                        command_opt(*inherit_command) is Some || self.command is Some,
                    ),
            decreases self.parts.len() - i,
        {
            proof {
                assert(decreases_to!(self.parts => self.parts[i as int])) by {
                    broadcast use vstd::std_specs::vec::axiom_vec_index_decreases;
                }
            }
            let child = &self.parts[i].1;
            match child.try_resolve(self.parts[i].0.clone(), &command, &config) {
                Ok(c) => {
                    parts.push(c);
                },
                Err(e) => {
                    return Err(e);
                },
            }
            i += 1;
        }
        Ok(ChallengeConfigGroup { name, parts })
    }
}

impl ChallengeConfigNode {
    /// Resolves this node, named `name`, and every node below it, below
    /// ancestors that handed down `inherit_command` and `inherit_config`.
    pub fn try_resolve(
        &self,
        name: String,
        inherit_command: &Option<ChallengeCommand>,
        inherit_config: &CommandConfig,
    ) -> (r: Result<ChallengeConfig, ChallengeParseError>)
        ensures
            resolution(*self, name@, command_opt(*inherit_command), inherit_config@, r),
        decreases self,
    {
        match self {
            ChallengeConfigNode::Group(g) => match g.try_resolve(name, inherit_command, inherit_config) {
                Ok(x) => Ok(ChallengeConfig::Group(x)),
                Err(e) => Err(e),
            },
            ChallengeConfigNode::Part(p) => match p.try_resolve(name, inherit_command, inherit_config) {
                Ok(x) => Ok(ChallengeConfig::Part(x)),
                Err(e) => Err(e),
            },
        }
    }

    /// Resolves this node as the root of a tree, named `name`: no command
    /// and an empty overlay are inherited.
    pub fn try_resolve_default(&self, name: String) -> (r: Result<ChallengeConfig, ChallengeParseError>)
        ensures
            resolution(*self, name@, None, empty_model(), r),
    {
        self.try_resolve(name, &None, &CommandConfig::empty())
    }
}

impl ChallengeConfig {
    /// The resolved tree of a challenge document.
    pub fn try_from(value: ChallengeConfigData) -> (r: Result<ChallengeConfig, ChallengeParseError>)
        ensures
            resolution(value.node, value.name@, None, empty_model(), r),
    {
        value.node.try_resolve_default(value.name)
    }
}

/// `i` is the first position among written children of one named `n`.
pub open spec fn is_first_written_child(parts: Seq<(String, ChallengeConfigNode)>, n: Seq<char>, i: int) -> bool {
    &&& 0 <= i < parts.len()
    &&& parts[i].0@ == n
    &&& forall|j: int| 0 <= j < i ==> (#[trigger] parts[j]).0@ != n
}

/// `i` is the first position among written cases of one named `n`.
pub open spec fn is_first_written_case(cases: Seq<(String, ChallengeCaseData)>, n: Seq<char>, i: int) -> bool {
    &&& 0 <= i < cases.len()
    &&& cases[i].0@ == n
    &&& forall|j: int| 0 <= j < i ==> (#[trigger] cases[j]).0@ != n
}

/// The overlays written on the way from `node` down `path`: each node's
/// own, from the top, and last the case's.
pub open spec fn path_overlays(node: ChallengeConfigNode, path: Seq<Seq<char>>) -> Seq<ConfigModel>
    decreases path.len(),
{
    if path.len() == 0 {
        Seq::empty()
    } else {
        match node {
            ChallengeConfigNode::Group(g) => if exists|i: int|
                is_first_written_child(g.parts@, path[0], i) {
                let i = choose|i: int| is_first_written_child(g.parts@, path[0], i);
                seq![g.config@] + path_overlays(g.parts@[i].1, path.drop_first())
            } else {
                seq![g.config@]
            },
            ChallengeConfigNode::Part(p) => if exists|i: int|
                is_first_written_case(p.cases@, path[0], i) {
                let i = choose|i: int| is_first_written_case(p.cases@, path[0], i);
                seq![p.config@, p.cases@[i].1.config@]
            } else {
                seq![p.config@]
            },
        }
    }
}

/// `acc` merged with each overlay of `s` in turn, left to right.
pub open spec fn fold_overlays(acc: ConfigModel, s: Seq<ConfigModel>) -> ConfigModel
    decreases s.len(),
{
    if s.len() == 0 {
        acc
    } else {
        fold_overlays(merge_models(acc, s[0]), s.drop_first())
    }
}

proof fn lemma_resolved_name(
    node: ChallengeConfigNode,
    name: Seq<char>,
    cmd: Option<CommandModel>,
    cfg: ConfigModel,
    out: ChallengeConfig,
)
    requires
        resolves_to(node, name, cmd, cfg, out),
    ensures
        node_name(out) == name,
{
}

proof fn lemma_overlay_along_path(
    node: ChallengeConfigNode,
    name: Seq<char>,
    cmd: Option<CommandModel>,
    cfg: ConfigModel,
    out: ChallengeConfig,
    path: Seq<Seq<char>>,
    inv: ConfigModel,
)
    requires
        resolves_to(node, name, cmd, cfg, out),
        locate(out, path, inv) is Found,
    ensures
        locate(out, path, inv)->Found_0.1.config == merge_models(
            fold_overlays(cfg, path_overlays(node, path)),
            inv,
        ),
    decreases path.len(),
{
    let n = path[0];
    match node {
        ChallengeConfigNode::Group(g) => {
            let og = out->Group_0;
            let cfg2 = merge_models(cfg, g.config@);
            let cmd2 = own_or_inherited(g.command, cmd);
            let i = choose|i: int| is_first_child(og.parts@, n, i);
            assert forall|j: int| 0 <= j < og.parts.len() implies node_name(#[trigger] og.parts@[j])
                == g.parts@[j].0@ by {
                lemma_resolved_name(g.parts@[j].1, g.parts@[j].0@, cmd2, cfg2, og.parts@[j]);
            }
            assert(is_first_written_child(g.parts@, n, i)) by {
                assert forall|j: int| 0 <= j < i implies (#[trigger] g.parts@[j]).0@ != n by {
                    assert(node_name(og.parts@[j]) != n);
                }
            }
            let k = choose|k: int| is_first_written_child(g.parts@, n, k);
            assert(k == i) by {
                if k < i {
                    assert(node_name(og.parts@[k]) != n);
                } else if k > i {
                    assert(g.parts@[i].0@ != n);
                }
            }
            lemma_overlay_along_path(g.parts@[i].1, g.parts@[i].0@, cmd2, cfg2, og.parts@[i], path.drop_first(), inv);
            let rest = path_overlays(g.parts@[i].1, path.drop_first());
            assert(locate(out, path, inv) == locate(og.parts@[i], path.drop_first(), inv));
            assert(path_overlays(node, path) == seq![g.config@] + rest);
            assert((seq![g.config@] + rest).drop_first() =~= rest);
            assert((seq![g.config@] + rest)[0] == g.config@);
        },
        ChallengeConfigNode::Part(p) => {
            let op = out->Part_0;
            let cfg2 = merge_models(cfg, p.config@);
            let i = choose|i: int| is_first_case(op.cases@, n, i);
            assert forall|j: int| 0 <= j < op.cases.len() implies (#[trigger] op.cases@[j]).name@
                == p.cases@[j].0@ by {
                assert(case_resolved(p.cases@[j].1, p.cases@[j].0@, name, cfg2, op.cases@[j]));
            }
            assert(is_first_written_case(p.cases@, n, i)) by {
                assert forall|j: int| 0 <= j < i implies (#[trigger] p.cases@[j]).0@ != n by {
                    assert(op.cases@[j].name@ != n);
                }
            }
            let k = choose|k: int| is_first_written_case(p.cases@, n, k);
            assert(k == i) by {
                if k < i {
                    assert(op.cases@[k].name@ != n);
                } else if k > i {
                    assert(p.cases@[i].0@ != n);
                }
            }
            assert(case_resolved(p.cases@[i].1, p.cases@[i].0@, name, cfg2, op.cases@[i]));
            let s = seq![p.config@, p.cases@[i].1.config@];
            assert(s.drop_first() =~= seq![p.cases@[i].1.config@]);
            assert(s.drop_first().drop_first() =~= Seq::<ConfigModel>::empty());
            let c2 = merge_models(cfg2, p.cases@[i].1.config@);
            assert(fold_overlays(c2, s.drop_first().drop_first()) == c2);
            assert(fold_overlays(cfg2, s.drop_first()) == c2);
            assert(fold_overlays(cfg, s) == c2);
            assert(path_overlays(node, path) == s);
        },
    }
}

/// The configuration of a located case is the root's overlay merged, top
/// down, with that of every node on its path, then the case's own, and
/// last the overlay handed to the lookup.
pub proof fn lemma_case_overlay_folds_path(
    data: ChallengeConfigData,
    tree: ChallengeConfig,
    path: Seq<Seq<char>>,
    inv: ConfigModel,
)
    requires
        resolves_to(data.node, data.name@, None, empty_model(), tree),
        locate(tree, path, inv) is Found,
    ensures
        locate(tree, path, inv)->Found_0.1.config == merge_models(
            fold_overlays(empty_model(), path_overlays(data.node, path)),
            inv,
        ),
{
    lemma_overlay_along_path(data.node, data.name@, None, empty_model(), tree, path, inv);
}

} // verus!
