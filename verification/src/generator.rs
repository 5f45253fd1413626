//! Layout of the generated bindings of a project: the tree of `.simf`
//! sources mirrored into Rust modules, and the code of each module.
use vstd::prelude::*;

use simplicityhl::parse::ParseFromStr;

use crate::bindings::{join, join_step, lemma_join_step, string_literal, string_literal_exec};
use crate::names::{
    convert_contract_name_to_contract_module, convert_contract_name_to_contract_source_const,
    convert_contract_name_to_struct_name, module_text, source_const_text, struct_name_text,
};

verus! {

/// Generates the Rust bindings of a project's `.simf` sources.
#[derive(PartialEq, Eq, Debug)]
pub struct ArtifactsGenerator {}

/// One processed `.simf` source: its path relative to the sources' base
/// directory, the path of its mirrored copy, and its contract name.
#[derive(PartialEq, Eq, Debug)]
pub struct SimfArtifact {
    pub relative_path: String,
    pub mirrored_path: String,
    pub contract_name: String,
}

/// Mathematical model of an artifact.
pub struct ArtifactModel {
    pub relative_path: Seq<char>,
    pub mirrored_path: Seq<char>,
    pub contract_name: Seq<char>,
}

impl View for SimfArtifact {
    type V = ArtifactModel;

    open spec fn view(&self) -> ArtifactModel {
        ArtifactModel {
            relative_path: self.relative_path@,
            mirrored_path: self.mirrored_path@,
            contract_name: self.contract_name@,
        }
    }
}

/// A directory of the tree: the artifacts directly in it and its
/// subdirectories by name.
#[derive(PartialEq, Eq, Debug)]
pub struct TreeNode {
    pub files: Vec<SimfArtifact>,
    pub dirs: Vec<(String, TreeNode)>,
}

/// Mathematical model of a directory of the tree.
pub struct TreeModel {
    pub files: Seq<ArtifactModel>,
    pub dirs: Seq<(Seq<char>, TreeModel)>,
}

pub open spec fn tree_view(t: TreeNode) -> TreeModel
    decreases t,
{
    TreeModel {
        files: t.files@.map_values(|a: SimfArtifact| a@),
        dirs: dirs_view(t.dirs@),
    }
}

pub open spec fn dirs_view(s: Seq<(String, TreeNode)>) -> Seq<(Seq<char>, TreeModel)>
    decreases s,
{
    if s.len() == 0 {
        Seq::empty()
    } else {
        dirs_view(s.drop_last()).push((s.last().0@, tree_view(s.last().1)))
    }
}

impl View for TreeNode {
    type V = TreeModel;

    open spec fn view(&self) -> TreeModel {
        tree_view(*self)
    }
}

pub proof fn lemma_dirs_view(s: Seq<(String, TreeNode)>)
    ensures
        dirs_view(s).len() == s.len(),
        forall|i: int|
            0 <= i < s.len() ==> #[trigger] dirs_view(s)[i] == (s[i].0@, tree_view(s[i].1)),
    decreases s.len(),
{
    if s.len() > 0 {
        lemma_dirs_view(s.drop_last());
    }
}

/// The empty directory.
pub open spec fn empty_tree() -> TreeModel {
    TreeModel { files: Seq::empty(), dirs: Seq::empty() }
}

/// Whether a path segment names a directory or file, rather than being
/// empty, `.` or `..`.
pub open spec fn is_normal_segment(c: Seq<char>) -> bool {
    c.len() > 0 && c != "."@ && c != ".."@
}

/// `acc` with the segment `cur` appended if it is a normal one.
pub open spec fn flush_segment(acc: Seq<Seq<char>>, cur: Seq<char>) -> Seq<Seq<char>> {
    if is_normal_segment(cur) {
        acc.push(cur)
    } else {
        acc
    }
}

/// The normal segments of `p`, continuing a scan that has gathered `acc`
/// and is inside the segment `cur`.
pub open spec fn segments_from(p: Seq<char>, cur: Seq<char>, acc: Seq<Seq<char>>) -> Seq<Seq<char>>
    decreases p.len(),
{
    if p.len() == 0 {
        flush_segment(acc, cur)
    } else if p[0] == '/' {
        segments_from(p.drop_first(), Seq::empty(), flush_segment(acc, cur))
    } else {
        segments_from(p.drop_first(), cur.push(p[0]), acc)
    }
}

/// The names in a relative path: its `/`-separated segments, without
/// empty ones, `.` and `..`.
pub open spec fn path_components(p: Seq<char>) -> Seq<Seq<char>> {
    segments_from(p, Seq::empty(), Seq::empty())
}

/// The directories of a path: all of its names but the last.
pub open spec fn dir_components(p: Seq<char>) -> Seq<Seq<char>> {
    let c = path_components(p);
    if c.len() == 0 {
        c
    } else {
        c.drop_last()
    }
}

/// The index of the subdirectory named `name`, if there is one.
pub open spec fn find_dir(dirs: Seq<(Seq<char>, TreeModel)>, name: Seq<char>) -> Option<int>
    decreases dirs.len(),
{
    if dirs.len() == 0 {
        None
    } else {
        match find_dir(dirs.drop_last(), name) {
            Some(i) => Some(i),
            None => if dirs.last().0 == name {
                Some(dirs.len() - 1)
            } else {
                None
            },
        }
    }
}

/// The tree with artifact `a` added in the directory reached through
/// `dirs`, creating the directories that are missing.
pub open spec fn insert_artifact(t: TreeModel, dirs: Seq<Seq<char>>, a: ArtifactModel) -> TreeModel
    decreases dirs.len(),
{
    if dirs.len() == 0 {
        TreeModel { files: t.files.push(a), dirs: t.dirs }
    } else {
        match find_dir(t.dirs, dirs[0]) {
            Some(i) => TreeModel {
                files: t.files,
                dirs: t.dirs.update(
                    i,
                    (dirs[0], insert_artifact(t.dirs[i].1, dirs.drop_first(), a)),
                ),
            },
            None => TreeModel {
                files: t.files,
                dirs: t.dirs.push((dirs[0], insert_artifact(empty_tree(), dirs.drop_first(), a))),
            },
        }
    }
}

/// The tree of a list of artifacts, each in the directory of its relative
/// path, in the order given.
pub open spec fn tree_of(arts: Seq<ArtifactModel>) -> TreeModel
    decreases arts.len(),
{
    if arts.len() == 0 {
        empty_tree()
    } else {
        insert_artifact(
            tree_of(arts.drop_last()),
            dir_components(arts.last().relative_path),
            arts.last(),
        )
    }
}

/// No two subdirectories of a directory share a name, at any depth.
pub open spec fn tree_wf(t: TreeModel) -> bool
    decreases t,
{
    &&& forall|i: int, j: int|
        0 <= i < j < t.dirs.len() ==> (#[trigger] t.dirs[i]).0 != (#[trigger] t.dirs[j]).0
    &&& forall|i: int| 0 <= i < t.dirs.len() ==> tree_wf(#[trigger] t.dirs[i].1)
}

proof fn lemma_find_dir(dirs: Seq<(Seq<char>, TreeModel)>, name: Seq<char>)
    ensures
        match find_dir(dirs, name) {
            Some(i) => 0 <= i < dirs.len() && dirs[i].0 == name,
            None => forall|i: int| 0 <= i < dirs.len() ==> (#[trigger] dirs[i]).0 != name,
        },
    decreases dirs.len(),
{
    if dirs.len() > 0 {
        lemma_find_dir(dirs.drop_last(), name);
        match find_dir(dirs.drop_last(), name) {
            Some(i) => {},
            None => {
                assert forall|i: int| 0 <= i < dirs.len() - 1 implies (#[trigger] dirs[i]).0
                    != name by {
                    assert(dirs.drop_last()[i] == dirs[i]);
                }
            },
        }
    }
}

/// Adding an artifact keeps subdirectory names distinct.
pub proof fn lemma_insert_artifact_wf(t: TreeModel, dirs: Seq<Seq<char>>, a: ArtifactModel)
    requires
        tree_wf(t),
    ensures
        tree_wf(insert_artifact(t, dirs, a)),
    decreases dirs.len(),
{
    if dirs.len() > 0 {
        lemma_find_dir(t.dirs, dirs[0]);
        match find_dir(t.dirs, dirs[0]) {
            Some(i) => {
                lemma_insert_artifact_wf(t.dirs[i].1, dirs.drop_first(), a);
                let r = insert_artifact(t, dirs, a);
                assert forall|k: int| 0 <= k < r.dirs.len() implies tree_wf(
                    #[trigger] r.dirs[k].1,
                ) by {
                    if k != i {
                        assert(r.dirs[k] == t.dirs[k]);
                    }
                }
                assert forall|k: int, j: int|
                    0 <= k < j < r.dirs.len() implies (#[trigger] r.dirs[k]).0 != (
                    #[trigger] r.dirs[j]).0 by {
                    assert(t.dirs[k].0 != t.dirs[j].0);
                }
            },
            None => {
                assert(tree_wf(empty_tree()));
                lemma_insert_artifact_wf(empty_tree(), dirs.drop_first(), a);
                let r = insert_artifact(t, dirs, a);
                assert forall|k: int| 0 <= k < r.dirs.len() implies tree_wf(
                    #[trigger] r.dirs[k].1,
                ) by {
                    if k < t.dirs.len() {
                        assert(r.dirs[k] == t.dirs[k]);
                    }
                }
                assert forall|k: int, j: int|
                    0 <= k < j < r.dirs.len() implies (#[trigger] r.dirs[k]).0 != (
                    #[trigger] r.dirs[j]).0 by {
                    if j < t.dirs.len() {
                        assert(t.dirs[k].0 != t.dirs[j].0);
                    } else {
                        assert(r.dirs[k] == t.dirs[k]);
                    }
                }
            },
        }
    }
}

/// The tree of any list of artifacts has distinct subdirectory names in
/// every directory.
pub proof fn lemma_tree_of_wf(arts: Seq<ArtifactModel>)
    ensures
        tree_wf(tree_of(arts)),
    decreases arts.len(),
{
    if arts.len() == 0 {
        assert(tree_wf(empty_tree()));
    } else {
        lemma_tree_of_wf(arts.drop_last());
        lemma_insert_artifact_wf(
            tree_of(arts.drop_last()),
            dir_components(arts.last().relative_path),
            arts.last(),
        );
    }
}

/// The names in the relative path `p` (see `path_components`).
pub fn path_components_exec(p: &str) -> (r: Vec<String>)
    ensures
        r@.map_values(|s: String| s@) == path_components(p@),
{
    let n = p.unicode_len();
    let mut out: Vec<String> = Vec::new();
    let mut start: usize = 0;
    let mut i: usize = 0;
    assert(p@.subrange(0, 0) =~= Seq::<char>::empty());
    assert(p@.subrange(0, n as int) =~= p@);
    assert(out@.map_values(|s: String| s@) =~= Seq::<Seq<char>>::empty());
    while i < n
        invariant
            start <= i <= n,
            n == p@.len(),
            segments_from(
                p@.subrange(i as int, n as int),
                p@.subrange(start as int, i as int),
                out@.map_values(|s: String| s@),
            ) == path_components(p@),
        decreases n - i,
    {
        let c = p.get_char(i);
        let ghost rest = p@.subrange(i as int, n as int);
        assert(rest[0] == c);
        assert(rest.drop_first() =~= p@.subrange(i + 1, n as int));
        if c == '/' {
            let seg = p.substring_char(start, i);
            let ghost prev = out@.map_values(|s: String| s@);
            let normal = !(i == start || crate::text::str_eq(seg, ".") || crate::text::str_eq(
                seg,
                "..",
            ));
            if normal {
                out.push(String::from_str(seg));
            }
            assert(out@.map_values(|s: String| s@) =~= flush_segment(prev, seg@));
            start = i + 1;
            assert(p@.subrange(start as int, i + 1) =~= Seq::<char>::empty());
        } else {
            assert(p@.subrange(start as int, i + 1) =~= p@.subrange(start as int, i as int).push(
                c,
            ));
        }
        i += 1;
    }
    let seg = p.substring_char(start, n);
    let ghost prev = out@.map_values(|s: String| s@);
    let normal = !(n == start || crate::text::str_eq(seg, ".") || crate::text::str_eq(seg, ".."));
    if normal {
        out.push(String::from_str(seg));
    }
    assert(out@.map_values(|s: String| s@) =~= flush_segment(prev, seg@));
    out
}

/// The index of the subdirectory named `name`, if there is one.
#[verifier::loop_isolation(false)]
fn find_dir_exec(dirs: &Vec<(String, TreeNode)>, name: &str) -> (r: Option<usize>)
    ensures
        match r {
            Some(i) => find_dir(dirs_view(dirs@), name@) == Some(i as int),
            None => find_dir(dirs_view(dirs@), name@) is None,
        },
{
    proof {
        lemma_dirs_view(dirs@);
        lemma_find_dir(dirs_view(dirs@), name@);
    }
    let mut i: usize = 0;
    while i < dirs.len()
        invariant
            i <= dirs@.len(),
            dirs_view(dirs@).len() == dirs@.len(),
            forall|j: int| 0 <= j < i ==> (#[trigger] dirs@[j]).0@ != name@,
        decreases dirs@.len() - i,
    {
        if crate::text::str_eq(dirs[i].0.as_str(), name) {
            proof {
                lemma_find_dir_first(dirs_view(dirs@), name@, i as int);
            }
            return Some(i);
        }
        i += 1;
    }
    proof {
        if find_dir(dirs_view(dirs@), name@) is Some {
            let k = find_dir(dirs_view(dirs@), name@).unwrap();
            assert(dirs_view(dirs@)[k].0 == dirs@[k].0@);
        }
    }
    None
}

proof fn lemma_find_dir_first(dirs: Seq<(Seq<char>, TreeModel)>, name: Seq<char>, i: int)
    requires
        0 <= i < dirs.len(),
        dirs[i].0 == name,
        forall|j: int| 0 <= j < i ==> (#[trigger] dirs[j]).0 != name,
    ensures
        find_dir(dirs, name) == Some(i),
    decreases dirs.len(),
{
    if i < dirs.len() - 1 {
        assert forall|j: int| 0 <= j < i implies (#[trigger] dirs.drop_last()[j]).0 != name by {
            assert(dirs.drop_last()[j] == dirs[j]);
        }
        lemma_find_dir_first(dirs.drop_last(), name, i);
    } else {
        lemma_find_dir(dirs.drop_last(), name);
        if find_dir(dirs.drop_last(), name) is Some {
            let k = find_dir(dirs.drop_last(), name).unwrap();
            assert(dirs.drop_last()[k] == dirs[k]);
        }
    }
}

/// Adds `art` to the directory reached through `dirs[k..]`, creating the
/// directories that are missing.
fn insert_artifact_exec(node: TreeNode, dirs: &Vec<String>, k: usize, art: SimfArtifact) -> (r:
    TreeNode)
    requires
        k <= dirs@.len(),
    ensures
        r@ == insert_artifact(node@, dirs@.map_values(|s: String| s@).skip(k as int), art@),
    decreases dirs@.len() - k,
{
    let ghost ds = dirs@.map_values(|s: String| s@).skip(k as int);
    let mut node = node;
    let ghost t = node@;
    if k == dirs.len() {
        let ghost av = art@;
        node.files.push(art);
        assert(node@.files =~= t.files.push(av));
        assert(ds.len() == 0);
        return node;
    }
    assert(ds[0] == dirs@[k as int]@);
    assert(ds.drop_first() =~= dirs@.map_values(|s: String| s@).skip(k + 1));
    proof {
        lemma_dirs_view(node.dirs@);
        lemma_find_dir(dirs_view(node.dirs@), ds[0]);
    }
    match find_dir_exec(&node.dirs, dirs[k].as_str()) {
        Some(i) => {
            let ghost old_dirs = node.dirs@;
            let (name, child) = node.dirs.remove(i);
            assert(tree_view(child) == t.dirs[i as int].1);
            let child2 = insert_artifact_exec(child, dirs, k + 1, art);
            node.dirs.insert(i, (name, child2));
            proof {
                lemma_dirs_view(node.dirs@);
                assert(node.dirs@ =~= old_dirs.update(i as int, (name, child2)));
                assert(dirs_view(node.dirs@) =~= t.dirs.update(
                    i as int,
                    (ds[0], insert_artifact(t.dirs[i as int].1, ds.drop_first(), art@)),
                ));
            }
            node
        },
        None => {
            let fresh = TreeNode { files: Vec::new(), dirs: Vec::new() };
            assert(tree_view(fresh) =~= empty_tree()) by {
                assert(fresh.files@.map_values(|a: SimfArtifact| a@) =~= Seq::<ArtifactModel>::empty());
            }
            let child = insert_artifact_exec(fresh, dirs, k + 1, art);
            let ghost old_dirs = node.dirs@;
            node.dirs.push((dirs[k].clone(), child));
            proof {
                assert(node.dirs@.drop_last() =~= old_dirs);
            }
            node
        },
    }
}

impl ArtifactsGenerator {
    /// Arranges a flat list of artifacts into a tree mirroring the source
    /// directory layout.
    pub fn build_tree(artifacts: Vec<SimfArtifact>) -> (r: TreeNode)
        ensures
            r@ == tree_of(artifacts@.map_values(|a: SimfArtifact| a@)),
            tree_wf(r@),
            tree_size(r@) == artifacts@.len(),
    {
        let ghost arts = artifacts@.map_values(|a: SimfArtifact| a@);
        let mut root = TreeNode { files: Vec::new(), dirs: Vec::new() };
        assert(root@ =~= empty_tree()) by {
            assert(root.files@.map_values(|a: SimfArtifact| a@) =~= Seq::<ArtifactModel>::empty());
        }
        let mut rest = artifacts;
        let ghost n = arts.len();
        let total = rest.len();
        let mut i: usize = 0;
        while rest.len() > 0
            invariant
                i + rest@.len() == n,
                n == total,
                n == arts.len(),
                forall|j: int| 0 <= j < rest@.len() ==> #[trigger] rest@[j]@ == arts[i + j],
                root@ == tree_of(arts.take(i as int)),
            decreases rest@.len(),
        {
            let ghost before = rest@;
            let artifact = rest.remove(0);
            assert(forall|j: int| 0 <= j < rest@.len() ==> rest@[j] == before[j + 1]);
            assert(artifact@ == arts[i as int]);
            let components = path_components_exec(artifact.relative_path.as_str());
            let mut dirs = components;
            if dirs.len() > 0 {
                dirs.pop();
            }
            let ghost cs = path_components(artifact.relative_path@);
            assert(dirs@.map_values(|s: String| s@) =~= dir_components(artifact.relative_path@));
            assert(dirs@.map_values(|s: String| s@).skip(0) =~= dirs@.map_values(|s: String| s@));
            root = insert_artifact_exec(root, &dirs, 0, artifact);
            proof {
                assert(arts.take(i + 1).drop_last() =~= arts.take(i as int));
                assert(arts.take(i + 1).last() == arts[i as int]);
            }
            i += 1;
        }
        assert(arts.take(n as int) =~= arts);
        proof {
            lemma_tree_of_wf(arts);
            lemma_tree_of_size(arts);
        }
        root
    }
}

/// The code of the bindings file of one contract: a program struct for it
/// and the bindings module expanded from its mirrored source.
pub open spec fn simf_binding_code(contract_name: Seq<char>, target_simf: Seq<char>) -> Seq<char> {
    let program = struct_name_text(contract_name) + "Program"@;
    "use simplex::include_simf; use simplex::program::{ArgumentsTrait, Program}; use simplex::provider::SimplicityNetwork; use simplex::simplicityhl::elements::Script; use simplex::simplicityhl::elements::secp256k1_zkp::XOnlyPublicKey; pub struct "@
        + program + " { program: Program, } impl "@ + program
        + " { pub const SOURCE: &'static str = "@ + module_text(contract_name) + "::"@
        + source_const_text(contract_name)
        + "; #[must_use] pub fn new(arguments: &impl ArgumentsTrait) -> Self { Self { program: Program::new(Self::SOURCE, arguments), } } #[must_use] pub fn with_taproot_pubkey(mut self, pub_key: XOnlyPublicKey) -> Self { self.program = self.program.with_taproot_pubkey(pub_key); self } #[must_use] pub fn with_storage_capacity(mut self, capacity: usize) -> Self { self.program = self.program.with_storage_capacity(capacity); self } pub fn set_storage_at(&mut self, index: usize, new_value: impl Into<Vec<u8>>) { self.program.set_storage_at(index, new_value); } #[must_use] pub fn get_storage_len(&self) -> usize { self.program.get_storage_len() } #[must_use] pub fn get_storage(&self) -> &[Vec<u8>] { self.program.get_storage() } #[must_use] pub fn get_storage_at(&self, index: usize) -> Vec<u8> { self.program.get_storage_at(index) } #[must_use] pub fn get_script_pubkey(&self, network: &SimplicityNetwork) -> Script { self.program.get_script_pubkey(network) } #[must_use] pub fn get_script_hash(&self, network: &SimplicityNetwork) -> [u8; 32] { self.program.get_script_hash(network) } #[must_use] pub fn get_cmr(&self) -> [u8; 32] { self.program.get_cmr() } #[must_use] pub fn get_tapleaf_hash(&self) -> [u8; 32] { self.program.get_tapleaf_hash() } } impl AsRef<Program> for "@
        + program + " { fn as_ref(&self) -> &Program { &self.program } } impl AsMut<Program> for "@
        + program + " { fn as_mut(&mut self) -> &mut Program { &mut self.program } } include_simf!("@
        + string_literal(target_simf) + ");"@
}

/// The code of a directory's `mod.rs`: a module per name.
pub open spec fn mod_binding_code(mod_names: Seq<Seq<char>>) -> Seq<char> {
    "#![allow(clippy::all)] "@ + join(
        mod_names.map_values(|m: Seq<char>| "#[rustfmt::skip] pub mod "@ + m + "; "@),
        Seq::empty(),
    )
}

impl ArtifactsGenerator {
    /// The code of the bindings file of contract `contract_name` whose
    /// mirrored source is at `target_simf`.
    pub fn generate_simf_binding_code(contract_name: &str, target_simf: &str) -> (r: String)
        ensures
            r@ == simf_binding_code(contract_name@, target_simf@),
    {
        let mut program = convert_contract_name_to_struct_name(contract_name);
        program.append("Program");
        let p = program.as_str();
        let module = convert_contract_name_to_contract_module(contract_name);
        let source_const = convert_contract_name_to_contract_source_const(contract_name);
        let target = string_literal_exec(target_simf);
        let mut s = String::from_str(
            "use simplex::include_simf; use simplex::program::{ArgumentsTrait, Program}; use simplex::provider::SimplicityNetwork; use simplex::simplicityhl::elements::Script; use simplex::simplicityhl::elements::secp256k1_zkp::XOnlyPublicKey; pub struct ",
        );
        s.append(p);
        s.append(" { program: Program, } impl ");
        s.append(p);
        s.append(" { pub const SOURCE: &'static str = ");
        s.append(module.as_str());
        s.append("::");
        s.append(source_const.as_str());
        s.append(
            "; #[must_use] pub fn new(arguments: &impl ArgumentsTrait) -> Self { Self { program: Program::new(Self::SOURCE, arguments), } } #[must_use] pub fn with_taproot_pubkey(mut self, pub_key: XOnlyPublicKey) -> Self { self.program = self.program.with_taproot_pubkey(pub_key); self } #[must_use] pub fn with_storage_capacity(mut self, capacity: usize) -> Self { self.program = self.program.with_storage_capacity(capacity); self } pub fn set_storage_at(&mut self, index: usize, new_value: impl Into<Vec<u8>>) { self.program.set_storage_at(index, new_value); } #[must_use] pub fn get_storage_len(&self) -> usize { self.program.get_storage_len() } #[must_use] pub fn get_storage(&self) -> &[Vec<u8>] { self.program.get_storage() } #[must_use] pub fn get_storage_at(&self, index: usize) -> Vec<u8> { self.program.get_storage_at(index) } #[must_use] pub fn get_script_pubkey(&self, network: &SimplicityNetwork) -> Script { self.program.get_script_pubkey(network) } #[must_use] pub fn get_script_hash(&self, network: &SimplicityNetwork) -> [u8; 32] { self.program.get_script_hash(network) } #[must_use] pub fn get_cmr(&self) -> [u8; 32] { self.program.get_cmr() } #[must_use] pub fn get_tapleaf_hash(&self) -> [u8; 32] { self.program.get_tapleaf_hash() } } impl AsRef<Program> for ",
        );
        s.append(p);
        s.append(" { fn as_ref(&self) -> &Program { &self.program } } impl AsMut<Program> for ");
        s.append(p);
        s.append(" { fn as_mut(&mut self) -> &mut Program { &mut self.program } } include_simf!(");
        s.append(target.as_str());
        s.append(");");
        assert(s@ =~= simf_binding_code(contract_name@, target_simf@));
        s
    }

    /// The code of a directory's `mod.rs`, declaring a module per name.
    pub fn generate_mod_binding_code(mod_names: &Vec<String>) -> (r: String)
        ensures
            r@ == mod_binding_code(mod_names@.map_values(|m: String| m@)),
    {
        let ghost parts = mod_names@.map_values(
            |m: String| "#[rustfmt::skip] pub mod "@ + m@ + "; "@,
        );
        let mut body = String::new();
        let mut i: usize = 0;
        while i < mod_names.len()
            invariant
                i <= mod_names@.len(),
                parts == mod_names@.map_values(
                    |m: String| "#[rustfmt::skip] pub mod "@ + m@ + "; "@,
                ),
                parts.len() == mod_names@.len(),
                body@ == join(parts.take(i as int), Seq::empty()),
            decreases mod_names@.len() - i,
        {
            let mut p = String::from_str("#[rustfmt::skip] pub mod ");
            p.append(mod_names[i].as_str());
            p.append("; ");
            assert(p@ =~= parts[i as int]);
            proof {
                lemma_join_step(parts, Seq::empty(), i as int);
                reveal_strlit("");
            }
            join_step(&mut body, i, "", p.as_str());
            i += 1;
        }
        assert(parts.take(mod_names@.len() as int) =~= parts);
        assert(parts =~= mod_names@.map_values(|m: String| m@).map_values(
            |m: Seq<char>| "#[rustfmt::skip] pub mod "@ + m + "; "@,
        ));
        let mut s = String::from_str("#![allow(clippy::all)] ");
        s.append(body.as_str());
        s
    }
}

/// What building the bindings of a project can fail on.
#[derive(PartialEq, Eq, Debug)]
pub enum BuildError {
    /// No path from the working directory to a mirrored source exists.
    FailedToFindCorrectRelativePath { cwd: String, simf_file: String },
    /// Generating a binding failed, for the reason given.
    GenerationFailed(String),
}

/// The text of an optional string.
pub open spec fn option_text(o: Option<String>) -> Option<Seq<char>> {
    match o {
        Some(s) => Some(s@),
        None => None,
    }
}

/// What `pathdiff::diff_paths` gives for two paths, as text.
pub uninterp spec fn path_diff(path: Seq<char>, base: Seq<char>) -> Option<Seq<char>>;

/// Calls `pathdiff::diff_paths(path, base)`: the path that leads from the
/// directory `base` to `path`, if there is one. Its result is named by
/// `path_diff`; what counts as an absolute path is the platform's, so no
/// more is stated of it here.
#[verifier::external_body]
fn diff_paths(path: &str, base: &str) -> (r: Option<String>)
    ensures
        option_text(r) == path_diff(path@, base@),
{
    pathdiff::diff_paths(path, base).map(|p| p.to_string_lossy().into_owned())
}

/// The path that leads from the directory `base` to `path`, if there is one.
pub fn relative_path(path: &str, base: &str) -> (r: Option<String>)
    ensures
        option_text(r) == path_diff(path@, base@),
{
    diff_paths(path, base)
}

/// What `syn::parse_file` reports for a text: `None` when it parses as a
/// Rust file, else the error's message.
pub uninterp spec fn parse_file_error(code: Seq<char>) -> Option<Seq<char>>;

/// What `prettyplease::unparse` prints for the file that `syn::parse_file`
/// parses from a text.
pub uninterp spec fn formatted_rust(code: Seq<char>) -> Seq<char>;

/// Whether a character may stand in a plain ASCII identifier.
pub open spec fn ident_char(c: char) -> bool {
    ('a' <= c && c <= 'z') || ('A' <= c && c <= 'Z') || ('0' <= c && c <= '9') || c == '_'
}

/// Whether a text is a plain ASCII identifier: letters, digits and `_`.
pub open spec fn ident_text(s: Seq<char>) -> bool {
    s.len() > 0 && forall|i: int| 0 <= i < s.len() ==> ident_char(#[trigger] s[i])
}

/// Whether `s` is a plain ASCII identifier.
pub fn is_ident_text(s: &str) -> (r: bool)
    ensures
        r == ident_text(s@),
{
    let n = s.unicode_len();
    if n == 0 {
        return false;
    }
    let mut i: usize = 0;
    while i < n
        invariant
            i <= n,
            n == s@.len(),
            forall|j: int| 0 <= j < i ==> ident_char(#[trigger] s@[j]),
        decreases n - i,
    {
        let c = s.get_char(i);
        if !(('a' <= c && c <= 'z') || ('A' <= c && c <= 'Z') || ('0' <= c && c <= '9') || c == '_') {
            assert(!ident_char(s@[i as int]));
            return false;
        }
        i += 1;
    }
    true
}

/// The texts that the generator lays out as Rust files: the bindings of a
/// contract whose name is a plain identifier, and a `mod.rs` whose module
/// names are plain identifiers. Their only patterns are identifiers and
/// `self` receivers.
pub open spec fn generated_text(code: Seq<char>) -> bool {
    ||| exists|name: Seq<char>, target: Seq<char>|
        ident_text(name) && code == #[trigger] simf_binding_code(name, target)
    ||| exists|names: Seq<Seq<char>>|
        (forall|i: int| 0 <= i < names.len() ==> ident_text(#[trigger] names[i])) && code
            == #[trigger] mod_binding_code(names)
}

/// Calls `syn::parse_file` and prints the parsed file with
/// `prettyplease::unparse`, or gives the parser's message. Whether it
/// parses and the message are named by `parse_file_error`, the printed text
/// by `formatted_rust`. prettyplease stops on syntax it does not print (box
/// patterns and other verbatim syntax among them), so the text is limited
/// to the generator's own output, which holds none.
#[verifier::external_body]
fn format_rust(code: &str) -> (r: Result<String, String>)
    requires
        generated_text(code@),
    ensures
        r matches Ok(s) ==> parse_file_error(code@) is None && s@ == formatted_rust(code@),
        r matches Err(m) ==> parse_file_error(code@) == Some(m@),
{
    syn::parse_file(code).map(|file| prettyplease::unparse(&file)).map_err(|e| e.to_string())
}

impl ArtifactsGenerator {
    /// The code of the bindings file of contract `contract_name`, whose
    /// mirrored source is at `mirrored_path`, naming that source relative to
    /// the working directory `cwd`.
    pub fn simf_binding_code_for(contract_name: &str, mirrored_path: &str, cwd: &str) -> (r: Result<
        String,
        BuildError,
    >)
        ensures
            match path_diff(mirrored_path@, cwd@) {
                Some(p) => r matches Ok(code) && code@ == simf_binding_code(contract_name@, p),
                None => r matches Err(BuildError::FailedToFindCorrectRelativePath { cwd: c, simf_file: f })
                    && c@ == cwd@ && f@ == mirrored_path@,
            },
    {
        match relative_path(mirrored_path, cwd) {
            Some(p) => Ok(ArtifactsGenerator::generate_simf_binding_code(contract_name, p.as_str())),
            None => Err(
                BuildError::FailedToFindCorrectRelativePath {
                    cwd: String::from_str(cwd),
                    simf_file: String::from_str(mirrored_path),
                },
            ),
        }
    }

    /// The generated code laid out as a Rust file; fails with the parser's
    /// message when it is not one.
    pub fn format_file(code: &str) -> (r: Result<String, BuildError>)
        requires
            generated_text(code@),
        ensures
            match parse_file_error(code@) {
                None => r matches Ok(s) && s@ == formatted_rust(code@),
                Some(m) => r matches Err(BuildError::GenerationFailed(e)) && e@ == m,
            },
    {
        match format_rust(code) {
            Ok(s) => Ok(s),
            Err(m) => Err(BuildError::GenerationFailed(m)),
        }
    }
}

/// Whether SimplicityHL accepts a source as a whole program of its own.
pub uninterp spec fn standalone_compiles(source: Seq<char>) -> bool;

/// Calls SimplicityHL's `TemplateAst::new_with_unstable` with all unstable
/// features and the Elements jet hinter, and reports whether the source
/// was accepted; that outcome is named by `standalone_compiles`.
#[verifier::external_body]
fn compiles_standalone(source: &str) -> (r: bool)
    ensures
        r == standalone_compiles(source@),
{
    simplicityhl::TemplateAst::new_with_unstable(
        std::sync::Arc::<str>::from(source),
        &simplicityhl::UnstableFeatures::all(),
        Box::new(simplicityhl::ast::ElementsJetHinter),
    ).is_ok()
}

/// The message for contracts that declare enums and use imports.
pub open spec fn enum_import_message() -> Seq<char> {
    "Contracts that declare enums cannot use imports yet: SimplicityHL flattening wraps files in modules, while enum declarations are only valid at a file's top level"@
}

#[verifier::external_type_specification]
#[verifier::external_body]
pub struct ExParseItem(simplicityhl::parse::Item);

/// An item of a parsed SimplicityHL file, as far as enum detection reads
/// it: an enum declaration, a module with its items, or anything else.
#[derive(PartialEq, Eq, Debug)]
pub enum ParsedItem {
    EnumDeclaration,
    Module(Vec<ParsedItem>),
    Other,
}

/// Mathematical model of a parsed item.
pub enum ItemModel {
    EnumDeclaration,
    Module(Seq<ItemModel>),
    Other,
}

pub open spec fn item_view(i: ParsedItem) -> ItemModel
    decreases i,
{
    match i {
        ParsedItem::EnumDeclaration => ItemModel::EnumDeclaration,
        ParsedItem::Module(is) => ItemModel::Module(items_view(is@)),
        ParsedItem::Other => ItemModel::Other,
    }
}

pub open spec fn items_view(s: Seq<ParsedItem>) -> Seq<ItemModel>
    decreases s,
{
    if s.len() == 0 {
        Seq::empty()
    } else {
        items_view(s.drop_last()).push(item_view(s.last()))
    }
}

impl View for ParsedItem {
    type V = ItemModel;

    open spec fn view(&self) -> ItemModel {
        item_view(*self)
    }
}

/// The items of a parse, if there is one.
pub open spec fn parse_view(r: Option<Vec<ParsedItem>>) -> Option<Seq<ItemModel>> {
    match r {
        Some(is) => Some(items_view(is@)),
        None => None,
    }
}

/// The top-level items that SimplicityHL's parser reads from a source, or
/// `None` where it does not parse.
pub uninterp spec fn parsed_items(source: Seq<char>) -> Option<Seq<ItemModel>>;

/// Whether an item is an enum declaration or a module that declares one.
pub open spec fn item_declares_enum(i: ItemModel) -> bool
    decreases i,
{
    match i {
        ItemModel::EnumDeclaration => true,
        ItemModel::Module(is) => items_declare_enum(is),
        ItemModel::Other => false,
    }
}

/// Whether any of the items declares an enum, at its level or in a module.
pub open spec fn items_declare_enum(s: Seq<ItemModel>) -> bool
    decreases s,
{
    s.len() > 0 && (items_declare_enum(s.drop_last()) || item_declares_enum(s.last()))
}

/// The items of SimplicityHL's parse tree, one for one, with modules
/// converted with their items.
#[verifier::external_body]
fn item_models(items: &[simplicityhl::parse::Item]) -> Vec<ParsedItem> {
    items.iter().map(|item| match item {
        simplicityhl::parse::Item::EnumDeclaration(_) => ParsedItem::EnumDeclaration,
        simplicityhl::parse::Item::Module(module) => ParsedItem::Module(item_models(module.items())),
        simplicityhl::parse::Item::TypeAlias(_)
        | simplicityhl::parse::Item::Function(_)
        | simplicityhl::parse::Item::Use(_)
        | simplicityhl::parse::Item::Ignored => ParsedItem::Other,
    }).collect()
}

/// Calls SimplicityHL's `parse::Program::parse_from_str` and gives the
/// parsed program's items, or `None` where the source does not parse; that
/// outcome is named by `parsed_items`.
#[verifier::external_body]
fn parse_items(source: &str) -> (r: Option<Vec<ParsedItem>>)
    ensures
        parse_view(r) == parsed_items(source@),
{
    simplicityhl::parse::Program::parse_from_str(source).ok().map(|p| item_models(p.items()))
}

proof fn lemma_items_view(s: Seq<ParsedItem>)
    ensures
        items_view(s).len() == s.len(),
        forall|i: int| 0 <= i < s.len() ==> #[trigger] items_view(s)[i] == item_view(s[i]),
    decreases s.len(),
{
    if s.len() > 0 {
        lemma_items_view(s.drop_last());
    }
}

/// Whether any of the first `k` items declares an enum.
proof fn lemma_items_declare_enum_take(s: Seq<ItemModel>, k: int)
    requires
        0 <= k < s.len(),
    ensures
        items_declare_enum(s.take(k + 1)) == (items_declare_enum(s.take(k)) || item_declares_enum(
            s[k],
        )),
{
    assert(s.take(k + 1).drop_last() =~= s.take(k));
}

/// One item that declares an enum makes the list declare one.
proof fn lemma_items_declare_enum_member(s: Seq<ItemModel>, k: int)
    requires
        0 <= k < s.len(),
        item_declares_enum(s[k]),
    ensures
        items_declare_enum(s),
    decreases s.len(),
{
    if k < s.len() - 1 {
        lemma_items_declare_enum_member(s.drop_last(), k);
    }
}

/// Whether the item declares an enum, at its level or in a module.
#[verifier::loop_isolation(false)]
fn item_declares_enum_exec(item: &ParsedItem) -> (r: bool)
    ensures
        r == item_declares_enum(item@),
    decreases item,
{
    match item {
        ParsedItem::EnumDeclaration => true,
        ParsedItem::Module(items) => {
            proof {
                lemma_items_view(items@);
            }
            let mut i: usize = 0;
            assert(items_view(items@).take(0) =~= Seq::<ItemModel>::empty());
            while i < items.len()
                invariant
                    i <= items.len(),
                    !items_declare_enum(items_view(items@).take(i as int)),
                decreases items.len() - i,
            {
                proof {
                    broadcast use vstd::std_specs::vec::axiom_vec_index_decreases;
                    assert(decreases_to!(*item => items[i as int]));
                    lemma_items_declare_enum_take(items_view(items@), i as int);
                }
                if item_declares_enum_exec(&items[i]) {
                    proof {
                        lemma_items_declare_enum_member(items_view(items@), i as int);
                    }
                    return true;
                }
                i += 1;
            }
            assert(items_view(items@).take(items.len() as int) =~= items_view(items@));
            false
        },
        ParsedItem::Other => false,
    }
}

/// Whether the source declares any enum, at the top level or inside a
/// module; a source that does not parse declares none.
#[verifier::loop_isolation(false)]
pub fn declares_enums(source: &str) -> (r: bool)
    ensures
        r == (parsed_items(source@) matches Some(is) && items_declare_enum(is)),
{
    match parse_items(source) {
        None => false,
        Some(items) => {
            proof {
                lemma_items_view(items@);
            }
            let mut i: usize = 0;
            assert(items_view(items@).take(0) =~= Seq::<ItemModel>::empty());
            while i < items.len()
                invariant
                    i <= items.len(),
                    !items_declare_enum(items_view(items@).take(i as int)),
                decreases items.len() - i,
            {
                proof {
                    lemma_items_declare_enum_take(items_view(items@), i as int);
                }
                if item_declares_enum_exec(&items[i]) {
                    proof {
                        lemma_items_declare_enum_member(items_view(items@), i as int);
                    }
                    return true;
                }
                i += 1;
            }
            assert(items_view(items@).take(items.len() as int) =~= items_view(items@));
            false
        },
    }
}

/// Picks the source text to embed in build artifacts. Flattening wraps
/// every file in a module, where enum declarations are invalid, so a
/// contract that declares enums embeds its own unflattened source, which
/// must then compile on its own; other contracts embed the flattened text.
pub fn embeddable_content(source: &str, flattened: String) -> (r: Result<String, BuildError>)
    ensures
        !declares_enum_source(source@) ==> r == Ok::<String, BuildError>(flattened),
        declares_enum_source(source@) && standalone_compiles(source@) ==> (r matches Ok(s) && s@
            == source@),
        declares_enum_source(source@) && !standalone_compiles(source@) ==> (r matches Err(
            BuildError::GenerationFailed(m),
        ) && m@ == enum_import_message()),
{
    if !declares_enums(source) {
        return Ok(flattened);
    }
    if compiles_standalone(source) {
        Ok(String::from_str(source))
    } else {
        Err(
            BuildError::GenerationFailed(
                String::from_str(
                    "Contracts that declare enums cannot use imports yet: SimplicityHL flattening wraps files in modules, while enum declarations are only valid at a file's top level",
                ),
            ),
        )
    }
}

/// Whether SimplicityHL parses the source and finds an enum declared in it.
pub open spec fn declares_enum_source(source: Seq<char>) -> bool {
    parsed_items(source) matches Some(is) && items_declare_enum(is)
}

/// The number of artifacts in a tree.
pub open spec fn tree_size(t: TreeModel) -> nat
    decreases t,
{
    t.files.len() + dirs_size(t.dirs)
}

/// The number of artifacts in a list of subdirectories.
pub open spec fn dirs_size(ds: Seq<(Seq<char>, TreeModel)>) -> nat
    decreases ds,
{
    if ds.len() == 0 {
        0
    } else {
        dirs_size(ds.drop_last()) + tree_size(ds.last().1)
    }
}

proof fn lemma_dirs_size_update(ds: Seq<(Seq<char>, TreeModel)>, i: int, x: (Seq<char>, TreeModel))
    requires
        0 <= i < ds.len(),
    ensures
        dirs_size(ds.update(i, x)) + tree_size(ds[i].1) == dirs_size(ds) + tree_size(x.1),
    decreases ds.len(),
{
    let u = ds.update(i, x);
    if i == ds.len() - 1 {
        assert(u.drop_last() =~= ds.drop_last());
    } else {
        lemma_dirs_size_update(ds.drop_last(), i, x);
        assert(u.drop_last() =~= ds.drop_last().update(i, x));
    }
}

/// Adding an artifact to a tree adds one artifact to it.
pub proof fn lemma_insert_artifact_size(t: TreeModel, dirs: Seq<Seq<char>>, a: ArtifactModel)
    ensures
        tree_size(insert_artifact(t, dirs, a)) == tree_size(t) + 1,
    decreases dirs.len(),
{
    if dirs.len() > 0 {
        lemma_find_dir(t.dirs, dirs[0]);
        match find_dir(t.dirs, dirs[0]) {
            Some(i) => {
                lemma_insert_artifact_size(t.dirs[i].1, dirs.drop_first(), a);
                lemma_dirs_size_update(
                    t.dirs,
                    i,
                    (dirs[0], insert_artifact(t.dirs[i].1, dirs.drop_first(), a)),
                );
            },
            None => {
                lemma_insert_artifact_size(empty_tree(), dirs.drop_first(), a);
                let pushed = t.dirs.push(
                    (dirs[0], insert_artifact(empty_tree(), dirs.drop_first(), a)),
                );
                assert(pushed.drop_last() =~= t.dirs);
                assert(dirs_size(empty_tree().dirs) == 0);
            },
        }
    }
}

/// The tree of a list of artifacts holds every one of them.
pub proof fn lemma_tree_of_size(arts: Seq<ArtifactModel>)
    ensures
        tree_size(tree_of(arts)) == arts.len(),
    decreases arts.len(),
{
    if arts.len() == 0 {
        assert(dirs_size(empty_tree().dirs) == 0);
    } else {
        lemma_tree_of_size(arts.drop_last());
        lemma_insert_artifact_size(
            tree_of(arts.drop_last()),
            dir_components(arts.last().relative_path),
            arts.last(),
        );
    }
}

} // verus!
