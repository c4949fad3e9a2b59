//! The compiled artifacts that a script run reads: those of the package's
//! contracts, and that of the script itself.

use vstd::prelude::*;
use vstd::string::StringExecFns;

verus! {

/// The compiled forms of one contract, or of the script.
#[derive(Debug, PartialEq, Eq)]
pub struct StarknetContractArtifacts {
    pub sierra: String,
    pub casm: String,
}

/// Compiled forms under a name.
#[derive(Debug, PartialEq, Eq)]
pub struct NamedArtifacts {
    pub name: String,
    pub artifacts: StarknetContractArtifacts,
}

/// Compiled forms as mathematical values: the Sierra text and the CASM
/// text.
pub struct ArtifactsView {
    pub sierra: Seq<char>,
    pub casm: Seq<char>,
}

impl View for StarknetContractArtifacts {
    type V = ArtifactsView;

    open spec fn view(&self) -> ArtifactsView {
        ArtifactsView { sierra: self.sierra@, casm: self.casm@ }
    }
}

/// The mapping that a list of artifacts stands for: each name goes to the
/// last artifacts that have it.
pub open spec fn artifact_map(list: Seq<NamedArtifacts>) -> Map<Seq<char>, ArtifactsView>
    decreases list.len(),
{
    if list.len() == 0 {
        Map::empty()
    } else {
        artifact_map(list.drop_last()).insert(list.last().name@, list.last().artifacts@)
    }
}

/// The name under which the script's own artifact is kept.
pub open spec fn script_lib_artifact_name() -> Seq<char> {
    "__sncast_script_lib"@
}

/// The name of the file that holds a package's Sierra program.
pub fn sierra_file_name(package_name: &str) -> (file_name: String)
    ensures
        file_name@ == package_name@ + ".sierra.json"@,
{
    String::from_str(package_name).concat(".sierra.json")
}

/// A copy of the artifacts.
pub fn copy_artifacts(list: &Vec<NamedArtifacts>) -> (copy: Vec<NamedArtifacts>)
    ensures
        copy@.len() == list@.len(),
        forall|k: int|
            0 <= k < list@.len() ==> (#[trigger] copy@[k]).name@ == list@[k].name@
                && copy@[k].artifacts@ == list@[k].artifacts@,
        artifact_map(copy@) == artifact_map(list@),
{
    let mut copy: Vec<NamedArtifacts> = Vec::new();
    let mut i: usize = 0;
    assert(list@.take(0) =~= Seq::<NamedArtifacts>::empty());
    while i < list.len()
        invariant
            i <= list.len(),
            copy@.len() == i,
            forall|k: int|
                0 <= k < i ==> (#[trigger] copy@[k]).name@ == list@[k].name@
                    && copy@[k].artifacts@ == list@[k].artifacts@,
            artifact_map(copy@) == artifact_map(list@.take(i as int)),
        decreases list.len() - i,
    {
        let ghost before = copy@;
        copy.push(
            NamedArtifacts {
                name: list[i].name.clone(),
                artifacts: StarknetContractArtifacts {
                    sierra: list[i].artifacts.sierra.clone(),
                    casm: list[i].artifacts.casm.clone(),
                },
            },
        );
        proof {
            assert(copy@.drop_last() =~= before);
            assert(list@.take(i + 1).drop_last() =~= list@.take(i as int));
        }
        i = i + 1;
    }
    assert(list@.take(list.len() as int) =~= list@);
    copy
}

/// Puts the script's own artifact among the artifacts, under its name and
/// in place of what was there, and hands back a copy of them all. The
/// script has a Sierra program and no CASM.
pub fn inject_lib_artifact(artifacts: &mut Vec<NamedArtifacts>, sierra: String) -> (copy: Vec<
    NamedArtifacts,
>)
    ensures
        final(artifacts)@.len() == old(artifacts)@.len() + 1,
        final(artifacts)@.drop_last() == old(artifacts)@,
        final(artifacts)@.last().name@ == script_lib_artifact_name(),
        final(artifacts)@.last().artifacts@ == (ArtifactsView {
            sierra: sierra@,
            casm: Seq::empty(),
        }),
        artifact_map(final(artifacts)@) == artifact_map(old(artifacts)@).insert(
            script_lib_artifact_name(),
            ArtifactsView { sierra: sierra@, casm: Seq::empty() },
        ),
        copy@.len() == final(artifacts)@.len(),
        forall|k: int|
            0 <= k < copy@.len() ==> (#[trigger] copy@[k]).name@ == final(artifacts)@[k].name@
                && copy@[k].artifacts@ == final(artifacts)@[k].artifacts@,
        artifact_map(copy@) == artifact_map(final(artifacts)@),
{
    let ghost before = artifacts@;
    artifacts.push(
        NamedArtifacts {
            name: String::from_str("__sncast_script_lib"),
            artifacts: StarknetContractArtifacts { sierra, casm: String::new() },
        },
    );
    assert(artifacts@.drop_last() =~= before);
    copy_artifacts(artifacts)
}

/// The artifacts under a name, if there are any: the place of the last
/// that have the name.
pub fn find_artifact(list: &Vec<NamedArtifacts>, name: &str) -> (found: Option<usize>)
    ensures
        found is Some <==> artifact_map(list@).contains_key(name@),
        found matches Some(at) ==> {
            &&& at < list.len()
            &&& list@[at as int].name@ == name@
            &&& forall|j: int| at < j < list.len() ==> list@[j].name@ != name@
            &&& artifact_map(list@)[name@] == list@[at as int].artifacts@
        },
{
    let wanted = String::from_str(name);
    let mut i: usize = list.len();
    while i > 0
        invariant
            i <= list.len(),
            wanted@ == name@,
            forall|j: int| i <= j < list.len() ==> list@[j].name@ != name@,
        decreases i,
    {
        i = i - 1;
        if list[i].name == wanted {
            proof {
                lemma_artifact_map_at(list@, name@, i as int);
            }
            return Some(i);
        }
    }
    proof {
        lemma_artifact_map_absent(list@, name@);
    }
    None
}

proof fn lemma_artifact_map_at(list: Seq<NamedArtifacts>, name: Seq<char>, at: int)
    requires
        0 <= at < list.len(),
        list[at].name@ == name,
        forall|j: int| at < j < list.len() ==> list[j].name@ != name,
    ensures
        artifact_map(list).contains_key(name),
        artifact_map(list)[name] == list[at].artifacts@,
    decreases list.len(),
{
    if at < list.len() - 1 {
        lemma_artifact_map_at(list.drop_last(), name, at);
    }
}

proof fn lemma_artifact_map_absent(list: Seq<NamedArtifacts>, name: Seq<char>)
    requires
        forall|j: int| 0 <= j < list.len() ==> list[j].name@ != name,
    ensures
        !artifact_map(list).contains_key(name),
    decreases list.len(),
{
    if list.len() > 0 {
        lemma_artifact_map_absent(list.drop_last(), name);
    }
}

} // verus!
